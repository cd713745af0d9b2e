//! Transaction confirmation watcher.
//!
//! A client submits a set of transaction identifiers to a ledger authority and
//! then needs to know when every one of them has been durably recorded. The
//! authority exposes its confirmations as an append-only notification log,
//! served in bounded windows: a stream of items that ends benignly whenever the
//! current window closes and must be reopened at the last confirmed offset.
//!
//! This crate verifies the logic of that wait: a resume cursor that never
//! regresses, a pending set whose removal is idempotent (so replayed
//! notifications at a reopen boundary are harmless), and a state machine that
//! turns each stream event into exactly one decision, terminating exactly once
//! in success, timeout, or failure. The surrounding I/O (real streams, real
//! timers) stays outside; it feeds events in and performs the actions the
//! machine asks for.

pub mod cursor;
pub mod digest;
pub mod pending;
pub mod watcher;
