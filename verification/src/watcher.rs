use vstd::prelude::*;

use crate::cursor::{advanced, cursor_le, lemma_advance_monotonic, lemma_cursor_le_trans,
    SequenceCursor};
use crate::digest::TransactionIdentifier;
use crate::pending::PendingDigestSet;

verus! {

/// A fatal fault reported by the stream source. Natural end of a window is
/// not an error and has no place here.
#[derive(PartialEq, Eq, Structural, Clone, Copy, Debug)]
pub enum StreamError {
    /// The transport dropped mid-stream.
    ConnectionLost,
    /// A fresh open or reopen could not be established.
    ConnectionRefused,
}

/// One item of the authority's batch notification stream.
#[derive(PartialEq, Eq, Structural, Clone, Copy, Debug)]
pub enum ResponseItem {
    /// A batch boundary: everything up to `next_offset` has been delivered,
    /// and the next read should resume from there.
    Batch { next_offset: u64 },
    /// One confirmed transaction at `offset`.
    Transaction { offset: u64, id: TransactionIdentifier },
}

/// One event at a suspension point of the watch: whichever of the stream and
/// the deadline timer fired first, as the driver saw it.
#[derive(PartialEq, Eq, Structural, Clone, Copy, Debug)]
pub enum StreamEvent {
    /// The stream yielded an item.
    Item(ResponseItem),
    /// The stream yielded a fatal error, or an open could not be established.
    Error(StreamError),
    /// The current window ended benignly: no more items right now, reopen at
    /// the cursor to read on.
    End,
    /// The overall deadline fired before the stream yielded.
    DeadlineExpired,
}

/// Why a watch ended without confirming every identifier.
#[derive(Debug)]
pub enum WatchError {
    /// The deadline elapsed; `remaining` are the identifiers still
    /// unconfirmed, so the caller can tell "nothing happened" from
    /// "partially confirmed".
    TimedOut { remaining: Vec<TransactionIdentifier> },
    /// The stream failed; the watch is abandoned without retry.
    StreamFailed { cause: StreamError },
}

/// What the driver must do after handing one event to the state machine.
#[derive(Debug)]
pub enum StepResult {
    /// Keep pulling from the current window.
    Continue,
    /// The window ended benignly: reopen the stream at the cursor's current
    /// offset and keep pulling from the fresh window.
    Reopen,
    /// The watch is over; this is its one terminal outcome.
    Done(Result<(), WatchError>),
}

/// The in-memory state of one watch operation: the resume cursor and the
/// outstanding identifiers. Created fresh per watch call, discarded on any
/// terminal outcome.
pub struct WatcherState {
    pub cursor: SequenceCursor,
    pub pending: PendingDigestSet,
}

impl WatcherState {
    /// Fresh state for one watch over `ids`: cursor at the beginning of the
    /// log, every identifier outstanding.
    pub fn new(ids: &Vec<TransactionIdentifier>) -> (s: Self)
        ensures
            s.cursor@ == Option::<u64>::None,
            s.pending@ == ids@.to_set(),
    {
        WatcherState { cursor: SequenceCursor::new(), pending: PendingDigestSet::new(ids) }
    }
}

/// The abstract state of a run: still streaming, or in one of the three
/// terminal outcomes.
pub enum RunState {
    Running { cursor: Option<u64>, pending: Set<TransactionIdentifier> },
    Satisfied,
    TimedOut { remaining: Set<TransactionIdentifier> },
    Failed { cause: StreamError },
}

/// One transition of the watcher state machine: from a streaming state and an
/// event to the next state.
pub open spec fn spec_step(
    cursor: Option<u64>,
    pending: Set<TransactionIdentifier>,
    event: StreamEvent,
) -> RunState {
    match event {
        StreamEvent::DeadlineExpired => RunState::TimedOut { remaining: pending },
        StreamEvent::Error(cause) => RunState::Failed { cause },
        StreamEvent::End => RunState::Running { cursor, pending },
        StreamEvent::Item(ResponseItem::Batch { next_offset }) => RunState::Running {
            cursor: advanced(cursor, next_offset),
            pending,
        },
        StreamEvent::Item(ResponseItem::Transaction { offset: _, id }) => {
            let shrunk = pending.remove(id);
            if shrunk.is_empty() {
                RunState::Satisfied
            } else {
                RunState::Running { cursor, pending: shrunk }
            }
        },
    }
}

/// A whole run of the watcher state machine over a sequence of events,
/// stopping at the first terminal outcome. If the events run out first, the
/// run is still `Running`: the driver has more events to deliver.
pub open spec fn spec_run(
    cursor: Option<u64>,
    pending: Set<TransactionIdentifier>,
    events: Seq<StreamEvent>,
) -> RunState
    decreases events.len(),
{
    if events.len() == 0 {
        RunState::Running { cursor, pending }
    } else {
        match spec_step(cursor, pending, events[0]) {
            RunState::Running { cursor: c, pending: p } => spec_run(c, p, events.skip(1)),
            r => r,
        }
    }
}

/// Feed one event to the watcher. Exactly the transition relation of the
/// state machine: a batch boundary advances the cursor, a transaction
/// notification shrinks the pending set (satisfaction ends the watch), a
/// benign end of window asks the driver to reopen, an error or the deadline
/// ends the watch.
pub fn step(state: &mut WatcherState, event: StreamEvent) -> (r: StepResult)
    ensures
        match spec_step(old(state).cursor@, old(state).pending@, event) {
            RunState::Running { cursor, pending } => {
                &&& final(state).cursor@ == cursor
                &&& final(state).pending@ == pending
                &&& if event is End {
                    r is Reopen
                } else {
                    r is Continue
                }
            },
            RunState::Satisfied => {
                &&& r == StepResult::Done(Result::<(), WatchError>::Ok(()))
                &&& final(state).cursor@ == old(state).cursor@
                &&& final(state).pending@.is_empty()
            },
            RunState::TimedOut { remaining } => {
                &&& (r matches StepResult::Done(res) && (res matches Result::Err(
                    WatchError::TimedOut { remaining: rem },
                ) && rem@.to_set() == remaining))
                &&& final(state).cursor@ == old(state).cursor@
                &&& final(state).pending@ == old(state).pending@
            },
            RunState::Failed { cause } => {
                &&& r == StepResult::Done(
                    Result::<(), WatchError>::Err(WatchError::StreamFailed { cause }),
                )
                &&& final(state).cursor@ == old(state).cursor@
                &&& final(state).pending@ == old(state).pending@
            },
        },
{
    match event {
        StreamEvent::DeadlineExpired => {
            let remaining = state.pending.remaining();
            StepResult::Done(Result::Err(WatchError::TimedOut { remaining }))
        },
        StreamEvent::Error(cause) => {
            StepResult::Done(Result::Err(WatchError::StreamFailed { cause }))
        },
        StreamEvent::End => StepResult::Reopen,
        StreamEvent::Item(ResponseItem::Batch { next_offset }) => {
            state.cursor.advance(next_offset);
            StepResult::Continue
        },
        StreamEvent::Item(ResponseItem::Transaction { offset: _, id }) => {
            let _was_present = state.pending.observe(&id);
            if state.pending.is_empty() {
                StepResult::Done(Result::Ok(()))
            } else {
                StepResult::Continue
            }
        },
    }
}

/// Run a whole watch over a fixed sequence of events: the deterministic form
/// of the watch call, with the stream and the deadline timer already resolved
/// into the order in which they fired. Returns the terminal outcome, or
/// `None` if the events ran out before any terminal state was reached (a
/// driver must then deliver more events — at the latest, the deadline).
pub fn watch_events(ids: &Vec<TransactionIdentifier>, events: &Vec<StreamEvent>) -> (r: Option<
    Result<(), WatchError>,
>)
    ensures
        match spec_run(Option::<u64>::None, ids@.to_set(), events@) {
            RunState::Running { .. } => r is None,
            RunState::Satisfied => r == Option::Some(Result::<(), WatchError>::Ok(())),
            RunState::TimedOut { remaining } => (r matches Option::Some(Result::Err(
                WatchError::TimedOut { remaining: rem },
            )) && rem@.to_set() == remaining),
            RunState::Failed { cause } => r == Option::Some(
                Result::<(), WatchError>::Err(WatchError::StreamFailed { cause }),
            ),
        },
{
    let ghost whole = spec_run(Option::<u64>::None, ids@.to_set(), events@);
    let mut state = WatcherState::new(ids);
    let mut i: usize = 0;
    proof {
        assert(events@.skip(0) =~= events@);
    }
    while i < events.len()
        invariant
            i <= events.len(),
            spec_run(state.cursor@, state.pending@, events@.skip(i as int)) == whole,
            whole == spec_run(Option::<u64>::None, ids@.to_set(), events@),
        decreases events.len() - i,
    {
        proof {
            assert(events@.skip(i as int)[0] == events@[i as int]);
            assert(events@.skip(i as int).skip(1) =~= events@.skip(i + 1));
        }
        match step(&mut state, events[i]) {
            StepResult::Continue => {},
            StepResult::Reopen => {},
            StepResult::Done(res) => {
                return Option::Some(res);
            },
        }
        i += 1;
    }
    proof {
        assert(events@.skip(events@.len() as int) =~= Seq::<StreamEvent>::empty());
    }
    Option::None
}

/// The single-identifier convenience form: a direct specialization of
/// `watch_events` to a one-element identifier set.
pub fn watch_single(id: &TransactionIdentifier, events: &Vec<StreamEvent>) -> (r: Option<
    Result<(), WatchError>,
>)
    ensures
        match spec_run(
            Option::<u64>::None,
            Set::<TransactionIdentifier>::empty().insert(*id),
            events@,
        ) {
            RunState::Running { .. } => r is None,
            RunState::Satisfied => r == Option::Some(Result::<(), WatchError>::Ok(())),
            RunState::TimedOut { remaining } => (r matches Option::Some(Result::Err(
                WatchError::TimedOut { remaining: rem },
            )) && rem@.to_set() == remaining),
            RunState::Failed { cause } => r == Option::Some(
                Result::<(), WatchError>::Err(WatchError::StreamFailed { cause }),
            ),
        },
{
    let mut ids: Vec<TransactionIdentifier> = Vec::new();
    ids.push(*id);
    proof {
        assert(ids@[0] == *id);
        assert forall|x: TransactionIdentifier| ids@.contains(x) implies x == *id by {
            let k = choose|k: int| 0 <= k < ids@.len() && ids@[k] == x;
        }
        assert(ids@.to_set() =~= Set::<TransactionIdentifier>::empty().insert(*id));
    }
    watch_events(&ids, events)
}

/// Termination exclusivity: a watch whose driver delivers the deadline as a
/// last resort reaches exactly one of the three terminal outcomes — never
/// none, and, the run stopping at its first terminal state, never two.
pub proof fn lemma_terminal_exclusive(
    cursor: Option<u64>,
    pending: Set<TransactionIdentifier>,
    events: Seq<StreamEvent>,
)
    requires
        exists|i: int| 0 <= i < events.len() && events[i] is DeadlineExpired,
    ensures
        ({
            let r = spec_run(cursor, pending, events);
            (if r is Satisfied {
                1int
            } else {
                0int
            }) + (if r is TimedOut {
                1int
            } else {
                0int
            }) + (if r is Failed {
                1int
            } else {
                0int
            }) == 1
        }),
{
    lemma_run_terminates(cursor, pending, events);
}

/// A run whose events include the deadline firing cannot still be running at
/// the end: some terminal state is reached no later than the deadline event.
pub proof fn lemma_run_terminates(
    cursor: Option<u64>,
    pending: Set<TransactionIdentifier>,
    events: Seq<StreamEvent>,
)
    requires
        exists|i: int| 0 <= i < events.len() && events[i] is DeadlineExpired,
    ensures
        !(spec_run(cursor, pending, events) is Running),
    decreases events.len(),
{
    let i = choose|i: int| 0 <= i < events.len() && events[i] is DeadlineExpired;
    match spec_step(cursor, pending, events[0]) {
        RunState::Running { cursor: c2, pending: p2 } => {
            assert(i != 0);
            assert(events.skip(1)[i - 1] == events[i]);
            lemma_run_terminates(c2, p2, events.skip(1));
        },
        _ => {},
    }
}

/// Deadline honored: once the deadline fires, the run is over — whatever
/// events would have followed (more windows, more reopens, more items) are
/// never consulted, and some terminal state is reached no later than the
/// deadline event.
pub proof fn lemma_deadline_honored(
    cursor: Option<u64>,
    pending: Set<TransactionIdentifier>,
    before: Seq<StreamEvent>,
    after: Seq<StreamEvent>,
)
    ensures
        spec_run(cursor, pending, before.push(StreamEvent::DeadlineExpired) + after) == spec_run(
            cursor,
            pending,
            before.push(StreamEvent::DeadlineExpired),
        ),
        !(spec_run(cursor, pending, before.push(StreamEvent::DeadlineExpired)) is Running),
    decreases before.len(),
{
    let capped = before.push(StreamEvent::DeadlineExpired);
    let whole = capped + after;
    assert(capped[capped.len() - 1] is DeadlineExpired);
    lemma_run_terminates(cursor, pending, capped);
    if before.len() == 0 {
        assert(whole[0] == StreamEvent::DeadlineExpired);
    } else {
        assert(whole[0] == before[0]);
        assert(capped[0] == before[0]);
        match spec_step(cursor, pending, before[0]) {
            RunState::Running { cursor: c2, pending: p2 } => {
                assert(whole.skip(1) =~= before.skip(1).push(StreamEvent::DeadlineExpired)
                    + after);
                assert(capped.skip(1) =~= before.skip(1).push(StreamEvent::DeadlineExpired));
                lemma_deadline_honored(c2, p2, before.skip(1), after);
            },
            _ => {},
        }
    }
}

/// Reopen transparency: a benign end of window is invisible to the outcome.
/// Running a window, seeing it end, and reading the rest from the reopened
/// stream is exactly running the two windows' items back to back — the reopen
/// neither loses identifiers nor counts one twice.
pub proof fn lemma_reopen_transparent(
    cursor: Option<u64>,
    pending: Set<TransactionIdentifier>,
    window: Seq<StreamEvent>,
    rest: Seq<StreamEvent>,
)
    ensures
        spec_run(cursor, pending, window.push(StreamEvent::End) + rest) == spec_run(
            cursor,
            pending,
            window + rest,
        ),
    decreases window.len(),
{
    let with_end = window.push(StreamEvent::End) + rest;
    let joined = window + rest;
    if window.len() == 0 {
        assert(with_end[0] == StreamEvent::End);
        assert(with_end.skip(1) =~= rest);
        assert(joined =~= rest);
    } else {
        assert(with_end[0] == window[0]);
        assert(joined[0] == window[0]);
        match spec_step(cursor, pending, window[0]) {
            RunState::Running { cursor: c2, pending: p2 } => {
                assert(with_end.skip(1) =~= window.skip(1).push(StreamEvent::End) + rest);
                assert(joined.skip(1) =~= window.skip(1) + rest);
                lemma_reopen_transparent(c2, p2, window.skip(1), rest);
            },
            _ => {},
        }
    }
}

/// Along any run the cursor never regresses and the pending set never grows:
/// every intermediate state's cursor is at or above the initial one, its
/// pending set is a subset of the initial one, and a timeout reports a subset
/// of the initially watched identifiers.
pub proof fn lemma_run_monotonic(
    cursor: Option<u64>,
    pending: Set<TransactionIdentifier>,
    events: Seq<StreamEvent>,
)
    ensures
        ({
            let r = spec_run(cursor, pending, events);
            &&& (r matches RunState::Running { cursor: c2, pending: p2 } ==> cursor_le(cursor, c2)
                && p2.subset_of(pending))
            &&& (r matches RunState::TimedOut { remaining } ==> remaining.subset_of(pending))
        }),
    decreases events.len(),
{
    if events.len() > 0 {
        match spec_step(cursor, pending, events[0]) {
            RunState::Running { cursor: c2, pending: p2 } => {
                match events[0] {
                    StreamEvent::Item(ResponseItem::Batch { next_offset }) => {
                        lemma_advance_monotonic(cursor, next_offset);
                    },
                    _ => {},
                }
                lemma_run_monotonic(c2, p2, events.skip(1));
                match spec_run(c2, p2, events.skip(1)) {
                    RunState::Running { cursor: c3, pending: p3 } => {
                        lemma_cursor_le_trans(cursor, c2, c3);
                    },
                    _ => {},
                }
            },
            _ => {},
        }
    }
}

} // verus!

