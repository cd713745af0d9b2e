use vstd::prelude::*;

verus! {

/// An opaque, fixed-size (256-bit) content identifier for a submitted
/// transaction, held as four 64-bit words. Immutable once created; equality is
/// exact equality of all four words.
#[derive(PartialEq, Eq, Structural, Clone, Copy, Debug)]
pub struct TransactionIdentifier {
    pub w0: u64,
    pub w1: u64,
    pub w2: u64,
    pub w3: u64,
}

impl TransactionIdentifier {
    pub fn new(w0: u64, w1: u64, w2: u64, w3: u64) -> (id: Self)
        ensures
            id == (TransactionIdentifier { w0, w1, w2, w3 }),
    {
        TransactionIdentifier { w0, w1, w2, w3 }
    }

    /// Convenience constructor for identifiers whose value fits one word.
    pub fn from_word(w: u64) -> (id: Self)
        ensures
            id == (TransactionIdentifier { w0: w, w1: 0, w2: 0, w3: 0 }),
    {
        TransactionIdentifier { w0: w, w1: 0, w2: 0, w3: 0 }
    }
}

} // verus!
