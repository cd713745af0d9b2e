use vstd::prelude::*;

verus! {

/// Ordering on resume points: `None` ("from the beginning") is below every
/// concrete offset, and concrete offsets compare as integers.
pub open spec fn cursor_le(a: Option<u64>, b: Option<u64>) -> bool {
    match a {
        Option::None => true,
        Option::Some(x) => match b {
            Option::None => false,
            Option::Some(y) => x <= y,
        },
    }
}

/// The resume point after one batch boundary at `offset`: the cursor moves up
/// to `offset`, and never down.
pub open spec fn advanced(cur: Option<u64>, offset: u64) -> Option<u64> {
    match cur {
        Option::None => Option::Some(offset),
        Option::Some(o) => Option::Some(if offset > o { offset } else { o }),
    }
}

/// The resume point after a whole sequence of batch boundaries, processed in
/// delivery order.
pub open spec fn advanced_all(cur: Option<u64>, offsets: Seq<u64>) -> Option<u64>
    decreases offsets.len(),
{
    if offsets.len() == 0 {
        cur
    } else {
        advanced_all(advanced(cur, offsets[0]), offsets.skip(1))
    }
}

/// Tracks the last confirmed logical offset of the authority's append-only
/// notification log: the position a fresh stream open should resume from.
/// `None` means "from the beginning". The cursor never decreases.
pub struct SequenceCursor {
    start: Option<u64>,
}

impl View for SequenceCursor {
    type V = Option<u64>;

    closed spec fn view(&self) -> Option<u64> {
        self.start
    }
}

impl SequenceCursor {
    /// A cursor positioned at the beginning of the log.
    pub fn new() -> (c: Self)
        ensures
            c@ == Option::<u64>::None,
    {
        SequenceCursor { start: Option::None }
    }

    /// The resume point for the next stream open.
    pub fn current(&self) -> (r: Option<u64>)
        ensures
            r == self@,
    {
        self.start
    }

    /// Record a batch boundary: move the cursor up to `offset`. A boundary at
    /// or below the current position (a benign replay after a reopen) leaves
    /// the cursor where it is, so the cursor never decreases.
    pub fn advance(&mut self, offset: u64)
        ensures
            final(self)@ == advanced(old(self)@, offset),
    {
        match self.start {
            Option::None => {
                self.start = Option::Some(offset);
            }
            Option::Some(o) => {
                if offset > o {
                    self.start = Option::Some(offset);
                }
            }
        }
    }
}

/// `cursor_le` is transitive.
pub proof fn lemma_cursor_le_trans(a: Option<u64>, b: Option<u64>, c: Option<u64>)
    requires
        cursor_le(a, b),
        cursor_le(b, c),
    ensures
        cursor_le(a, c),
{
}

/// Monotonic cursor, single step: one batch boundary never moves the cursor
/// down, whatever offset the authority hands over.
pub proof fn lemma_advance_monotonic(cur: Option<u64>, offset: u64)
    ensures
        cursor_le(cur, advanced(cur, offset)),
{
}

/// Monotonic cursor, whole run: a sequence of batch boundaries, in any order
/// and with any duplicates, never moves the cursor down.
pub proof fn lemma_advanced_all_monotonic(cur: Option<u64>, offsets: Seq<u64>)
    ensures
        cursor_le(cur, advanced_all(cur, offsets)),
    decreases offsets.len(),
{
    if offsets.len() > 0 {
        lemma_advance_monotonic(cur, offsets[0]);
        lemma_advanced_all_monotonic(advanced(cur, offsets[0]), offsets.skip(1));
        lemma_cursor_le_trans(cur, advanced(cur, offsets[0]), advanced_all(cur, offsets));
    }
}

/// The cursor after processing a sequence of batch boundaries is the maximum
/// position seen: it is at or above the initial position and every processed
/// offset, and it is nothing other than one of those.
pub proof fn lemma_advanced_all_is_max(cur: Option<u64>, offsets: Seq<u64>)
    ensures
        cursor_le(cur, advanced_all(cur, offsets)),
        forall|i: int|
            0 <= i < offsets.len() ==> cursor_le(
                Option::Some(offsets[i]),
                advanced_all(cur, offsets),
            ),
        advanced_all(cur, offsets) == cur || exists|i: int|
            0 <= i < offsets.len() && advanced_all(cur, offsets) == Option::Some(offsets[i]),
    decreases offsets.len(),
{
    lemma_advanced_all_monotonic(cur, offsets);
    if offsets.len() > 0 {
        let stepped = advanced(cur, offsets[0]);
        lemma_advanced_all_is_max(stepped, offsets.skip(1));
        assert forall|i: int| 0 <= i < offsets.len() implies cursor_le(
            Option::Some(offsets[i]),
            advanced_all(cur, offsets),
        ) by {
            if i == 0 {
                lemma_advanced_all_monotonic(stepped, offsets.skip(1));
                lemma_cursor_le_trans(
                    Option::Some(offsets[0]),
                    stepped,
                    advanced_all(stepped, offsets.skip(1)),
                );
            } else {
                assert(offsets.skip(1)[i - 1] == offsets[i]);
            }
        }
        if advanced_all(stepped, offsets.skip(1)) == stepped {
            if stepped != cur {
                assert(advanced_all(cur, offsets) == Option::Some(offsets[0]));
            }
        } else {
            let j = choose|j: int|
                0 <= j < offsets.skip(1).len() && advanced_all(stepped, offsets.skip(1))
                    == Option::Some(offsets.skip(1)[j]);
            assert(offsets.skip(1)[j] == offsets[j + 1]);
        }
    }
}

/// Monotonic cursor, sorted case: when the authority's offsets arrive in
/// non-decreasing order, the cursor starting from the beginning of the log
/// ends exactly at the last (largest) offset.
pub proof fn lemma_advanced_all_sorted(offsets: Seq<u64>)
    requires
        offsets.len() > 0,
        forall|i: int, j: int| 0 <= i <= j < offsets.len() ==> offsets[i] <= offsets[j],
    ensures
        advanced_all(Option::None, offsets) == Option::Some(offsets.last()),
{
    lemma_advanced_all_is_max(Option::None, offsets);
    let r = advanced_all(Option::None, offsets);
    assert(cursor_le(Option::Some(offsets.last()), r));
    let i = choose|i: int| 0 <= i < offsets.len() && r == Option::Some(offsets[i]);
    assert(offsets[i] <= offsets[offsets.len() - 1]);
}

} // verus!
