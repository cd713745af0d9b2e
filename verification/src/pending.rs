use vstd::prelude::*;

use crate::digest::TransactionIdentifier;

verus! {

broadcast use {vstd::seq_lib::group_seq_properties, Seq::lemma_push_to_set_commute};

/// The mutable set of outstanding transaction identifiers the watcher is still
/// waiting to observe. Constructed from caller input (duplicates collapse),
/// shrinks monotonically as matches are observed; emptiness is the success
/// terminal condition. Viewed as the set of its members; no ordering is
/// guaranteed or relied on.
pub struct PendingDigestSet {
    items: Vec<TransactionIdentifier>,
}

impl View for PendingDigestSet {
    type V = Set<TransactionIdentifier>;

    closed spec fn view(&self) -> Set<TransactionIdentifier> {
        self.items@.to_set()
    }
}

/// Linear membership scan over the backing vector.
fn vec_contains(items: &Vec<TransactionIdentifier>, id: &TransactionIdentifier) -> (r: bool)
    ensures
        r == items@.contains(*id),
{
    let mut i: usize = 0;
    while i < items.len()
        invariant
            i <= items.len(),
            forall|k: int| 0 <= k < i ==> items@[k] != *id,
        decreases items.len() - i,
    {
        if items[i] == *id {
            return true;
        }
        i += 1;
    }
    false
}

impl PendingDigestSet {
    /// Build the pending set from the caller-supplied identifiers; duplicates
    /// collapse to set semantics.
    pub fn new(ids: &Vec<TransactionIdentifier>) -> (s: Self)
        ensures
            s@ == ids@.to_set(),
    {
        let mut items: Vec<TransactionIdentifier> = Vec::new();
        let mut i: usize = 0;
        while i < ids.len()
            invariant
                i <= ids.len(),
                items@.to_set() == ids@.take(i as int).to_set(),
            decreases ids.len() - i,
        {
            let ghost seen = ids@.take(i as int);
            let ghost e = ids@[i as int];
            proof {
                assert(ids@.take(i + 1) =~= seen.push(e));
            }
            if !vec_contains(&items, &ids[i]) {
                items.push(ids[i]);
            } else {
                proof {
                    assert(seen.to_set().insert(e) =~= seen.to_set());
                }
            }
            i += 1;
        }
        proof {
            assert(ids@.take(ids@.len() as int) =~= ids@);
        }
        PendingDigestSet { items }
    }

    /// Record one observed transaction notification: remove `id` if present.
    /// Removal is idempotent — observing an identifier that is absent (already
    /// satisfied, or never watched) is a no-op, not an error. The returned
    /// flag says whether the identifier was present, for logging and metrics
    /// only, not for control flow.
    pub fn observe(&mut self, id: &TransactionIdentifier) -> (was_present: bool)
        ensures
            final(self)@ == old(self)@.remove(*id),
            was_present == old(self)@.contains(*id),
    {
        let mut kept: Vec<TransactionIdentifier> = Vec::new();
        let mut found = false;
        let mut i: usize = 0;
        while i < self.items.len()
            invariant
                i <= self.items.len(),
                kept@.to_set() == self.items@.take(i as int).to_set().remove(*id),
                found == self.items@.take(i as int).contains(*id),
            decreases self.items.len() - i,
        {
            let ghost seen = self.items@.take(i as int);
            let ghost e = self.items@[i as int];
            proof {
                assert(self.items@.take(i + 1) =~= seen.push(e));
            }
            if self.items[i] == *id {
                found = true;
                proof {
                    assert(self.items@.take(i + 1).last() == *id);
                    assert(seen.to_set().insert(e).remove(*id) =~= seen.to_set().remove(*id));
                }
            } else {
                kept.push(self.items[i]);
                proof {
                    assert(seen.to_set().remove(*id).insert(e) =~= seen.to_set().insert(e).remove(
                        *id,
                    ));
                }
            }
            i += 1;
        }
        proof {
            assert(self.items@.take(self.items@.len() as int) =~= self.items@);
        }
        self.items = kept;
        found
    }

    /// The success predicate: no identifier is still outstanding.
    pub fn is_empty(&self) -> (r: bool)
        ensures
            r == self@.is_empty(),
    {
        proof {
            if self.items@.len() > 0 {
                assert(self.items@.contains(self.items@[0]));
                assert(self@.contains(self.items@[0]));
            } else {
                assert(self@ =~= Set::<TransactionIdentifier>::empty());
            }
        }
        self.items.len() == 0
    }

    /// The identifiers still outstanding, for reporting a timeout to the
    /// caller. Carries exactly the members of the set.
    pub fn remaining(&self) -> (v: Vec<TransactionIdentifier>)
        ensures
            v@.to_set() == self@,
    {
        let mut v: Vec<TransactionIdentifier> = Vec::new();
        let mut i: usize = 0;
        while i < self.items.len()
            invariant
                i <= self.items.len(),
                v@ == self.items@.take(i as int),
            decreases self.items.len() - i,
        {
            proof {
                assert(self.items@.take(i + 1) =~= self.items@.take(i as int).push(
                    self.items@[i as int],
                ));
            }
            v.push(self.items[i]);
            i += 1;
        }
        proof {
            assert(self.items@.take(self.items@.len() as int) =~= self.items@);
        }
        v
    }
}

/// Idempotent satisfaction: observing the same identifier twice leaves the
/// pending set exactly where the first observation left it — the second
/// observation finds the identifier absent, removes nothing, and the set's
/// size only ever decreases or stays equal, never increases.
pub proof fn lemma_observe_idempotent(pending: Set<TransactionIdentifier>, id: TransactionIdentifier)
    ensures
        pending.remove(id).remove(id) == pending.remove(id),
        !pending.remove(id).contains(id),
        pending.finite() ==> pending.remove(id).len() <= pending.len(),
{
    assert(pending.remove(id).remove(id) =~= pending.remove(id));
    if pending.finite() {
        if pending.contains(id) {
            assert(pending.remove(id).len() == pending.len() - 1);
        } else {
            assert(pending.remove(id) =~= pending);
        }
    }
}

} // verus!
