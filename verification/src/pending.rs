//! The pending-request table: request id to single-shot reply slot.
//!
//! `take` is atomic and idempotent: at most one caller retrieves the slot,
//! every later `take` of the same id observes nothing. A reply arriving for
//! an unknown or already-taken request id is therefore discarded upstream.
use vstd::prelude::*;
use crate::assoc::{assoc_map, unique_keys, lemma_assoc_contains, lemma_assoc_value,
    lemma_assoc_remove, lemma_assoc_update, lemma_assoc_push, lemma_assoc_len};

verus! {

/// Reply slots keyed by request id; the slot type is the caller's.
pub struct PendingTable<S> {
    entries: Vec<(String, S)>,
}

impl<S> View for PendingTable<S> {
    type V = Map<Seq<char>, S>;

    closed spec fn view(&self) -> Map<Seq<char>, S> {
        assoc_map(self.entries@)
    }
}

impl<S> PendingTable<S> {
    /// Pairwise distinct request ids; every operation keeps it.
    pub closed spec fn wf(&self) -> bool {
        unique_keys(self.entries@)
    }

    /// An empty table.
    pub fn new() -> (r: PendingTable<S>)
        ensures
            r.wf(),
            r@ == Map::<Seq<char>, S>::empty(),
    {
        PendingTable { entries: Vec::new() }
    }

    fn find(&self, request_id: &String) -> (r: Option<usize>)
        ensures
            match r {
                Some(i) => i < self.entries@.len() && self.entries@[i as int].0@ == request_id@,
                None => forall|j: int|
                    0 <= j < self.entries@.len() ==> (#[trigger] self.entries@[j]).0@
                        != request_id@,
            },
    {
        let mut i: usize = 0;
        while i < self.entries.len()
            invariant
                i <= self.entries@.len(),
                forall|j: int| 0 <= j < i ==> (#[trigger] self.entries@[j]).0@ != request_id@,
            decreases self.entries@.len() - i,
        {
            if self.entries[i].0.eq(request_id) {
                return Some(i);
            }
            i = i + 1;
        }
        None
    }

    /// Files a reply slot under a request id; a reused id replaces the
    /// earlier slot.
    pub fn insert(&mut self, request_id: &String, tx: S)
        requires
            old(self).wf(),
        ensures
            final(self).wf(),
            final(self)@ == old(self)@.insert(request_id@, tx),
    {
        let key = request_id.clone();
        let ghost newp = (key, tx);
        match self.find(request_id) {
            Some(i) => {
                proof {
                    lemma_assoc_update(self.entries@, i as int, newp);
                }
                let _ = self.entries.remove(i);
                self.entries.insert(i, (key, tx));
                proof {
                    assert(self.entries@ =~= old(self).entries@.update(i as int, newp));
                }
            },
            None => {
                proof {
                    lemma_assoc_push(self.entries@, newp);
                }
                self.entries.push((key, tx));
            },
        }
    }

    /// Removes and returns the slot filed under a request id, if any caller
    /// has not taken it yet.
    pub fn take(&mut self, request_id: &String) -> (r: Option<S>)
        requires
            old(self).wf(),
        ensures
            final(self).wf(),
            final(self)@ == old(self)@.remove(request_id@),
            match r {
                Some(tx) => old(self)@.contains_key(request_id@) && tx == old(
                    self,
                )@[request_id@],
                None => !old(self)@.contains_key(request_id@),
            },
    {
        match self.find(request_id) {
            Some(i) => {
                proof {
                    lemma_assoc_value(self.entries@, i as int);
                    lemma_assoc_remove(self.entries@, i as int);
                }
                let p = self.entries.remove(i);
                Some(p.1)
            },
            None => {
                proof {
                    lemma_assoc_contains(self.entries@, request_id@);
                    assert(old(self)@.remove(request_id@) =~= old(self)@);
                }
                None
            },
        }
    }

    /// How many requests are in flight.
    pub fn len(&self) -> (r: usize)
        requires
            self.wf(),
        ensures
            r == self@.dom().len(),
    {
        proof {
            lemma_assoc_len(self.entries@);
        }
        self.entries.len()
    }
}

/// What one `take` does to the table it sees: the slot comes out exactly
/// when the id is present, and the id is gone afterwards.
pub open spec fn spec_take<S>(m: Map<Seq<char>, S>, k: Seq<char>) -> (Option<S>, Map<
    Seq<char>,
    S,
>) {
    (
        if m.contains_key(k) {
            Some(m[k])
        } else {
            None
        },
        m.remove(k),
    )
}

/// Take-once: for every request id, `take` returns the filed slot at most
/// once — once a take has succeeded, every later take of the same id on the
/// resulting table observes nothing.
pub proof fn lemma_take_at_most_once<S>(m: Map<Seq<char>, S>, k: Seq<char>)
    ensures
        spec_take::<S>(spec_take::<S>(m, k).1, k).0 is None,
{
}

} // verus!
