//! The per-agent outbound fan-out queue: a bounded FIFO from many
//! publishers to the single consumer that writes the agent's socket.
//!
//! A publisher's send never blocks: a full queue drops the frame, and the
//! external caller later resolves to a gateway timeout instead of feeling
//! back-pressure.
use vstd::prelude::*;
use crate::messages::{RelayMessage, RelayMessageView};
use crate::FANOUT_CAPACITY;

verus! {

/// The bounded FIFO behind one agent's socket.
pub struct FanOut {
    items: Vec<RelayMessage>,
}

impl View for FanOut {
    type V = Seq<RelayMessageView>;

    closed spec fn view(&self) -> Seq<RelayMessageView> {
        self.items.deep_view()
    }
}

impl FanOut {
    /// An empty queue.
    pub fn new() -> (r: FanOut)
        ensures
            r@ == Seq::<RelayMessageView>::empty(),
    {
        let items: Vec<RelayMessage> = Vec::new();
        proof {
            assert(items.deep_view() =~= Seq::<RelayMessageView>::empty());
        }
        FanOut { items }
    }

    pub fn len(&self) -> (r: usize)
        ensures
            r == self@.len(),
    {
        self.items.len()
    }

    /// Non-blocking send: appends when there is room, drops when the agent
    /// is not draining.
    pub fn try_send(&mut self, m: RelayMessage) -> (accepted: bool)
        ensures
            accepted == (old(self)@.len() < FANOUT_CAPACITY),
            accepted ==> final(self)@ == old(self)@.push(m@),
            !accepted ==> final(self)@ == old(self)@,
    {
        if self.items.len() < FANOUT_CAPACITY {
            let ghost before = self.items.deep_view();
            let ghost mv = m@;
            self.items.push(m);
            proof {
                assert(self.items.deep_view() =~= before.push(mv));
            }
            true
        } else {
            false
        }
    }

    /// The consumer's take: the front of the queue, in arrival order.
    pub fn pop(&mut self) -> (r: Option<RelayMessage>)
        ensures
            match r {
                Some(m) => old(self)@.len() > 0 && m@ == old(self)@[0] && final(self)@ == old(
                    self,
                )@.drop_first(),
                None => old(self)@.len() == 0 && final(self)@ == old(self)@,
            },
    {
        if self.items.len() > 0 {
            let ghost before = self.items.deep_view();
            let m = self.items.remove(0);
            proof {
                assert(self.items.deep_view() =~= before.drop_first());
            }
            Some(m)
        } else {
            None
        }
    }
}

/// The queue left after the consumer has popped `k` times.
pub open spec fn after_pops(q: Seq<RelayMessageView>, k: int) -> Seq<RelayMessageView>
    decreases k,
{
    if k <= 0 {
        q
    } else {
        after_pops(q, k - 1).drop_first()
    }
}

/// The message the consumer's `k`-th pop returns (counting from zero).
pub open spec fn pop_result(q: Seq<RelayMessageView>, k: int) -> RelayMessageView {
    after_pops(q, k)[0]
}

proof fn lemma_after_pops_skip(q: Seq<RelayMessageView>, k: int)
    requires
        0 <= k <= q.len(),
    ensures
        after_pops(q, k) == q.skip(k),
    decreases k,
{
    if k == 0 {
        assert(q.skip(0) =~= q);
    } else {
        lemma_after_pops_skip(q, k - 1);
        assert(q.skip(k - 1).drop_first() =~= q.skip(k));
    }
}

/// FIFO per producer: when a producer enqueues `m1` and then `m2` onto a
/// queue with room for both and no send comes between them, the consumer's
/// pops deliver `m1` strictly before `m2`, whatever was queued already.
pub proof fn lemma_fanout_fifo(q0: Seq<RelayMessageView>, m1: RelayMessageView, m2: RelayMessageView)
    requires
        q0.len() + 2 <= FANOUT_CAPACITY,
    ensures
        pop_result(q0.push(m1).push(m2), q0.len() as int) == m1,
        pop_result(q0.push(m1).push(m2), q0.len() as int + 1) == m2,
{
    let q2 = q0.push(m1).push(m2);
    lemma_after_pops_skip(q2, q0.len() as int);
    assert(q2.skip(q0.len() as int)[0] == m1);
    lemma_after_pops_skip(q2, q0.len() as int + 1);
    assert(q2.skip(q0.len() as int + 1)[0] == m2);
}

} // verus!
