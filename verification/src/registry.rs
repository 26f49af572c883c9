//! The client registry: client id to outbound fan-out queue, with a
//! time-to-live per entry.
//!
//! Each client id appears at most once. Registering an id that is already
//! live keeps the existing entry; an entry disappears on explicit removal
//! or when eviction finds its deadline passed.
use vstd::prelude::*;
use crate::assoc::{assoc_map, unique_keys, lemma_assoc_contains, lemma_assoc_value,
    lemma_assoc_remove, lemma_assoc_update, lemma_assoc_push};
use crate::channel::FanOut;
use crate::messages::{RelayMessage, RelayMessageView};
use crate::FANOUT_CAPACITY;

verus! {

/// One live client: its outbound queue and the moment its entry expires.
pub struct ClientData {
    pub queue: FanOut,
    pub expires_at_ms: u64,
}

/// What a publisher's send came to.
#[derive(Debug, PartialEq, Eq, Structural)]
pub enum SendOutcome {
    /// No live entry carries the client id.
    UnknownClient,
    /// The frame was queued behind the agent's socket.
    Sent,
    /// The queue was full: the agent is not draining, the frame is dropped.
    Dropped,
}

/// The moment a registration made now expires: one time-to-live from
/// now, held at the far end of the clock instead of wrapping.
pub open spec fn deadline_of(now_ms: u64, ttl_ms: u64) -> u64 {
    if now_ms + ttl_ms <= u64::MAX {
        (now_ms + ttl_ms) as u64
    } else {
        u64::MAX
    }
}

/// The registry of connected clients.
pub struct ClientMap {
    entries: Vec<(String, ClientData)>,
}

impl View for ClientMap {
    type V = Map<Seq<char>, ClientData>;

    closed spec fn view(&self) -> Map<Seq<char>, ClientData> {
        assoc_map(self.entries@)
    }
}

impl ClientMap {
    /// Pairwise distinct client ids; every operation keeps it, which is the
    /// registry's uniqueness invariant.
    pub closed spec fn wf(&self) -> bool {
        unique_keys(self.entries@)
    }

    /// The live client ids, in registration order.
    pub closed spec fn ids(&self) -> Seq<Seq<char>> {
        self.entries@.map_values(|p: (String, ClientData)| p.0@)
    }

    /// An empty registry.
    pub fn new() -> (r: ClientMap)
        ensures
            r.wf(),
            r@ == Map::<Seq<char>, ClientData>::empty(),
    {
        ClientMap { entries: Vec::new() }
    }

    fn find(&self, id: &String) -> (r: Option<usize>)
        ensures
            match r {
                Some(i) => i < self.entries@.len() && self.entries@[i as int].0@ == id@,
                None => forall|j: int|
                    0 <= j < self.entries@.len() ==> (#[trigger] self.entries@[j]).0@ != id@,
            },
    {
        let mut i: usize = 0;
        while i < self.entries.len()
            invariant
                i <= self.entries@.len(),
                forall|j: int| 0 <= j < i ==> (#[trigger] self.entries@[j]).0@ != id@,
            decreases self.entries@.len() - i,
        {
            if self.entries[i].0.eq(id) {
                return Some(i);
            }
            i = i + 1;
        }
        None
    }

    /// Registers a client id with an empty queue expiring one
    /// time-to-live from now; an id that is already live keeps its entry.
    pub fn add_client(&mut self, id: &String, now_ms: u64, ttl_ms: u64)
        requires
            old(self).wf(),
        ensures
            final(self).wf(),
            old(self)@.contains_key(id@) ==> final(self)@ == old(self)@,
            !old(self)@.contains_key(id@) ==> {
                &&& final(self)@.contains_key(id@)
                &&& final(self)@[id@].queue@ == Seq::<RelayMessageView>::empty()
                &&& final(self)@[id@].expires_at_ms == deadline_of(now_ms, ttl_ms)
                &&& final(self)@.remove(id@) == old(self)@
            },
    {
        match self.find(id) {
            Some(i) => {
                proof {
                    lemma_assoc_value(self.entries@, i as int);
                    lemma_assoc_contains(self.entries@, id@);
                }
            },
            None => {
                proof {
                    lemma_assoc_contains(self.entries@, id@);
                }
                let key = id.clone();
                let expires_at_ms = if now_ms <= u64::MAX - ttl_ms {
                    now_ms + ttl_ms
                } else {
                    u64::MAX
                };
                let data = ClientData { queue: FanOut::new(), expires_at_ms };
                let ghost newp = (key, data);
                proof {
                    lemma_assoc_push(self.entries@, newp);
                }
                self.entries.push((key, data));
                proof {
                    assert(final(self)@.remove(id@) =~= old(self)@);
                }
            },
        }
    }

    /// Whether a client id is live, and its entry.
    pub fn get_client(&self, id: &String) -> (r: Option<&ClientData>)
        requires
            self.wf(),
        ensures
            match r {
                Some(d) => self@.contains_key(id@) && *d == self@[id@],
                None => !self@.contains_key(id@),
            },
    {
        match self.find(id) {
            Some(i) => {
                proof {
                    lemma_assoc_value(self.entries@, i as int);
                }
                Some(&self.entries[i].1)
            },
            None => {
                proof {
                    lemma_assoc_contains(self.entries@, id@);
                }
                None
            },
        }
    }

    /// Removes a client id; nothing else changes.
    pub fn remove_client(&mut self, id: &String)
        requires
            old(self).wf(),
        ensures
            final(self).wf(),
            final(self)@ == old(self)@.remove(id@),
    {
        match self.find(id) {
            Some(i) => {
                proof {
                    lemma_assoc_remove(self.entries@, i as int);
                }
                let _ = self.entries.remove(i);
            },
            None => {
                proof {
                    lemma_assoc_contains(self.entries@, id@);
                    assert(old(self)@.remove(id@) =~= old(self)@);
                }
            },
        }
    }

    /// Non-blocking publish to a client's queue: the single path by which a
    /// handler asks an agent to do something.
    pub fn publish(&mut self, id: &String, m: RelayMessage) -> (r: SendOutcome)
        requires
            old(self).wf(),
        ensures
            final(self).wf(),
            final(self)@.dom() == old(self)@.dom(),
            r == SendOutcome::UnknownClient <==> !old(self)@.contains_key(id@),
            r == SendOutcome::UnknownClient ==> final(self)@ == old(self)@,
            r == SendOutcome::Sent ==> {
                &&& old(self)@[id@].queue@.len() < FANOUT_CAPACITY
                &&& final(self)@[id@].queue@ == old(self)@[id@].queue@.push(m@)
            },
            r == SendOutcome::Dropped ==> {
                &&& old(self)@[id@].queue@.len() >= FANOUT_CAPACITY
                &&& final(self)@[id@].queue@ == old(self)@[id@].queue@
            },
            old(self)@.contains_key(id@) ==> final(self)@[id@].expires_at_ms == old(
                self,
            )@[id@].expires_at_ms,
            forall|k: Seq<char>|
                k != id@ && old(self)@.contains_key(k) ==> final(self)@[k] == old(self)@[k],
    {
        match self.find(id) {
            Some(i) => {
                proof {
                    lemma_assoc_value(self.entries@, i as int);
                }
                let mut p = self.entries.remove(i);
                let accepted = p.1.queue.try_send(m);
                let ghost newp = (p.0, p.1);
                self.entries.insert(i, p);
                proof {
                    assert(self.entries@ =~= old(self).entries@.update(i as int, newp));
                    lemma_assoc_update(old(self).entries@, i as int, newp);
                    assert(final(self)@.dom() =~= old(self)@.dom());
                }
                if accepted {
                    SendOutcome::Sent
                } else {
                    SendOutcome::Dropped
                }
            },
            None => {
                proof {
                    lemma_assoc_contains(self.entries@, id@);
                }
                SendOutcome::UnknownClient
            },
        }
    }

    /// The consumer's take from a client's queue: the frame at the front,
    /// in arrival order.
    pub fn pop_client(&mut self, id: &String) -> (r: Option<RelayMessage>)
        requires
            old(self).wf(),
        ensures
            final(self).wf(),
            final(self)@.dom() == old(self)@.dom(),
            match r {
                Some(m) => {
                    &&& old(self)@.contains_key(id@)
                    &&& old(self)@[id@].queue@.len() > 0
                    &&& m@ == old(self)@[id@].queue@[0]
                    &&& final(self)@[id@].queue@ == old(self)@[id@].queue@.drop_first()
                },
                None => {
                    &&& old(self)@.contains_key(id@) ==> old(self)@[id@].queue@.len() == 0
                        && final(self)@[id@].queue@ == old(self)@[id@].queue@
                    &&& !old(self)@.contains_key(id@) ==> final(self)@ == old(self)@
                },
            },
            old(self)@.contains_key(id@) ==> final(self)@[id@].expires_at_ms == old(
                self,
            )@[id@].expires_at_ms,
            forall|k: Seq<char>|
                k != id@ && old(self)@.contains_key(k) ==> final(self)@[k] == old(self)@[k],
    {
        match self.find(id) {
            Some(i) => {
                proof {
                    lemma_assoc_value(self.entries@, i as int);
                }
                let mut p = self.entries.remove(i);
                let popped = p.1.queue.pop();
                let ghost newp = (p.0, p.1);
                self.entries.insert(i, p);
                proof {
                    assert(self.entries@ =~= old(self).entries@.update(i as int, newp));
                    lemma_assoc_update(old(self).entries@, i as int, newp);
                    assert(final(self)@.dom() =~= old(self)@.dom());
                }
                popped
            },
            None => {
                proof {
                    lemma_assoc_contains(self.entries@, id@);
                }
                None
            },
        }
    }

    fn find_expired(&self, now_ms: u64) -> (r: Option<usize>)
        ensures
            match r {
                Some(i) => i < self.entries@.len() && self.entries@[i as int].1.expires_at_ms
                    <= now_ms,
                None => forall|j: int|
                    0 <= j < self.entries@.len() ==> (#[trigger] self.entries@[j]).1.expires_at_ms
                        > now_ms,
            },
    {
        let mut i: usize = 0;
        while i < self.entries.len()
            invariant
                i <= self.entries@.len(),
                forall|j: int|
                    0 <= j < i ==> (#[trigger] self.entries@[j]).1.expires_at_ms > now_ms,
            decreases self.entries@.len() - i,
        {
            if self.entries[i].1.expires_at_ms <= now_ms {
                return Some(i);
            }
            i = i + 1;
        }
        None
    }

    /// Time-to-live maintenance: drops every entry whose deadline has
    /// passed and returns the evicted ids, so each owning session can be
    /// told to terminate.
    pub fn evict_expired(&mut self, now_ms: u64) -> (evicted: Vec<String>)
        requires
            old(self).wf(),
        ensures
            final(self).wf(),
            forall|k: Seq<char>|
                final(self)@.contains_key(k) <==> old(self)@.contains_key(k) && old(
                    self,
                )@[k].expires_at_ms > now_ms,
            forall|k: Seq<char>| final(self)@.contains_key(k) ==> final(self)@[k] == old(self)@[k],
            forall|i: int|
                0 <= i < evicted@.len() ==> old(self)@.contains_key(
                    (#[trigger] evicted@[i])@,
                ) && old(self)@[evicted@[i]@].expires_at_ms <= now_ms,
            forall|k: Seq<char>|
                old(self)@.contains_key(k) && old(self)@[k].expires_at_ms <= now_ms ==> exists|
                    i: int,
                |
                    0 <= i < evicted@.len() && (#[trigger] evicted@[i])@ == k,
    {
        let mut evicted: Vec<String> = Vec::new();
        loop
            invariant
                self.wf(),
                forall|k: Seq<char>|
                    #[trigger] self@.contains_key(k) ==> old(self)@.contains_key(k) && self@[k]
                        == old(self)@[k],
                forall|k: Seq<char>|
                    old(self)@.contains_key(k) && old(self)@[k].expires_at_ms > now_ms
                        ==> #[trigger] self@.contains_key(k),
                forall|i: int|
                    0 <= i < evicted@.len() ==> old(self)@.contains_key(
                        (#[trigger] evicted@[i])@,
                    ) && old(self)@[evicted@[i]@].expires_at_ms <= now_ms,
                forall|k: Seq<char>|
                    old(self)@.contains_key(k) && !(#[trigger] self@.contains_key(k)) ==> exists|
                        i: int,
                    |
                        0 <= i < evicted@.len() && (#[trigger] evicted@[i])@ == k,
            ensures
                forall|k: Seq<char>|
                    #[trigger] self@.contains_key(k) ==> self@[k].expires_at_ms > now_ms,
            decreases self.entries@.len(),
        {
            match self.find_expired(now_ms) {
                None => {
                    proof {
                        assert forall|k: Seq<char>| self@.contains_key(k) implies (
                        self@[k].expires_at_ms > now_ms) by {
                            lemma_assoc_contains(self.entries@, k);
                            let i = choose|i: int|
                                0 <= i < self.entries@.len() && (#[trigger] self.entries@[i]).0@
                                    == k;
                            lemma_assoc_value(self.entries@, i);
                        }
                    }
                    break ;
                },
                Some(i) => {
                    let ghost k0 = self.entries@[i as int].0@;
                    let ghost prev = self@;
                    let ghost prev_ev = evicted@;
                    proof {
                        lemma_assoc_value(self.entries@, i as int);
                        lemma_assoc_remove(self.entries@, i as int);
                    }
                    let p = self.entries.remove(i);
                    evicted.push(p.0);
                    proof {
                        assert(p.0@ == k0);
                        assert(self@ == prev.remove(k0));
                        assert(evicted@ == prev_ev.push(p.0));
                        assert forall|k: Seq<char>|
                            old(self)@.contains_key(k) && !(#[trigger] self@.contains_key(
                                k,
                            )) implies exists|w: int|
                            0 <= w < evicted@.len() && (#[trigger] evicted@[w])@ == k by {
                            if k == k0 {
                                assert(evicted@[prev_ev.len() as int]@ == k0);
                            } else {
                                assert(!prev.contains_key(k));
                                let w = choose|w: int|
                                    0 <= w < prev_ev.len() && (#[trigger] prev_ev[w])@ == k;
                                assert(evicted@[w]@ == k);
                            }
                        }
                    }
                },
            }
        }
        proof {
            assert forall|k: Seq<char>|
                old(self)@.contains_key(k) && old(self)@[k].expires_at_ms <= now_ms implies !(
            self@.contains_key(k)) by {
                if self@.contains_key(k) {
                    assert(self@[k] == old(self)@[k]);
                    assert(self@[k].expires_at_ms > now_ms);
                }
            }
        }
        evicted
    }
}

/// Registry uniqueness: however register and remove operations built the
/// registry, no client id is held by two live entries.
pub proof fn lemma_registry_unique(m: ClientMap)
    requires
        m.wf(),
    ensures
        forall|i: int, j: int| 0 <= i < j < m.ids().len() ==> m.ids()[i] != m.ids()[j],
{
}

} // verus!
