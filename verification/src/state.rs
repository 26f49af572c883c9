//! The server's shared state: the client registry, the pending-request
//! table, the connect token and the timing configuration.
//!
//! The reply-slot type is the caller's (an async one-shot sender in the
//! running server, any placeholder in tests); this module never looks
//! inside a slot, it only files and takes them.
use vstd::prelude::*;
use crate::messages::{RelayMessage, RelayMessageView};
use crate::pending::PendingTable;
use crate::registry::{deadline_of, ClientData, ClientMap, SendOutcome};
use crate::{DEFAULT_CLIENT_TTL_MS, DEFAULT_PING_INTERVAL_MS, DEFAULT_PROXY_TIMEOUT_MS,
    FANOUT_CAPACITY};

verus! {

/// Everything the handlers share.
pub struct AppState<S> {
    clients: ClientMap,
    proxy_requests: PendingTable<S>,
    connect_token: String,
    proxy_timeout_ms: u64,
    ping_interval_ms: u64,
    client_ttl_ms: u64,
}

impl<S> AppState<S> {
    /// Both tables keep their keys pairwise distinct.
    pub closed spec fn wf(&self) -> bool {
        &&& self.clients.wf()
        &&& self.proxy_requests.wf()
    }

    /// The registry: client id to live entry.
    pub closed spec fn clients_view(&self) -> Map<Seq<char>, ClientData> {
        self.clients@
    }

    /// The pending table: request id to reply slot.
    pub closed spec fn pending_view(&self) -> Map<Seq<char>, S> {
        self.proxy_requests@
    }

    /// The process-wide connect token.
    pub closed spec fn token_view(&self) -> Seq<char> {
        self.connect_token@
    }

    /// How long a proxy caller waits for the agent's reply, in milliseconds.
    pub closed spec fn proxy_timeout_view(&self) -> u64 {
        self.proxy_timeout_ms
    }

    /// How often a session pings its agent, in milliseconds.
    pub closed spec fn ping_interval_view(&self) -> u64 {
        self.ping_interval_ms
    }

    /// Lifetime of a registry entry, in milliseconds.
    pub closed spec fn client_ttl_view(&self) -> u64 {
        self.client_ttl_ms
    }

    /// The configured proxy wait, for the caller that arms the timer.
    pub fn proxy_timeout(&self) -> (r: u64)
        ensures
            r == self.proxy_timeout_view(),
    {
        self.proxy_timeout_ms
    }

    /// The configured keepalive period, for the session that arms the
    /// ticker.
    pub fn ping_interval(&self) -> (r: u64)
        ensures
            r == self.ping_interval_view(),
    {
        self.ping_interval_ms
    }

    /// The configured entry lifetime.
    pub fn client_ttl(&self) -> (r: u64)
        ensures
            r == self.client_ttl_view(),
    {
        self.client_ttl_ms
    }

    /// Overrides the default timings.
    pub fn configure_timing(&mut self, proxy_timeout_ms: u64, ping_interval_ms: u64, client_ttl_ms: u64)
        requires
            old(self).wf(),
        ensures
            final(self).wf(),
            final(self).proxy_timeout_view() == proxy_timeout_ms,
            final(self).ping_interval_view() == ping_interval_ms,
            final(self).client_ttl_view() == client_ttl_ms,
            final(self).clients_view() == old(self).clients_view(),
            final(self).pending_view() == old(self).pending_view(),
            final(self).token_view() == old(self).token_view(),
    {
        self.proxy_timeout_ms = proxy_timeout_ms;
        self.ping_interval_ms = ping_interval_ms;
        self.client_ttl_ms = client_ttl_ms;
    }

    /// Fresh state around a connect token, with the default timings.
    pub fn new(connect_token: String) -> (r: AppState<S>)
        ensures
            r.wf(),
            r.clients_view() == Map::<Seq<char>, ClientData>::empty(),
            r.pending_view() == Map::<Seq<char>, S>::empty(),
            r.token_view() == connect_token@,
            r.proxy_timeout_view() == DEFAULT_PROXY_TIMEOUT_MS,
            r.ping_interval_view() == DEFAULT_PING_INTERVAL_MS,
            r.client_ttl_view() == DEFAULT_CLIENT_TTL_MS,
    {
        AppState {
            clients: ClientMap::new(),
            proxy_requests: PendingTable::new(),
            connect_token,
            proxy_timeout_ms: DEFAULT_PROXY_TIMEOUT_MS,
            ping_interval_ms: DEFAULT_PING_INTERVAL_MS,
            client_ttl_ms: DEFAULT_CLIENT_TTL_MS,
        }
    }

    /// The token an agent must present on connect.
    pub fn connect_token(&self) -> (r: &String)
        ensures
            r@ == self.token_view(),
    {
        &self.connect_token
    }

    /// Files a reply slot under a request id.
    pub fn add_proxy_request(&mut self, request_id: &String, tx: S)
        requires
            old(self).wf(),
        ensures
            final(self).wf(),
            final(self).pending_view() == old(self).pending_view().insert(request_id@, tx),
            final(self).clients_view() == old(self).clients_view(),
            final(self).token_view() == old(self).token_view(),
            final(self).proxy_timeout_view() == old(self).proxy_timeout_view(),
            final(self).ping_interval_view() == old(self).ping_interval_view(),
            final(self).client_ttl_view() == old(self).client_ttl_view(),
    {
        self.proxy_requests.insert(request_id, tx);
    }

    /// Takes the reply slot filed under a request id: at most one caller
    /// gets it, later takes of the same id observe nothing.
    pub fn remove_proxy_request(&mut self, request_id: &String) -> (r: Option<S>)
        requires
            old(self).wf(),
        ensures
            final(self).wf(),
            final(self).pending_view() == old(self).pending_view().remove(request_id@),
            match r {
                Some(tx) => old(self).pending_view().contains_key(request_id@) && tx == old(self).pending_view()[request_id@],
                None => !old(self).pending_view().contains_key(request_id@),
            },
            final(self).clients_view() == old(self).clients_view(),
            final(self).token_view() == old(self).token_view(),
            final(self).proxy_timeout_view() == old(self).proxy_timeout_view(),
            final(self).ping_interval_view() == old(self).ping_interval_view(),
            final(self).client_ttl_view() == old(self).client_ttl_view(),
    {
        self.proxy_requests.take(request_id)
    }

    /// Registers a client id with an empty queue that expires one
    /// time-to-live from now; an id that is already live keeps its entry.
    pub fn add_client(&mut self, id: &String, now_ms: u64)
        requires
            old(self).wf(),
        ensures
            final(self).wf(),
            old(self).clients_view().contains_key(id@) ==> final(self).clients_view() == old(self).clients_view(),
            !old(self).clients_view().contains_key(id@) ==> {
                &&& final(self).clients_view().contains_key(id@)
                &&& final(self).clients_view()[id@].queue@ == Seq::<RelayMessageView>::empty()
                &&& final(self).clients_view()[id@].expires_at_ms == deadline_of(
                    now_ms,
                    old(self).client_ttl_view(),
                )
                &&& final(self).clients_view().remove(id@) == old(self).clients_view()
            },
            final(self).pending_view() == old(self).pending_view(),
            final(self).token_view() == old(self).token_view(),
            final(self).proxy_timeout_view() == old(self).proxy_timeout_view(),
            final(self).ping_interval_view() == old(self).ping_interval_view(),
            final(self).client_ttl_view() == old(self).client_ttl_view(),
    {
        let ttl = self.client_ttl_ms;
        self.clients.add_client(id, now_ms, ttl);
    }

    /// Whether a client id is live, and its entry.
    pub fn get_client(&self, id: &String) -> (r: Option<&ClientData>)
        requires
            self.wf(),
        ensures
            match r {
                Some(d) => self.clients_view().contains_key(id@) && *d == self.clients_view()[id@],
                None => !self.clients_view().contains_key(id@),
            },
    {
        self.clients.get_client(id)
    }

    /// Removes a client id from the registry.
    pub fn remove_client(&mut self, id: &String)
        requires
            old(self).wf(),
        ensures
            final(self).wf(),
            final(self).clients_view() == old(self).clients_view().remove(id@),
            final(self).pending_view() == old(self).pending_view(),
            final(self).token_view() == old(self).token_view(),
            final(self).proxy_timeout_view() == old(self).proxy_timeout_view(),
            final(self).ping_interval_view() == old(self).ping_interval_view(),
            final(self).client_ttl_view() == old(self).client_ttl_view(),
    {
        self.clients.remove_client(id);
    }

    /// Non-blocking publish onto a client's fan-out queue.
    pub fn publish(&mut self, id: &String, m: RelayMessage) -> (r: SendOutcome)
        requires
            old(self).wf(),
        ensures
            final(self).wf(),
            final(self).clients_view().dom() == old(self).clients_view().dom(),
            r == SendOutcome::UnknownClient <==> !old(self).clients_view().contains_key(id@),
            r == SendOutcome::UnknownClient ==> final(self).clients_view() == old(self).clients_view(),
            r == SendOutcome::Sent ==> {
                &&& old(self).clients_view()[id@].queue@.len() < FANOUT_CAPACITY
                &&& final(self).clients_view()[id@].queue@ == old(self).clients_view()[id@].queue@.push(m@)
            },
            r == SendOutcome::Dropped ==> {
                &&& old(self).clients_view()[id@].queue@.len() >= FANOUT_CAPACITY
                &&& final(self).clients_view()[id@].queue@ == old(self).clients_view()[id@].queue@
            },
            old(self).clients_view().contains_key(id@) ==> final(self).clients_view()[id@].expires_at_ms == old(self).clients_view()[id@].expires_at_ms,
            forall|k: Seq<char>|
                k != id@ && old(self).clients_view().contains_key(k) ==> final(self).clients_view()[k] == old(self).clients_view()[k],
            final(self).pending_view() == old(self).pending_view(),
            final(self).token_view() == old(self).token_view(),
            final(self).proxy_timeout_view() == old(self).proxy_timeout_view(),
            final(self).ping_interval_view() == old(self).ping_interval_view(),
            final(self).client_ttl_view() == old(self).client_ttl_view(),
    {
        self.clients.publish(id, m)
    }

    /// The session's take from its own fan-out queue, in arrival order.
    pub fn pop_client(&mut self, id: &String) -> (r: Option<RelayMessage>)
        requires
            old(self).wf(),
        ensures
            final(self).wf(),
            final(self).clients_view().dom() == old(self).clients_view().dom(),
            match r {
                Some(m) => {
                    &&& old(self).clients_view().contains_key(id@)
                    &&& old(self).clients_view()[id@].queue@.len() > 0
                    &&& m@ == old(self).clients_view()[id@].queue@[0]
                    &&& final(self).clients_view()[id@].queue@ == old(self).clients_view()[id@].queue@.drop_first()
                },
                None => {
                    &&& old(self).clients_view().contains_key(id@) ==> old(self).clients_view()[id@].queue@.len() == 0 && final(self).clients_view()[id@].queue@ == old(self).clients_view()[id@].queue@
                    &&& !old(self).clients_view().contains_key(id@) ==> final(self).clients_view()
                        == old(self).clients_view()
                },
            },
            old(self).clients_view().contains_key(id@) ==> final(self).clients_view()[id@].expires_at_ms == old(self).clients_view()[id@].expires_at_ms,
            forall|k: Seq<char>|
                k != id@ && old(self).clients_view().contains_key(k) ==> final(self).clients_view()[k] == old(self).clients_view()[k],
            final(self).pending_view() == old(self).pending_view(),
            final(self).token_view() == old(self).token_view(),
            final(self).proxy_timeout_view() == old(self).proxy_timeout_view(),
            final(self).ping_interval_view() == old(self).ping_interval_view(),
            final(self).client_ttl_view() == old(self).client_ttl_view(),
    {
        self.clients.pop_client(id)
    }

    /// Time-to-live maintenance: drops every expired registry entry and
    /// returns the evicted ids so their sessions can be told to terminate.
    pub fn evict_expired(&mut self, now_ms: u64) -> (evicted: Vec<String>)
        requires
            old(self).wf(),
        ensures
            final(self).wf(),
            forall|k: Seq<char>|
                final(self).clients_view().contains_key(k) <==> old(self).clients_view().contains_key(k) && old(self).clients_view()[k].expires_at_ms
                    > now_ms,
            forall|k: Seq<char>|
                final(self).clients_view().contains_key(k) ==> final(self).clients_view()[k]
                    == old(self).clients_view()[k],
            forall|i: int|
                0 <= i < evicted@.len() ==> old(self).clients_view().contains_key(
                    (#[trigger] evicted@[i])@,
                ) && old(self).clients_view()[evicted@[i]@].expires_at_ms <= now_ms,
            forall|k: Seq<char>|
                old(self).clients_view().contains_key(k) && old(self).clients_view()[k].expires_at_ms <= now_ms ==> exists|i: int|
                    0 <= i < evicted@.len() && (#[trigger] evicted@[i])@ == k,
            final(self).pending_view() == old(self).pending_view(),
            final(self).token_view() == old(self).token_view(),
            final(self).proxy_timeout_view() == old(self).proxy_timeout_view(),
            final(self).ping_interval_view() == old(self).ping_interval_view(),
            final(self).client_ttl_view() == old(self).client_ttl_view(),
    {
        self.clients.evict_expired(now_ms)
    }
}

} // verus!
