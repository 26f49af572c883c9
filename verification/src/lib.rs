//! Relay control plane: the registry of connected agents, the per-agent
//! outbound fan-out queue, the request/response correlation table, the
//! WebSocket session state machine, and the handlers' decision logic.
//!
//! Everything that computes or decides lives here with a contract; the
//! asynchronous plumbing (sockets, timers, locks) sits outside the library
//! and only performs the actions these functions return.
use vstd::prelude::*;

pub mod assoc;
pub mod messages;
pub mod text;
pub mod codec;
pub mod channel;
pub mod pending;
pub mod registry;
pub mod state;
pub mod error;
pub mod util;
pub mod session;
pub mod proxy;
pub mod webhook;
pub mod catch_all;
pub mod health;
pub mod agent;

verus! {

/// Default port served over plain HTTP.
pub const DEFAULT_HTTP_PORT: u16 = 8080;

/// Default port served over HTTPS.
pub const DEFAULT_HTTPS_PORT: u16 = 8443;

/// How long a proxy caller waits for the agent's reply, in milliseconds.
pub const DEFAULT_PROXY_TIMEOUT_MS: u64 = 5000;

/// How often a session pings its agent, in milliseconds.
pub const DEFAULT_PING_INTERVAL_MS: u64 = 25000;

/// Lifetime of a registry entry, in milliseconds (24 hours).
pub const DEFAULT_CLIENT_TTL_MS: u64 = 86400000;

/// Bound on each agent's outbound fan-out queue.
pub const FANOUT_CAPACITY: usize = 100;

/// Length of a minted client id.
pub const CLIENT_ID_LEN: usize = 12;

/// Length of a minted request id.
pub const REQUEST_ID_LEN: usize = 20;

/// Length of the process-wide connect token.
pub const CONNECT_TOKEN_LEN: usize = 24;

} // verus!
