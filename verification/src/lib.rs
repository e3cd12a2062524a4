//! Telemetry relay core: a broker that assigns identities to connecting
//! clients, maintains per-publisher subscription sets, and fans readings out
//! to subscribers, together with the per-connection protocol state machine
//! (role negotiation, heartbeat liveness, command parsing).
use vstd::prelude::*;

pub mod cli_client;
pub mod common;
pub mod db;
pub mod json;
pub mod relay_server;
pub mod ws_session;
pub mod render;
pub mod sensor_client;
pub mod sensor_websocket;

verus! {

/// How often heartbeat pings are sent, in seconds.
pub const HEARTBEAT_INTERVAL: u64 = 30;

/// How long without inbound activity before a session times out, in seconds.
/// Strictly greater than the heartbeat interval.
pub const CLIENT_TIMEOUT: u64 = 60;

} // verus!
