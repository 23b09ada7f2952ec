//! The server side of a fleet-management control plane for remotely
//! connected robot agents. One full-duplex JSON message channel per agent is
//! multiplexed into independent typed sessions; operators drive the fleet
//! through an HTTP API whose handlers address live agents through this
//! broker. The wire codec, the session registry and dispatch, the agent
//! directory, the identity and telemetry store, and every handler's decision
//! rule are specified and verified here; the surrounding application
//! performs the network, task and database work these modules decide.

use vstd::prelude::*;

pub mod action;
pub mod api;
pub mod connection;
pub mod database;
pub mod directory;
pub mod errors;
pub mod events;
pub mod heartbeat;
pub mod instructions;
pub mod json;
pub mod message;
pub mod network;
pub mod trusted;
pub mod wire;

pub use errors::RmcsError;

verus! {

} // verus!
