//! Session broker for a web gateway in front of a conversational agent
//! runtime.
//!
//! The library holds the verified core: the client-operation schema and its
//! JSON codec, the per-session broker (event fan-out with bounded lossy
//! history, ordered op queue), the process-wide session registry, the
//! single-flight login coordinator, and the decision logic of the WebSocket
//! and PTY handlers. The surrounding HTTP server, the WebSocket transport and
//! the agent runtime itself are unverified plumbing that hands this library
//! plain values and carries its answers out.

pub mod broker;
pub mod codec;
pub mod json;
pub mod login;
pub mod ops;
pub mod popup;
pub mod registry;
pub mod summary;
pub mod text_input;
pub mod wsflow;

use vstd::prelude::*;

verus! {

/// Startup options of the gateway: bind host and port, and an optional
/// directory of static assets (a filesystem path, held as a plain string).
pub struct ServerOpts {
    pub host: String,
    pub port: u16,
    pub static_dir: Option<String>,
}

} // verus!
