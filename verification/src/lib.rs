//! Verified core of the port debugging service: payload encodings, protocol
//! helpers, the instance model, the runtime registry with its buffers, locks
//! and subscriptions, transport decisions and device-probe planning.

pub mod mcp;
pub mod model;
pub mod probe;
pub mod runtime;
pub mod service;
pub mod transport;
pub mod util;
