//! Verified core of a TCP tunnel: length-prefixed framing, the tunnel's
//! protocol messages, per-session connection bookkeeping and the server's
//! session registry.

pub mod frame;
pub mod message;
pub mod text;
pub mod session;
pub mod server;
pub mod http;
