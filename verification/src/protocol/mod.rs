//! The plugin protocol: JSON-RPC messages and their Content-Length framing.
pub mod jsonrpc;
pub mod codec;
