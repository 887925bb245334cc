//! HTTP/3 mapping over a QUIC transport: the octet cursor, the frame codec and
//! the per-connection state machine, each with a verified contract.

pub mod config;
pub mod connection;
pub mod connection_laws;
pub mod error;
pub mod frame;
pub mod frame_laws;
pub mod octets;
pub mod qpack;
pub mod request;
pub mod state;
pub mod stream;
pub mod varint;
pub mod wire;

