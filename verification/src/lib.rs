//! Connection-level protocol logic of an HTTP mapping over a multiplexed,
//! stream-based transport: the connection state machine and the incremental
//! frame decoder, with the wire format of the frames they exchange.

pub mod buffer;
pub mod connection;
pub mod frame;
pub mod proto;
pub mod qpack;
