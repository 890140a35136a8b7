//! Status-query client core for a game server fleet: the wire codec, the
//! frame reassembler, the query session state machine and the rolling
//! aggregation of poll samples.

pub mod aggregator;
pub mod buffer;
pub mod clock;
pub mod fixed;
pub mod packet;
pub mod rest;
pub mod session;
pub mod stats;
pub mod text;
pub mod varint;
