//! The socket device: connections between the guest and the host.
pub mod control;
pub mod control_laws;
pub mod defs;
pub mod frame;
pub mod muxer;
pub mod muxer_thread;
pub mod proxy;
pub mod routing_laws;
pub mod stream_laws;
pub mod table;
pub mod table_laws;
pub mod tsi_dgram;
pub mod tsi_stream;
pub mod unix_laws;
pub mod unix_proxy;
