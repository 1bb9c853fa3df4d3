//! WebTransport transport: zstd-compressed message delivery over QUIC streams and datagrams.

pub mod advertising_laws;
pub mod builder_laws;
pub mod c_api;
pub mod channel;
pub mod client_laws;
pub mod compression;
pub mod connected_client;
pub mod context;
pub mod decimal;
pub mod error;
pub mod ext;
pub mod framing;
pub mod laws;
pub mod le;
pub mod poller;
pub mod queue_laws;
pub mod request_laws;
pub mod send_lossy;
pub mod server;
pub mod server_laws;
pub mod webtransport_server;
pub mod wire_laws;
