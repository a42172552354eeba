//! Server side of the WebSocket protocol: the frame codec, the reassembly of
//! frames from arbitrary read chunks, the upgrade handshake and the decisions
//! of a connection, each with a machine-checked contract.

pub mod frame;
pub mod handshake;
pub mod http_types;
pub mod server;
pub mod utils;
pub mod websocket_types;

pub use http_types::HttpStatus;
pub use websocket_types::RequestStruct;
