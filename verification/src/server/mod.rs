pub mod connection;
pub mod connection_laws;
pub mod message_type;
pub mod public_handler;

pub use connection::{Action, Connection, ConnectionState, Event, Stage};
pub use message_type::Types;
