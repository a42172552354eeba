pub mod create_message;
pub mod parse_message;

pub use create_message::create_response;
pub use parse_message::parse_request;
