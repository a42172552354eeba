pub mod build_http;
pub mod byte_buffer;
pub mod generate_key;
pub mod lossy_text;
pub mod unmask_payload;

pub use build_http::build_response;
pub use generate_key::{generate_accept, generate_key};
pub use unmask_payload::unmask_payload;
