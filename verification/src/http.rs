//! The HTTP/1.1 message model: requests, responses and their headers, parsed
//! from and serialized to bytes.

pub mod error;
pub mod header;
pub mod request;
pub mod response;
pub mod text;

pub use self::error::Error;
pub use self::header::HeaderMap;
pub use self::request::Request;
pub use self::response::Response;
