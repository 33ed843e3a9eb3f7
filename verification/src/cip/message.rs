//! The message router: the service byte, the request envelope and the response
//! envelope.

pub mod shared;
pub mod request;
pub mod response;
