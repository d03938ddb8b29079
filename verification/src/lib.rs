//! A small HTTP/1.1 server core: request parsing, pattern routing and exact
//! response serialization, with every function verified against its contract.

pub mod compress;
pub mod http;
pub mod params;
pub mod request;
pub mod response;
pub mod router;
pub mod text;
pub mod url;
pub mod utils;
