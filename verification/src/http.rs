//! The HTTP vocabulary shared by requests and responses.

pub mod code;
pub mod header;
pub mod method;
