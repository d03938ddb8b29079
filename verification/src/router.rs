//! The router: an ordered table of patterns per method, the handlers behind
//! them, and the dispatch of a request to the first pattern that fits.

pub mod dispatch;
pub mod handlers;
pub mod models;

pub use dispatch::{can_dispatch, handle_connection, handle_route, or_internal_error};
pub use handlers::{finish_get_files, finish_post_files};
pub use models::{Action, Handler, Paths, Route, RouteReturn, RouterError};
