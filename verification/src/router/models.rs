//! The vocabulary of the router: patterns, routes, actions and errors.

use crate::http::method::HttpMethod;
use vstd::prelude::*;

verus! {

/// The route patterns.
#[derive(Debug, PartialEq, Eq, Clone, Copy, Structural)]
pub enum Paths {
    /// `/`
    Root,
    /// `/user-agent`
    UserAgent,
    /// `/echo/:str`
    Echo,
    /// `/files/:file_name`
    Files,
}

impl Paths {
    /// The pattern as text.
    pub open spec fn pattern(self) -> Seq<char> {
        match self {
            Paths::Root => "/"@,
            Paths::UserAgent => "/user-agent"@,
            Paths::Echo => "/echo/:str"@,
            Paths::Files => "/files/:file_name"@,
        }
    }

    /// The pattern as a string slice.
    pub fn as_str(&self) -> (s: &'static str)
        ensures
            s@ == self.pattern(),
    {
        match self {
            Paths::Root => "/",
            Paths::UserAgent => "/user-agent",
            Paths::Echo => "/echo/:str",
            Paths::Files => "/files/:file_name",
        }
    }
}

/// The handlers that a route can name.
#[derive(Debug, PartialEq, Eq, Clone, Copy, Structural)]
pub enum Handler {
    /// `GET /`
    GetRoot,
    /// `GET /user-agent`
    GetUserAgent,
    /// `GET /echo/:str`
    GetEcho,
    /// `GET /files/:file_name`
    GetFiles,
    /// `POST /files/:file_name`
    PostFiles,
}

/// One entry of a route table: a pattern and the handler behind it.
#[derive(Debug)]
pub struct Route {
    /// The pattern that a path has to fit.
    pub path: String,
    /// The handler that answers.
    pub handler: Handler,
}

/// Why a request could not be routed or handled.
#[derive(Debug, PartialEq, Eq, Clone, Copy, Structural)]
pub enum RouterError {
    /// The request has no recognized method.
    NoMethod,
    /// The pattern did not bind a parameter that the handler needs.
    MissingRouteParameter,
    /// A request that stores a body has no Content-Length.
    MissingContentLength,
    /// Compressing the payload failed.
    IoFailure,
}

/// What is to be done for a request.
#[derive(Debug, PartialEq)]
pub enum Action {
    /// Write `head` to the connection, then `payload` if there is one.
    Send { head: String, payload: Option<Vec<u8>> },
    /// Read the file at `path` as text and hand what came of it to
    /// `finish_get_files`.
    ReadFile { path: String },
    /// Write `body` to the file at `path` and hand what came of it to
    /// `finish_post_files`.
    WriteFile { path: String, body: Vec<u8> },
}

/// What an `Action` holds, as plain values.
pub enum ActionView {
    Send { head: Seq<char>, payload: Option<Seq<u8>> },
    ReadFile { path: Seq<char> },
    WriteFile { path: Seq<char>, body: Seq<u8> },
}

impl View for Action {
    type V = ActionView;

    open spec fn view(&self) -> ActionView {
        match self {
            Action::Send { head, payload } => ActionView::Send {
                head: head@,
                payload: match payload {
                    Some(bytes) => Some(bytes@),
                    None => None,
                },
            },
            Action::ReadFile { path } => ActionView::ReadFile { path: path@ },
            Action::WriteFile { path, body } => ActionView::WriteFile { path: path@, body: body@ },
        }
    }
}

/// What a handler returns.
pub type RouteReturn = Result<Action, RouterError>;

/// What a `RouteReturn` holds, as plain values.
pub open spec fn outcome(r: RouteReturn) -> Result<ActionView, RouterError> {
    match r {
        Ok(action) => Ok(action@),
        Err(e) => Err(e),
    }
}

/// What a `Route` holds, as plain values.
pub struct RouteView {
    pub path: Seq<char>,
    pub handler: Handler,
}

impl View for Route {
    type V = RouteView;

    open spec fn view(&self) -> RouteView {
        RouteView { path: self.path@, handler: self.handler }
    }
}

/// The views of a route table.
pub open spec fn route_views(table: Seq<Route>) -> Seq<RouteView> {
    Seq::new(table.len(), |i: int| table[i]@)
}

/// The route table of a method, in registration order. Only GET and POST
/// have routes.
pub open spec fn routes_for(method: HttpMethod) -> Seq<RouteView> {
    match method {
        HttpMethod::GET => seq![
            RouteView { path: Paths::Root.pattern(), handler: Handler::GetRoot },
            RouteView { path: Paths::UserAgent.pattern(), handler: Handler::GetUserAgent },
            RouteView { path: Paths::Echo.pattern(), handler: Handler::GetEcho },
            RouteView { path: Paths::Files.pattern(), handler: Handler::GetFiles },
        ],
        HttpMethod::POST => seq![
            RouteView { path: Paths::Files.pattern(), handler: Handler::PostFiles },
        ],
        _ => Seq::empty(),
    }
}

/// Builds the route table of a method.
pub fn routes(method: HttpMethod) -> (table: Vec<Route>)
    ensures
        route_views(table@) == routes_for(method),
{
    let mut table: Vec<Route> = Vec::new();
    match method {
        HttpMethod::GET => {
            table.push(Route { path: Paths::Root.as_str().to_owned(), handler: Handler::GetRoot });
            table.push(
                Route { path: Paths::UserAgent.as_str().to_owned(), handler: Handler::GetUserAgent },
            );
            table.push(Route { path: Paths::Echo.as_str().to_owned(), handler: Handler::GetEcho });
            table.push(
                Route { path: Paths::Files.as_str().to_owned(), handler: Handler::GetFiles },
            );
        },
        HttpMethod::POST => {
            table.push(
                Route { path: Paths::Files.as_str().to_owned(), handler: Handler::PostFiles },
            );
        },
        _ => {},
    }
    assert(route_views(table@) =~= routes_for(method));
    table
}

} // verus!
