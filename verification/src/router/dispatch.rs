//! Dispatch: from a request to the handler of the first route that fits,
//! and from a failed dispatch to a 500 response.

use crate::http::code::HttpCode;
use crate::http::method::HttpMethod;
use crate::params::Params;
use crate::request::{Request, RequestView};
use crate::router::handlers::{
    body_in_bounds, byte_length, echo_outcome, get_files_outcome, handle_get_echo,
    handle_get_files, handle_get_root, handle_get_user_agent, handle_post_files,
    post_files_outcome, reply, root_reply, send_bare, user_agent_reply, wants_gzip,
};
use crate::router::models::{
    outcome, route_views, routes, routes_for, Action, ActionView, Handler, Paths, RouteReturn,
    RouteView, RouterError,
};
use crate::url::match_params;
use vstd::prelude::*;

verus! {

/// The place of the first route, at or after `from`, whose pattern the path
/// fits.
pub open spec fn first_fit(table: Seq<RouteView>, path: Seq<char>, from: int) -> Option<int>
    decreases table.len() - from,
{
    if from < 0 || from >= table.len() {
        None
    } else if match_params(path, table[from].path) is Some {
        Some(from)
    } else {
        first_fit(table, path, from + 1)
    }
}

/// What `first_fit` returns is the first route that fits: the path fits its
/// pattern and fits the pattern of no route before it.
pub proof fn lemma_first_fit(table: Seq<RouteView>, path: Seq<char>, from: int)
    requires
        0 <= from,
    ensures
        match first_fit(table, path, from) {
            Some(i) => from <= i < table.len() && match_params(path, table[i].path) is Some
                && forall|j: int| from <= j < i ==> match_params(path, #[trigger] table[j].path) is None,
            None => forall|j: int|
                from <= j < table.len() ==> match_params(path, #[trigger] table[j].path) is None,
        },
    decreases table.len() - from,
{
    if from < table.len() && match_params(path, table[from].path) is None {
        lemma_first_fit(table, path, from + 1);
    }
}

/// What the handler behind a route may answer.
pub open spec fn handler_outcome(
    handler: Handler,
    request: RequestView,
    params: Map<Seq<char>, Seq<char>>,
    directory: Seq<char>,
    r: Result<ActionView, RouterError>,
) -> bool {
    match handler {
        Handler::GetRoot => r == Ok::<ActionView, RouterError>(root_reply(request)),
        Handler::GetUserAgent => r == Ok::<ActionView, RouterError>(user_agent_reply(request)),
        Handler::GetEcho => echo_outcome(request, params, r),
        Handler::GetFiles => r == get_files_outcome(params, directory),
        Handler::PostFiles => r == post_files_outcome(request, params, directory),
    }
}

/// The answer to a request that no route serves: 404, no headers, no body.
pub open spec fn not_found_reply(request: RequestView) -> ActionView {
    send_bare(request.http_version, HttpCode::NotFound)
}

/// What dispatch may answer. A request without a method fails. A request
/// without a target, or whose path fits no pattern of its method's table,
/// gets 404. Any other request gets what the handler of the first fitting
/// route answers, given the parameters that the pattern binds.
pub open spec fn route_outcome(
    request: RequestView,
    directory: Seq<char>,
    r: Result<ActionView, RouterError>,
) -> bool {
    match request.method {
        None => r == Err::<ActionView, RouterError>(RouterError::NoMethod),
        Some(method) => match request.url {
            None => r == Ok::<ActionView, RouterError>(not_found_reply(request)),
            Some(url) => {
                let table = routes_for(method);
                match first_fit(table, url.path, 0) {
                    Some(i) => handler_outcome(
                        table[i].handler,
                        request,
                        match_params(url.path, table[i].path).unwrap(),
                        directory,
                        r,
                    ),
                    None => r == Ok::<ActionView, RouterError>(not_found_reply(request)),
                }
            },
        },
    }
}

/// The request is one that stores a file: a POST whose path fits the files
/// pattern.
pub open spec fn stores_file(request: RequestView) -> bool {
    &&& request.method == Some(HttpMethod::POST)
    &&& request.url matches Some(url)
    &&& match_params(url.path, Paths::Files.pattern()) is Some
}

/// The request can be dispatched: if it stores a file, its body lies within
/// its last line.
pub open spec fn dispatchable(request: RequestView) -> bool {
    stores_file(request) ==> body_in_bounds(request)
}

/// Calls the handler that a route names.
fn call_handler(handler: Handler, request: &Request, params: Params, directory: &str) -> (r:
    RouteReturn)
    requires
        handler == Handler::PostFiles && params@.contains_key("file_name"@) ==> body_in_bounds(
            request@,
        ),
    ensures
        handler_outcome(handler, request@, params@, directory@, outcome(r)),
{
    match handler {
        Handler::GetRoot => handle_get_root(request, params),
        Handler::GetUserAgent => handle_get_user_agent(request, params),
        Handler::GetEcho => handle_get_echo(request, params),
        Handler::GetFiles => handle_get_files(request, params, directory),
        Handler::PostFiles => handle_post_files(request, params, directory),
    }
}

/// Dispatches a request: the first route of its method's table whose
/// pattern the path fits decides which handler answers.
///
/// The request must be one that `can_dispatch` accepts: a request that
/// stores a file but whose last line is shorter than its Content-Length has
/// no body to store.
pub fn handle_route(request: &Request, directory: &str) -> (r: RouteReturn)
    requires
        dispatchable(request@),
    ensures
        route_outcome(request@, directory@, outcome(r)),
{
    let method = match request.method {
        Some(method) => method,
        None => {
            return Err(RouterError::NoMethod);
        },
    };
    match &request.url {
        Some(url) => {
            let table = routes(method);
            let mut i: usize = 0;
            while i < table.len()
                invariant
                    i <= table.len(),
                    route_views(table@) == routes_for(method),
                    request.method == Some(method),
                    request.url == Some(*url),
                    dispatchable(request@),
                    first_fit(routes_for(method), url.path@, 0) == first_fit(
                        routes_for(method),
                        url.path@,
                        i as int,
                    ),
                decreases table.len() - i,
            {
                assert(route_views(table@)[i as int] == table@[i as int]@);
                match url.match_path(table[i].path.as_str()) {
                    Some(params) => {
                        return call_handler(table[i].handler, request, params, directory);
                    },
                    None => {},
                }
                i += 1;
            }
            Ok(reply(request, HttpCode::NotFound, None, None, None))
        },
        None => Ok(reply(request, HttpCode::NotFound, None, None, None)),
    }
}

/// Whether a request can be dispatched.
pub fn can_dispatch(request: &Request) -> (b: bool)
    ensures
        b == dispatchable(request@),
{
    let stores = match (&request.method, &request.url) {
        (Some(HttpMethod::POST), Some(url)) => url.match_path(Paths::Files.as_str()).is_some(),
        _ => false,
    };
    if !stores {
        return true;
    }
    match request.content_length {
        Some(length) => {
            let n = request.request.len();
            n > 0 && length <= byte_length(request.request[n - 1].as_str())
        },
        None => true,
    }
}

/// What is sent for the outcome of a dispatch: the action it gave, or 500
/// where it failed.
pub open spec fn settled(request: RequestView, r: Result<ActionView, RouterError>) -> ActionView {
    match r {
        Ok(action) => action,
        Err(_) => send_bare(request.http_version, HttpCode::InternalServerError),
    }
}

/// Turns a failed dispatch into a 500 response.
pub fn or_internal_error(request: &Request, result: RouteReturn) -> (a: Action)
    ensures
        a@ == settled(request@, outcome(result)),
{
    match result {
        Ok(action) => action,
        Err(_) => reply(request, HttpCode::InternalServerError, None, None, None),
    }
}

/// Decides what to do for a parsed request: the action that dispatch gives,
/// or a 500 response where dispatch fails. The request must be one that
/// `can_dispatch` accepts.
pub fn handle_connection(request: &Request, directory: &str) -> (a: Action)
    requires
        dispatchable(request@),
    ensures
        exists|r: Result<ActionView, RouterError>|
            route_outcome(request@, directory@, r) && a@ == settled(request@, r),
{
    let result = handle_route(request, directory);
    let ghost r = outcome(result);
    let a = or_internal_error(request, result);
    assert(route_outcome(request@, directory@, r) && a@ == settled(request@, r));
    a
}

/// A request whose method has no route table is answered with 404,
/// whatever its path.
pub proof fn lemma_method_without_routes(
    request: RequestView,
    directory: Seq<char>,
    r: Result<ActionView, RouterError>,
)
    requires
        request.method is Some,
        request.method != Some(HttpMethod::GET),
        request.method != Some(HttpMethod::POST),
        route_outcome(request, directory, r),
    ensures
        r == Ok::<ActionView, RouterError>(not_found_reply(request)),
        settled(request, r) == not_found_reply(request),
{
}

/// A request without a target is answered with 404, whatever its method.
pub proof fn lemma_missing_target(
    request: RequestView,
    directory: Seq<char>,
    r: Result<ActionView, RouterError>,
)
    requires
        request.method is Some,
        request.url is None,
        route_outcome(request, directory, r),
    ensures
        r == Ok::<ActionView, RouterError>(not_found_reply(request)),
{
}

/// A request without a method is not routed: dispatch fails, and what is
/// sent for the failure is a 500 without headers or body.
pub proof fn lemma_missing_method(
    request: RequestView,
    directory: Seq<char>,
    r: Result<ActionView, RouterError>,
)
    requires
        request.method is None,
        route_outcome(request, directory, r),
    ensures
        r == Err::<ActionView, RouterError>(RouterError::NoMethod),
        settled(request, r) == send_bare(request.http_version, HttpCode::InternalServerError),
{
}

/// The first route that fits wins: dispatch answers what the handler of
/// that route answers, and a route after it is never asked.
pub proof fn lemma_first_route_wins(
    request: RequestView,
    directory: Seq<char>,
    r: Result<ActionView, RouterError>,
    i: int,
)
    requires
        request.method is Some,
        request.url is Some,
        0 <= i < routes_for(request.method.unwrap()).len(),
        match_params(request.url.unwrap().path, routes_for(request.method.unwrap())[i].path)
            is Some,
        forall|j: int|
            0 <= j < i ==> match_params(
                request.url.unwrap().path,
                #[trigger] routes_for(request.method.unwrap())[j].path,
            ) is None,
        route_outcome(request, directory, r),
    ensures
        handler_outcome(
            routes_for(request.method.unwrap())[i].handler,
            request,
            match_params(
                request.url.unwrap().path,
                routes_for(request.method.unwrap())[i].path,
            ).unwrap(),
            directory,
            r,
        ),
{
    lemma_first_fit(routes_for(request.method.unwrap()), request.url.unwrap().path, 0);
}

/// Dispatch is a function of the request and the directory, except where
/// it compresses: two outcomes for one request that does not accept gzip
/// are the same.
pub proof fn lemma_dispatch_is_deterministic(
    request: RequestView,
    directory: Seq<char>,
    r1: Result<ActionView, RouterError>,
    r2: Result<ActionView, RouterError>,
)
    requires
        !wants_gzip(request),
        route_outcome(request, directory, r1),
        route_outcome(request, directory, r2),
    ensures
        r1 == r2,
{
}

} // verus!
