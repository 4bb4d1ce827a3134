//! The dispatch rule: which handler answers a request.

use crate::handler::{
    api_reply, first_segment, not_found_start, segment, static_start, ApiHandler, Handler,
    NotFoundHandler, StaticFileHandler, Step, StepView,
};
use crate::request::{Method, Request, RequestView, Resource};
use crate::text::{index_of, lemma_index_of_bounds, lemma_index_of_is, same_text};
use vstd::prelude::*;

verus! {

/// The handler that a request goes to.
#[derive(PartialEq, Eq, Debug, Clone, Copy, Structural)]
pub enum Route {
    Api,
    Static,
    NotFound,
}

/// The handler for a method and a path.
///
/// Only `GET` is served: any other method finds nothing. A path whose first
/// segment is `api` goes to the API, any other path to the files.
pub open spec fn route_of(method: Method, path: Seq<char>) -> Route {
    if method != Method::Get {
        Route::NotFound
    } else if segment(path) == Some("api"@) {
        Route::Api
    } else {
        Route::Static
    }
}

/// The first step for a request: the first step of the handler that it goes
/// to.
pub open spec fn dispatch(req: RequestView) -> StepView {
    match route_of(req.method, req.path) {
        Route::Api => api_reply(),
        Route::Static => static_start(req.path),
        Route::NotFound => not_found_start(),
    }
}

/// A request with a method other than `GET` finds nothing, whatever its
/// path.
pub proof fn lemma_other_methods_find_nothing(method: Method, path: Seq<char>)
    requires
        method != Method::Get,
    ensures
        route_of(method, path) == Route::NotFound,
{
}

/// A `GET` request for `/api`, or for anything below it, goes to the API.
pub proof fn lemma_get_api(rest: Seq<char>)
    ensures
        route_of(Method::Get, "/api"@) == Route::Api,
        route_of(Method::Get, "/api/"@ + rest) == Route::Api,
{
    reveal_strlit("/api");
    reveal_strlit("/api/");
    reveal_strlit("api");
    let short = "/api"@;
    lemma_index_of_is(short, '/', 0);
    let tail = short.skip(1);
    assert(tail =~= "api"@);
    lemma_index_of_is(tail, '/', 3);
    assert(tail.take(3) =~= "api"@);
    let long = "/api/"@ + rest;
    lemma_index_of_is(long, '/', 0);
    let after = long.skip(1);
    assert(after =~= "api/"@ + rest) by {
        reveal_strlit("api/");
    }
    assert(after[3] == '/');
    lemma_index_of_is(after, '/', 3);
    assert(after.take(3) =~= "api"@);
}

/// A `GET` request goes to the API only if `api` follows the first `/` of
/// its path and ends the path or is followed by a `/`; any other `GET`
/// request goes to the files.
pub proof fn lemma_get_elsewhere(path: Seq<char>)
    ensures
        route_of(Method::Get, path) == Route::Api || route_of(Method::Get, path) == Route::Static,
        route_of(Method::Get, path) == Route::Api ==> {
            let slash = index_of(path, '/') as int;
            &&& slash + 4 <= path.len()
            &&& path.subrange(slash + 1, slash + 4) == "api"@
            &&& (slash + 4 == path.len() || path[slash + 4] == '/')
        },
{
    if route_of(Method::Get, path) == Route::Api {
        reveal_strlit("api");
        let slash = index_of(path, '/') as int;
        lemma_index_of_bounds(path, '/');
        let rest = path.skip(slash + 1);
        lemma_index_of_bounds(rest, '/');
        let len = index_of(rest, '/') as int;
        assert(segment(path) == Some(rest.take(len)));
        assert(rest.take(len).len() == len);
        assert("api"@.len() == 3);
        assert(len == 3);
        assert(path.subrange(slash + 1, slash + 4) =~= rest.take(3));
        if slash + 4 < path.len() {
            assert(rest[3] == path[slash + 4]);
        }
    }
}

/// Sends each request to its handler.
pub struct Router;

impl Router {
    /// The handler that `req` goes to.
    pub fn select(req: &Request) -> (route: Route)
        ensures
            route == route_of(req@.method, req@.path),
    {
        if req.method != Method::Get {
            return Route::NotFound;
        }
        let path = match &req.resource {
            Resource::Path(path) => path.as_str(),
        };
        match first_segment(path) {
            Some(name) => {
                if same_text(name, "api") {
                    Route::Api
                } else {
                    Route::Static
                }
            },
            None => Route::Static,
        }
    }

    /// The first step for `req`, taken by the handler that it goes to.
    pub fn route(req: &Request) -> (step: Step)
        ensures
            step@ == dispatch(req@),
    {
        match Router::select(req) {
            Route::Api => ApiHandler::handle(req),
            Route::Static => StaticFileHandler::handle(req),
            Route::NotFound => NotFoundHandler::handle(req),
        }
    }
}

} // verus!
