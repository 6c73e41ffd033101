//! Which response a request gets, decided from its method and path.

use vstd::prelude::*;

verus! {

/// The request methods that matter here; every other one is `Other`.
#[derive(PartialEq, Eq, Structural, Clone, Copy, Debug)]
pub enum RequestMethod {
    Get,
    Head,
    Options,
    Other,
}

/// What to answer a request with.
#[derive(PartialEq, Eq, Structural, Clone, Copy, Debug)]
pub enum Route {
    /// 405: only GET, HEAD and OPTIONS are served.
    MethodNotAllowed,
    /// The HTML landing page, at `/`.
    Landing,
    /// 400: `/robo/` with nothing after it.
    MissingInput,
    /// A robot avatar of the path's bytes from `start` on.
    Robo { start: usize },
    /// An identicon of the whole path.
    Identicon,
}

/// The bytes of `/robo/`.
pub open spec fn robo_prefix() -> Seq<u8> {
    seq![47u8, 114, 111, 98, 111, 47]
}

/// The route of a request with method `m` and path `path`.
pub open spec fn route_spec(m: RequestMethod, path: Seq<u8>) -> Route {
    if m == RequestMethod::Other {
        Route::MethodNotAllowed
    } else if path == seq![47u8] {
        Route::Landing
    } else if path.len() >= 6 && path.subrange(0, 6) == robo_prefix() {
        if path.len() == 6 {
            Route::MissingInput
        } else {
            Route::Robo { start: 6 }
        }
    } else {
        Route::Identicon
    }
}

/// Decides the route of a request from its method and the bytes of its path.
pub fn route(method: RequestMethod, path: &[u8]) -> (r: Route)
    ensures
        r == route_spec(method, path@),
{
    if method == RequestMethod::Other {
        return Route::MethodNotAllowed;
    }
    if path.len() == 1 && path[0] == 47u8 {
        assert(path@ =~= seq![47u8]);
        return Route::Landing;
    }
    assert(path@ != seq![47u8] ==> !(path@.len() == 1 && path@[0] == 47u8));
    if path.len() >= 6 && path[0] == 47u8 && path[1] == 114u8 && path[2] == 111u8 && path[3]
        == 98u8 && path[4] == 111u8 && path[5] == 47u8 {
        assert(path@.subrange(0, 6) =~= robo_prefix());
        if path.len() == 6 {
            Route::MissingInput
        } else {
            Route::Robo { start: 6 }
        }
    } else {
        assert(path@.len() >= 6 ==> path@.subrange(0, 6)[0] == path@[0] && path@.subrange(0, 6)[1]
            == path@[1] && path@.subrange(0, 6)[2] == path@[2] && path@.subrange(0, 6)[3]
            == path@[3] && path@.subrange(0, 6)[4] == path@[4] && path@.subrange(0, 6)[5]
            == path@[5]);
        Route::Identicon
    }
}

} // verus!
