//! The inbound routes of the service and their statuses: a health check,
//! the two job endpoints, and a catch-all that answers 404.

use vstd::prelude::*;
use crate::bytes::ascii_seq;

verus! {

/// Where a request goes.
pub enum Route {
    /// `GET /healthz`: answered 200 with an empty body.
    Healthz,
    /// `POST /render`: the job is accepted and runs asynchronously.
    Render,
    /// `POST /preview`: answered with the expanded template.
    Preview,
    /// Anything else: answered 404.
    NotFound,
}

/// The routing table of the service.
pub open spec fn route_spec(method: Seq<u8>, path: Seq<u8>) -> Route {
    if method == ascii_seq("GET"@) && path == ascii_seq("/healthz"@) {
        Route::Healthz
    } else if method == ascii_seq("POST"@) && path == ascii_seq("/render"@) {
        Route::Render
    } else if method == ascii_seq("POST"@) && path == ascii_seq("/preview"@) {
        Route::Preview
    } else {
        Route::NotFound
    }
}

/// Compares a byte string against an ASCII string slice.
pub fn bytes_eq_lit(a: &[u8], s: &str) -> (r: bool)
    requires
        s.is_ascii(),
    ensures
        r <==> a@ == ascii_seq(s@),
{
    let b = s.as_bytes();
    proof {
        vstd::string::is_ascii_spec_bytes(s);
        assert(b@ =~= ascii_seq(s@));
    }
    if a.len() != b.len() {
        proof {
            if a@ == ascii_seq(s@) {
                assert(a@.len() == ascii_seq(s@).len());
            }
        }
        return false;
    }
    let n = a.len();
    let mut i: usize = 0;
    while i < n
        invariant
            0 <= i <= n,
            n == a@.len() == b@.len(),
            b@ == ascii_seq(s@),
            forall|j: int| 0 <= j < i ==> a@[j] == b@[j],
        decreases n - i,
    {
        if a[i] != b[i] {
            proof {
                if a@ == ascii_seq(s@) {
                    assert(a@[i as int] == b@[i as int]);
                }
            }
            return false;
        }
        i = i + 1;
    }
    proof {
        assert(a@ =~= b@);
    }
    true
}

/// Routes one request by its method and path.
pub fn route(method: &[u8], path: &[u8]) -> (r: Route)
    ensures
        r == route_spec(method@, path@),
{
    proof {
        reveal_strlit("GET");
        reveal_strlit("POST");
        reveal_strlit("/healthz");
        reveal_strlit("/render");
        reveal_strlit("/preview");
    }
    if bytes_eq_lit(method, "GET") && bytes_eq_lit(path, "/healthz") {
        Route::Healthz
    } else if bytes_eq_lit(method, "POST") && bytes_eq_lit(path, "/render") {
        Route::Render
    } else if bytes_eq_lit(method, "POST") && bytes_eq_lit(path, "/preview") {
        Route::Preview
    } else {
        Route::NotFound
    }
}

/// The HTTP status a route answers with before any job output: the health
/// check and both job endpoints answer 200, everything else 404.
pub open spec fn route_status_spec(r: Route) -> u16 {
    match r {
        Route::NotFound => 404,
        _ => 200,
    }
}

/// The HTTP status a route answers with.
pub fn route_status(r: &Route) -> (s: u16)
    ensures
        s == route_status_spec(*r),
{
    match r {
        Route::NotFound => 404,
        _ => 200,
    }
}

/// The body of the health check answer: empty.
pub fn healthz_body() -> (r: Vec<u8>)
    ensures
        r@.len() == 0,
{
    Vec::new()
}

} // verus!
