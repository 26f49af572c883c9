//! The cookie-pinned catch-all: convenience rerouting of bare paths back
//! through the proxy, using the client-id cookie the proxy handler set.
//!
//! This is what lets a page served through the proxy resolve its relative
//! links without any body rewriting.
use vstd::prelude::*;
use vstd::string::StringExecFns;
use crate::messages::headers_view;
use crate::util::{get_query, query_string};

verus! {

/// How a bare-path request is answered.
#[derive(Debug)]
pub enum RouteDecision {
    /// A temporary redirect to this location.
    Redirect(String),
    /// Not found: the root path without a client-id cookie.
    NotFound,
    /// An empty success: a non-root path without a client-id cookie.
    Empty,
}

impl RouteDecision {
    /// The HTTP status the decision renders to.
    pub open spec fn spec_status(&self) -> u16 {
        match self {
            RouteDecision::Redirect(_) => 307,
            RouteDecision::NotFound => 404,
            RouteDecision::Empty => 200,
        }
    }

    /// The HTTP status the decision renders to.
    pub fn status_code(&self) -> (r: u16)
        ensures
            r == self.spec_status(),
    {
        match self {
            RouteDecision::Redirect(_) => 307,
            RouteDecision::NotFound => 404,
            RouteDecision::Empty => 200,
        }
    }
}

/// A path with its leading slashes dropped, so that splicing it after the
/// client id never doubles a slash.
pub open spec fn strip_slashes(p: Seq<char>) -> Seq<char>
    decreases p.len(),
{
    if p.len() > 0 && p[0] == '/' {
        strip_slashes(p.drop_first())
    } else {
        p
    }
}

proof fn lemma_strip_slashes(p: Seq<char>, i: int)
    requires
        0 <= i <= p.len(),
        forall|j: int| 0 <= j < i ==> p[j] == '/',
        i == p.len() || p[i] != '/',
    ensures
        strip_slashes(p) == p.skip(i),
    decreases i,
{
    if i == 0 {
        assert(p.skip(0) =~= p);
    } else {
        assert(p[0] == '/');
        assert(p.drop_first() =~= p.skip(1));
        lemma_strip_slashes(p.skip(1), i - 1);
        assert(p.skip(1).skip(i - 1) =~= p.skip(i));
    }
}

fn strip_leading_slashes(path: &String) -> (r: String)
    ensures
        r@ == strip_slashes(path@),
{
    let n = path.as_str().unicode_len();
    let mut i: usize = 0;
    while i < n && path.as_str().get_char(i) == '/'
        invariant
            i <= n,
            n == path@.len(),
            forall|j: int| 0 <= j < i ==> path@[j] == '/',
        decreases n - i,
    {
        i = i + 1;
    }
    proof {
        lemma_strip_slashes(path@, i as int);
    }
    let rest = path.as_str().substring_char(i, n);
    proof {
        assert(rest@ =~= path@.skip(i as int));
    }
    String::from_str(rest)
}

/// Where a cookie-pinned request to a bare path is redirected: through the
/// proxy route of the pinned client, with the path spliced in behind a
/// single slash and the query string kept.
pub open spec fn redirect_target(id: Seq<char>, path: Seq<char>, qs: Seq<char>) -> Seq<char> {
    "/proxy/"@ + id + (if strip_slashes(path).len() == 0 {
        Seq::<char>::empty()
    } else {
        "/"@ + strip_slashes(path)
    }) + qs
}

/// Answers a request to the root path: a temporary redirect to the pinned
/// client's proxy route when the client-id cookie is there, not found
/// otherwise.
pub fn root_handler(cookie_client_id: &Option<String>, params: Vec<(String, String)>) -> (r:
    RouteDecision)
    ensures
        match cookie_client_id {
            Some(id) => r matches RouteDecision::Redirect(loc) && loc@ == "/proxy/"@ + id@
                + query_string(headers_view(params@)),
            None => r is NotFound,
        },
{
    match cookie_client_id {
        Some(id) => {
            let qs = get_query(params);
            RouteDecision::Redirect(
                String::from_str("/proxy/").concat(id.as_str()).concat(qs.as_str()),
            )
        },
        None => RouteDecision::NotFound,
    }
}

/// Answers a request to any other bare path: a temporary redirect to the
/// pinned client's proxy route when the client-id cookie is there, an
/// empty success otherwise.
pub fn catch_all_handler(
    cookie_client_id: &Option<String>,
    path: &String,
    params: Vec<(String, String)>,
) -> (r: RouteDecision)
    ensures
        match cookie_client_id {
            Some(id) => r matches RouteDecision::Redirect(loc) && loc@ == redirect_target(
                id@,
                path@,
                query_string(headers_view(params@)),
            ),
            None => r is Empty,
        },
{
    match cookie_client_id {
        Some(id) => {
            let qs = get_query(params);
            let stripped = strip_leading_slashes(path);
            let mut loc = String::from_str("/proxy/").concat(id.as_str());
            if stripped.as_str().unicode_len() > 0 {
                loc = loc.concat("/").concat(stripped.as_str());
            }
            loc = loc.concat(qs.as_str());
            RouteDecision::Redirect(loc)
        },
        None => RouteDecision::Empty,
    }
}

} // verus!
