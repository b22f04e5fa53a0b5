//! What a connection does with a parsed request: serve it from the cache, or
//! forward it to the origin and cache what comes back.
//!
//! The fetch from the origin is network I/O and is made by the caller, between
//! `begin` and `finish`: `begin` parses the request and consults the cache,
//! and either yields the response or asks for a fetch; `finish` takes what the
//! fetch gave, caches it and yields the response.
use vstd::prelude::*;
use crate::cache::ResponseCache;
use crate::request::{get_path, lines_view, request_path};
use crate::response::{error_response, error_response_bytes, ok_response, send_response};

verus! {

/// Why a fetch from the origin failed; `cause` describes the underlying error.
pub struct ForwardFailure {
    pub cause: String,
}

/// What a connection does once the cache has been consulted.
pub enum Step {
    /// Write these bytes to the client; nothing more to do.
    Respond(Vec<u8>),
    /// Fetch `url` from the origin, then hand the outcome to `finish` with `path`.
    Forward { path: String, url: String },
}

/// The mathematical form of a [`Step`].
pub enum Decision {
    Respond(Seq<u8>),
    Forward(Seq<char>, Seq<char>),
}

impl View for Step {
    type V = Decision;

    open spec fn view(&self) -> Decision {
        match self {
            Step::Respond(b) => Decision::Respond(b@),
            Step::Forward { path, url } => Decision::Forward(path@, url@),
        }
    }
}

/// What comes after looking `path` up and finding `cached`: a hit is served
/// as it is, a miss is forwarded to `origin + path`.
pub open spec fn decide(origin: Seq<char>, path: Seq<char>, cached: Option<Seq<u8>>) -> Decision {
    match cached {
        Some(body) => Decision::Respond(ok_response(body, true)),
        None => Decision::Forward(path, origin + path),
    }
}

/// What to cache and what to send once the origin answered `fetched` for
/// `path` (`None`: the origin could not be reached).
pub open spec fn conclude(path: Seq<char>, fetched: Option<Seq<u8>>) -> (
    Option<(Seq<char>, Seq<u8>)>,
    Seq<u8>,
) {
    match fetched {
        Some(body) => (Some((path, body)), ok_response(body, false)),
        None => (None, error_response()),
    }
}

/// The bytes of a cached body, if there is one.
pub open spec fn body_of(cached: Option<Vec<u8>>) -> Option<Seq<u8>> {
    match cached {
        Some(b) => Some(b@),
        None => None,
    }
}

/// The body that a fetch gave, or `None` where it failed.
pub open spec fn fetched_body(fetched: Result<Vec<u8>, ForwardFailure>) -> Option<Seq<u8>> {
    match fetched {
        Ok(b) => Some(b@),
        Err(_) => None,
    }
}

/// The URL fetched for `path`: the origin base and the path, joined as they are.
pub fn forward_url(origin: &str, path: &str) -> (r: String)
    ensures
        r@ == origin@ + path@,
{
    String::from_str(origin).concat(path)
}

/// The step that follows looking `path` up, where the cache gave `cached`.
pub fn after_lookup(origin: &str, path: String, cached: Option<Vec<u8>>) -> (r: Step)
    ensures
        r@ == decide(
            origin@,
            path@,
            body_of(cached),
        ),
{
    match cached {
        Some(body) => Step::Respond(send_response(body, true)),
        None => {
            let url = forward_url(origin, path.as_str());
            Step::Forward { path, url }
        },
    }
}

/// Parses the request head `lines`, consults the cache unless the path is
/// empty, and says what to do next.
pub fn begin(cache: &ResponseCache, origin: &str, lines: &Vec<String>) -> (r: Step)
    ensures
        ({
            let path = request_path(lines_view(lines@));
            &&& path.len() == 0 ==> r@ == decide(origin@, path, None)
            &&& path.len() > 0 ==> r@ == decide(origin@, path, None) || exists|b: Seq<u8>|
                r@ == decide(origin@, path, Some(b))
        }),
{
    let path = get_path(lines);
    let cached = if path.as_str().unicode_len() == 0 {
        None
    } else {
        cache.lookup(&path)
    };
    let ghost seen = body_of(cached);
    let r = after_lookup(origin, path, cached);
    proof {
        if let Some(b) = seen {
            assert(r@ == decide(origin@, request_path(lines_view(lines@)), Some(b)));
        }
    }
    r
}

/// What to cache and what to send once the origin answered `fetched`.
pub fn after_forward(path: String, fetched: Result<Vec<u8>, ForwardFailure>) -> (r: (
    Option<(String, Vec<u8>)>,
    Vec<u8>,
))
    ensures
        ({
            let (store, response) = conclude(
                path@,
                fetched_body(fetched),
            );
            &&& r.1@ == response
            &&& match r.0 {
                Some((k, v)) => store == Some((k@, v@)),
                None => store is None,
            }
        }),
{
    match fetched {
        Ok(body) => {
            let stored = body.clone();
            assert(stored@ =~= body@);
            (Some((path, stored)), send_response(body, false))
        },
        Err(_) => (None, error_response_bytes()),
    }
}

/// Caches what the origin answered for `path`, if it answered, and gives the
/// response to send.
pub fn finish(cache: &ResponseCache, path: String, fetched: Result<Vec<u8>, ForwardFailure>) -> (r:
    Vec<u8>)
    ensures
        r@ == conclude(
            path@,
            fetched_body(fetched),
        ).1,
{
    let (store, response) = after_forward(path, fetched);
    if let Some((key, body)) = store {
        cache.insert(key, body);
    }
    response
}


/// One connection for `path`, against a cache that holds `m` while it runs:
/// the cache state after it and the response it sends. `fetched` is what the
/// origin would answer (`None`: unreachable); it matters only on a miss.
pub open spec fn serve(
    m: Map<Seq<char>, Seq<u8>>,
    origin: Seq<char>,
    path: Seq<char>,
    fetched: Option<Seq<u8>>,
) -> (Map<Seq<char>, Seq<u8>>, Seq<u8>) {
    let cached = if path.len() > 0 && m.contains_key(path) {
        Some(m[path])
    } else {
        None
    };
    match decide(origin, path, cached) {
        Decision::Respond(response) => (m, response),
        Decision::Forward(p, _) => {
            let (store, response) = conclude(p, fetched);
            (
                match store {
                    Some((k, v)) => m.insert(k, v),
                    None => m,
                },
                response,
            )
        },
    }
}

/// Asking twice for a path that is not cached, with the origin reachable: the
/// first answer is a miss that caches the body, the second a hit with the same
/// body, whatever the origin would answer then.
pub proof fn lemma_second_request_hits(
    m: Map<Seq<char>, Seq<u8>>,
    origin: Seq<char>,
    path: Seq<char>,
    body: Seq<u8>,
    later: Option<Seq<u8>>,
)
    requires
        path.len() > 0,
        !m.contains_key(path),
    ensures
        serve(m, origin, path, Some(body)) == (m.insert(path, body), ok_response(body, false)),
        serve(m.insert(path, body), origin, path, later) == (
            m.insert(path, body),
            ok_response(body, true),
        ),
{
    assert(m.insert(path, body).contains_key(path));
}

/// What is cached under another path never changes the response for `a`.
pub proof fn lemma_cache_isolation(
    m: Map<Seq<char>, Seq<u8>>,
    origin: Seq<char>,
    a: Seq<char>,
    b: Seq<char>,
    x: Seq<u8>,
    fetched: Option<Seq<u8>>,
)
    requires
        a != b,
    ensures
        serve(m.insert(b, x), origin, a, fetched).1 == serve(m, origin, a, fetched).1,
{
    assert(m.insert(b, x).contains_key(a) == m.contains_key(a));
    if m.contains_key(a) {
        assert(m.insert(b, x)[a] == m[a]);
    }
}

/// An empty path is never looked up: the response depends on the origin alone.
pub proof fn lemma_empty_path_skips_cache(
    m: Map<Seq<char>, Seq<u8>>,
    origin: Seq<char>,
    fetched: Option<Seq<u8>>,
)
    ensures
        serve(m, origin, Seq::empty(), fetched).1 == conclude(Seq::empty(), fetched).1,
{
}

/// A miss while the origin is unreachable sends exactly the error response and
/// leaves the cache as it was.
pub proof fn lemma_unreachable_origin(
    m: Map<Seq<char>, Seq<u8>>,
    origin: Seq<char>,
    path: Seq<char>,
)
    requires
        !(path.len() > 0 && m.contains_key(path)),
    ensures
        serve(m, origin, path, None) == (m, error_response()),
{
}

} // verus!
