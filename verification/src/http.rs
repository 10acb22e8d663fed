//! Decisions of the HTTP boundary: the status an error is answered with,
//! the request metadata read from the headers, and who the caller is.

use vstd::prelude::*;
use crate::ports::Actor;
use crate::primitives::{str_eq, Error, ErrorView, StringMap};
use crate::runtime::RequestMeta;

verus! {

/// Request body limit when none is configured: four MiB.
pub const DEFAULT_MAX_BODY_BYTES: usize = 4194304;

/// Request timeout in seconds when none is configured.
pub const DEFAULT_REQUEST_TIMEOUT_SECS: u64 = 30;

/// Header naming the bearer credentials.
pub const AUTHORIZATION_HEADER: &'static str = "authorization";

/// Header overriding the workspace.
pub const WORKSPACE_HEADER: &'static str = "x-tesela-workspace";

/// Header carrying a correlation id.
pub const CORRELATION_HEADER: &'static str = "x-correlation-id";

/// Header carrying a capability token.
pub const CAPABILITY_HEADER: &'static str = "x-tesela-capability";

/// The HTTP status an error is answered with.
pub open spec fn status_of(error: ErrorView) -> u16 {
    match error {
        ErrorView::Validation(_) => 400,
        ErrorView::BadRequest(_) => 400,
        ErrorView::NotFound(_, _) => 404,
        ErrorView::PolicyDenied(_) => 403,
        ErrorView::Unauthorized(_) => 401,
        ErrorView::Conflict(_) => 409,
        ErrorView::Unsupported(_) => 501,
        ErrorView::Internal(_) => 500,
    }
}

/// The HTTP status `error` is answered with.
pub fn http_status(error: &Error) -> (result: u16)
    ensures
        result == status_of(error@),
{
    match error {
        Error::Validation { .. } => 400,
        Error::BadRequest { .. } => 400,
        Error::NotFound { .. } => 404,
        Error::PolicyDenied { .. } => 403,
        Error::Unauthorized { .. } => 401,
        Error::Conflict { .. } => 409,
        Error::Unsupported { .. } => 501,
        Error::Internal { .. } => 500,
    }
}

/// Headers as plain values: each name, lower case, with its value when the
/// value is visible text.
pub open spec fn header_views(headers: Seq<(String, Option<String>)>) -> Seq<(Seq<char>, Option<Seq<char>>)> {
    headers.map_values(
        |h: (String, Option<String>)|
            (
                h.0@,
                match h.1 {
                    Some(v) => Some(v@),
                    None => None,
                },
            ),
    )
}

/// The value of the first header named `name`, when it is visible text.
pub open spec fn first_value(headers: Seq<(Seq<char>, Option<Seq<char>>)>, name: Seq<char>) -> Option<Seq<char>>
    decreases headers.len(),
{
    if headers.len() == 0 {
        None
    } else if headers[0].0 == name {
        headers[0].1
    } else {
        first_value(headers.drop_first(), name)
    }
}

/// All headers with visible text as a map, a later header winning over an
/// earlier one of the same name.
pub open spec fn header_map(headers: Seq<(Seq<char>, Option<Seq<char>>)>) -> Map<Seq<char>, Seq<char>>
    decreases headers.len(),
{
    if headers.len() == 0 {
        Map::empty()
    } else {
        let rest = header_map(headers.drop_last());
        match headers.last().1 {
            Some(v) => rest.insert(headers.last().0, v),
            None => rest,
        }
    }
}

/// The value of the first header named `name`, when it is visible text.
pub fn header_value(headers: &Vec<(String, Option<String>)>, name: &str) -> (result: Option<String>)
    ensures
        match result {
            Some(v) => first_value(header_views(headers@), name@) == Some(v@),
            None => first_value(header_views(headers@), name@) is None,
        },
{
    let ghost hs = header_views(headers@);
    let mut i: usize = 0;
    proof {
        assert(hs.subrange(0, hs.len() as int) =~= hs);
    }
    while i < headers.len()
        invariant
            i <= headers@.len(),
            hs == header_views(headers@),
            first_value(hs, name@) == first_value(hs.subrange(i as int, hs.len() as int), name@),
        decreases headers@.len() - i,
    {
        proof {
            let tail = hs.subrange(i as int, hs.len() as int);
            assert(tail.drop_first() =~= hs.subrange(i + 1, hs.len() as int));
            assert(tail[0] == hs[i as int]);
        }
        if str_eq(headers[i].0.as_str(), name) {
            return headers[i].1.clone();
        }
        i = i + 1;
    }
    proof {
        assert(hs.subrange(i as int, hs.len() as int).len() == 0);
    }
    None
}

/// The metadata of a request with `headers`: its credentials, workspace
/// override and correlation id from their headers, and every header with
/// visible text; the remote address is not known here.
pub fn request_meta(headers: &Vec<(String, Option<String>)>) -> (result: RequestMeta)
    ensures
        ({
            let hs = header_views(headers@);
            &&& opt_view(result.authorization) == first_value(hs, AUTHORIZATION_HEADER@)
            &&& result.headers.wf()
            &&& string_map_view(result.headers) == header_map(hs)
            &&& result.remote_addr is None
            &&& opt_view(result.workspace) == first_value(hs, WORKSPACE_HEADER@)
            &&& opt_view(result.correlation_id) == first_value(hs, CORRELATION_HEADER@)
        }),
{
    let ghost hs = header_views(headers@);
    let mut all: StringMap<String> = StringMap::new();
    let mut i: usize = 0;
    proof {
        assert(string_map_view(all) =~= header_map(hs.take(0)));
    }
    while i < headers.len()
        invariant
            i <= headers@.len(),
            hs == header_views(headers@),
            all.wf(),
            string_map_view(all) == header_map(hs.take(i as int)),
        decreases headers@.len() - i,
    {
        proof {
            assert(hs.take(i + 1).drop_last() =~= hs.take(i as int));
            assert(hs.take(i + 1).last() == hs[i as int]);
        }
        match &headers[i].1 {
            Some(v) => {
                all.insert(headers[i].0.clone(), v.clone());
                proof {
                    assert(string_map_view(all) =~= header_map(hs.take(i + 1)));
                }
            },
            None => {},
        }
        i = i + 1;
    }
    proof {
        assert(hs.take(i as int) =~= hs);
    }
    RequestMeta {
        authorization: header_value(headers, AUTHORIZATION_HEADER),
        headers: all,
        remote_addr: None,
        workspace: header_value(headers, WORKSPACE_HEADER),
        correlation_id: header_value(headers, CORRELATION_HEADER),
    }
}

/// The capability token a request carries, if any.
pub fn capability_header(headers: &Vec<(String, Option<String>)>) -> (result: Option<String>)
    ensures
        opt_view(result) == first_value(header_views(headers@), CAPABILITY_HEADER@),
{
    header_value(headers, CAPABILITY_HEADER)
}

/// View of optional text.
pub open spec fn opt_view(t: Option<String>) -> Option<Seq<char>> {
    match t {
        Some(s) => Some(s@),
        None => None,
    }
}

/// View of a map of texts.
pub open spec fn string_map_view(m: StringMap<String>) -> Map<Seq<char>, Seq<char>> {
    m.as_map().map_values(|v: String| v@)
}

/// Identifies the caller of a request from its metadata.
pub trait ActorResolver {
    /// The actor behind a request.
    fn resolve(&self, meta: &RequestMeta) -> Result<Actor, Error>;
}

/// The actor behind a request with `headers`: the resolver's answer on the
/// request's metadata; without a resolver, an unauthorized error.
pub fn extract_actor(resolver: Option<&dyn ActorResolver>, headers: &Vec<(String, Option<String>)>) -> (result: Result<
    Actor,
    Error,
>)
    ensures
        resolver is None ==> (result matches Err(e) && e@ == ErrorView::Unauthorized("actor resolver is required"@)),
{
    let meta = request_meta(headers);
    match resolver {
        Some(r) => r.resolve(&meta),
        None => Err(Error::Unauthorized { message: "actor resolver is required".to_owned() }),
    }
}

} // verus!
