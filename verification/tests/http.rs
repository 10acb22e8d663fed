use tesela::http::{capability_header, extract_actor, http_status, request_meta, ActorResolver};
use tesela::ports::Actor;
use tesela::primitives::{Error, StringMap};
use tesela::runtime::RequestMeta;

fn headers(pairs: &[(&str, Option<&str>)]) -> Vec<(String, Option<String>)> {
    pairs.iter().map(|(k, v)| (k.to_string(), v.map(|s| s.to_string()))).collect()
}

#[test]
fn errors_map_to_statuses() {
    let m = || "m".to_string();
    assert_eq!(http_status(&Error::Validation { message: m() }), 400);
    assert_eq!(http_status(&Error::BadRequest { message: m() }), 400);
    assert_eq!(http_status(&Error::NotFound { kind: m(), key: m() }), 404);
    assert_eq!(http_status(&Error::PolicyDenied { message: m() }), 403);
    assert_eq!(http_status(&Error::Unauthorized { message: m() }), 401);
    assert_eq!(http_status(&Error::Conflict { message: m() }), 409);
    assert_eq!(http_status(&Error::Unsupported { message: m() }), 501);
    assert_eq!(http_status(&Error::Internal { message: m() }), 500);
}

#[test]
fn request_meta_reads_the_known_headers() {
    let hs = headers(&[
        ("authorization", Some("Bearer abc")),
        ("x-tesela-workspace", Some("acme")),
        ("x-correlation-id", Some("c-1")),
        ("x-custom", Some("one")),
        ("x-custom", Some("two")),
        ("x-binary", None),
    ]);
    let meta = request_meta(&hs);
    assert_eq!(meta.authorization.as_deref(), Some("Bearer abc"));
    assert_eq!(meta.workspace.as_deref(), Some("acme"));
    assert_eq!(meta.correlation_id.as_deref(), Some("c-1"));
    assert!(meta.remote_addr.is_none());
    assert_eq!(meta.headers.get("x-custom").map(|s| s.as_str()), Some("two"));
    assert!(meta.headers.get("x-binary").is_none());
    assert_eq!(meta.headers.len(), 4);
}

#[test]
fn first_header_value_counts() {
    let hs = headers(&[("authorization", None), ("authorization", Some("later"))]);
    assert!(request_meta(&hs).authorization.is_none());
    let caps = headers(&[("x-tesela-capability", Some("tok"))]);
    assert_eq!(capability_header(&caps).as_deref(), Some("tok"));
    assert!(capability_header(&hs).is_none());
}

struct Fixed;

impl ActorResolver for Fixed {
    fn resolve(&self, meta: &RequestMeta) -> Result<Actor, Error> {
        match &meta.authorization {
            Some(token) => Ok(Actor { user_id: token.clone(), roles: Vec::new(), claims: StringMap::new() }),
            None => Err(Error::Unauthorized { message: "no token".to_string() }),
        }
    }
}

#[test]
fn actors_need_a_resolver() {
    let hs = headers(&[("authorization", Some("alice"))]);
    let err = extract_actor(None, &hs).unwrap_err();
    assert_eq!(err.text(), "unauthorized: actor resolver is required");
    let actor = extract_actor(Some(&Fixed as &dyn ActorResolver), &hs).unwrap();
    assert_eq!(actor.user_id, "alice");
}
