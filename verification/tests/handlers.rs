use link_shorter::serve::{handle_put, handle_resolve, handle_resolve_at, random_path, resolve_path, ApiError, ShorterArguments};
use link_shorter::shorter::ShorterStore;
use link_shorter::token::TokenStore;

fn args(token: &str, path: Option<&str>, url: &str, seconds: Option<i64>) -> ShorterArguments {
    ShorterArguments {
        token: token.to_string(),
        path: path.map(|p| p.to_string()),
        url: url.to_string(),
        seconds,
    }
}

#[test]
fn create_and_resolve_roundtrip() {
    let mut tokens = TokenStore::new();
    tokens.add_token("validtoken", None);
    let mut shorters = ShorterStore::new();

    let body = handle_put(
        &tokens,
        &mut shorters,
        Some("short.ly"),
        args("validtoken", None, "http%3A%2F%2Fexample.com", None),
    )
    .expect("authorized create succeeds");

    let prefix = "http://short.ly/";
    assert!(body.starts_with(prefix), "unexpected body: {}", body);
    let path = &body[prefix.len()..];
    assert_eq!(path.len(), 8);
    assert!(path.chars().all(|c| c.is_ascii_alphanumeric()));

    let url = handle_resolve(&shorters, path).expect("fresh path resolves");
    assert_eq!(url, "http://example.com");
}

#[test]
fn create_with_explicit_path_echoes_it() {
    let mut tokens = TokenStore::new();
    tokens.add_token("validtoken", None);
    let mut shorters = ShorterStore::new();

    let body = handle_put(
        &tokens,
        &mut shorters,
        Some("short.ly"),
        args("validtoken", Some("custom"), "http%3A%2F%2Fexample.com%2Fa%20b", None),
    )
    .expect("authorized create succeeds");
    assert_eq!(body, "http://short.ly/custom");

    let url = handle_resolve(&shorters, "custom").expect("resolves");
    assert_eq!(url, "http://example.com/a b");
}

#[test]
fn create_with_empty_path_generates_one() {
    let mut tokens = TokenStore::new();
    tokens.add_token("validtoken", None);
    let mut shorters = ShorterStore::new();

    let body = handle_put(
        &tokens,
        &mut shorters,
        Some("short.ly"),
        args("validtoken", Some(""), "http%3A%2F%2Fexample.com", None),
    )
    .expect("authorized create succeeds");
    let path = &body["http://short.ly/".len()..];
    assert_eq!(path.len(), 8);
}

#[test]
fn resolve_unknown_path_is_not_found() {
    let shorters = ShorterStore::new();
    assert_eq!(handle_resolve(&shorters, "nonexistent"), Err(ApiError::NotFound));
    assert_eq!(handle_resolve_at(&shorters, "nonexistent", 0), Err(ApiError::NotFound));
}

#[test]
fn create_with_bad_token_is_unauthorized() {
    let mut tokens = TokenStore::new();
    tokens.add_token("validtoken", None);
    let mut shorters = ShorterStore::new();

    let r = handle_put(
        &tokens,
        &mut shorters,
        Some("short.ly"),
        args("badtoken", None, "http%3A%2F%2Fexample.com", None),
    );
    assert_eq!(r, Err(ApiError::Unauthorized));
    // Nothing was stored.
    assert!(shorters.get_shorter("badtoken").is_none());
}

#[test]
fn create_with_expired_token_is_unauthorized() {
    let mut tokens = TokenStore::new();
    tokens.add_token("stale", Some(-1));
    let mut shorters = ShorterStore::new();

    let r = handle_put(
        &tokens,
        &mut shorters,
        Some("short.ly"),
        args("stale", None, "http%3A%2F%2Fexample.com", None),
    );
    assert_eq!(r, Err(ApiError::Unauthorized));
}

#[test]
fn create_without_host_is_bad_request() {
    let mut tokens = TokenStore::new();
    tokens.add_token("validtoken", None);
    let mut shorters = ShorterStore::new();

    let r = handle_put(
        &tokens,
        &mut shorters,
        None,
        args("validtoken", None, "http%3A%2F%2Fexample.com", None),
    );
    assert_eq!(r, Err(ApiError::BadRequest));
}

#[test]
fn create_with_unusable_host_is_bad_request() {
    let mut tokens = TokenStore::new();
    tokens.add_token("validtoken", None);
    let mut shorters = ShorterStore::new();

    let r = handle_put(
        &tokens,
        &mut shorters,
        Some(""),
        args("validtoken", None, "http%3A%2F%2Fexample.com", None),
    );
    assert_eq!(r, Err(ApiError::BadRequest));
}

#[test]
fn create_with_undecodable_url_is_bad_request() {
    let mut tokens = TokenStore::new();
    tokens.add_token("validtoken", None);
    let mut shorters = ShorterStore::new();

    // %C3%28 decodes to bytes that are not valid UTF-8.
    let r = handle_put(
        &tokens,
        &mut shorters,
        Some("short.ly"),
        args("validtoken", None, "%C3%28", None),
    );
    assert_eq!(r, Err(ApiError::BadRequest));
}

#[test]
fn create_with_empty_url_is_bad_request() {
    let mut tokens = TokenStore::new();
    tokens.add_token("validtoken", None);
    let mut shorters = ShorterStore::new();

    let r = handle_put(
        &tokens,
        &mut shorters,
        Some("short.ly"),
        args("validtoken", None, "", None),
    );
    assert_eq!(r, Err(ApiError::BadRequest));
    // The token check comes first: a bad token outranks a bad URL.
    let r2 = handle_put(
        &tokens,
        &mut shorters,
        Some("short.ly"),
        args("badtoken", None, "", None),
    );
    assert_eq!(r2, Err(ApiError::Unauthorized));
}

#[test]
fn create_that_cannot_render_is_internal() {
    let mut tokens = TokenStore::new();
    tokens.add_token("validtoken", None);
    let mut shorters = ShorterStore::new();

    // An explicit path that cannot be joined onto the host (an unclosed
    // IPv6 bracket makes the join fail): the row is stored, but echoing the
    // absolute link fails with an internal error.
    let r = handle_put(
        &tokens,
        &mut shorters,
        Some("short.ly"),
        args("validtoken", Some("http://["), "http%3A%2F%2Fexample.com", None),
    );
    assert_eq!(r, Err(ApiError::Internal));
    assert!(shorters.locate_shorter("http://[").is_some());
}

#[test]
fn created_mapping_expires() {
    let mut tokens = TokenStore::new();
    tokens.add_token("validtoken", None);
    let mut shorters = ShorterStore::new();

    // A one-second lifetime: resolvable now, gone once the second has passed.
    let body = handle_put(
        &tokens,
        &mut shorters,
        Some("short.ly"),
        args("validtoken", Some("custom"), "http%3A%2F%2Fexample.com", Some(1)),
    )
    .expect("authorized create succeeds");
    assert_eq!(body, "http://short.ly/custom");
    assert!(handle_resolve(&shorters, "custom").is_ok());

    let stored = shorters.locate_shorter("custom").expect("stored");
    let expiry = stored.ttl.expect("has an expiry");
    assert_eq!(handle_resolve_at(&shorters, "custom", expiry - 1), Ok("http://example.com".to_string()));
    assert_eq!(handle_resolve_at(&shorters, "custom", expiry), Err(ApiError::NotFound));
    assert_eq!(handle_resolve_at(&shorters, "custom", expiry + 2_000_000), Err(ApiError::NotFound));
}

#[test]
fn random_path_is_eight_alphanumerics() {
    let p = random_path(8);
    assert_eq!(p.len(), 8);
    assert!(p.chars().all(|c| c.is_ascii_alphanumeric()));
    let q = random_path(20);
    assert_eq!(q.len(), 20);
}

#[test]
fn resolve_path_prefers_the_explicit_path() {
    assert_eq!(resolve_path(Some("keep".to_string())), "keep");
    let generated = resolve_path(Some(String::new()));
    assert_eq!(generated.len(), 8);
    let generated2 = resolve_path(None);
    assert_eq!(generated2.len(), 8);
    assert!(generated2.chars().all(|c| c.is_ascii_alphanumeric()));
}
