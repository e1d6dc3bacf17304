//! The HTTP-facing request logic: creating a mapping (host check, token
//! gating, percent-decoding, random path generation, replace-on-conflict
//! insert) and resolving one (expiry-aware lookup).  The surrounding server —
//! routing, listeners, extraction of headers and parameters — stays outside
//! this crate; these functions take and return plain values.

use vstd::prelude::*;

use rand::distributions::DistString;

use crate::shorter::{find_shorter, spec_get_shorter, ShorterStore};
use crate::token::{find_token, spec_token_allowed, TokenStore};
use crate::ttl::now_micros;

verus! {

/// How a request fails: surfaced by the server as 400, 401, 404 and 500.
#[derive(Clone, Copy, Debug, PartialEq, Eq, Structural)]
pub enum ApiError {
    BadRequest,
    Unauthorized,
    NotFound,
    Internal,
}

/// The parameters of a create request: the bearer token, an optional explicit
/// path, the percent-encoded target URL, and an optional duration in seconds.
pub struct ShorterArguments {
    pub token: String,
    pub path: Option<String>,
    pub url: String,
    pub seconds: Option<i64>,
}

/// The serve subcommand's configuration: the storage file and the listen
/// address.
pub struct ServeCommand {
    pub db: String,
    pub listen: String,
}

/// What `urlencoding::decode` returns for a given string: `None` exactly when
/// decoding fails (the decoded bytes are not valid UTF-8).
pub uninterp spec fn decoded(s: Seq<char>) -> Option<Seq<char>>;

/// Whether `http://<h>` is a parsable base URL for host `h`.
pub uninterp spec fn host_ok(h: Seq<char>) -> bool;

/// The absolute URL obtained by joining `path` onto the base `http://<host>`,
/// or `None` where parsing or joining fails.
pub uninterp spec fn absolute_link(host: Seq<char>, path: Seq<char>) -> Option<Seq<char>>;

/// Relies on `urlencoding::decode`: the result depends on the characters
/// alone, and decoding fails only when the decoded bytes are invalid UTF-8.
#[verifier::external_body]
fn percent_decode(s: &str) -> (r: Option<String>)
    ensures
        r is Some <==> decoded(s@) is Some,
        r matches Some(d) ==> d@ == decoded(s@).unwrap(),
{
    urlencoding::decode(s).ok().map(|c| c.into_owned())
}

/// Relies on `url::Url::parse`: whether the requesting host yields a usable
/// base URL depends on the host string alone.
#[verifier::external_body]
fn host_valid(host: &str) -> (r: bool)
    ensures
        r == host_ok(host@),
{
    url::Url::parse(&format!("http://{}", host)).is_ok()
}

/// Relies on `url::Url::parse` and `url::Url::join`: the rendered absolute
/// link depends on the host and path strings alone, and exists only where the
/// host itself parses.
#[verifier::external_body]
fn render_absolute(host: &str, path: &str) -> (r: Option<String>)
    ensures
        r is Some <==> absolute_link(host@, path@) is Some,
        r matches Some(l) ==> l@ == absolute_link(host@, path@).unwrap(),
        r is Some ==> host_ok(host@),
{
    let base = url::Url::parse(&format!("http://{}", host)).ok()?;
    let joined = base.join(path).ok()?;
    Some(joined.to_string())
}

/// An ASCII letter or digit: the alphabet of generated paths.
pub open spec fn is_path_char(c: char) -> bool {
    ('a' <= c && c <= 'z') || ('A' <= c && c <= 'Z') || ('0' <= c && c <= '9')
}

/// Relies on rand's `Alphanumeric::sample_string`: exactly `len` characters,
/// each an ASCII letter or digit.  Which ones come back is up to the
/// generator, so nothing more is stated.
#[verifier::external_body]
fn sample_alphanumeric(len: usize) -> (r: String)
    ensures
        r@.len() == len as int,
        forall|i: int| 0 <= i < r@.len() ==> is_path_char(#[trigger] r@[i]),
{
    rand::distributions::Alphanumeric.sample_string(&mut rand::thread_rng(), len)
}

/// A freshly generated path of `length` ASCII letters and digits.
pub fn random_path(length: usize) -> (r: String)
    ensures
        r@.len() == length as int,
        forall|i: int| 0 <= i < r@.len() ==> is_path_char(#[trigger] r@[i]),
{
    sample_alphanumeric(length)
}

/// The path a create request ends up using: the explicit one when present and
/// non-empty, otherwise a generated one of eight letters and digits.
pub fn resolve_path(path: Option<String>) -> (r: String)
    ensures
        path matches Some(p) ==> (p@.len() > 0 ==> r == p),
        (path is None || path.unwrap()@.len() == 0) ==> (r@.len() == 8 && forall|i: int|
            0 <= i < r@.len() ==> is_path_char(#[trigger] r@[i])),
{
    match path {
        Some(p) => {
            if p.as_str().is_empty() {
                random_path(8)
            } else {
                p
            }
        },
        None => random_path(8),
    }
}

/// The create request against an explicit clock value, with the path already
/// resolved.  In order: a token that is not allowed at `now` is unauthorized;
/// an undecodable or empty target URL is then a bad request; otherwise the
/// mapping is stored (replacing any row for that path) and the absolute link
/// under `host` is echoed back, a failure to render it being internal.  The
/// store changes only on the successful path, and only at `path`.
pub fn put_shorter_resolved(
    tokens: &TokenStore,
    shorters: &mut ShorterStore,
    host: &str,
    token: &str,
    path: &str,
    url_enc: &str,
    seconds: Option<i64>,
    now: i64,
) -> (r: Result<String, ApiError>)
    requires
        old(shorters).wf(),
    ensures
        final(shorters).wf(),
        forall|k: Seq<char>|
            k != path@ ==> #[trigger] find_shorter(final(shorters)@, k) == find_shorter(
                old(shorters)@,
                k,
            ),
        !spec_token_allowed(tokens@, token@, now) ==> r == Err::<String, ApiError>(
            ApiError::Unauthorized,
        ),
        spec_token_allowed(tokens@, token@, now) ==> (decoded(url_enc@) is None ==> r == Err::<
            String,
            ApiError,
        >(ApiError::BadRequest)),
        spec_token_allowed(tokens@, token@, now) ==> (decoded(url_enc@) matches Some(d) ==> (
        d.len() == 0 ==> r == Err::<String, ApiError>(ApiError::BadRequest))),
        spec_token_allowed(tokens@, token@, now) ==> (decoded(url_enc@) matches Some(d) ==> (
        d.len() > 0 ==> (find_shorter(final(shorters)@, path@) matches Some(s) && s.path@ == path@
            && s.url@ == d && s.ttl == crate::ttl::spec_expiry_of(now, seconds)) && (
        match absolute_link(host@, path@) {
            Some(l) => r matches Ok(b) && b@ == l,
            None => r == Err::<String, ApiError>(ApiError::Internal),
        }))),
        r == Err::<String, ApiError>(ApiError::Unauthorized) ==> final(shorters)@ == old(
            shorters,
        )@,
        r == Err::<String, ApiError>(ApiError::BadRequest) ==> final(shorters)@ == old(shorters)@,
{
    if !tokens.token_allowed_at(token, now) {
        return Err(ApiError::Unauthorized);
    }
    let url = match percent_decode(url_enc) {
        Some(u) => u,
        None => {
            return Err(ApiError::BadRequest);
        },
    };
    if url.as_str().is_empty() {
        return Err(ApiError::BadRequest);
    }
    shorters.insert_shorter_at(path, url.as_str(), seconds, now);
    match render_absolute(host, path) {
        Some(link) => Ok(link),
        None => Err(ApiError::Internal),
    }
}

/// The create request as the server runs it, at the current time: resolves
/// the path (random when absent or empty) and proceeds as
/// `put_shorter_resolved`.  An absent token is never authorized; a token
/// without expiry is allowed whatever the clock reads, so for it the outcome
/// is owed: a bad request exactly on an undecodable or empty target URL, and
/// otherwise the stored row and the echoed absolute link.  An error leaves
/// the store unchanged, and a success changes it at one path alone.
pub fn put_shorter_inner(
    tokens: &TokenStore,
    shorters: &mut ShorterStore,
    host: &str,
    args: ShorterArguments,
) -> (r: Result<String, ApiError>)
    requires
        old(shorters).wf(),
    ensures
        final(shorters).wf(),
        r == Err::<String, ApiError>(ApiError::BadRequest) ==> (decoded(args.url@) is None || (
        decoded(args.url@) matches Some(d) && d.len() == 0)) && final(shorters)@ == old(shorters)@,
        r == Err::<String, ApiError>(ApiError::Unauthorized) ==> (find_token(tokens@, args.token@)
            is None || (find_token(tokens@, args.token@) matches Some(t) && t.ttl is Some))
            && final(shorters)@ == old(shorters)@,
        find_token(tokens@, args.token@) is None ==> r == Err::<String, ApiError>(
            ApiError::Unauthorized,
        ),
        find_token(tokens@, args.token@) matches Some(t) ==> (t.ttl is None ==> ((decoded(
            args.url@,
        ) is None || (decoded(args.url@) matches Some(d) && d.len() == 0)) ==> r == Err::<
            String,
            ApiError,
        >(ApiError::BadRequest))),
        find_token(tokens@, args.token@) matches Some(t) ==> (t.ttl is None ==> (args.path
            matches Some(q) ==> (q@.len() > 0 ==> (decoded(args.url@) matches Some(d) ==> (d.len()
            > 0 ==> (find_shorter(final(shorters)@, q@) matches Some(s) && s.path@ == q@ && s.url@
            == d) && (match absolute_link(host@, q@) {
            Some(l) => r matches Ok(b) && b@ == l,
            None => r == Err::<String, ApiError>(ApiError::Internal),
        })))))),
        r matches Ok(b) ==> exists|p: Seq<char>, now: i64|
            {
                &&& #[trigger] absolute_link(host@, p) == Some(b@)
                &&& (args.path matches Some(q) ==> (q@.len() > 0 ==> p == q@))
                &&& find_shorter(final(shorters)@, p) matches Some(s) && s.path@ == p && Some(
                    s.url@,
                ) == decoded(args.url@) && s.ttl == #[trigger] crate::ttl::spec_expiry_of(
                    now,
                    args.seconds,
                )
                &&& forall|k: Seq<char>|
                    k != p ==> #[trigger] find_shorter(final(shorters)@, k) == find_shorter(
                        old(shorters)@,
                        k,
                    )
                &&& spec_token_allowed(tokens@, args.token@, now)
            },
{
    let ghost args0 = args;
    let path = resolve_path(args.path);
    let now = now_micros();
    let r = put_shorter_resolved(
        tokens,
        shorters,
        host,
        args.token.as_str(),
        path.as_str(),
        args.url.as_str(),
        args.seconds,
        now,
    );
    proof {
        match find_token(tokens@, args0.token@) {
            Some(t) => {
                if t.ttl is None {
                    assert(spec_token_allowed(tokens@, args0.token@, now));
                }
            },
            None => {
                assert(!spec_token_allowed(tokens@, args0.token@, now));
            },
        }
        match args0.path {
            Some(q) => {
                if q@.len() > 0 {
                    assert(path@ == q@);
                }
            },
            None => {},
        }
        if r is Ok {
            let b = r->Ok_0;
            assert(absolute_link(host@, path@) == Some(b@));
            assert(find_shorter(shorters@, path@) matches Some(s) && s.ttl
                == crate::ttl::spec_expiry_of(now, args0.seconds));
            assert(spec_token_allowed(tokens@, args0.token@, now));
        }
    }
    r
}

/// The create request from the raw host header: an absent or unusable host is
/// a bad request (the host is the base of the echoed link), after which the
/// request proceeds as `put_shorter_inner` — in particular, a stored token
/// without expiry is owed the full outcome, and every error leaves the store
/// unchanged.
pub fn handle_put(
    tokens: &TokenStore,
    shorters: &mut ShorterStore,
    host: Option<&str>,
    args: ShorterArguments,
) -> (r: Result<String, ApiError>)
    requires
        old(shorters).wf(),
    ensures
        final(shorters).wf(),
        host is None ==> r == Err::<String, ApiError>(ApiError::BadRequest),
        host matches Some(h) ==> (!host_ok(h@) ==> r == Err::<String, ApiError>(
            ApiError::BadRequest,
        )),
        r == Err::<String, ApiError>(ApiError::BadRequest) ==> final(shorters)@ == old(shorters)@,
        r == Err::<String, ApiError>(ApiError::Unauthorized) ==> (find_token(tokens@, args.token@)
            is None || (find_token(tokens@, args.token@) matches Some(t) && t.ttl is Some))
            && final(shorters)@ == old(shorters)@,
        host matches Some(h) ==> (host_ok(h@) ==> (r == Err::<String, ApiError>(
            ApiError::BadRequest,
        ) ==> (decoded(args.url@) is None || (decoded(args.url@) matches Some(d) && d.len()
            == 0)))),
        host matches Some(h) ==> (host_ok(h@) ==> (find_token(tokens@, args.token@) is None ==> r
            == Err::<String, ApiError>(ApiError::Unauthorized))),
        host matches Some(h) ==> (host_ok(h@) ==> (find_token(tokens@, args.token@) matches Some(t)
            ==> (t.ttl is None ==> ((decoded(args.url@) is None || (decoded(args.url@)
            matches Some(d) && d.len() == 0)) ==> r == Err::<String, ApiError>(
            ApiError::BadRequest,
        ))))),
        host matches Some(h) ==> (host_ok(h@) ==> (find_token(tokens@, args.token@) matches Some(t)
            ==> (t.ttl is None ==> (args.path matches Some(q) ==> (q@.len() > 0 ==> (decoded(
            args.url@,
        ) matches Some(d) ==> (d.len() > 0 ==> (find_shorter(final(shorters)@, q@) matches Some(s)
            && s.path@ == q@ && s.url@ == d) && (match absolute_link(h@, q@) {
            Some(l) => r matches Ok(b) && b@ == l,
            None => r == Err::<String, ApiError>(ApiError::Internal),
        })))))))),
        r matches Ok(b) ==> (host matches Some(h) && exists|p: Seq<char>|
            #[trigger] absolute_link(h@, p) == Some(b@) && (find_shorter(final(shorters)@, p)
                matches Some(s) && Some(s.url@) == decoded(args.url@)) && (forall|k: Seq<char>|
                k != p ==> #[trigger] find_shorter(final(shorters)@, k) == find_shorter(
                    old(shorters)@,
                    k,
                ))),
{
    let h = match host {
        Some(h) => h,
        None => {
            return Err(ApiError::BadRequest);
        },
    };
    if !host_valid(h) {
        return Err(ApiError::BadRequest);
    }
    put_shorter_inner(tokens, shorters, h, args)
}

/// The resolve request against an explicit clock value: the stored target URL
/// where the path is stored and unexpired, and not-found otherwise.
pub fn handle_resolve_at(shorters: &ShorterStore, path: &str, now: i64) -> (r: Result<
    String,
    ApiError,
>)
    ensures
        spec_get_shorter(shorters@, path@, now) matches Some(s) ==> r matches Ok(u) && u@
            == s.url@,
        spec_get_shorter(shorters@, path@, now) is None ==> r == Err::<String, ApiError>(
            ApiError::NotFound,
        ),
{
    match shorters.get_shorter_at(path, now) {
        Some(s) => Ok(s.url),
        None => Err(ApiError::NotFound),
    }
}

/// The resolve request at the current time: an absent path is not found, a
/// stored row without expiry always resolves to exactly the stored URL, one
/// with an unparseable instant never does, and otherwise the clock decides.
pub fn handle_resolve(shorters: &ShorterStore, path: &str) -> (r: Result<String, ApiError>)
    ensures
        find_shorter(shorters@, path@) is None ==> r == Err::<String, ApiError>(ApiError::NotFound),
        find_shorter(shorters@, path@) matches Some(s) ==> (s.ttl is None ==> (r matches Ok(u)
            && u@ == s.url@)),
        find_shorter(shorters@, path@) matches Some(s) ==> (s.ttl matches Some(v)
            && !crate::ttl::micros_in_range(v) ==> r == Err::<String, ApiError>(
            ApiError::NotFound,
        )),
        r matches Ok(u) ==> (find_shorter(shorters@, path@) matches Some(s) && u@ == s.url@),
        exists|now: i64|
            match #[trigger] spec_get_shorter(shorters@, path@, now) {
                Some(s) => r matches Ok(u) && u@ == s.url@,
                None => r == Err::<String, ApiError>(ApiError::NotFound),
            },
{
    let now = now_micros();
    let r = handle_resolve_at(shorters, path, now);
    proof {
        assert(match spec_get_shorter(shorters@, path@, now) {
            Some(s) => r matches Ok(u) && u@ == s.url@,
            None => r == Err::<String, ApiError>(ApiError::NotFound),
        });
    }
    r
}

} // verus!
