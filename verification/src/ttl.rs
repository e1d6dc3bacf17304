//! Expiry instants: a relative duration in seconds is turned into an absolute
//! microsecond timestamp, and a stored timestamp is tested against the clock.
//! A stored value that is not a parseable instant counts as expired (fail
//! safe).

use vstd::prelude::*;

verus! {

/// Whether chrono accepts `t` as a microsecond timestamp; the exact range is
/// chrono's own and is not restated here.
pub uninterp spec fn micros_in_range(t: i64) -> bool;

/// The expiry instant `ttl` is past at time `now`: either the stored value is
/// not a parseable instant (treated as expired, fail safe) or `now` has
/// reached it.
pub open spec fn spec_expired(ttl: i64, now: i64) -> bool {
    !micros_in_range(ttl) || now >= ttl
}

/// A mathematical integer clamped into the `i64` range.
pub open spec fn sat_i64(x: int) -> i64 {
    if x > i64::MAX {
        i64::MAX
    } else if x < i64::MIN {
        i64::MIN
    } else {
        x as i64
    }
}

/// The absolute expiry instant `seconds` seconds after `now`, clamped into
/// the `i64` range.
pub open spec fn spec_to_absolute(now: i64, seconds: i64) -> i64 {
    sat_i64(now + sat_i64(seconds * 1_000_000))
}

/// The optional expiry computed from an optional duration at time `now`.
pub open spec fn spec_expiry_of(now: i64, seconds: Option<i64>) -> Option<i64> {
    match seconds {
        Some(s) => Some(spec_to_absolute(now, s)),
        None => None,
    }
}

/// Relies on `chrono::Utc::now` and `DateTime::timestamp_micros`: the current
/// time as microseconds since the Unix epoch.
#[verifier::external_body]
pub(crate) fn now_micros() -> i64 {
    chrono::Utc::now().timestamp_micros()
}

/// Relies on `chrono::DateTime::<Utc>::from_timestamp_micros`: it returns
/// `Some` exactly on the microsecond timestamps that chrono can represent.
#[verifier::external_body]
pub(crate) fn ttl_valid(ttl: i64) -> (r: bool)
    ensures
        r == micros_in_range(ttl),
{
    chrono::DateTime::<chrono::Utc>::from_timestamp_micros(ttl).is_some()
}

/// Whether the stored instant `ttl` is past at the explicit time `now`.
pub fn ttl_expired_at(ttl: i64, now: i64) -> (r: bool)
    ensures
        r == spec_expired(ttl, now),
{
    if !ttl_valid(ttl) {
        true
    } else {
        now >= ttl
    }
}

/// Whether the stored instant `ttl` is past now.  An unparseable instant is
/// expired whatever the clock says.
pub fn ttl_expired(ttl: i64) -> (r: bool)
    ensures
        !micros_in_range(ttl) ==> r,
        exists|now: i64| r == spec_expired(ttl, now),
{
    let now = now_micros();
    let r = ttl_expired_at(ttl, now);
    proof {
        assert(r == spec_expired(ttl, now));
    }
    r
}

/// The absolute expiry instant `seconds` seconds after the explicit time
/// `now`, clamped into the `i64` range.
pub fn convert_to_ttl_at(seconds: i64, now: i64) -> (r: i64)
    ensures
        r == spec_to_absolute(now, seconds),
{
    let micros = match seconds.checked_mul(1_000_000) {
        Some(m) => m,
        None => {
            proof {
                if seconds < 0 {
                    assert(seconds * 1_000_000 < i64::MIN) by (nonlinear_arith)
                        requires
                            seconds < 0,
                            seconds * 1_000_000 < i64::MIN || seconds * 1_000_000 > i64::MAX,
                    ;
                } else {
                    assert(seconds * 1_000_000 > i64::MAX) by (nonlinear_arith)
                        requires
                            seconds >= 0,
                            seconds * 1_000_000 < i64::MIN || seconds * 1_000_000 > i64::MAX,
                    ;
                }
            }
            if seconds < 0 {
                i64::MIN
            } else {
                i64::MAX
            }
        },
    };
    match now.checked_add(micros) {
        Some(t) => t,
        None => {
            if micros < 0 {
                i64::MIN
            } else {
                i64::MAX
            }
        },
    }
}

/// The absolute expiry instant `seconds` seconds from now.
pub fn convert_to_ttl(seconds: i64) -> (r: i64)
    ensures
        exists|now: i64| r == spec_to_absolute(now, seconds),
{
    let now = now_micros();
    let r = convert_to_ttl_at(seconds, now);
    proof {
        assert(r == spec_to_absolute(now, seconds));
    }
    r
}

} // verus!
