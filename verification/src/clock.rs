//! Calendar formatting and the current time, through `chrono`.
use vstd::prelude::*;

verus! {

/// Unix seconds of `0000-01-01T00:00:00Z` and of `9999-12-31T23:59:59Z`: the span that
/// RFC 2822 can write.
pub open spec fn in_rfc2822_range(secs: int) -> bool {
    -62167219200 <= secs <= 253402300799
}

/// Unix seconds of the first and the last second that a `chrono::DateTime<Utc>` can hold
/// (years -262143 to 262142).
pub open spec fn in_datetime_range(secs: int) -> bool {
    -8334601228800 <= secs <= 8210266876799
}

/// An instant as a `chrono::DateTime<Utc>` holds it: whole seconds since the Unix epoch and
/// the nanoseconds past them. `nanos` of 1_000_000_000 or more marks a leap second (written as
/// second 60), which only the last second of a minute can be.
#[derive(Clone, Copy, Debug, PartialEq, Eq, Structural)]
pub struct Timestamp {
    pub secs: i64,
    pub nanos: u32,
}

/// `nanos` past second `secs` is a time of day that chrono accepts: under two seconds, and a
/// leap second only after the last second of a minute.
pub open spec fn is_instant(secs: int, nanos: int) -> bool {
    0 <= nanos < 2_000_000_000 && (nanos < 1_000_000_000 || secs % 60 == 59)
}

/// An instant that RFC 2822 can write: years 0 to 9999.
pub open spec fn rfc2822_ok(t: Timestamp) -> bool {
    is_instant(t.secs as int, t.nanos as int) && in_rfc2822_range(t.secs as int)
}

/// An instant that a `chrono::DateTime<Utc>` can hold.
pub open spec fn datetime_ok(t: Timestamp) -> bool {
    is_instant(t.secs as int, t.nanos as int) && in_datetime_range(t.secs as int)
}

/// Whether `t` is an instant that a `chrono::DateTime<Utc>` can hold.
pub fn is_datetime(t: Timestamp) -> (b: bool)
    ensures
        b == datetime_ok(t),
{
    if t.secs < -8334601228800 || t.secs > 8210266876799 || t.nanos >= 2_000_000_000 {
        return false;
    }
    if t.nanos < 1_000_000_000 {
        return true;
    }
    let shifted: u64 = (t.secs + 8334601228800) as u64;
    proof {
        assert(shifted as int == t.secs as int + 138910020480 * 60);
        assert((t.secs as int + 138910020480 * 60) % 60 == (t.secs as int) % 60) by (nonlinear_arith);
    }
    shifted % 60 == 59
}

/// Whether `t` is an instant that RFC 2822 can write.
pub fn is_rfc2822_time(t: Timestamp) -> (b: bool)
    ensures
        b == rfc2822_ok(t),
{
    if t.secs < -62167219200 || t.secs > 253402300799 {
        return false;
    }
    is_datetime(t)
}

/// The RFC 2822 text that `chrono` writes for the instant `nanos` nanoseconds past second
/// `secs` after the Unix epoch.
pub uninterp spec fn rfc2822_text(secs: int, nanos: int) -> Seq<char>;

/// The RFC 3339 text, whole seconds and `Z` for UTC, that `chrono` writes for the instant
/// `nanos` nanoseconds past second `secs` after the Unix epoch.
pub uninterp spec fn rfc3339_text(secs: int, nanos: int) -> Seq<char>;

/// `chrono::DateTime::<Utc>::from_timestamp(t.secs, t.nanos)` followed by `to_rfc2822`.
/// The claim: the result is the function `rfc2822_text` of the two numbers; `from_timestamp`
/// gives a value for every instant chrono accepts, and `to_rfc2822` does not panic on years 0
/// to 9999.
#[verifier::external_body]
pub(crate) fn format_rfc2822(t: Timestamp) -> (out: String)
    requires
        rfc2822_ok(t),
    ensures
        out@ == rfc2822_text(t.secs as int, t.nanos as int),
{
    chrono::DateTime::<chrono::Utc>::from_timestamp(t.secs, t.nanos).unwrap_or_default().to_rfc2822()
}

/// `chrono::DateTime::<Utc>::from_timestamp(t.secs, t.nanos)` followed by
/// `to_rfc3339_opts(SecondsFormat::Secs, true)`.
/// The claim: the result is the function `rfc3339_text` of the two numbers; `from_timestamp`
/// gives a value for every instant that a `DateTime<Utc>` can hold.
#[verifier::external_body]
pub(crate) fn format_rfc3339(t: Timestamp) -> (out: String)
    requires
        datetime_ok(t),
    ensures
        out@ == rfc3339_text(t.secs as int, t.nanos as int),
{
    chrono::DateTime::<chrono::Utc>::from_timestamp(t.secs, t.nanos).unwrap_or_default().to_rfc3339_opts(
        chrono::SecondsFormat::Secs,
        true,
    )
}

#[verifier::external_type_specification]
#[verifier::external_body]
pub struct ExSystemTime(std::time::SystemTime);

/// `SystemTime::now()`, the reading of the system clock that `chrono::Utc::now` is built on.
/// Nothing is said of the time it gives.
#[verifier::external_body]
fn system_now() -> std::time::SystemTime {
    std::time::SystemTime::now()
}

/// `t.duration_since(UNIX_EPOCH)` in whole seconds; `None` where std reports `t` to be before
/// the epoch. Nothing is said of which number of seconds it is.
#[verifier::external_body]
fn secs_since_epoch(t: &std::time::SystemTime) -> Option<u64> {
    t.duration_since(std::time::UNIX_EPOCH).ok().map(|d| d.as_secs())
}

/// The current second since the Unix epoch; `None` when the system clock reads before 1970
/// or beyond the last second a calendar date can hold. Which second it is, is not stated.
pub(crate) fn now_unix_seconds() -> (out: Option<i64>)
    ensures
        out matches Some(s) ==> 0 <= s && in_datetime_range(s as int),
{
    let now = system_now();
    match secs_since_epoch(&now) {
        Some(s) => if s <= 8210266876799 {
            Some(s as i64)
        } else {
            None
        },
        None => None,
    }
}

} // verus!
