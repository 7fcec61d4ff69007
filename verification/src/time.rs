//! Points in time as seconds and nanoseconds since the Unix epoch: the system clock, and RFC
//! 3339 timestamps and calendar dates as chrono reads and writes them.
use vstd::prelude::*;

verus! {

/// A point in time: whole seconds since the Unix epoch and the nanoseconds past that second,
/// as chrono's `DateTime<Utc>::timestamp` and `timestamp_subsec_nanos` give them (a time
/// before the epoch has negative seconds and nanoseconds counted forward). Later times
/// have more seconds, or as many seconds and more nanoseconds.
#[derive(Debug, Clone, Copy, PartialEq, Eq, Hash)]
pub struct Timestamp {
    /// Seconds since 1970-01-01T00:00:00Z
    pub secs: i64,
    /// Nanoseconds past that second
    pub nanos: u32,
}

/// A point in time of the system clock (`std::time::SystemTime`).
#[verifier::external_type_specification]
#[verifier::external_body]
pub struct ExSystemTime(std::time::SystemTime);

/// `SystemTime::now`: the system clock's current time. It depends on the clock, so nothing is
/// stated of it.
#[verifier::external_body]
fn system_now() -> std::time::SystemTime {
    std::time::SystemTime::now()
}

/// How far a time of the system clock lies from the Unix epoch, as std's
/// `SystemTime::duration_since(UNIX_EPOCH)` gives it: `Ok` of the whole seconds and the
/// nanoseconds after the epoch, `Err` of those before it.
pub uninterp spec fn epoch_offset(t: std::time::SystemTime) -> Result<(u64, u32), (u64, u32)>;

/// `t.duration_since(UNIX_EPOCH)`, its duration (or the error's `duration()` for a time before
/// the epoch) taken apart by `as_secs` and `subsec_nanos`, whose nanoseconds std documents as
/// below a billion. It does not panic.
#[verifier::external_body]
fn offset_from_epoch(t: &std::time::SystemTime) -> (r: Result<(u64, u32), (u64, u32)>)
    ensures
        r == epoch_offset(*t),
        match r {
            Ok((_, n)) => n < 1_000_000_000,
            Err((_, n)) => n < 1_000_000_000,
        },
{
    match t.duration_since(std::time::UNIX_EPOCH) {
        Ok(d) => Ok((d.as_secs(), d.subsec_nanos())),
        Err(e) => Err((e.duration().as_secs(), e.duration().subsec_nanos())),
    }
}

/// The point in time at a distance from the Unix epoch: `Ok((s, n))` lies `s` seconds and `n`
/// nanoseconds after it, `Err((s, n))` as far before it; seconds beyond what an `i64` holds
/// are capped.
pub open spec fn timestamp_at_offset_spec(offset: Result<(u64, u32), (u64, u32)>) -> Timestamp {
    match offset {
        Ok((s, n)) => if s <= i64::MAX {
            Timestamp { secs: s as i64, nanos: n }
        } else {
            Timestamp { secs: i64::MAX, nanos: n }
        },
        Err((s, n)) => if s > i64::MAX {
            Timestamp { secs: i64::MIN, nanos: 0 }
        } else if n == 0 {
            Timestamp { secs: -(s as int) as i64, nanos: 0 }
        } else {
            Timestamp { secs: (-(s as int) - 1) as i64, nanos: (1_000_000_000 - n) as u32 }
        },
    }
}

/// The point in time at a distance from the Unix epoch (see `timestamp_at_offset_spec`).
pub fn timestamp_at_offset(offset: Result<(u64, u32), (u64, u32)>) -> (r: Timestamp)
    requires
        match offset {
            Ok((_, n)) => n < 1_000_000_000,
            Err((_, n)) => n < 1_000_000_000,
        },
    ensures
        r == timestamp_at_offset_spec(offset),
        r.nanos < 1_000_000_000,
{
    match offset {
        Ok((s, n)) => if s <= i64::MAX as u64 {
            Timestamp { secs: s as i64, nanos: n }
        } else {
            Timestamp { secs: i64::MAX, nanos: n }
        },
        Err((s, n)) => if s > i64::MAX as u64 {
            Timestamp { secs: i64::MIN, nanos: 0 }
        } else if n == 0 {
            Timestamp { secs: -(s as i64), nanos: 0 }
        } else {
            Timestamp { secs: -(s as i64) - 1, nanos: 1_000_000_000 - n }
        },
    }
}

impl Timestamp {
    /// The current time, read from the system clock (see `timestamp_at_offset`).
    pub fn now() -> (r: Self)
        ensures
            exists|t: std::time::SystemTime| r == timestamp_at_offset_spec(#[trigger] epoch_offset(t)),
            r.nanos < 1_000_000_000,
    {
        let t = system_now();
        timestamp_at_offset(offset_from_epoch(&t))
    }
}

/// The calendar date of a time, written `Mon DD, YYYY` in UTC, as chrono writes it; `None`
/// where chrono holds no such time.
pub uninterp spec fn date_format(secs: i64, nanos: u32) -> Option<Seq<char>>;

/// The date of a time as `Mon DD, YYYY` (`chrono::DateTime::from_timestamp(secs, nanos)`, then
/// `format("%b %d, %Y")`): the result is `date_format` of the arguments.
#[verifier::external_body]
pub(crate) fn date_text(secs: i64, nanos: u32) -> (r: Option<String>)
    ensures
        match r {
            Some(t) => date_format(secs, nanos) == Some(t@),
            None => date_format(secs, nanos) is None,
        },
{
    match chrono::DateTime::from_timestamp(secs, nanos) {
        Some(dt) => Some(dt.format("%b %d, %Y").to_string()),
        None => None,
    }
}

/// `a` is no later than `b`.
pub open spec fn no_later(a: Timestamp, b: Timestamp) -> bool {
    a.secs < b.secs || (a.secs == b.secs && a.nanos <= b.nanos)
}

/// The instant an RFC 3339 timestamp denotes, as seconds and nanoseconds since the epoch, as
/// chrono reads it; `None` when chrono does not read the text as one.
pub uninterp spec fn rfc3339_instant(s: Seq<char>) -> Option<(i64, u32)>;

/// `chrono::DateTime::parse_from_rfc3339(s)`, then `timestamp` and `timestamp_subsec_nanos`
/// of the instant; `None` when the text does not parse. The result is named by
/// `rfc3339_instant`.
#[verifier::external_body]
pub(crate) fn parse_rfc3339(s: &str) -> (r: Option<(i64, u32)>)
    ensures
        r == rfc3339_instant(s@),
{
    match chrono::DateTime::parse_from_rfc3339(s) {
        Ok(dt) => Some((dt.timestamp(), dt.timestamp_subsec_nanos())),
        Err(_) => None,
    }
}

/// Whether `a` is later than `b`.
pub fn is_later(a: &Timestamp, b: &Timestamp) -> (r: bool)
    ensures
        r == !no_later(*a, *b),
{
    a.secs > b.secs || (a.secs == b.secs && a.nanos > b.nanos)
}

/// Something that has existed for `elapsed_nanos` nanoseconds has outlived a time to live of
/// `ttl_nanos`: strictly more time has passed.
pub open spec fn past_ttl(elapsed_nanos: u128, ttl_nanos: u128) -> bool {
    elapsed_nanos > ttl_nanos
}

/// Whether something that has existed for `elapsed_nanos` nanoseconds has outlived a time to
/// live of `ttl_nanos` (see `past_ttl`).
pub fn outlived(elapsed_nanos: u128, ttl_nanos: u128) -> (r: bool)
    ensures
        r == past_ttl(elapsed_nanos, ttl_nanos),
{
    elapsed_nanos > ttl_nanos
}

} // verus!
