//! Times, and how they are written.

use crate::text::push_decimal;
use vstd::prelude::*;

verus! {

/// The text in an optional string.
pub open spec fn text_in(s: Option<String>) -> Option<Seq<char>> {
    match s {
        Some(s) => Some(s@),
        None => None,
    }
}

/// The present time in nanoseconds since the Unix epoch, from
/// `time::OffsetDateTime::now_utc`. Nothing is known of it.
#[verifier::external_body]
pub(crate) fn now_unix_nanos() -> (r: i128) {
    time::OffsetDateTime::now_utc().unix_timestamp_nanos()
}

/// What `time::OffsetDateTime::format` writes in the RFC 3339 format for a time
/// in UTC; nothing for a time that it cannot write, or that
/// `time::OffsetDateTime::from_unix_timestamp_nanos` does not take.
pub uninterp spec fn rfc3339_of(unix_nanos: int) -> Option<Seq<char>>;

/// The time in the RFC 3339 format, from `time::OffsetDateTime::format`. The
/// result is named, not described.
#[verifier::external_body]
pub(crate) fn rfc3339(unix_nanos: i128) -> (r: Option<String>)
    ensures
        text_in(r) == rfc3339_of(unix_nanos as int),
{
    let t = time::OffsetDateTime::from_unix_timestamp_nanos(unix_nanos).ok()?;
    t.format(&time::format_description::well_known::Rfc3339).ok()
}

/// A time as it is published: in the RFC 3339 format, or else the seconds since
/// the Unix epoch.
pub open spec fn timestamp_of(unix_nanos: int) -> Seq<char> {
    match rfc3339_of(unix_nanos) {
        Some(t) => t,
        None => crate::text::signed_decimal(unix_nanos / 1_000_000_000),
    }
}

/// A time as it is published.
pub fn format_rfc3339(unix_nanos: i128) -> (r: String)
    ensures
        r@ == timestamp_of(unix_nanos as int),
{
    match rfc3339(unix_nanos) {
        Some(t) => t,
        None => {
            let mut out = String::new();
            if unix_nanos >= 0 {
                push_decimal(&mut out, (unix_nanos / 1_000_000_000) as u128);
                assert(out@ =~= crate::text::signed_decimal(unix_nanos as int / 1_000_000_000));
            } else {
                let m: i128 = -(unix_nanos + 1);
                let seconds: u128 = (m / 1_000_000_000) as u128 + 1;
                proof {
                    assert(unix_nanos as int / 1_000_000_000 == -(seconds as int));
                }
                out.push('-');
                push_decimal(&mut out, seconds);
                assert(out@ =~= crate::text::signed_decimal(unix_nanos as int / 1_000_000_000));
            }
            out
        },
    }
}

/// A time that cannot be written in the RFC 3339 format is published as the whole seconds
/// since the Unix epoch, rounded down.
pub proof fn law_times_beyond_the_calendar(unix_nanos: int, seconds: int)
    requires
        rfc3339_of(unix_nanos) is None,
        seconds * 1_000_000_000 <= unix_nanos < (seconds + 1) * 1_000_000_000,
    ensures
        timestamp_of(unix_nanos) == crate::text::signed_decimal(seconds),
{
}

/// Any other time is published in the RFC 3339 format.
pub proof fn law_times_of_the_calendar(unix_nanos: int)
    requires
        rfc3339_of(unix_nanos) is Some,
    ensures
        timestamp_of(unix_nanos) == rfc3339_of(unix_nanos)->0,
{
}

} // verus!
