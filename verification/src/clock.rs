//! Local calendar rendering of instants, as `chrono` and `chrono-tz` give it.
use vstd::prelude::*;

use crate::symbol::{zone_name, TimeZone};

verus! {

/// Name for what `chrono` renders of the instant `millis` milliseconds after
/// the Unix epoch, in the IANA zone named `zone` (`chrono-tz`'s database):
/// the local date as `%Y-%m-%d` and the local date-time as
/// `%Y-%m-%d %H:%M:%S`. `None` when `chrono-tz` knows no zone of that name
/// or the instant lies outside `chrono`'s range.
pub uninterp spec fn local_stamp(millis: i64, zone: Seq<char>) -> Option<(Seq<char>, Seq<char>)>;

/// Renders `millis` in `zone` through `chrono_tz::Tz::from_str`,
/// `chrono::DateTime::from_timestamp_millis`, `DateTime::with_timezone` and
/// `DateTime::format`. The contract names the result; it says nothing of the
/// calendar arithmetic or of the zone rules.
#[verifier::external_body]
fn format_local(millis: i64, zone: &str) -> (r: Option<(String, String)>)
    ensures
        match r {
            Some((d, t)) => local_stamp(millis, zone@) == Some((d@, t@)),
            None => local_stamp(millis, zone@) is None,
        },
{
    let tz: chrono_tz::Tz = zone.parse().ok()?;
    let local = chrono::DateTime::from_timestamp_millis(millis)?.with_timezone(&tz);
    Some((local.format("%Y-%m-%d").to_string(), local.format("%Y-%m-%d %H:%M:%S").to_string()))
}

/// The local trade date of `millis` in `tz`, if the zone is known and the
/// instant renderable.
pub open spec fn stamp_date(millis: i64, tz: Option<TimeZone>) -> Option<Seq<char>> {
    match tz {
        Some(z) => match local_stamp(millis, zone_name(z)) {
            Some((d, _)) => Some(d),
            None => None,
        },
        None => None,
    }
}

/// The local trade date-time of `millis` in `tz`, if the zone is known and
/// the instant renderable.
pub open spec fn stamp_time(millis: i64, tz: Option<TimeZone>) -> Option<Seq<char>> {
    match tz {
        Some(z) => match local_stamp(millis, zone_name(z)) {
            Some((_, t)) => Some(t),
            None => None,
        },
        None => None,
    }
}

/// The local `(trade_date, trade_time)` of `millis` in `tz`; both `None`
/// when there is no zone or the instant cannot be rendered.
pub fn local_trade_stamp(millis: i64, tz: Option<TimeZone>) -> (r: (Option<String>, Option<String>))
    ensures
        crate::text::opt_view(r.0) == stamp_date(millis, tz),
        crate::text::opt_view(r.1) == stamp_time(millis, tz),
{
    match tz {
        Some(z) => match format_local(millis, z.name()) {
            Some((d, t)) => (Some(d), Some(t)),
            None => (None, None),
        },
        None => (None, None),
    }
}

} // verus!
