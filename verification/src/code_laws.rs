//! What the wire codes, zones and symbol rules are: each stated against the
//! documented names, independently of the functions that use them.
use vstd::prelude::*;

use crate::adjust::{adjust_code, AdjustType};
use crate::clock::{local_stamp, stamp_date, stamp_time};
use crate::financial::{statement_path, Statement};
use crate::instrument::{instrument_type_code, InstrumentType};
use crate::period::{period_code, Period};
use crate::quote::{session_code, SessionStatus};
use crate::symbol::{
    last_segment, region_code, region_of_suffix, region_zone, symbol_region, valid_symbol, zone_name, Region,
    TimeZone,
};

verus! {

/// The wire code of each adjustment mode is its documented snake-case name.
pub proof fn law_adjust_wire_codes(a: AdjustType)
    ensures
        adjust_code(a) == match a {
            AdjustType::Forward => "forward"@,
            AdjustType::Backward => "backward"@,
            AdjustType::ForwardAdditive => "forward_additive"@,
            AdjustType::BackwardAdditive => "backward_additive"@,
            AdjustType::Unadjusted => "none"@,
        },
{
}

/// The wire code of each instrument type is its documented lower-case name.
pub proof fn law_instrument_type_wire_codes(t: InstrumentType)
    ensures
        instrument_type_code(t) == match t {
            InstrumentType::Stock => "stock"@,
            InstrumentType::Etf => "etf"@,
            InstrumentType::Index => "index"@,
            InstrumentType::Bond => "bond"@,
            InstrumentType::Fund => "fund"@,
            InstrumentType::Options => "options"@,
            InstrumentType::Other => "other"@,
        },
{
}

/// The wire code of each session state is its documented snake-case name.
pub proof fn law_session_wire_codes(s: SessionStatus)
    ensures
        session_code(s) == match s {
            SessionStatus::PreMarket => "pre_market"@,
            SessionStatus::Regular => "regular"@,
            SessionStatus::AfterHours => "after_hours"@,
            SessionStatus::Closed => "closed"@,
            SessionStatus::Halted => "halted"@,
            SessionStatus::LunchBreak => "lunch_break"@,
        },
{
}

/// The wire code of each period is its documented code (case-sensitive).
pub proof fn law_period_wire_codes(p: Period)
    ensures
        period_code(p) == match p {
            Period::M1 => "1m"@,
            Period::M5 => "5m"@,
            Period::M10 => "10m"@,
            Period::M15 => "15m"@,
            Period::M30 => "30m"@,
            Period::M60 => "60m"@,
            Period::D1 => "1d"@,
            Period::W1 => "1w"@,
            Period::Mo1 => "1M"@,
            Period::Q1 => "1Q"@,
            Period::Y1 => "1Y"@,
        },
{
}

/// The code of each region is its two-letter upper-case name, and its
/// market's time zone is that of its primary exchange(s), by IANA name.
pub proof fn law_region_codes_and_zones(r: Region)
    ensures
        region_code(r) == match r {
            Region::Cn => "CN"@,
            Region::Hk => "HK"@,
            Region::Us => "US"@,
        },
        zone_name(region_zone(r)) == match r {
            Region::Cn => "Asia/Shanghai"@,
            Region::Hk => "Asia/Hong_Kong"@,
            Region::Us => "America/New_York"@,
        },
{
}

/// Each time zone is named by its IANA name.
pub proof fn law_zone_names(z: TimeZone)
    ensures
        zone_name(z) == match z {
            TimeZone::AsiaShanghai => "Asia/Shanghai"@,
            TimeZone::AsiaHongKong => "Asia/Hong_Kong"@,
            TimeZone::AmericaNewYork => "America/New_York"@,
        },
{
}

/// Each statement is served by its documented endpoint.
pub proof fn law_statement_endpoints(s: Statement)
    ensures
        statement_path(s) == match s {
            Statement::Income => "/v1/financials/income"@,
            Statement::BalanceSheet => "/v1/financials/balance-sheet"@,
            Statement::CashFlow => "/v1/financials/cash-flow"@,
            Statement::Metrics => "/v1/financials/metrics"@,
            Statement::Shares => "/v1/financials/shares"@,
        },
{
}

/// A trade date is the date part, and a trade time the date-time part, of
/// `chrono`'s rendering of the instant in the zone, by the zone's IANA name;
/// without a zone there is neither.
pub proof fn law_trade_stamps(millis: i64, tz: Option<TimeZone>)
    ensures
        stamp_date(millis, tz) == match tz {
            Some(z) => match local_stamp(millis, zone_name(z)) {
                Some(p) => Some(p.0),
                None => None::<Seq<char>>,
            },
            None => None,
        },
        stamp_time(millis, tz) == match tz {
            Some(z) => match local_stamp(millis, zone_name(z)) {
                Some(p) => Some(p.1),
                None => None::<Seq<char>>,
            },
            None => None,
        },
{
}

/// A symbol is accepted exactly when it is non-empty and contains a `.`,
/// however many dots it has.
pub proof fn law_symbol_acceptance(s: Seq<char>)
    ensures
        valid_symbol(s) <==> (s.len() > 0 && exists|i: int| 0 <= i < s.len() && s[i] == '.'),
{
}

/// The region suffix of a symbol is what follows its last `.`: for a symbol
/// `p.q` whose `q` has no dot, it is `q`; a text without a dot is all
/// suffix.
pub proof fn law_symbol_suffix(p: Seq<char>, q: Seq<char>)
    requires
        forall|i: int| 0 <= i < q.len() ==> q[i] != '.',
    ensures
        last_segment(p + seq!['.'] + q) == q,
        last_segment(q) == q,
    decreases q.len(),
{
    if q.len() == 0 {
        assert((p + seq!['.'] + q).last() == '.');
    } else {
        let s = p + seq!['.'] + q;
        law_symbol_suffix(p, q.drop_last());
        assert(s.drop_last() =~= p + seq!['.'] + q.drop_last());
        assert(s.last() == q.last());
        assert(q.drop_last().push(q.last()) =~= q);
    }
}

/// The suffixes `SH`, `SZ` and `BJ` name mainland China, `US` the United
/// States, `HK` Hong Kong; no other suffix names a region. A symbol's region
/// is the one its suffix names.
pub proof fn law_region_suffixes(suffix: Seq<char>, s: Seq<char>)
    ensures
        region_of_suffix(suffix) == (if suffix == "SH"@ || suffix == "SZ"@ || suffix == "BJ"@ {
            Some(Region::Cn)
        } else if suffix == "US"@ {
            Some(Region::Us)
        } else if suffix == "HK"@ {
            Some(Region::Hk)
        } else {
            None
        }),
        symbol_region(s) == region_of_suffix(last_segment(s)),
{
}

} // verus!
