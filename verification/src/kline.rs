//! Kline (OHLCV bar) payloads and request parameters. Prices and amounts are
//! carried as the IEEE-754 bit patterns of their `f64` values
//! (`f64::to_bits`): the library moves them into tables without computing on
//! them.
use vstd::prelude::*;

use crate::adjust::AdjustType;
use crate::clock::{local_trade_stamp, stamp_date, stamp_time};
use crate::period::Period;
use crate::symbol::TimeZone;
use crate::text::{opt_view, opt_views};

verus! {

/// Columnar bars of one symbol: element `i` of each column belongs to bar
/// `i`.
#[derive(Debug, Clone)]
pub struct KlineData {
    pub amount: Vec<u64>,
    pub volume: Vec<i64>,
    pub timestamp: Vec<i64>,
    pub open: Vec<u64>,
    pub high: Vec<u64>,
    pub low: Vec<u64>,
    pub close: Vec<u64>,
    pub open_interest: Option<Vec<u64>>,
    pub prev_close: Option<Vec<u64>>,
    pub settlement_price: Option<Vec<u64>>,
}

/// The six price and volume columns have as many entries as there are
/// timestamps.
pub open spec fn price_columns_aligned(d: KlineData) -> bool {
    let n = d.timestamp@.len();
    &&& d.open@.len() == n
    &&& d.high@.len() == n
    &&& d.low@.len() == n
    &&& d.close@.len() == n
    &&& d.volume@.len() == n
    &&& d.amount@.len() == n
}

/// An optional column is absent, or has `n` entries.
pub open spec fn optional_aligned(c: Option<Vec<u64>>, n: nat) -> bool {
    match c {
        Some(v) => v@.len() == n,
        None => true,
    }
}

/// Every parallel column, the optional ones where present, has as many
/// entries as there are timestamps.
pub open spec fn columns_aligned(d: KlineData) -> bool {
    let n = d.timestamp@.len();
    &&& price_columns_aligned(d)
    &&& optional_aligned(d.open_interest, n)
    &&& optional_aligned(d.prev_close, n)
    &&& optional_aligned(d.settlement_price, n)
}

impl KlineData {
    /// Number of bars (timestamps).
    pub fn len(&self) -> (r: usize)
        ensures
            r == self.timestamp@.len(),
    {
        self.timestamp.len()
    }

    /// Whether there is no bar.
    pub fn is_empty(&self) -> (r: bool)
        ensures
            r == (self.timestamp@.len() == 0),
    {
        self.timestamp.len() == 0
    }

    /// The close of the last bar, if any.
    pub fn last_close(&self) -> (r: Option<u64>)
        ensures
            r == (if self.close@.len() == 0 {
                None
            } else {
                Some(self.close@.last())
            }),
    {
        if self.close.len() == 0 {
            None
        } else {
            Some(self.close[self.close.len() - 1])
        }
    }

    /// Checks that all parallel columns, the optional ones where present,
    /// have the same length as the timestamps.
    pub fn validate(&self) -> (r: Result<(), &'static str>)
        ensures
            r is Ok <==> columns_aligned(*self),
            r matches Err(m) ==> m@ == "column length mismatch"@,
    {
        let n = self.timestamp.len();
        if self.open.len() != n || self.high.len() != n || self.low.len() != n
            || self.close.len() != n || self.volume.len() != n || self.amount.len() != n {
            return Err("column length mismatch");
        }
        if let Some(v) = &self.open_interest {
            if v.len() != n {
                return Err("column length mismatch");
            }
        }
        if let Some(v) = &self.prev_close {
            if v.len() != n {
                return Err("column length mismatch");
            }
        }
        if let Some(v) = &self.settlement_price {
            if v.len() != n {
                return Err("column length mismatch");
            }
        }
        Ok(())
    }
}

/// Envelope of a single-symbol kline answer.
#[derive(Debug, Clone)]
pub struct KlinesResponse {
    pub data: KlineData,
}

/// One adjustment factor, effective from `timestamp`.
#[derive(Debug, Clone, Copy)]
pub struct ExfactorsData {
    pub timestamp: i64,
    pub ex_factor: u64,
}

/// Parameters of a kline request.
#[derive(Debug)]
pub struct KlinesParams {
    /// Symbol code for single-symbol requests; `None` for batch requests.
    pub symbol: Option<String>,
    /// Kline period.
    pub period: Option<Period>,
    /// Number of bars.
    pub count: Option<u32>,
    pub adjust: Option<AdjustType>,
    pub start_time: Option<i64>,
    pub end_time: Option<i64>,
    pub as_dataframe: Option<bool>,
}

impl Default for KlinesParams {
    fn default() -> (r: Self)
        ensures
            r.symbol is None,
            r.period is None,
            r.count is None,
            r.adjust is None,
            r.start_time is None,
            r.end_time is None,
            r.as_dataframe is None,
    {
        KlinesParams {
            symbol: None,
            period: None,
            count: None,
            adjust: None,
            start_time: None,
            end_time: None,
            as_dataframe: None,
        }
    }
}

impl Clone for KlinesParams {
    fn clone(&self) -> (r: Self)
        ensures
            r == *self,
    {
        KlinesParams {
            symbol: match &self.symbol {
                Some(s) => Some(s.clone()),
                None => None,
            },
            period: self.period,
            count: self.count,
            adjust: self.adjust,
            start_time: self.start_time,
            end_time: self.end_time,
            as_dataframe: self.as_dataframe,
        }
    }
}

impl KlinesParams {
    /// Sets the kline period.
    pub fn period(self, p: Period) -> (r: Self)
        ensures
            r == (KlinesParams { period: Some(p), ..self }),
    {
        KlinesParams { period: Some(p), ..self }
    }

    /// Sets the number of bars.
    pub fn count(self, n: u32) -> (r: Self)
        ensures
            r == (KlinesParams { count: Some(n), ..self }),
    {
        KlinesParams { count: Some(n), ..self }
    }

    /// Sets the price adjustment.
    pub fn adjust(self, a: AdjustType) -> (r: Self)
        ensures
            r == (KlinesParams { adjust: Some(a), ..self }),
    {
        KlinesParams { adjust: Some(a), ..self }
    }

    /// Sets the start of the time range (epoch milliseconds).
    pub fn start_time(self, t: i64) -> (r: Self)
        ensures
            r == (KlinesParams { start_time: Some(t), ..self }),
    {
        KlinesParams { start_time: Some(t), ..self }
    }

    /// Sets the end of the time range (epoch milliseconds).
    pub fn end_time(self, t: i64) -> (r: Self)
        ensures
            r == (KlinesParams { end_time: Some(t), ..self }),
    {
        KlinesParams { end_time: Some(t), ..self }
    }

    /// Asks for the answer as a table.
    pub fn as_dataframe(self) -> (r: Self)
        ensures
            r == (KlinesParams { as_dataframe: Some(true), ..self }),
    {
        KlinesParams { as_dataframe: Some(true), ..self }
    }

    /// Whether the answer is wanted as a table (`as_dataframe == Some(true)`).
    pub fn wants_dataframe(&self) -> (r: bool)
        ensures
            r == (self.as_dataframe == Some(true)),
    {
        match self.as_dataframe {
            Some(b) => b,
            None => false,
        }
    }

    /// The same parameters for the single-symbol request of `symbol`.
    pub fn for_symbol(self, symbol: &str) -> (r: Self)
        ensures
            opt_view(r.symbol) == Some(symbol@),
            r.period == self.period,
            r.count == self.count,
            r.adjust == self.adjust,
            r.start_time == self.start_time,
            r.end_time == self.end_time,
            r.as_dataframe == self.as_dataframe,
    {
        KlinesParams { symbol: Some(symbol.to_owned()), ..self }
    }

    /// Defaults of the daily-kline endpoint: `period=1d`, `count=100`,
    /// `adjust=forward`; the single-symbol builder fills in `symbol`.
    pub fn klines_default() -> (r: Self)
        ensures
            r.symbol is None,
            r.period == Some(Period::D1),
            r.count == Some(100u32),
            r.adjust == Some(AdjustType::Forward),
            r.start_time is None,
            r.end_time is None,
            r.as_dataframe is None,
    {
        KlinesParams {
            symbol: None,
            period: Some(Period::D1),
            count: Some(100),
            adjust: Some(AdjustType::default()),
            start_time: None,
            end_time: None,
            as_dataframe: None,
        }
    }

    /// Defaults of the intraday endpoint: `period=1m`, `count=240`, and no
    /// `adjust` (the intraday API does not accept it).
    pub fn intraday_default() -> (r: Self)
        ensures
            r.symbol is None,
            r.period == Some(Period::M1),
            r.count == Some(240u32),
            r.adjust is None,
            r.start_time is None,
            r.end_time is None,
            r.as_dataframe is None,
    {
        KlinesParams {
            symbol: None,
            period: Some(Period::M1),
            count: Some(240),
            adjust: None,
            start_time: None,
            end_time: None,
            as_dataframe: None,
        }
    }
}

/// Broadcasts a scalar to a column of `len` rows.
pub fn broadcast_to<'a>(scalar: Option<&'a str>, len: usize) -> (r: Vec<Option<&'a str>>)
    ensures
        r@.len() == len,
        forall|i: int| 0 <= i < len ==> r@[i] == scalar,
{
    let mut out: Vec<Option<&'a str>> = Vec::new();
    if scalar.is_some() && len == 0 {
        return out;
    }
    let mut i: usize = 0;
    while i < len
        invariant
            i <= len,
            out@.len() == i,
            forall|j: int| 0 <= j < i ==> out@[j] == scalar,
        decreases len - i,
    {
        out.push(scalar);
        i = i + 1;
    }
    out
}

/// The `trade_date` column of `timestamps` in `tz`.
pub open spec fn trade_dates(timestamps: Seq<i64>, tz: Option<TimeZone>) -> Seq<Option<Seq<char>>> {
    timestamps.map_values(|t: i64| stamp_date(t, tz))
}

/// The `trade_time` column of `timestamps` in `tz`.
pub open spec fn trade_times(timestamps: Seq<i64>, tz: Option<TimeZone>) -> Seq<Option<Seq<char>>> {
    timestamps.map_values(|t: i64| stamp_time(t, tz))
}

/// Computes the `(trade_date, trade_time)` columns aligned to `timestamps`:
/// local strings in `tz`, or `None` entries when there is no zone.
pub fn format_trade_columns(timestamps: &[i64], tz: Option<TimeZone>) -> (r: (
    Vec<Option<String>>,
    Vec<Option<String>>,
))
    ensures
        opt_views(r.0@) == trade_dates(timestamps@, tz),
        opt_views(r.1@) == trade_times(timestamps@, tz),
{
    let mut dates: Vec<Option<String>> = Vec::new();
    let mut times: Vec<Option<String>> = Vec::new();
    let mut i: usize = 0;
    while i < timestamps.len()
        invariant
            i <= timestamps@.len(),
            opt_views(dates@) == trade_dates(timestamps@.subrange(0, i as int), tz),
            opt_views(times@) == trade_times(timestamps@.subrange(0, i as int), tz),
        decreases timestamps.len() - i,
    {
        let (d, t) = local_trade_stamp(timestamps[i], tz);
        let ghost od = dates@;
        let ghost ot = times@;
        dates.push(d);
        times.push(t);
        proof {
            let pre = timestamps@.subrange(0, i + 1);
            assert(pre =~= timestamps@.subrange(0, i as int).push(timestamps@[i as int]));
            assert(opt_views(dates@) =~= opt_views(od).push(crate::text::opt_view(d)));
            assert(opt_views(times@) =~= opt_views(ot).push(crate::text::opt_view(t)));
            assert(trade_dates(pre, tz) =~= trade_dates(timestamps@.subrange(0, i as int), tz).push(
                stamp_date(timestamps@[i as int], tz),
            ));
            assert(trade_times(pre, tz) =~= trade_times(timestamps@.subrange(0, i as int), tz).push(
                stamp_time(timestamps@[i as int], tz),
            ));
        }
        i = i + 1;
    }
    proof {
        assert(timestamps@.subrange(0, timestamps@.len() as int) =~= timestamps@);
    }
    (dates, times)
}

} // verus!
