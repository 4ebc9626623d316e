//! Financial-statement endpoints: which path serves each statement, the
//! optional filters, and the query each chunk of symbols is sent with.
use vstd::prelude::*;
use vstd::string::*;

use crate::batch::{csv_chunked, csv_chunks};
use crate::text::{clone_opt, opt_view};
use crate::BATCH_CHUNK_SIZE;

verus! {

/// Financial statement type.
#[derive(Debug, Clone, Copy, PartialEq, Eq, Structural, Hash)]
pub enum Statement {
    /// Income statement.
    Income,
    /// Balance sheet.
    BalanceSheet,
    /// Cash-flow statement.
    CashFlow,
    /// Core financial metrics (ROE, EPS, ...).
    Metrics,
    /// Share count over time.
    Shares,
}

/// The HTTP path that serves a statement.
pub open spec fn statement_path(s: Statement) -> Seq<char> {
    match s {
        Statement::Income => "/v1/financials/income"@,
        Statement::BalanceSheet => "/v1/financials/balance-sheet"@,
        Statement::CashFlow => "/v1/financials/cash-flow"@,
        Statement::Metrics => "/v1/financials/metrics"@,
        Statement::Shares => "/v1/financials/shares"@,
    }
}

impl Statement {
    /// HTTP path for this statement type.
    pub fn endpoint(self) -> (r: &'static str)
        ensures
            r@ == statement_path(self),
    {
        match self {
            Statement::Income => "/v1/financials/income",
            Statement::BalanceSheet => "/v1/financials/balance-sheet",
            Statement::CashFlow => "/v1/financials/cash-flow",
            Statement::Metrics => "/v1/financials/metrics",
            Statement::Shares => "/v1/financials/shares",
        }
    }
}

/// Optional filters shared by every financial-statement endpoint.
#[derive(Debug)]
pub struct StatementParams {
    start_date: Option<String>,
    end_date: Option<String>,
    latest: Option<bool>,
}

/// The filters as plain values: start date, end date, latest-only flag.
pub struct StatementParamsView {
    pub start_date: Option<Seq<char>>,
    pub end_date: Option<Seq<char>>,
    pub latest: Option<bool>,
}

/// One setter call on a parameter set, as plain values.
pub enum ParamSetting {
    StartDate(Seq<char>),
    EndDate(Seq<char>),
    Latest(bool),
}

/// The parameter set after one setter call: the field it sets replaced,
/// the others kept.
pub open spec fn apply_setting(v: StatementParamsView, s: ParamSetting) -> StatementParamsView {
    match s {
        ParamSetting::StartDate(d) => StatementParamsView { start_date: Some(d), ..v },
        ParamSetting::EndDate(d) => StatementParamsView { end_date: Some(d), ..v },
        ParamSetting::Latest(b) => StatementParamsView { latest: Some(b), ..v },
    }
}

/// The parameter set after a sequence of setter calls, in order.
pub open spec fn apply_settings(v: StatementParamsView, ss: Seq<ParamSetting>) -> StatementParamsView
    decreases ss.len(),
{
    if ss.len() == 0 {
        v
    } else {
        apply_setting(apply_settings(v, ss.drop_last()), ss.last())
    }
}

impl View for StatementParams {
    type V = StatementParamsView;

    closed spec fn view(&self) -> StatementParamsView {
        StatementParamsView {
            start_date: opt_view(self.start_date),
            end_date: opt_view(self.end_date),
            latest: self.latest,
        }
    }
}

impl Clone for StatementParams {
    fn clone(&self) -> (r: Self)
        ensures
            r@ == self@,
    {
        StatementParams {
            start_date: clone_opt(&self.start_date),
            end_date: clone_opt(&self.end_date),
            latest: self.latest,
        }
    }
}

impl Default for StatementParams {
    fn default() -> (r: Self)
        ensures
            r@.start_date is None,
            r@.end_date is None,
            r@.latest is None,
    {
        StatementParams { start_date: None, end_date: None, latest: None }
    }
}

/// The query sent with one chunk of symbols.
#[derive(Debug, Clone)]
pub struct QueryParams {
    /// Comma-separated symbols.
    pub symbols: String,
    pub start_date: Option<String>,
    pub end_date: Option<String>,
    pub latest: Option<bool>,
}

impl StatementParams {
    /// A parameter set with no filter.
    pub fn new() -> (r: Self)
        ensures
            r@.start_date is None,
            r@.end_date is None,
            r@.latest is None,
    {
        Self::default()
    }

    /// Sets the first reporting period to include.
    pub fn start_date(self, date: &str) -> (r: Self)
        ensures
            r@.start_date == Some(date@),
            r@.end_date == self@.end_date,
            r@.latest == self@.latest,
            r@ == apply_setting(self@, ParamSetting::StartDate(date@)),
    {
        StatementParams { start_date: Some(date.to_owned()), ..self }
    }

    /// Sets the last reporting period to include.
    pub fn end_date(self, date: &str) -> (r: Self)
        ensures
            r@.end_date == Some(date@),
            r@.start_date == self@.start_date,
            r@.latest == self@.latest,
            r@ == apply_setting(self@, ParamSetting::EndDate(date@)),
    {
        StatementParams { end_date: Some(date.to_owned()), ..self }
    }

    /// Asks for the latest period only (or not).
    pub fn latest(self, latest: bool) -> (r: Self)
        ensures
            r@.latest == Some(latest),
            r@.start_date == self@.start_date,
            r@.end_date == self@.end_date,
            r@ == apply_setting(self@, ParamSetting::Latest(latest)),
    {
        StatementParams { latest: Some(latest), ..self }
    }

    /// The query for one comma-separated chunk of symbols.
    pub fn into_query(self, symbols: String) -> (r: QueryParams)
        ensures
            r.symbols == symbols,
            opt_view(r.start_date) == self@.start_date,
            opt_view(r.end_date) == self@.end_date,
            r.latest == self@.latest,
    {
        QueryParams {
            symbols,
            start_date: self.start_date,
            end_date: self.end_date,
            latest: self.latest,
        }
    }
}

/// The queries that a statement request sends: one per chunk of at most
/// [`BATCH_CHUNK_SIZE`] symbols, each with the chunk's symbols joined by
/// commas and the given filters (none when `params` is `None`). No symbol,
/// no query.
pub fn statement_queries(symbols: &[String], params: &Option<StatementParams>) -> (r: Vec<QueryParams>)
    ensures
        r@.len() == csv_chunked(symbols@, BATCH_CHUNK_SIZE as nat).len(),
        forall|i: int| 0 <= i < r@.len() ==> {
            &&& #[trigger] r@[i].symbols@ == csv_chunked(symbols@, BATCH_CHUNK_SIZE as nat)[i]
            &&& opt_view(r@[i].start_date) == (match params {
                Some(p) => p@.start_date,
                None => None,
            })
            &&& opt_view(r@[i].end_date) == (match params {
                Some(p) => p@.end_date,
                None => None,
            })
            &&& r@[i].latest == (match params {
                Some(p) => p@.latest,
                None => None,
            })
        },
{
    let chunks = csv_chunks(symbols, BATCH_CHUNK_SIZE);
    let ghost target = csv_chunked(symbols@, BATCH_CHUNK_SIZE as nat);
    let mut out: Vec<QueryParams> = Vec::new();
    let mut i: usize = 0;
    while i < chunks.len()
        invariant
            i <= chunks@.len(),
            chunks@.map_values(|s: String| s@) == target,
            out@.len() == i,
            forall|j: int| 0 <= j < i ==> {
                &&& #[trigger] out@[j].symbols@ == target[j]
                &&& opt_view(out@[j].start_date) == (match params {
                    Some(p) => p@.start_date,
                    None => None,
                })
                &&& opt_view(out@[j].end_date) == (match params {
                    Some(p) => p@.end_date,
                    None => None,
                })
                &&& out@[j].latest == (match params {
                    Some(p) => p@.latest,
                    None => None,
                })
            },
        decreases chunks.len() - i,
    {
        let p = match params {
            Some(p) => p.clone(),
            None => StatementParams::default(),
        };
        let q = p.into_query(chunks[i].clone());
        assert(target[i as int] == chunks@[i as int]@);
        out.push(q);
        i = i + 1;
    }
    out
}

} // verus!
