//! Quote snapshots. Prices and ratios are carried as the IEEE-754 bit
//! patterns of their `f64` values (`f64::to_bits`): the library moves them
//! between records and tables without computing on them.
use vstd::prelude::*;

use crate::symbol::Region;
use crate::text::str_eq;

verus! {

/// A last-trade / top-of-book snapshot of one instrument.
#[derive(Debug)]
pub struct Quote {
    pub symbol: String,
    pub last_price: u64,
    pub open: u64,
    pub high: u64,
    pub low: u64,
    pub prev_close: u64,
    pub volume: i64,
    pub amount: u64,
    pub timestamp: i64,
    pub ext: Option<QuoteExtension>,
    pub region: Region,
    pub session: Option<SessionStatus>,
}

/// Request body of the batch quotes endpoint.
#[derive(Debug, Clone)]
pub struct QuoteParams {
    pub symbols: Option<Vec<String>>,
    pub universes: Option<Vec<String>>,
}

/// Envelope of a quotes answer.
#[derive(Debug, Clone)]
pub struct BatchQuotesResponse {
    pub data: Vec<Quote>,
}

/// Market-specific extension of a quote.
#[derive(Debug)]
pub enum QuoteExtension {
    Cn(QuoteExt),
    Us(QuoteExt),
    Hk(QuoteExt),
}

/// Derived quote figures; every one may be absent.
#[derive(Debug)]
pub struct QuoteExt {
    pub amplitude: Option<u64>,
    pub change_amount: Option<u64>,
    pub change_pct: Option<u64>,
    pub name: Option<String>,
    pub turnover_rate: Option<u64>,
}

impl Clone for QuoteExt {
    fn clone(&self) -> (r: Self)
        ensures
            r == *self,
    {
        QuoteExt {
            amplitude: self.amplitude,
            change_amount: self.change_amount,
            change_pct: self.change_pct,
            name: match &self.name {
                Some(n) => Some(n.clone()),
                None => None,
            },
            turnover_rate: self.turnover_rate,
        }
    }
}

impl Clone for QuoteExtension {
    fn clone(&self) -> (r: Self)
        ensures
            r == *self,
    {
        match self {
            QuoteExtension::Cn(e) => QuoteExtension::Cn(e.clone()),
            QuoteExtension::Us(e) => QuoteExtension::Us(e.clone()),
            QuoteExtension::Hk(e) => QuoteExtension::Hk(e.clone()),
        }
    }
}

impl Clone for Quote {
    fn clone(&self) -> (r: Self)
        ensures
            r == *self,
    {
        Quote {
            symbol: self.symbol.clone(),
            last_price: self.last_price,
            open: self.open,
            high: self.high,
            low: self.low,
            prev_close: self.prev_close,
            volume: self.volume,
            amount: self.amount,
            timestamp: self.timestamp,
            ext: match &self.ext {
                Some(e) => Some(e.clone()),
                None => None,
            },
            region: self.region,
            session: self.session,
        }
    }
}

/// Trading-session state of a market.
#[derive(Debug, Clone, Copy, PartialEq, Eq, Structural, Hash)]
pub enum SessionStatus {
    PreMarket,
    Regular,
    AfterHours,
    Closed,
    Halted,
    LunchBreak,
}

/// The wire code of a session state.
pub open spec fn session_code(s: SessionStatus) -> Seq<char> {
    match s {
        SessionStatus::PreMarket => "pre_market"@,
        SessionStatus::Regular => "regular"@,
        SessionStatus::AfterHours => "after_hours"@,
        SessionStatus::Closed => "closed"@,
        SessionStatus::Halted => "halted"@,
        SessionStatus::LunchBreak => "lunch_break"@,
    }
}

/// The session state whose wire code is `s`, if any.
pub open spec fn session_of(s: Seq<char>) -> Option<SessionStatus> {
    if s == "pre_market"@ {
        Some(SessionStatus::PreMarket)
    } else if s == "regular"@ {
        Some(SessionStatus::Regular)
    } else if s == "after_hours"@ {
        Some(SessionStatus::AfterHours)
    } else if s == "closed"@ {
        Some(SessionStatus::Closed)
    } else if s == "halted"@ {
        Some(SessionStatus::Halted)
    } else if s == "lunch_break"@ {
        Some(SessionStatus::LunchBreak)
    } else {
        None
    }
}

impl SessionStatus {
    /// The state's wire code.
    pub fn as_str(&self) -> (r: &'static str)
        ensures
            r@ == session_code(*self),
    {
        match self {
            SessionStatus::PreMarket => "pre_market",
            SessionStatus::Regular => "regular",
            SessionStatus::AfterHours => "after_hours",
            SessionStatus::Closed => "closed",
            SessionStatus::Halted => "halted",
            SessionStatus::LunchBreak => "lunch_break",
        }
    }

    /// Parses a wire code; `None` for codes it does not recognise.
    pub fn parse(s: &str) -> (r: Option<SessionStatus>)
        ensures
            r == session_of(s@),
    {
        if str_eq(s, "pre_market") {
            Some(SessionStatus::PreMarket)
        } else if str_eq(s, "regular") {
            Some(SessionStatus::Regular)
        } else if str_eq(s, "after_hours") {
            Some(SessionStatus::AfterHours)
        } else if str_eq(s, "closed") {
            Some(SessionStatus::Closed)
        } else if str_eq(s, "halted") {
            Some(SessionStatus::Halted)
        } else if str_eq(s, "lunch_break") {
            Some(SessionStatus::LunchBreak)
        } else {
            None
        }
    }
}

/// The extension figures of a quote, whatever its market.
pub open spec fn quote_ext_of(q: Quote) -> Option<QuoteExt> {
    match q.ext {
        Some(QuoteExtension::Cn(e)) => Some(e),
        Some(QuoteExtension::Us(e)) => Some(e),
        Some(QuoteExtension::Hk(e)) => Some(e),
        None => None,
    }
}

/// The extension figures of a quote, whatever its market.
pub fn quote_ext_inner(q: &Quote) -> (r: Option<&QuoteExt>)
    ensures
        r == (match quote_ext_of(*q) {
            Some(e) => Some(&e),
            None => None,
        }),
{
    match &q.ext {
        Some(QuoteExtension::Cn(e)) => Some(e),
        Some(QuoteExtension::Us(e)) => Some(e),
        Some(QuoteExtension::Hk(e)) => Some(e),
        None => None,
    }
}

} // verus!
