//! Kline periods (`1m` ... `1Y`).
use vstd::prelude::*;

use crate::text::str_eq;

verus! {

/// A kline period.
#[derive(Debug, Clone, Copy, PartialEq, Eq, Structural, Hash)]
pub enum Period {
    M1,
    M5,
    M10,
    M15,
    M30,
    M60,
    D1,
    W1,
    Mo1,
    Q1,
    Y1,
}

/// The wire code of a period.
pub open spec fn period_code(p: Period) -> Seq<char> {
    match p {
        Period::M1 => "1m"@,
        Period::M5 => "5m"@,
        Period::M10 => "10m"@,
        Period::M15 => "15m"@,
        Period::M30 => "30m"@,
        Period::M60 => "60m"@,
        Period::D1 => "1d"@,
        Period::W1 => "1w"@,
        Period::Mo1 => "1M"@,
        Period::Q1 => "1Q"@,
        Period::Y1 => "1Y"@,
    }
}

/// The period's code as a static string.
pub open spec fn period_str(p: Period) -> &'static str {
    match p {
        Period::M1 => "1m",
        Period::M5 => "5m",
        Period::M10 => "10m",
        Period::M15 => "15m",
        Period::M30 => "30m",
        Period::M60 => "60m",
        Period::D1 => "1d",
        Period::W1 => "1w",
        Period::Mo1 => "1M",
        Period::Q1 => "1Q",
        Period::Y1 => "1Y",
    }
}

/// The period whose wire code is `s`, if any (codes are case-sensitive:
/// `1m` is one minute, `1M` one month).
pub open spec fn period_of(s: Seq<char>) -> Option<Period> {
    if s == "1m"@ {
        Some(Period::M1)
    } else if s == "5m"@ {
        Some(Period::M5)
    } else if s == "10m"@ {
        Some(Period::M10)
    } else if s == "15m"@ {
        Some(Period::M15)
    } else if s == "30m"@ {
        Some(Period::M30)
    } else if s == "60m"@ {
        Some(Period::M60)
    } else if s == "1d"@ {
        Some(Period::D1)
    } else if s == "1w"@ {
        Some(Period::W1)
    } else if s == "1M"@ {
        Some(Period::Mo1)
    } else if s == "1Q"@ {
        Some(Period::Q1)
    } else if s == "1Y"@ {
        Some(Period::Y1)
    } else {
        None
    }
}

impl Period {
    /// The period's wire code.
    pub fn as_str(&self) -> (r: &'static str)
        ensures
            r@ == period_code(*self),
            r == period_str(*self),
    {
        match self {
            Period::M1 => "1m",
            Period::M5 => "5m",
            Period::M10 => "10m",
            Period::M15 => "15m",
            Period::M30 => "30m",
            Period::M60 => "60m",
            Period::D1 => "1d",
            Period::W1 => "1w",
            Period::Mo1 => "1M",
            Period::Q1 => "1Q",
            Period::Y1 => "1Y",
        }
    }

    /// Parses a period code; `None` for codes it does not recognise.
    pub fn parse(s: &str) -> (r: Option<Period>)
        ensures
            r == period_of(s@),
    {
        if str_eq(s, "1m") {
            Some(Period::M1)
        } else if str_eq(s, "5m") {
            Some(Period::M5)
        } else if str_eq(s, "10m") {
            Some(Period::M10)
        } else if str_eq(s, "15m") {
            Some(Period::M15)
        } else if str_eq(s, "30m") {
            Some(Period::M30)
        } else if str_eq(s, "60m") {
            Some(Period::M60)
        } else if str_eq(s, "1d") {
            Some(Period::D1)
        } else if str_eq(s, "1w") {
            Some(Period::W1)
        } else if str_eq(s, "1M") {
            Some(Period::Mo1)
        } else if str_eq(s, "1Q") {
            Some(Period::Q1)
        } else if str_eq(s, "1Y") {
            Some(Period::Y1)
        } else {
            None
        }
    }
}

impl From<Period> for &'static str {
    fn from(val: Period) -> (r: &'static str) {
        val.as_str()
    }
}

impl vstd::std_specs::convert::FromSpecImpl<Period> for &'static str {
    open spec fn obeys_from_spec() -> bool {
        true
    }

    open spec fn from_spec(v: Period) -> &'static str {
        period_str(v)
    }
}

} // verus!
