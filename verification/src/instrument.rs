//! Instrument types.
use vstd::prelude::*;
use vstd::string::*;

use crate::error::Error;

verus! {

/// The kind of a listed instrument.
#[derive(Debug, Clone, Copy, PartialEq, Eq, Structural, Hash)]
pub enum InstrumentType {
    /// Common stock.
    Stock,
    /// Exchange-traded fund.
    Etf,
    /// Market index.
    Index,
    /// Bond.
    Bond,
    /// Fund.
    Fund,
    /// Options.
    Options,
    /// Other.
    Other,
}

/// The wire code of an instrument type.
pub open spec fn instrument_type_code(t: InstrumentType) -> Seq<char> {
    match t {
        InstrumentType::Stock => "stock"@,
        InstrumentType::Etf => "etf"@,
        InstrumentType::Index => "index"@,
        InstrumentType::Bond => "bond"@,
        InstrumentType::Fund => "fund"@,
        InstrumentType::Options => "options"@,
        InstrumentType::Other => "other"@,
    }
}

impl InstrumentType {
    /// The type's wire code.
    pub fn as_str(&self) -> (r: &'static str)
        ensures
            r@ == instrument_type_code(*self),
    {
        match self {
            InstrumentType::Stock => "stock",
            InstrumentType::Etf => "etf",
            InstrumentType::Index => "index",
            InstrumentType::Bond => "bond",
            InstrumentType::Fund => "fund",
            InstrumentType::Options => "options",
            InstrumentType::Other => "other",
        }
    }
}

/// The first record of an instruments answer, the one a single-symbol
/// request asks for; an answer without records is a parse error.
pub fn first_instrument<T>(data: Vec<T>) -> (r: Result<T, Error>)
    ensures
        r is Ok <==> data@.len() > 0,
        r matches Ok(t) ==> t == data@[0],
        r matches Err(e) ==> e matches Error::Parse(m)
            && m@ == "instruments response contained no data for the requested symbol"@,
{
    let mut data = data;
    if data.len() == 0 {
        Err(Error::Parse("instruments response contained no data for the requested symbol".to_owned()))
    } else {
        Ok(data.remove(0))
    }
}

} // verus!
