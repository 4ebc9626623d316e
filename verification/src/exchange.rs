//! Exchange listings.
use vstd::prelude::*;
use vstd::string::*;

use crate::symbol::Region;

verus! {

/// One exchange and the number of instruments listed on it.
#[derive(Debug, Clone)]
pub struct ExchangeData {
    pub exchange: String,
    pub region: Region,
    pub count: usize,
}

/// Envelope of the exchange-list answer.
#[derive(Debug, Clone)]
pub struct ExchangeListResponse {
    pub data: Vec<ExchangeData>,
}

/// The path of the endpoint listing the instruments of `exchange`.
pub fn exchange_instruments_path(exchange: &str) -> (r: String)
    ensures
        r@ == "/v1/exchanges/"@ + exchange@ + "/instruments"@,
{
    let mut p = String::from_str("/v1/exchanges/");
    p.append(exchange);
    p.append("/instruments");
    p
}

} // verus!
