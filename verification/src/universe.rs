//! Curated symbol collections.
use vstd::prelude::*;
use vstd::string::*;

verus! {

/// A named collection of symbols.
#[derive(Debug, Clone)]
pub struct Universe {
    pub id: String,
    pub name: String,
    pub description: Option<String>,
    pub region: String,
    pub category: String,
    pub symbol_count: Option<u64>,
    pub symbols: Option<Vec<String>>,
}

/// Envelope of a single-universe answer.
#[derive(Debug, Clone)]
pub struct UniverseResponse {
    pub data: Universe,
}

/// Envelope of a universe-list answer.
#[derive(Debug, Clone)]
pub struct BatchUniversesResponse {
    pub data: Vec<Universe>,
}

/// The path of the single-universe endpoint for `id`.
pub fn universe_path(id: &str) -> (r: String)
    ensures
        r@ == "/v1/universes/"@ + id@,
{
    let mut p = String::from_str("/v1/universes/");
    p.append(id);
    p
}

} // verus!
