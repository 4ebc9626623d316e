//! Planning of kline requests and checking of their answers: the query of
//! each batch call, and the validation that a single-symbol answer passes
//! before it is handed out.
use vstd::prelude::*;
use vstd::string::*;

use crate::batch::{csv_chunked, csv_chunks};
use crate::error::Error;
use crate::kline::{columns_aligned, KlineData, KlinesParams, KlinesResponse};
use crate::BATCH_CHUNK_SIZE;

verus! {

/// Query of one batch kline call: a comma-separated chunk of symbols next
/// to the shared parameters.
#[derive(Debug)]
pub struct BatchParams {
    pub symbols: String,
    pub params: KlinesParams,
}

/// The queries of a batch kline request: one per chunk of
/// [`BATCH_CHUNK_SIZE`] symbols, in order, each with a copy of `params`; no
/// query at all for no symbol.
pub fn batch_params(symbols: &[String], params: &KlinesParams) -> (r: Vec<BatchParams>)
    ensures
        r@.len() == csv_chunked(symbols@, BATCH_CHUNK_SIZE as nat).len(),
        forall|i: int|
            0 <= i < r@.len() ==> {
                &&& (#[trigger] r@[i]).symbols@ == csv_chunked(symbols@, BATCH_CHUNK_SIZE as nat)[i]
                &&& r@[i].params == *params
            },
{
    let mut chunks = csv_chunks(symbols, BATCH_CHUNK_SIZE);
    let ghost target = csv_chunked(symbols@, BATCH_CHUNK_SIZE as nat);
    let ghost all = chunks@;
    let mut rev: Vec<BatchParams> = Vec::new();
    while chunks.len() > 0
        invariant
            all.map_values(|s: String| s@) == target,
            chunks@ == all.take(chunks@.len() as int),
            chunks@.len() + rev@.len() == all.len(),
            forall|j: int|
                0 <= j < rev@.len() ==> {
                    &&& (#[trigger] rev@[j]).symbols@ == target[all.len() - 1 - j]
                    &&& rev@[j].params == *params
                },
        decreases chunks.len(),
    {
        let ghost n = chunks@.len() as int;
        let c = chunks.pop().unwrap();
        proof {
            assert(c == all[n - 1]);
            assert(target[n - 1] == all[n - 1]@);
            assert(chunks@ =~= all.take(n - 1));
        }
        rev.push(BatchParams { symbols: c, params: params.clone() });
    }
    let mut out: Vec<BatchParams> = Vec::new();
    while rev.len() > 0
        invariant
            all.map_values(|s: String| s@) == target,
            rev@.len() + out@.len() == all.len(),
            forall|j: int|
                0 <= j < rev@.len() ==> {
                    &&& (#[trigger] rev@[j]).symbols@ == target[all.len() - 1 - j]
                    &&& rev@[j].params == *params
                },
            forall|j: int|
                0 <= j < out@.len() ==> {
                    &&& (#[trigger] out@[j]).symbols@ == target[j]
                    &&& out@[j].params == *params
                },
        decreases rev.len(),
    {
        let ghost n = rev@.len() as int;
        let ghost before = rev@;
        let b = rev.pop().unwrap();
        proof {
            assert(b == before[n - 1]);
            assert forall|j: int| 0 <= j < rev@.len() implies {
                &&& (#[trigger] rev@[j]).symbols@ == target[all.len() - 1 - j]
                &&& rev@[j].params == *params
            } by {
                assert(rev@[j] == before[j]);
            }
        }
        out.push(b);
    }
    out
}

/// Hands out the bars of a single-symbol answer once their columns are
/// aligned; otherwise the parse error that the check reports.
pub fn checked_klines(resp: KlinesResponse) -> (r: Result<KlineData, Error>)
    ensures
        r is Ok <==> columns_aligned(resp.data),
        r matches Ok(d) ==> d == resp.data,
        r matches Err(e) ==> e matches Error::Parse(m) && m@ == "column length mismatch"@,
{
    match resp.data.validate() {
        Ok(()) => Ok(resp.data),
        Err(message) => Err(Error::Parse(message.to_owned())),
    }
}

} // verus!
