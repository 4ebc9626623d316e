//! Planning of quote requests: which calls a quotes query makes, what each
//! call carries, and how the answers are keyed by symbol. The calls
//! themselves are made by the caller.
use vstd::prelude::*;
use vstd::string::*;

use crate::batch::{assoc_map, chunked, copy_range, keys_distinct, merge_maps};
use crate::quote::{Quote, QuoteParams};
use crate::text::{join_with, opt_view, seq_join, string_views};
use crate::BATCH_CHUNK_SIZE;

verus! {

/// The HTTP method of a quotes call: a single-item `GET` or a batched
/// `POST`.
#[derive(Debug, Clone, Copy, PartialEq, Eq, Structural)]
pub enum Method {
    Get,
    Post,
}

/// What a quotes query asks for: symbols or universes.
#[derive(Debug)]
pub enum QueryMode {
    Symbols(Vec<String>),
    Universes(Vec<String>),
}

impl QueryMode {
    /// The identifiers of the query.
    pub open spec fn items(&self) -> Seq<String> {
        match self {
            QueryMode::Symbols(v) => v@,
            QueryMode::Universes(v) => v@,
        }
    }

    /// Whether the identifiers name universes.
    pub open spec fn is_universes(&self) -> bool {
        self is Universes
    }
}

/// Query string of a `GET` quotes call: the identifiers joined with commas
/// in exactly one of the two fields.
#[derive(Debug)]
pub struct CsvQuery {
    pub symbols: Option<String>,
    pub universes: Option<String>,
}

/// One quotes call: a `GET` with a query string, or a `POST` with a body.
#[derive(Debug)]
pub enum QuoteRequest {
    Get(CsvQuery),
    Post(QuoteParams),
}

/// `o` holds a list equal to `items` when `present`, and nothing otherwise.
pub open spec fn list_field(o: Option<Vec<String>>, items: Seq<String>, present: bool) -> bool {
    match o {
        Some(v) => present && v@ == items,
        None => !present,
    }
}

/// `r` is the call that `method` makes for `items` (universes when
/// `is_universes`, symbols otherwise): a `GET` carries the identifiers
/// joined with commas, a `POST` carries them as a list.
pub open spec fn request_for(r: QuoteRequest, method: Method, items: Seq<String>, is_universes: bool) -> bool {
    let joined = seq_join(string_views(items), ","@);
    match r {
        QuoteRequest::Get(q) => {
            &&& method == Method::Get
            &&& opt_view(q.symbols) == (if is_universes { None } else { Some(joined) })
            &&& opt_view(q.universes) == (if is_universes { Some(joined) } else { None })
        },
        QuoteRequest::Post(p) => {
            &&& method == Method::Post
            &&& list_field(p.symbols, items, !is_universes)
            &&& list_field(p.universes, items, is_universes)
        },
    }
}

/// Builds the call that `method` makes for `items`.
pub fn quote_request(method: Method, items: &[String], is_universes: bool) -> (r: QuoteRequest)
    ensures
        request_for(r, method, items@, is_universes),
{
    match method {
        Method::Get => {
            let joined = join_with(items, ",");
            if is_universes {
                QuoteRequest::Get(CsvQuery { symbols: None, universes: Some(joined) })
            } else {
                QuoteRequest::Get(CsvQuery { symbols: Some(joined), universes: None })
            }
        },
        Method::Post => {
            let list = copy_range(items, 0, items.len());
            proof {
                assert(items@.subrange(0, items@.len() as int) =~= items@);
            }
            if is_universes {
                QuoteRequest::Post(QuoteParams { symbols: None, universes: Some(list) })
            } else {
                QuoteRequest::Post(QuoteParams { symbols: Some(list), universes: None })
            }
        },
    }
}

/// The calls of a query: a `GET` asks for its first identifier alone (no
/// call at all when there is none); a `POST` asks for the identifiers in
/// chunks of [`BATCH_CHUNK_SIZE`], one call per chunk, in order.
pub open spec fn planned_requests(r: Seq<QuoteRequest>, method: Method, items: Seq<String>, is_universes: bool) -> bool {
    match method {
        Method::Get => {
            &&& r.len() == (if items.len() == 0 { 0int } else { 1int })
            &&& r.len() == 1 ==> request_for(r[0], Method::Get, items.take(1), is_universes)
        },
        Method::Post => {
            let chunks = chunked(items, BATCH_CHUNK_SIZE as nat);
            &&& r.len() == chunks.len()
            &&& forall|i: int|
                0 <= i < r.len() ==> #[trigger] request_for(r[i], Method::Post, chunks[i], is_universes)
        },
    }
}

/// The calls that a quotes query makes.
pub fn quote_requests(method: Method, mode: &QueryMode) -> (r: Vec<QuoteRequest>)
    ensures
        planned_requests(r@, method, mode.items(), mode.is_universes()),
{
    let (items, is_universes) = match mode {
        QueryMode::Symbols(v) => (v, false),
        QueryMode::Universes(v) => (v, true),
    };
    let mut out: Vec<QuoteRequest> = Vec::new();
    match method {
        Method::Get => {
            if items.len() > 0 {
                let first = copy_range(items.as_slice(), 0, 1);
                proof {
                    assert(items@.subrange(0, 1) =~= items@.take(1));
                }
                out.push(quote_request(Method::Get, first.as_slice(), is_universes));
            }
        },
        Method::Post => {
            let chunks = crate::batch::chunk_strings(items.as_slice(), BATCH_CHUNK_SIZE);
            let mut i: usize = 0;
            while i < chunks.len()
                invariant
                    i <= chunks@.len(),
                    crate::batch::nested_views(chunks@) == chunked(items@, BATCH_CHUNK_SIZE as nat),
                    out@.len() == i,
                    forall|j: int|
                        0 <= j < i ==> #[trigger] request_for(
                            out@[j],
                            Method::Post,
                            chunked(items@, BATCH_CHUNK_SIZE as nat)[j],
                            is_universes,
                        ),
                decreases chunks.len() - i,
            {
                proof {
                    assert(crate::batch::nested_views(chunks@)[i as int] == chunks@[i as int]@);
                }
                let req = quote_request(Method::Post, chunks[i].as_slice(), is_universes);
                out.push(req);
                i = i + 1;
            }
        },
    }
    out
}

/// The `(symbol, quote)` entries of quotes, in their order.
pub open spec fn keyed_quotes(data: Seq<Quote>) -> Seq<(String, Quote)> {
    data.map_values(|q: Quote| (q.symbol, q))
}

/// Keys the quotes of one answer by their symbols; where a symbol occurs
/// twice, the later quote wins, as when the pairs are collected into a map.
pub fn quotes_by_symbol(data: &Vec<Quote>) -> (r: Vec<(String, Quote)>)
    ensures
        keys_distinct(r@),
        assoc_map(r@) == assoc_map(keyed_quotes(data@)),
{
    let mut pairs: Vec<(String, Quote)> = Vec::new();
    let mut i: usize = 0;
    while i < data.len()
        invariant
            i <= data@.len(),
            pairs@ == keyed_quotes(data@.take(i as int)),
        decreases data.len() - i,
    {
        let q = data[i].clone();
        let key = q.symbol.clone();
        pairs.push((key, q));
        proof {
            assert(data@.take(i + 1) =~= data@.take(i as int).push(data@[i as int]));
            assert(pairs@ =~= keyed_quotes(data@.take(i + 1)));
        }
        i = i + 1;
    }
    proof {
        assert(data@.take(data@.len() as int) =~= data@);
    }
    let ghost all = pairs@;
    let mut maps: Vec<Vec<(String, Quote)>> = Vec::new();
    maps.push(pairs);
    proof {
        let views = maps@.map_values(|m: Vec<(String, Quote)>| m@);
        assert(views =~= seq![all]);
        views.lemma_flatten_one_element();
    }
    merge_maps(maps)
}

/// A quotes query: what it asks for, how, and whether the answer is wanted
/// as a table.
#[derive(Debug)]
pub struct QuotesQuery {
    pub method: Method,
    pub mode: QueryMode,
    pub as_dataframe: bool,
}

impl QuotesQuery {
    /// A single-symbol query (`GET`).
    pub fn symbol(symbol: &str) -> (r: Self)
        ensures
            r.method == Method::Get,
            r.mode is Symbols,
            r.mode.items().len() == 1,
            r.mode.items()[0]@ == symbol@,
            !r.as_dataframe,
    {
        let mut v: Vec<String> = Vec::new();
        v.push(symbol.to_owned());
        QuotesQuery { method: Method::Get, mode: QueryMode::Symbols(v), as_dataframe: false }
    }

    /// A single-universe query (`GET`).
    pub fn universe(universe: &str) -> (r: Self)
        ensures
            r.method == Method::Get,
            r.mode is Universes,
            r.mode.items().len() == 1,
            r.mode.items()[0]@ == universe@,
            !r.as_dataframe,
    {
        let mut v: Vec<String> = Vec::new();
        v.push(universe.to_owned());
        QuotesQuery { method: Method::Get, mode: QueryMode::Universes(v), as_dataframe: false }
    }

    /// A batch query over symbols (`POST`).
    pub fn batch_symbols(symbols: Vec<String>) -> (r: Self)
        ensures
            r.method == Method::Post,
            r.mode is Symbols,
            r.mode.items() == symbols@,
            !r.as_dataframe,
    {
        QuotesQuery { method: Method::Post, mode: QueryMode::Symbols(symbols), as_dataframe: false }
    }

    /// A batch query over universes (`POST`).
    pub fn batch_universes(universes: Vec<String>) -> (r: Self)
        ensures
            r.method == Method::Post,
            r.mode is Universes,
            r.mode.items() == universes@,
            !r.as_dataframe,
    {
        QuotesQuery { method: Method::Post, mode: QueryMode::Universes(universes), as_dataframe: false }
    }

    /// The same query, answered as a table.
    pub fn as_dataframe(self) -> (r: Self)
        ensures
            r.method == self.method,
            r.mode == self.mode,
            r.as_dataframe,
    {
        QuotesQuery { method: self.method, mode: self.mode, as_dataframe: true }
    }

    /// The calls that the query makes.
    pub fn requests(&self) -> (r: Vec<QuoteRequest>)
        ensures
            planned_requests(r@, self.method, self.mode.items(), self.mode.is_universes()),
    {
        quote_requests(self.method, &self.mode)
    }
}

} // verus!
