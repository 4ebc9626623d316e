//! Properties that relate several operations of the library.
use vstd::prelude::*;
use vstd::string::*;

use crate::adjust::{adjust_code, AdjustType};
use crate::batch::{assoc_map, chunked, keys_distinct, lemma_assoc_map_dom, lemma_assoc_map_last};
use crate::cache::{cached_pairs, found, lemma_mark_asked, mark_asked, missing_symbols};
use crate::order::{is_key_order, key_at, lemma_seq_lt_asymmetric, lemma_seq_lt_irreflexive, lists};
use crate::quote::Quote;
use crate::records::{all_names, field_value, json_cells, record_rows, records_table, JsonObject, RecordRow};
use crate::quote_frame::{
    ordered_rows, quote_table, qc_symbol, qc_region, qc_last_price, qc_open, qc_high, qc_low, qc_prev_close, qc_volume, qc_amount, qc_timestamp, qc_trade_date, qc_trade_time, qc_session, qc_ext_amplitude, qc_ext_change_amount, qc_ext_change_pct, qc_ext_name, qc_ext_turnover_rate,
};
use crate::quote_request::{planned_requests, Method, QuoteRequest};
use crate::text::seq_join;
use crate::BATCH_CHUNK_SIZE;
use crate::financial::{apply_settings, statement_path, ParamSetting, Statement, StatementParamsView};
use crate::instrument::{instrument_type_code, InstrumentType};
use crate::period::{period_code, period_of, Period};
use crate::quote::{session_code, session_of, SessionStatus};
use crate::symbol::{region_code, region_of_code, Region};

verus! {

/// Parsing the code of a region gives the region back.
pub proof fn law_region_roundtrip(r: Region)
    ensures
        region_of_code(region_code(r)) == Some(r),
{
    reveal_strlit("CN");
    reveal_strlit("HK");
    reveal_strlit("US");
    assert("CN"@[0] == 'C' && "HK"@[0] == 'H' && "US"@[0] == 'U');
}

/// Parsing the wire code of a session state gives the state back.
pub proof fn law_session_roundtrip(s: SessionStatus)
    ensures
        session_of(session_code(s)) == Some(s),
{
    reveal_strlit("pre_market");
    reveal_strlit("regular");
    reveal_strlit("after_hours");
    reveal_strlit("closed");
    reveal_strlit("halted");
    reveal_strlit("lunch_break");
    assert("pre_market"@.len() == 10 && "regular"@.len() == 7 && "after_hours"@.len() == 11);
    assert("closed"@.len() == 6 && "halted"@.len() == 6 && "lunch_break"@.len() == 11);
    assert("closed"@[0] == 'c' && "halted"@[0] == 'h');
    assert("after_hours"@[0] == 'a' && "lunch_break"@[0] == 'l');
}

/// Parsing the wire code of a period gives the period back.
pub proof fn law_period_roundtrip(p: Period)
    ensures
        period_of(period_code(p)) == Some(p),
{
    reveal_strlit("1m");
    reveal_strlit("5m");
    reveal_strlit("10m");
    reveal_strlit("15m");
    reveal_strlit("30m");
    reveal_strlit("60m");
    reveal_strlit("1d");
    reveal_strlit("1w");
    reveal_strlit("1M");
    reveal_strlit("1Q");
    reveal_strlit("1Y");
    assert("1Y"@.len() == 2 && "1Y"@[1] == 'Y');
    assert("1m"@.len() == 2 && "5m"@.len() == 2 && "1d"@.len() == 2 && "1w"@.len() == 2);
    assert("1M"@.len() == 2 && "1Q"@.len() == 2);
    assert("10m"@.len() == 3 && "15m"@.len() == 3 && "30m"@.len() == 3 && "60m"@.len() == 3);
    assert("1m"@[0] == '1' && "1m"@[1] == 'm' && "5m"@[0] == '5');
    assert("1d"@[1] == 'd' && "1w"@[1] == 'w' && "1M"@[1] == 'M' && "1Q"@[1] == 'Q');
    assert("10m"@[0] == '1' && "10m"@[1] == '0' && "15m"@[1] == '5');
    assert("30m"@[0] == '3' && "60m"@[0] == '6');
}

/// Different adjustment modes have different wire codes.
pub proof fn law_adjust_codes_distinct(a: AdjustType, b: AdjustType)
    requires
        a != b,
    ensures
        adjust_code(a) != adjust_code(b),
{
    reveal_strlit("forward");
    reveal_strlit("backward");
    reveal_strlit("forward_additive");
    reveal_strlit("backward_additive");
    reveal_strlit("none");
    assert("forward"@.len() == 7 && "backward"@.len() == 8 && "none"@.len() == 4);
    assert("forward_additive"@.len() == 16 && "backward_additive"@.len() == 17);
}

/// Different instrument types have different wire codes.
pub proof fn law_instrument_type_codes_distinct(a: InstrumentType, b: InstrumentType)
    requires
        a != b,
    ensures
        instrument_type_code(a) != instrument_type_code(b),
{
    reveal_strlit("stock");
    reveal_strlit("etf");
    reveal_strlit("index");
    reveal_strlit("bond");
    reveal_strlit("fund");
    reveal_strlit("options");
    reveal_strlit("other");
    assert("stock"@.len() == 5 && "etf"@.len() == 3 && "index"@.len() == 5 && "bond"@.len() == 4);
    assert("fund"@.len() == 4 && "options"@.len() == 7 && "other"@.len() == 5);
    assert("stock"@[0] == 's' && "index"@[0] == 'i' && "other"@[0] == 'o');
    assert("bond"@[0] == 'b' && "fund"@[0] == 'f');
}

/// Different statements are served by different endpoints.
pub proof fn law_statement_paths_distinct(a: Statement, b: Statement)
    requires
        a != b,
    ensures
        statement_path(a) != statement_path(b),
{
    reveal_strlit("/v1/financials/income");
    reveal_strlit("/v1/financials/balance-sheet");
    reveal_strlit("/v1/financials/cash-flow");
    reveal_strlit("/v1/financials/metrics");
    reveal_strlit("/v1/financials/shares");
    assert("/v1/financials/income"@.len() == 21);
    assert("/v1/financials/balance-sheet"@.len() == 28);
    assert("/v1/financials/cash-flow"@.len() == 24);
    assert("/v1/financials/metrics"@.len() == 22);
    assert("/v1/financials/shares"@.len() == 21);
    assert("/v1/financials/income"@[15] == 'i' && "/v1/financials/shares"@[15] == 's');
}

/// Cutting a list into chunks loses and repeats nothing: the chunks, put
/// back together, are the list, and each chunk holds between one and `size`
/// elements.
pub proof fn law_chunks_cover<T>(s: Seq<T>, size: nat)
    requires
        size > 0,
    ensures
        chunked(s, size).flatten() == s,
        forall|i: int| 0 <= i < chunked(s, size).len() ==> 0 < #[trigger] chunked(s, size)[i].len() <= size,
    decreases s.len(),
{
    let c = chunked(s, size);
    if s.len() == 0 {
        assert(c.flatten() =~= s);
    } else if s.len() <= size {
        assert(c == seq![s]);
        assert(c.drop_first() =~= Seq::<Seq<T>>::empty());
        assert(c.drop_first().flatten() =~= Seq::<T>::empty());
        assert(c.first() == s);
        assert(c.flatten() == s + Seq::<T>::empty());
        assert(c.flatten() =~= s);
    } else {
        let rest = s.skip(size as int);
        law_chunks_cover(rest, size);
        assert(c.drop_first() =~= chunked(rest, size));
        assert(c.flatten() == s.take(size as int) + chunked(rest, size).flatten());
        assert(s =~= s.take(size as int) + rest);
        assert forall|i: int| 0 <= i < c.len() implies 0 < #[trigger] c[i].len() <= size by {
            if i > 0 {
                assert(c[i] == chunked(rest, size)[i - 1]);
            }
        }
    }
}

/// Chunks are as large as they may be: every chunk but the last holds
/// exactly `size` elements.
pub proof fn law_chunks_full<T>(s: Seq<T>, size: nat)
    requires
        size > 0,
    ensures
        forall|i: int| 0 <= i < chunked(s, size).len() - 1 ==> #[trigger] chunked(s, size)[i].len() == size,
    decreases s.len(),
{
    if s.len() > size {
        let rest = s.skip(size as int);
        law_chunks_full(rest, size);
        let c = chunked(s, size);
        assert forall|i: int| 0 <= i < c.len() - 1 implies #[trigger] c[i].len() == size by {
            if i > 0 {
                assert(c[i] == chunked(rest, size)[i - 1]);
            }
        }
    }
}

/// Joining puts the separator between consecutive items: a single item
/// joins to itself, and an item followed by others joins to the item, the
/// separator, and the others joined.
pub proof fn law_join_front(x: Seq<char>, rest: Seq<Seq<char>>, sep: Seq<char>)
    ensures
        seq_join(seq![x], sep) == x,
        rest.len() > 0 ==> seq_join(seq![x] + rest, sep) == x + sep + seq_join(rest, sep),
    decreases rest.len(),
{
    if rest.len() > 1 {
        law_join_front(x, rest.drop_last(), sep);
        assert((seq![x] + rest).drop_last() =~= seq![x] + rest.drop_last());
        assert((seq![x] + rest).last() == rest.last());
    } else if rest.len() == 1 {
        assert((seq![x] + rest).drop_last() =~= seq![x]);
        assert((seq![x] + rest).last() == rest[0]);
    }
}

/// The identifiers that a `POST` quotes call carries.
pub open spec fn posted_items(r: QuoteRequest) -> Seq<String> {
    match r {
        QuoteRequest::Post(p) => match p.symbols {
            Some(v) => v@,
            None => match p.universes {
                Some(v) => v@,
                None => Seq::empty(),
            },
        },
        QuoteRequest::Get(_) => Seq::empty(),
    }
}

/// A batch quotes query asks for each of its identifiers once, in order:
/// the identifiers its calls carry, put together, are the query's, and no
/// call carries more than [`BATCH_CHUNK_SIZE`] of them.
pub proof fn law_batch_quotes_cover(r: Seq<QuoteRequest>, items: Seq<String>, is_universes: bool)
    requires
        planned_requests(r, Method::Post, items, is_universes),
    ensures
        r.map_values(|q: QuoteRequest| posted_items(q)).flatten() == items,
        forall|i: int| 0 <= i < r.len() ==> #[trigger] posted_items(r[i]).len() <= BATCH_CHUNK_SIZE,
{
    let chunks = chunked(items, BATCH_CHUNK_SIZE as nat);
    law_chunks_cover(items, BATCH_CHUNK_SIZE as nat);
    assert forall|i: int| 0 <= i < r.len() implies #[trigger] posted_items(r[i]) == chunks[i] by {
        assert(crate::quote_request::request_for(r[i], Method::Post, chunks[i], is_universes));
    }
    assert(r.map_values(|q: QuoteRequest| posted_items(q)) =~= chunks);
}

/// Two key orders of the same entries agree on their first `k` positions.
proof fn lemma_key_orders_agree<V>(entries: Seq<(String, V)>, a: Seq<usize>, b: Seq<usize>, k: int)
    requires
        is_key_order(entries, a),
        is_key_order(entries, b),
        0 <= k <= a.len(),
    ensures
        forall|j: int| 0 <= j < k ==> a[j] == b[j],
    decreases k,
{
    if k > 0 {
        let m = k - 1;
        lemma_key_orders_agree(entries, a, b, m);
        let x = a[m];
        let y = b[m];
        if x != y {
            assert(b[m] < entries.len() && a[m] < entries.len());
            assert(lists(a, y as int));
            assert(lists(b, x as int));
            let p = choose|p: int| 0 <= p < a.len() && a[p] == y;
            let q = choose|q: int| 0 <= q < b.len() && b[q] == x;
            if p < m {
                assert(b[p] == y);
                assert(seq_lt_keys(entries, b, p, m));
                lemma_seq_lt_irreflexive(key_at(entries, y as int));
            }
            if q < m {
                assert(a[q] == x);
                assert(seq_lt_keys(entries, a, q, m));
                lemma_seq_lt_irreflexive(key_at(entries, x as int));
            }
            assert(p > m && q > m);
            assert(seq_lt_keys(entries, a, m, p));
            assert(seq_lt_keys(entries, b, m, q));
            lemma_seq_lt_asymmetric(key_at(entries, x as int), key_at(entries, y as int));
        }
    }
}

/// Position `i` of `order` sorts before position `j`.
spec fn seq_lt_keys<V>(entries: Seq<(String, V)>, order: Seq<usize>, i: int, j: int) -> bool {
    crate::text::seq_lt(key_at(entries, order[i] as int), key_at(entries, order[j] as int))
}

/// The order of a keyed table is fixed by its keys: two orders that both
/// list every entry once by strictly ascending key are the same.
pub proof fn law_key_order_unique<V>(entries: Seq<(String, V)>, a: Seq<usize>, b: Seq<usize>)
    requires
        is_key_order(entries, a),
        is_key_order(entries, b),
    ensures
        a == b,
{
    lemma_key_orders_agree(entries, a, b, a.len() as int);
    assert(a =~= b);
}

/// A key of the map that `e` denotes sits at some position of a key order
/// of `e`.
proof fn lemma_key_listed<V>(e: Seq<(String, V)>, o: Seq<usize>, k: Seq<char>) -> (p: int)
    requires
        is_key_order(e, o),
        assoc_map(e).contains_key(k),
    ensures
        0 <= p < o.len(),
        key_at(e, o[p] as int) == k,
{
    lemma_assoc_map_dom(e, k);
    let q = choose|q: int| 0 <= q < e.len() && e[q].0@ == k;
    assert(lists(o, q));
    choose|p: int| 0 <= p < o.len() && o[p] == q
}

/// Two key orders of entry lists that denote the same map agree on the keys
/// of their first `k` positions.
proof fn lemma_key_sequences_agree<V>(e1: Seq<(String, V)>, o1: Seq<usize>, e2: Seq<(String, V)>, o2: Seq<usize>, k: int)
    requires
        assoc_map(e1) == assoc_map(e2),
        is_key_order(e1, o1),
        is_key_order(e2, o2),
        0 <= k <= o1.len(),
        k <= o2.len(),
    ensures
        forall|j: int| 0 <= j < k ==> key_at(e1, o1[j] as int) == key_at(e2, o2[j] as int),
    decreases k,
{
    if k > 0 {
        let m = k - 1;
        lemma_key_sequences_agree(e1, o1, e2, o2, m);
        let a = key_at(e1, o1[m] as int);
        let b = key_at(e2, o2[m] as int);
        if a != b {
            assert(o1[m] < e1.len() && o2[m] < e2.len());
            lemma_assoc_map_dom(e1, a);
            lemma_assoc_map_dom(e2, b);
            let p = lemma_key_listed(e2, o2, a);
            let q = lemma_key_listed(e1, o1, b);
            if p < m {
                assert(key_at(e1, o1[p] as int) == a);
                assert(seq_lt_keys(e1, o1, p, m));
                lemma_seq_lt_irreflexive(a);
            }
            if q < m {
                assert(key_at(e2, o2[q] as int) == b);
                assert(seq_lt_keys(e2, o2, q, m));
                lemma_seq_lt_irreflexive(b);
            }
            assert(seq_lt_keys(e2, o2, m, p));
            assert(seq_lt_keys(e1, o1, m, q));
            lemma_seq_lt_asymmetric(a, b);
        }
    }
}

/// Entry lists without repeated keys that denote the same map, listed in
/// key order, hold the same keys with the same values, position by
/// position: what is built from them in key order depends on the map alone.
pub proof fn law_key_order_rows_agree<V>(e1: Seq<(String, V)>, o1: Seq<usize>, e2: Seq<(String, V)>, o2: Seq<usize>)
    requires
        keys_distinct(e1),
        keys_distinct(e2),
        assoc_map(e1) == assoc_map(e2),
        is_key_order(e1, o1),
        is_key_order(e2, o2),
    ensures
        o1.len() == o2.len(),
        forall|i: int|
            0 <= i < o1.len() ==> (#[trigger] e1[o1[i] as int]).0@ == e2[o2[i] as int].0@ && e1[o1[i] as int].1
                == e2[o2[i] as int].1,
{
    let n = if o1.len() <= o2.len() { o1.len() as int } else { o2.len() as int };
    lemma_key_sequences_agree(e1, o1, e2, o2, n);
    if o1.len() < o2.len() {
        let b = key_at(e2, o2[n] as int);
        assert(o2[n] < e2.len());
        lemma_assoc_map_dom(e2, b);
        let p = lemma_key_listed(e1, o1, b);
        assert(key_at(e2, o2[p] as int) == b);
        assert(seq_lt_keys(e2, o2, p, n));
        lemma_seq_lt_irreflexive(b);
    }
    if o2.len() < o1.len() {
        let a = key_at(e1, o1[n] as int);
        assert(o1[n] < e1.len());
        lemma_assoc_map_dom(e1, a);
        let p = lemma_key_listed(e2, o2, a);
        assert(key_at(e1, o1[p] as int) == a);
        assert(seq_lt_keys(e1, o1, p, n));
        lemma_seq_lt_irreflexive(a);
    }
    assert forall|i: int| 0 <= i < o1.len() implies (#[trigger] e1[o1[i] as int]).0@ == e2[o2[i] as int].0@
        && e1[o1[i] as int].1 == e2[o2[i] as int].1 by {
        let x = o1[i] as int;
        let y = o2[i] as int;
        assert(o1[i] < e1.len() && o2[i] < e2.len());
        assert(key_at(e1, x) == key_at(e2, y));
        assert forall|j: int| x < j < e1.len() implies e1[j].0@ != e1[x].0@ by {}
        assert forall|j: int| y < j < e2.len() implies e2[j].0@ != e2[y].0@ by {}
        lemma_assoc_map_last(e1, x);
        lemma_assoc_map_last(e2, y);
    }
}

/// The quotes table depends on the `symbol -> quote` map alone, not on the
/// order in which its entries are given.
pub proof fn law_quote_table_depends_on_map(
    e1: Seq<(String, Quote)>,
    o1: Seq<usize>,
    e2: Seq<(String, Quote)>,
    o2: Seq<usize>,
)
    requires
        keys_distinct(e1),
        keys_distinct(e2),
        assoc_map(e1) == assoc_map(e2),
        is_key_order(e1, o1),
        is_key_order(e2, o2),
    ensures
        quote_table(ordered_rows(e1, o1)) == quote_table(ordered_rows(e2, o2)),
{
    law_key_order_rows_agree(e1, o1, e2, o2);
    let r1 = ordered_rows(e1, o1);
    let r2 = ordered_rows(e2, o2);
    assert forall|i: int| 0 <= i < r1.len() implies r1[i].0@ == r2[i].0@ && r1[i].1 == r2[i].1 by {
        assert(r1[i] == e1[o1[i] as int]);
        assert(r2[i] == e2[o2[i] as int]);
    }
    assert(r1.map_values(|r: (String, Quote)| qc_symbol(r)) =~= r2.map_values(|r: (String, Quote)| qc_symbol(r)));
    assert(r1.map_values(|r: (String, Quote)| qc_region(r)) =~= r2.map_values(|r: (String, Quote)| qc_region(r)));
    assert(r1.map_values(|r: (String, Quote)| qc_last_price(r)) =~= r2.map_values(|r: (String, Quote)| qc_last_price(r)));
    assert(r1.map_values(|r: (String, Quote)| qc_open(r)) =~= r2.map_values(|r: (String, Quote)| qc_open(r)));
    assert(r1.map_values(|r: (String, Quote)| qc_high(r)) =~= r2.map_values(|r: (String, Quote)| qc_high(r)));
    assert(r1.map_values(|r: (String, Quote)| qc_low(r)) =~= r2.map_values(|r: (String, Quote)| qc_low(r)));
    assert(r1.map_values(|r: (String, Quote)| qc_prev_close(r)) =~= r2.map_values(|r: (String, Quote)| qc_prev_close(r)));
    assert(r1.map_values(|r: (String, Quote)| qc_volume(r)) =~= r2.map_values(|r: (String, Quote)| qc_volume(r)));
    assert(r1.map_values(|r: (String, Quote)| qc_amount(r)) =~= r2.map_values(|r: (String, Quote)| qc_amount(r)));
    assert(r1.map_values(|r: (String, Quote)| qc_timestamp(r)) =~= r2.map_values(|r: (String, Quote)| qc_timestamp(r)));
    assert(r1.map_values(|r: (String, Quote)| qc_trade_date(r)) =~= r2.map_values(|r: (String, Quote)| qc_trade_date(r)));
    assert(r1.map_values(|r: (String, Quote)| qc_trade_time(r)) =~= r2.map_values(|r: (String, Quote)| qc_trade_time(r)));
    assert(r1.map_values(|r: (String, Quote)| qc_session(r)) =~= r2.map_values(|r: (String, Quote)| qc_session(r)));
    assert(r1.map_values(|r: (String, Quote)| qc_ext_amplitude(r)) =~= r2.map_values(|r: (String, Quote)| qc_ext_amplitude(r)));
    assert(r1.map_values(|r: (String, Quote)| qc_ext_change_amount(r)) =~= r2.map_values(|r: (String, Quote)| qc_ext_change_amount(r)));
    assert(r1.map_values(|r: (String, Quote)| qc_ext_change_pct(r)) =~= r2.map_values(|r: (String, Quote)| qc_ext_change_pct(r)));
    assert(r1.map_values(|r: (String, Quote)| qc_ext_name(r)) =~= r2.map_values(|r: (String, Quote)| qc_ext_name(r)));
    assert(r1.map_values(|r: (String, Quote)| qc_ext_turnover_rate(r)) =~= r2.map_values(|r: (String, Quote)| qc_ext_turnover_rate(r)));
    assert(quote_table(r1) =~= quote_table(r2));
}

/// Row lists that agree position by position on the key's characters and
/// on the record.
pub open spec fn rows_match(a: Seq<RecordRow>, b: Seq<RecordRow>) -> bool {
    &&& a.len() == b.len()
    &&& forall|i: int| 0 <= i < a.len() ==> (#[trigger] a[i]).0@ == b[i].0@ && a[i].1 == b[i].1
}

/// The values of field `c` down a list of rows.
spec fn field_column(rows: Seq<RecordRow>, c: Seq<char>) -> Seq<crate::records::JsonValue> {
    rows.map_values(|r: RecordRow| field_value(r.1, c))
}

/// Records rows built along two orders that pick matching entries match.
proof fn lemma_record_rows_match(
    e1: Seq<(String, Vec<JsonObject>)>,
    o1: Seq<usize>,
    e2: Seq<(String, Vec<JsonObject>)>,
    o2: Seq<usize>,
)
    requires
        o1.len() == o2.len(),
        forall|i: int|
            0 <= i < o1.len() ==> (#[trigger] e1[o1[i] as int]).0@ == e2[o2[i] as int].0@ && e1[o1[i] as int].1
                == e2[o2[i] as int].1,
    ensures
        rows_match(record_rows(e1, o1), record_rows(e2, o2)),
    decreases o1.len(),
{
    if o1.len() > 0 {
        let n = o1.len() - 1;
        assert forall|i: int| 0 <= i < o1.drop_last().len() implies (#[trigger] e1[o1.drop_last()[i] as int]).0@
            == e2[o2.drop_last()[i] as int].0@ && e1[o1.drop_last()[i] as int].1 == e2[o2.drop_last()[i] as int].1 by {
            assert(o1.drop_last()[i] == o1[i] && o2.drop_last()[i] == o2[i]);
        }
        lemma_record_rows_match(e1, o1.drop_last(), e2, o2.drop_last());
        let x = e1[o1[n] as int];
        let y = e2[o2[n] as int];
        let a = record_rows(e1, o1.drop_last());
        let b = record_rows(e2, o2.drop_last());
        let ra = crate::records::entry_rows(x);
        let rb = crate::records::entry_rows(y);
        assert(x.0@ == y.0@ && x.1 == y.1);
        assert forall|i: int| 0 <= i < (a + ra).len() implies (#[trigger] (a + ra)[i]).0@ == (b + rb)[i].0@
            && (a + ra)[i].1 == (b + rb)[i].1 by {
            if i >= a.len() {
                assert((a + ra)[i] == ra[i - a.len()]);
                assert((b + rb)[i] == rb[i - a.len()]);
            } else {
                assert((a + ra)[i] == a[i]);
                assert((b + rb)[i] == b[i]);
            }
        }
    }
}

/// Matching rows carry the same field names.
proof fn lemma_all_names_match(a: Seq<RecordRow>, b: Seq<RecordRow>)
    requires
        rows_match(a, b),
    ensures
        all_names(a) == all_names(b),
    decreases a.len(),
{
    if a.len() > 0 {
        assert(rows_match(a.drop_last(), b.drop_last())) by {
            assert forall|i: int| 0 <= i < a.drop_last().len() implies (#[trigger] a.drop_last()[i]).0@ == b.drop_last()[i].0@
                && a.drop_last()[i].1 == b.drop_last()[i].1 by {
                assert(a.drop_last()[i] == a[i] && b.drop_last()[i] == b[i]);
            }
        }
        lemma_all_names_match(a.drop_last(), b.drop_last());
        assert(a.last().1 == b.last().1);
    }
}

/// The records table depends on the `symbol -> records` map alone, not on
/// the order in which its entries are given: the same field names, hence
/// the same refusal, and the same table.
pub proof fn law_records_table_depends_on_map(
    e1: Seq<(String, Vec<JsonObject>)>,
    o1: Seq<usize>,
    e2: Seq<(String, Vec<JsonObject>)>,
    o2: Seq<usize>,
)
    requires
        keys_distinct(e1),
        keys_distinct(e2),
        assoc_map(e1) == assoc_map(e2),
        is_key_order(e1, o1),
        is_key_order(e2, o2),
    ensures
        all_names(record_rows(e1, o1)) == all_names(record_rows(e2, o2)),
        records_table(record_rows(e1, o1)) == records_table(record_rows(e2, o2)),
{
    law_key_order_rows_agree(e1, o1, e2, o2);
    let a = record_rows(e1, o1);
    let b = record_rows(e2, o2);
    lemma_record_rows_match(e1, o1, e2, o2);
    lemma_all_names_match(a, b);
    assert(a.map_values(|r: RecordRow| Some(r.0@)) =~= b.map_values(|r: RecordRow| Some(r.0@)));
    let names = crate::records::dedup(all_names(a));
    assert forall|c: Seq<char>| #[trigger] field_column(a, c) == field_column(b, c) by {
        assert(field_column(a, c) =~= field_column(b, c));
    }
    assert(names.map_values(|c: Seq<char>| (c, json_cells(a.map_values(|r: RecordRow| field_value(r.1, c)))))
        =~= names.map_values(|c: Seq<char>| (c, json_cells(b.map_values(|r: RecordRow| field_value(r.1, c)))))) by {
        assert forall|i: int| 0 <= i < names.len() implies field_column(a, names[i]) == field_column(b, names[i]) by {}
    }
    assert(records_table(a) =~= records_table(b));
}

/// A lookup fetches exactly the requested symbols that have not been looked
/// up before.
pub proof fn law_missing_exact(store: Map<Seq<char>, Option<Seq<char>>>, symbols: Seq<String>, s: String)
    ensures
        missing_symbols(store, symbols).contains(s) <==> (symbols.contains(s) && !store.contains_key(s@)),
{
    let pred = |t: String| !store.contains_key(t@);
    if missing_symbols(store, symbols).contains(s) {
        let i = choose|i: int| 0 <= i < symbols.filter(pred).len() && symbols.filter(pred)[i] == s;
        symbols.lemma_filter_pred(pred, i);
        symbols.lemma_filter_contains_rev(pred, s);
    }
    if symbols.contains(s) && !store.contains_key(s@) {
        let i = choose|i: int| 0 <= i < symbols.len() && symbols[i] == s;
        symbols.lemma_filter_contains(pred, i);
    }
}

/// Once the outcome of a lookup is recorded (the missing symbols marked as
/// looked up, whatever names were found), the same lookup fetches nothing,
/// whether or not the service had a name for each symbol.
pub proof fn law_repeat_lookup_fetches_nothing(
    store: Map<Seq<char>, Option<Seq<char>>>,
    symbols: Seq<String>,
    fetched: Map<Seq<char>, Seq<char>>,
)
    ensures
        missing_symbols(
            mark_asked(store, missing_symbols(store, symbols)).union_prefer_right(found(fetched)),
            symbols,
        ).len() == 0,
{
    let asked = missing_symbols(store, symbols);
    let after = mark_asked(store, asked).union_prefer_right(found(fetched));
    if missing_symbols(after, symbols).len() > 0 {
        let e = missing_symbols(after, symbols)[0];
        assert(missing_symbols(after, symbols).contains(e));
        law_missing_exact(after, symbols, e);
        lemma_mark_asked(store, asked, e@);
        if !store.contains_key(e@) {
            law_missing_exact(store, symbols, e);
            let i = choose|i: int| 0 <= i < asked.len() && asked[i] == e;
            assert(asked[i]@ == e@);
        }
    }
}

/// What a lookup answers comes from the store: each pair is a symbol with
/// the name stored for it.
pub proof fn law_cached_pairs_stored(store: Map<Seq<char>, Option<Seq<char>>>, symbols: Seq<String>)
    ensures
        forall|i: int|
            0 <= i < cached_pairs(store, symbols).len() ==> {
                let p = #[trigger] cached_pairs(store, symbols)[i];
                store.contains_key(p.0) && store[p.0] == Some(p.1)
            },
    decreases symbols.len(),
{
    if symbols.len() > 0 {
        law_cached_pairs_stored(store, symbols.drop_last());
        let rest = cached_pairs(store, symbols.drop_last());
        assert forall|i: int| 0 <= i < cached_pairs(store, symbols).len() implies {
            let p = #[trigger] cached_pairs(store, symbols)[i];
            store.contains_key(p.0) && store[p.0] == Some(p.1)
        } by {
            if i < rest.len() {
                assert(cached_pairs(store, symbols)[i] == rest[i]);
            }
        }
    }
}

/// The value of the last setter call of each kind, if there is one.
pub open spec fn last_start_date(ss: Seq<ParamSetting>) -> Option<Seq<char>>
    decreases ss.len(),
{
    if ss.len() == 0 {
        None
    } else {
        match ss.last() {
            ParamSetting::StartDate(d) => Some(d),
            _ => last_start_date(ss.drop_last()),
        }
    }
}

/// See [`last_start_date`].
pub open spec fn last_end_date(ss: Seq<ParamSetting>) -> Option<Seq<char>>
    decreases ss.len(),
{
    if ss.len() == 0 {
        None
    } else {
        match ss.last() {
            ParamSetting::EndDate(d) => Some(d),
            _ => last_end_date(ss.drop_last()),
        }
    }
}

/// See [`last_start_date`].
pub open spec fn last_latest(ss: Seq<ParamSetting>) -> Option<bool>
    decreases ss.len(),
{
    if ss.len() == 0 {
        None
    } else {
        match ss.last() {
            ParamSetting::Latest(b) => Some(b),
            _ => last_latest(ss.drop_last()),
        }
    }
}

/// Starting from a fresh parameter set (no filter), any sequence of setter
/// calls leaves each filter at the value of the last call that set it, and
/// unset where no call set it; `into_query` then carries exactly these
/// filters.
pub proof fn law_statement_settings_last_call_wins(ss: Seq<ParamSetting>)
    ensures
        apply_settings(StatementParamsView { start_date: None, end_date: None, latest: None }, ss)
            == (StatementParamsView {
            start_date: last_start_date(ss),
            end_date: last_end_date(ss),
            latest: last_latest(ss),
        }),
    decreases ss.len(),
{
    if ss.len() > 0 {
        law_statement_settings_last_call_wins(ss.drop_last());
    }
}

} // verus!
