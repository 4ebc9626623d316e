//! What the tables hold, cell by cell: each column stated against the
//! fields of the payload it comes from, independently of the column
//! functions that build it.
use vstd::prelude::*;

use crate::clock::{stamp_date, stamp_time};
use crate::frame::{factor_rows, factor_table, kline_table, CellsView, FactorRow};
use crate::kline::{ExfactorsData, KlineData};
use crate::quote::{session_code, Quote, QuoteExt, QuoteExtension};
use crate::quote_frame::{
    ordered_rows, quote_table, qc_amount, qc_ext_amplitude, qc_ext_change_amount, qc_ext_change_pct,
    qc_ext_name, qc_ext_turnover_rate, qc_high, qc_last_price, qc_low, qc_open, qc_prev_close, qc_region,
    qc_session, qc_symbol, qc_timestamp, qc_trade_date, qc_trade_time, qc_volume,
};
use crate::symbol::{region_code, region_zone, symbol_region, TimeZone};
use crate::order::{is_key_order, key_at};
use crate::records::{field_value, first_non_null, json_cells, records_table, JsonValue, RecordRow};
use crate::text::{opt_view, seq_lt};

verus! {

/// The extension figures of a quote, whichever market's extension it
/// carries.
pub open spec fn extension_of(q: Quote) -> Option<QuoteExt> {
    match q.ext {
        Some(QuoteExtension::Cn(e)) => Some(e),
        Some(QuoteExtension::Us(e)) => Some(e),
        Some(QuoteExtension::Hk(e)) => Some(e),
        None => None,
    }
}

/// The time zone of the market a symbol belongs to, by its region suffix.
pub open spec fn market_zone(symbol: Option<Seq<char>>) -> Option<TimeZone> {
    match symbol {
        Some(s) => match symbol_region(s) {
            Some(r) => Some(region_zone(r)),
            None => None,
        },
        None => None,
    }
}

/// Code-point order: `a` sorts before `b` exactly when `a` is a proper
/// prefix of `b`, or `a` has the smaller code point at the first position
/// where the two differ.
pub proof fn law_code_point_order(a: Seq<char>, b: Seq<char>)
    ensures
        seq_lt(a, b) <==> ((a.len() < b.len() && a == b.take(a.len() as int)) || exists|k: int|
            0 <= k < a.len() && k < b.len() && a.take(k) == b.take(k) && (a[k] as int) < (b[k] as int)),
    decreases a.len(),
{
    let pre = a.len() < b.len() && a == b.take(a.len() as int);
    let diff = exists|k: int|
        0 <= k < a.len() && k < b.len() && a.take(k) == b.take(k) && (a[k] as int) < (b[k] as int);
    if a.len() == 0 {
        assert(a =~= b.take(0));
    } else if b.len() == 0 {
    } else if a[0] != b[0] {
        assert(a.take(0) =~= b.take(0));
        if (a[0] as int) < (b[0] as int) {
            assert(diff);
        } else {
            assert(!pre) by {
                if pre {
                    assert(a[0] == b.take(a.len() as int)[0]);
                }
            }
            assert(!diff) by {
                if diff {
                    let k = choose|k: int|
                        0 <= k < a.len() && k < b.len() && a.take(k) == b.take(k) && (a[k] as int) < (b[k] as int);
                    if k > 0 {
                        assert(a.take(k)[0] == b.take(k)[0]);
                    }
                }
            }
        }
    } else {
        let a1 = a.drop_first();
        let b1 = b.drop_first();
        law_code_point_order(a1, b1);
        let pre1 = a1.len() < b1.len() && a1 == b1.take(a1.len() as int);
        let diff1 = exists|k: int|
            0 <= k < a1.len() && k < b1.len() && a1.take(k) == b1.take(k) && (a1[k] as int) < (b1[k] as int);
        if pre1 {
            assert forall|j: int| 0 <= j < a.len() implies #[trigger] a[j] == b.take(a.len() as int)[j] by {
                if j > 0 {
                    assert(a[j] == a1[j - 1]);
                    assert(a1[j - 1] == b1.take(a1.len() as int)[j - 1]);
                }
            }
            assert(a =~= b.take(a.len() as int));
        }
        if pre {
            assert(a1 =~= b1.take(a1.len() as int));
        }
        if diff1 {
            let k = choose|k: int|
                0 <= k < a1.len() && k < b1.len() && a1.take(k) == b1.take(k) && (a1[k] as int) < (b1[k] as int);
            assert(a.take(k + 1) =~= b.take(k + 1)) by {
                assert forall|j: int| 0 <= j < k + 1 implies #[trigger] a.take(k + 1)[j] == b.take(k + 1)[j] by {
                    if j > 0 {
                        assert(a1.take(k)[j - 1] == b1.take(k)[j - 1]);
                    }
                }
            }
            assert(a[k + 1] == a1[k] && b[k + 1] == b1[k]);
        }
        if diff {
            let k = choose|k: int|
                0 <= k < a.len() && k < b.len() && a.take(k) == b.take(k) && (a[k] as int) < (b[k] as int);
            assert(k != 0);
            assert(a1.take(k - 1) =~= b1.take(k - 1)) by {
                assert forall|j: int| 0 <= j < k - 1 implies #[trigger] a1.take(k - 1)[j] == b1.take(k - 1)[j] by {
                    assert(a.take(k)[j + 1] == b.take(k)[j + 1]);
                }
            }
            assert(a1[k - 1] == a[k] && b1[k - 1] == b[k]);
        }
    }
}

/// A key order lists positions of the entries, as many as there are
/// entries, whose keys strictly ascend in code-point order (so no position
/// is listed twice, and every one is listed).
pub proof fn law_key_order_meaning<V>(entries: Seq<(String, V)>, order: Seq<usize>)
    requires
        is_key_order(entries, order),
    ensures
        order.len() == entries.len(),
        forall|i: int| 0 <= i < order.len() ==> order[i] < entries.len(),
        forall|i: int, j: int|
            0 <= i < j < order.len() ==> seq_lt(
                (#[trigger] entries[order[i] as int]).0@,
                (#[trigger] entries[order[j] as int]).0@,
            ),
{
    assert forall|i: int, j: int| 0 <= i < j < order.len() implies seq_lt(
        (#[trigger] entries[order[i] as int]).0@,
        (#[trigger] entries[order[j] as int]).0@,
    ) by {
        assert(seq_lt(key_at(entries, order[i] as int), key_at(entries, order[j] as int)));
    }
}

/// Rows in a given order are the entries at the listed positions.
pub proof fn law_ordered_rows(entries: Seq<(String, Quote)>, order: Seq<usize>)
    ensures
        ordered_rows(entries, order) == Seq::new(order.len(), |i: int| entries[order[i] as int]),
{
    assert(ordered_rows(entries, order) =~= Seq::new(order.len(), |i: int| entries[order[i] as int]));
}

/// Row `i` of each column of the quotes table comes from the `i`-th quote:
/// its symbol, its region's code, its prices, volume, amount and timestamp
/// as they are, its trade date and time in its region's zone, its session's
/// code, and its extension figures (absent without an extension).
pub proof fn law_quote_table_cells(rows: Seq<(String, Quote)>)
    ensures
        quote_table(rows).len() == 18,
        quote_table(rows)[0] == ("symbol"@, CellsView::Text(Seq::new(rows.len(), |i: int| Some(rows[i].0@)))),
        quote_table(rows)[1] == ("region"@, CellsView::Text(Seq::new(rows.len(), |i: int| Some(region_code(rows[i].1.region))))),
        quote_table(rows)[2] == ("last_price"@, CellsView::Float(Seq::new(rows.len(), |i: int| Some(rows[i].1.last_price)))),
        quote_table(rows)[3] == ("open"@, CellsView::Float(Seq::new(rows.len(), |i: int| Some(rows[i].1.open)))),
        quote_table(rows)[4] == ("high"@, CellsView::Float(Seq::new(rows.len(), |i: int| Some(rows[i].1.high)))),
        quote_table(rows)[5] == ("low"@, CellsView::Float(Seq::new(rows.len(), |i: int| Some(rows[i].1.low)))),
        quote_table(rows)[6] == ("prev_close"@, CellsView::Float(Seq::new(rows.len(), |i: int| Some(rows[i].1.prev_close)))),
        quote_table(rows)[7] == ("volume"@, CellsView::Int(Seq::new(rows.len(), |i: int| Some(rows[i].1.volume)))),
        quote_table(rows)[8] == ("amount"@, CellsView::Float(Seq::new(rows.len(), |i: int| Some(rows[i].1.amount)))),
        quote_table(rows)[9] == ("timestamp"@, CellsView::Int(Seq::new(rows.len(), |i: int| Some(rows[i].1.timestamp)))),
        quote_table(rows)[10] == ("trade_date"@, CellsView::Text(Seq::new(rows.len(), |i: int| stamp_date(rows[i].1.timestamp, Some(region_zone(rows[i].1.region)))))),
        quote_table(rows)[11] == ("trade_time"@, CellsView::Text(Seq::new(rows.len(), |i: int| stamp_time(rows[i].1.timestamp, Some(region_zone(rows[i].1.region)))))),
        quote_table(rows)[12] == ("session"@, CellsView::Text(Seq::new(rows.len(), |i: int| match rows[i].1.session { Some(s) => Some(session_code(s)), None => None }))),
        quote_table(rows)[13] == ("ext.amplitude"@, CellsView::Float(Seq::new(rows.len(), |i: int| match extension_of(rows[i].1) { Some(e) => e.amplitude, None => None }))),
        quote_table(rows)[14] == ("ext.change_amount"@, CellsView::Float(Seq::new(rows.len(), |i: int| match extension_of(rows[i].1) { Some(e) => e.change_amount, None => None }))),
        quote_table(rows)[15] == ("ext.change_pct"@, CellsView::Float(Seq::new(rows.len(), |i: int| match extension_of(rows[i].1) { Some(e) => e.change_pct, None => None }))),
        quote_table(rows)[16] == ("ext.name"@, CellsView::Text(Seq::new(rows.len(), |i: int| match extension_of(rows[i].1) { Some(e) => opt_view(e.name), None => None }))),
        quote_table(rows)[17] == ("ext.turnover_rate"@, CellsView::Float(Seq::new(rows.len(), |i: int| match extension_of(rows[i].1) { Some(e) => e.turnover_rate, None => None }))),
{
    assert(rows.map_values(|r: (String, Quote)| qc_symbol(r)) =~= Seq::new(rows.len(), |i: int| Some(rows[i].0@)));
    assert(rows.map_values(|r: (String, Quote)| qc_region(r)) =~= Seq::new(rows.len(), |i: int| Some(region_code(rows[i].1.region))));
    assert(rows.map_values(|r: (String, Quote)| qc_last_price(r)) =~= Seq::new(rows.len(), |i: int| Some(rows[i].1.last_price)));
    assert(rows.map_values(|r: (String, Quote)| qc_open(r)) =~= Seq::new(rows.len(), |i: int| Some(rows[i].1.open)));
    assert(rows.map_values(|r: (String, Quote)| qc_high(r)) =~= Seq::new(rows.len(), |i: int| Some(rows[i].1.high)));
    assert(rows.map_values(|r: (String, Quote)| qc_low(r)) =~= Seq::new(rows.len(), |i: int| Some(rows[i].1.low)));
    assert(rows.map_values(|r: (String, Quote)| qc_prev_close(r)) =~= Seq::new(rows.len(), |i: int| Some(rows[i].1.prev_close)));
    assert(rows.map_values(|r: (String, Quote)| qc_volume(r)) =~= Seq::new(rows.len(), |i: int| Some(rows[i].1.volume)));
    assert(rows.map_values(|r: (String, Quote)| qc_amount(r)) =~= Seq::new(rows.len(), |i: int| Some(rows[i].1.amount)));
    assert(rows.map_values(|r: (String, Quote)| qc_timestamp(r)) =~= Seq::new(rows.len(), |i: int| Some(rows[i].1.timestamp)));
    assert(rows.map_values(|r: (String, Quote)| qc_trade_date(r)) =~= Seq::new(rows.len(), |i: int| stamp_date(rows[i].1.timestamp, Some(region_zone(rows[i].1.region)))));
    assert(rows.map_values(|r: (String, Quote)| qc_trade_time(r)) =~= Seq::new(rows.len(), |i: int| stamp_time(rows[i].1.timestamp, Some(region_zone(rows[i].1.region)))));
    assert(rows.map_values(|r: (String, Quote)| qc_session(r)) =~= Seq::new(rows.len(), |i: int| match rows[i].1.session { Some(s) => Some(session_code(s)), None => None }));
    assert(rows.map_values(|r: (String, Quote)| qc_ext_amplitude(r)) =~= Seq::new(rows.len(), |i: int| match extension_of(rows[i].1) { Some(e) => e.amplitude, None => None }));
    assert(rows.map_values(|r: (String, Quote)| qc_ext_change_amount(r)) =~= Seq::new(rows.len(), |i: int| match extension_of(rows[i].1) { Some(e) => e.change_amount, None => None }));
    assert(rows.map_values(|r: (String, Quote)| qc_ext_change_pct(r)) =~= Seq::new(rows.len(), |i: int| match extension_of(rows[i].1) { Some(e) => e.change_pct, None => None }));
    assert(rows.map_values(|r: (String, Quote)| qc_ext_name(r)) =~= Seq::new(rows.len(), |i: int| match extension_of(rows[i].1) { Some(e) => opt_view(e.name), None => None }));
    assert(rows.map_values(|r: (String, Quote)| qc_ext_turnover_rate(r)) =~= Seq::new(rows.len(), |i: int| match extension_of(rows[i].1) { Some(e) => e.turnover_rate, None => None }));
}

/// The kline table holds, column by column: the symbol and the name on
/// every bar; each bar's timestamp; its trade date and time in the zone of
/// the symbol's market (none without a known market); and each bar's open,
/// high, low, close, volume and amount as given.
pub proof fn law_kline_table_cells(d: KlineData, symbol: Option<Seq<char>>, name: Option<Seq<char>>)
    ensures
        ({
            let n = d.timestamp@.len();
            let zone = market_zone(symbol);
            &&& kline_table(d, symbol, name).len() == 11
            &&& kline_table(d, symbol, name)[0] == ("symbol"@, CellsView::Text(Seq::new(n, |i: int| symbol)))
            &&& kline_table(d, symbol, name)[1] == ("name"@, CellsView::Text(Seq::new(n, |i: int| name)))
            &&& kline_table(d, symbol, name)[2] == ("timestamp"@, CellsView::Int(Seq::new(n, |i: int| Some(d.timestamp@[i]))))
            &&& kline_table(d, symbol, name)[3] == ("trade_date"@, CellsView::Text(Seq::new(n, |i: int| stamp_date(d.timestamp@[i], zone))))
            &&& kline_table(d, symbol, name)[4] == ("trade_time"@, CellsView::Text(Seq::new(n, |i: int| stamp_time(d.timestamp@[i], zone))))
            &&& kline_table(d, symbol, name)[5] == ("open"@, CellsView::Float(Seq::new(d.open@.len(), |i: int| Some(d.open@[i]))))
            &&& kline_table(d, symbol, name)[6] == ("high"@, CellsView::Float(Seq::new(d.high@.len(), |i: int| Some(d.high@[i]))))
            &&& kline_table(d, symbol, name)[7] == ("low"@, CellsView::Float(Seq::new(d.low@.len(), |i: int| Some(d.low@[i]))))
            &&& kline_table(d, symbol, name)[8] == ("close"@, CellsView::Float(Seq::new(d.close@.len(), |i: int| Some(d.close@[i]))))
            &&& kline_table(d, symbol, name)[9] == ("volume"@, CellsView::Int(Seq::new(d.volume@.len(), |i: int| Some(d.volume@[i]))))
            &&& kline_table(d, symbol, name)[10] == ("amount"@, CellsView::Float(Seq::new(d.amount@.len(), |i: int| Some(d.amount@[i]))))
        }),
{
    let n = d.timestamp@.len();
    let zone = market_zone(symbol);
    assert(crate::frame::symbol_zone(symbol) == zone);
    assert(crate::frame::repeat(symbol, n) =~= Seq::new(n, |i: int| symbol));
    assert(crate::frame::repeat(name, n) =~= Seq::new(n, |i: int| name));
    assert(crate::frame::present(d.timestamp@) =~= Seq::new(n, |i: int| Some(d.timestamp@[i])));
    assert(crate::kline::trade_dates(d.timestamp@, zone) =~= Seq::new(n, |i: int| stamp_date(d.timestamp@[i], zone)));
    assert(crate::kline::trade_times(d.timestamp@, zone) =~= Seq::new(n, |i: int| stamp_time(d.timestamp@[i], zone)));
    assert(crate::frame::present(d.open@) =~= Seq::new(d.open@.len(), |i: int| Some(d.open@[i])));
    assert(crate::frame::present(d.high@) =~= Seq::new(d.high@.len(), |i: int| Some(d.high@[i])));
    assert(crate::frame::present(d.low@) =~= Seq::new(d.low@.len(), |i: int| Some(d.low@[i])));
    assert(crate::frame::present(d.close@) =~= Seq::new(d.close@.len(), |i: int| Some(d.close@[i])));
    assert(crate::frame::present(d.volume@) =~= Seq::new(d.volume@.len(), |i: int| Some(d.volume@[i])));
    assert(crate::frame::present(d.amount@) =~= Seq::new(d.amount@.len(), |i: int| Some(d.amount@[i])));
}

/// The factor rows of no symbol are none; appending a symbol's factors
/// appends one row per factor, in order: the symbol, the factor's
/// timestamp, its trade date in the zone of the symbol's market, and the
/// factor.
pub proof fn law_factor_rows(m: Seq<(String, Vec<ExfactorsData>)>, e: (String, Vec<ExfactorsData>))
    ensures
        factor_rows(Seq::<(String, Vec<ExfactorsData>)>::empty()) == Seq::<FactorRow>::empty(),
        factor_rows(m.push(e)) == factor_rows(m) + Seq::new(
            e.1@.len(),
            |j: int|
                (
                    e.0@,
                    e.1@[j].timestamp,
                    stamp_date(e.1@[j].timestamp, market_zone(Some(e.0@))),
                    e.1@[j].ex_factor,
                ),
        ),
{
    assert(m.push(e).drop_last() =~= m);
    assert(crate::frame::entry_factor_rows(e) =~= Seq::new(
        e.1@.len(),
        |j: int|
            (
                e.0@,
                e.1@[j].timestamp,
                stamp_date(e.1@[j].timestamp, market_zone(Some(e.0@))),
                e.1@[j].ex_factor,
            ),
    ));
}

/// The ex-factor table holds one row per factor row: its symbol, its
/// timestamp, its trade date and its factor.
pub proof fn law_factor_table_cells(m: Seq<(String, Vec<ExfactorsData>)>)
    ensures
        ({
            let rows = factor_rows(m);
            let n = rows.len();
            &&& factor_table(m).len() == 4
            &&& factor_table(m)[0] == ("symbol"@, CellsView::Text(Seq::new(n, |i: int| Some(rows[i].0))))
            &&& factor_table(m)[1] == ("timestamp"@, CellsView::Int(Seq::new(n, |i: int| Some(rows[i].1))))
            &&& factor_table(m)[2] == ("trade_date"@, CellsView::Text(Seq::new(n, |i: int| rows[i].2)))
            &&& factor_table(m)[3] == ("ex_factor"@, CellsView::Float(Seq::new(n, |i: int| Some(rows[i].3))))
        }),
{
    let rows = factor_rows(m);
    let n = rows.len();
    assert(rows.map_values(|r: FactorRow| Some(r.0)) =~= Seq::new(n, |i: int| Some(rows[i].0)));
    assert(rows.map_values(|r: FactorRow| Some(r.1)) =~= Seq::new(n, |i: int| Some(rows[i].1)));
    assert(rows.map_values(|r: FactorRow| r.2) =~= Seq::new(n, |i: int| rows[i].2));
    assert(rows.map_values(|r: FactorRow| Some(r.3)) =~= Seq::new(n, |i: int| Some(rows[i].3)));
}

/// The text of a JSON value as its cell shows it in an untyped column:
/// `true`/`false` for booleans, the JSON text otherwise, nothing for null.
pub open spec fn json_cell_text(v: JsonValue) -> Option<Seq<char>> {
    match v {
        JsonValue::Null => None,
        JsonValue::Bool(b) => Some(if b { "true"@ } else { "false"@ }),
        JsonValue::Number { text, .. } => Some(text@),
        JsonValue::Str { text, .. } => Some(text@),
        JsonValue::Nested { text } => Some(text@),
    }
}

/// The first value that is not null is the one at the first such position.
proof fn lemma_first_non_null(values: Seq<JsonValue>, k: int)
    requires
        0 <= k < values.len(),
        !(values[k] is Null),
        forall|j: int| 0 <= j < k ==> values[j] is Null,
    ensures
        first_non_null(values) == Some(values[k]),
    decreases k,
{
    if k > 0 {
        let rest = values.drop_first();
        assert forall|j: int| 0 <= j < k - 1 implies rest[j] is Null by {
            assert(rest[j] == values[j + 1]);
        }
        lemma_first_non_null(rest, k - 1);
    }
}

/// An all-null column has no first value.
proof fn lemma_all_null(values: Seq<JsonValue>)
    requires
        forall|j: int| 0 <= j < values.len() ==> values[j] is Null,
    ensures
        first_non_null(values) is None,
    decreases values.len(),
{
    if values.len() > 0 {
        let rest = values.drop_first();
        assert forall|j: int| 0 <= j < rest.len() implies rest[j] is Null by {
            assert(rest[j] == values[j + 1]);
        }
        lemma_all_null(rest);
    }
}

/// A JSON column takes the type of its first value that is not null: a
/// string column holds the strings (other values become nulls), a boolean
/// column the booleans, a number column the numbers' `f64` readings; a
/// column whose first such value is an array or object, or that is all
/// null, holds each value's JSON text.
pub proof fn law_json_column_typing(values: Seq<JsonValue>, k: int)
    requires
        (0 <= k < values.len() && !(values[k] is Null) && forall|j: int| 0 <= j < k ==> values[j] is Null) || (
        k == -1 && forall|j: int| 0 <= j < values.len() ==> values[j] is Null),
    ensures
        ({
            let n = values.len();
            let text = crate::frame::CellsView::Text(Seq::new(n, |i: int| json_cell_text(values[i])));
            json_cells(values) == if k == -1 {
                text
            } else {
                match values[k] {
                    JsonValue::Str { .. } => crate::frame::CellsView::Text(
                        Seq::new(
                            n,
                            |i: int|
                                match values[i] {
                                    JsonValue::Str { value, .. } => Some(value@),
                                    _ => None,
                                },
                        ),
                    ),
                    JsonValue::Bool(_) => crate::frame::CellsView::Flag(
                        Seq::new(
                            n,
                            |i: int|
                                match values[i] {
                                    JsonValue::Bool(b) => Some(b),
                                    _ => None,
                                },
                        ),
                    ),
                    JsonValue::Number { .. } => crate::frame::CellsView::Float(
                        Seq::new(
                            n,
                            |i: int|
                                match values[i] {
                                    JsonValue::Number { as_f64, .. } => Some(as_f64),
                                    _ => None,
                                },
                        ),
                    ),
                    _ => text,
                }
            }
        }),
{
    let n = values.len();
    if k == -1 {
        lemma_all_null(values);
    } else {
        lemma_first_non_null(values, k);
    }
    assert(values.map_values(|v: JsonValue| crate::records::as_json_text(v)) =~= Seq::new(
        n,
        |i: int| json_cell_text(values[i]),
    ));
    assert(values.map_values(|v: JsonValue| crate::records::as_text(v)) =~= Seq::new(
        n,
        |i: int|
            match values[i] {
                JsonValue::Str { value, .. } => Some(value@),
                _ => None,
            },
    ));
    assert(values.map_values(|v: JsonValue| crate::records::as_flag(v)) =~= Seq::new(
        n,
        |i: int|
            match values[i] {
                JsonValue::Bool(b) => Some(b),
                _ => None,
            },
    ));
    assert(values.map_values(|v: JsonValue| crate::records::as_number(v)) =~= Seq::new(
        n,
        |i: int|
            match values[i] {
                JsonValue::Number { as_f64, .. } => Some(as_f64),
                _ => None,
            },
    ));
}

/// The value of a record's field is that of its last entry with the field's
/// name; a record without the field gives null.
pub proof fn law_field_value(o: Seq<(String, JsonValue)>, c: Seq<char>, p: int)
    requires
        (0 <= p < o.len() && o[p].0@ == c && forall|j: int| p < j < o.len() ==> o[j].0@ != c) || (p == -1
            && forall|j: int| 0 <= j < o.len() ==> o[j].0@ != c),
    ensures
        field_value(o, c) == if p == -1 {
            JsonValue::Null
        } else {
            o[p].1
        },
    decreases o.len(),
{
    if o.len() > 0 && o.last().0@ != c {
        let q = if p == -1 { -1 } else { p };
        assert(p != o.len() - 1);
        law_field_value(o.drop_last(), c, q);
    }
}

/// The records table begins with the `symbol` column, one cell per row
/// holding the row's symbol; every other column is named after a field and
/// holds, row by row, the typed value of that field.
pub proof fn law_records_table_cells(rows: Seq<RecordRow>)
    ensures
        records_table(rows)[0] == ("symbol"@, crate::frame::CellsView::Text(
            Seq::new(rows.len(), |i: int| Some(rows[i].0@)),
        )),
        forall|k: int|
            1 <= k < records_table(rows).len() ==> (#[trigger] records_table(rows)[k]).1 == json_cells(
                Seq::new(rows.len(), |i: int| field_value(rows[i].1, records_table(rows)[k].0)),
            ),
{
    assert(rows.map_values(|r: RecordRow| Some(r.0@)) =~= Seq::new(rows.len(), |i: int| Some(rows[i].0@)));
    assert forall|k: int| 1 <= k < records_table(rows).len() implies (#[trigger] records_table(rows)[k]).1
        == json_cells(Seq::new(rows.len(), |i: int| field_value(rows[i].1, records_table(rows)[k].0))) by {
        let c = records_table(rows)[k].0;
        assert(rows.map_values(|r: RecordRow| field_value(r.1, c)) =~= Seq::new(
            rows.len(),
            |i: int| field_value(rows[i].1, c),
        ));
    }
}

} // verus!
