//! The long-format table of a quotes answer: one row per symbol, by
//! ascending symbol.
use vstd::prelude::*;
use vstd::string::*;

use crate::batch::keys_distinct;
use crate::clock::{local_trade_stamp, stamp_date, stamp_time};
use crate::error::Error;
use crate::frame::{
    column_names, columns_view, distinct_after, distinct_from, lemma_names_distinct, named, table_shape, Cells, CellsView,
    Frame,
};
use crate::order::{is_key_order, key_order};
use crate::quote::{quote_ext_inner, quote_ext_of, session_code, Quote};
use crate::symbol::{region_code, region_zone, tz_for_region};
use crate::text::{clone_opt, opt_view, opt_views};

verus! {

/// The `symbol` cell of a quote row.
pub open spec fn qc_symbol(r: (String, Quote)) -> Option<Seq<char>> {
    Some(r.0@)
}

/// The `region` cell of a quote row.
pub open spec fn qc_region(r: (String, Quote)) -> Option<Seq<char>> {
    Some(region_code(r.1.region))
}

/// The `last_price` cell of a quote row.
pub open spec fn qc_last_price(r: (String, Quote)) -> Option<u64> {
    Some(r.1.last_price)
}

/// The `open` cell of a quote row.
pub open spec fn qc_open(r: (String, Quote)) -> Option<u64> {
    Some(r.1.open)
}

/// The `high` cell of a quote row.
pub open spec fn qc_high(r: (String, Quote)) -> Option<u64> {
    Some(r.1.high)
}

/// The `low` cell of a quote row.
pub open spec fn qc_low(r: (String, Quote)) -> Option<u64> {
    Some(r.1.low)
}

/// The `prev_close` cell of a quote row.
pub open spec fn qc_prev_close(r: (String, Quote)) -> Option<u64> {
    Some(r.1.prev_close)
}

/// The `volume` cell of a quote row.
pub open spec fn qc_volume(r: (String, Quote)) -> Option<i64> {
    Some(r.1.volume)
}

/// The `amount` cell of a quote row.
pub open spec fn qc_amount(r: (String, Quote)) -> Option<u64> {
    Some(r.1.amount)
}

/// The `timestamp` cell of a quote row.
pub open spec fn qc_timestamp(r: (String, Quote)) -> Option<i64> {
    Some(r.1.timestamp)
}

/// The `trade_date` cell of a quote row.
pub open spec fn qc_trade_date(r: (String, Quote)) -> Option<Seq<char>> {
    stamp_date(r.1.timestamp, Some(region_zone(r.1.region)))
}

/// The `trade_time` cell of a quote row.
pub open spec fn qc_trade_time(r: (String, Quote)) -> Option<Seq<char>> {
    stamp_time(r.1.timestamp, Some(region_zone(r.1.region)))
}

/// The `session` cell of a quote row.
pub open spec fn qc_session(r: (String, Quote)) -> Option<Seq<char>> {
    match r.1.session { Some(s) => Some(session_code(s)), None => None }
}

/// The `ext.amplitude` cell of a quote row.
pub open spec fn qc_ext_amplitude(r: (String, Quote)) -> Option<u64> {
    match quote_ext_of(r.1) { Some(e) => e.amplitude, None => None }
}

/// The `ext.change_amount` cell of a quote row.
pub open spec fn qc_ext_change_amount(r: (String, Quote)) -> Option<u64> {
    match quote_ext_of(r.1) { Some(e) => e.change_amount, None => None }
}

/// The `ext.change_pct` cell of a quote row.
pub open spec fn qc_ext_change_pct(r: (String, Quote)) -> Option<u64> {
    match quote_ext_of(r.1) { Some(e) => e.change_pct, None => None }
}

/// The `ext.name` cell of a quote row.
pub open spec fn qc_ext_name(r: (String, Quote)) -> Option<Seq<char>> {
    match quote_ext_of(r.1) { Some(e) => opt_view(e.name), None => None }
}

/// The `ext.turnover_rate` cell of a quote row.
pub open spec fn qc_ext_turnover_rate(r: (String, Quote)) -> Option<u64> {
    match quote_ext_of(r.1) { Some(e) => e.turnover_rate, None => None }
}

/// The rows of `entries` in the order `order` lists them.
pub open spec fn ordered_rows(entries: Seq<(String, Quote)>, order: Seq<usize>) -> Seq<(String, Quote)> {
    order.map_values(|i: usize| entries[i as int])
}

/// The quotes table whose rows are `rows`, in order.
pub open spec fn quote_table(rows: Seq<(String, Quote)>) -> Seq<(Seq<char>, CellsView)> {
    seq![
        ("symbol"@, CellsView::Text(rows.map_values(|r: (String, Quote)| qc_symbol(r)))),
        ("region"@, CellsView::Text(rows.map_values(|r: (String, Quote)| qc_region(r)))),
        ("last_price"@, CellsView::Float(rows.map_values(|r: (String, Quote)| qc_last_price(r)))),
        ("open"@, CellsView::Float(rows.map_values(|r: (String, Quote)| qc_open(r)))),
        ("high"@, CellsView::Float(rows.map_values(|r: (String, Quote)| qc_high(r)))),
        ("low"@, CellsView::Float(rows.map_values(|r: (String, Quote)| qc_low(r)))),
        ("prev_close"@, CellsView::Float(rows.map_values(|r: (String, Quote)| qc_prev_close(r)))),
        ("volume"@, CellsView::Int(rows.map_values(|r: (String, Quote)| qc_volume(r)))),
        ("amount"@, CellsView::Float(rows.map_values(|r: (String, Quote)| qc_amount(r)))),
        ("timestamp"@, CellsView::Int(rows.map_values(|r: (String, Quote)| qc_timestamp(r)))),
        ("trade_date"@, CellsView::Text(rows.map_values(|r: (String, Quote)| qc_trade_date(r)))),
        ("trade_time"@, CellsView::Text(rows.map_values(|r: (String, Quote)| qc_trade_time(r)))),
        ("session"@, CellsView::Text(rows.map_values(|r: (String, Quote)| qc_session(r)))),
        ("ext.amplitude"@, CellsView::Float(rows.map_values(|r: (String, Quote)| qc_ext_amplitude(r)))),
        ("ext.change_amount"@, CellsView::Float(rows.map_values(|r: (String, Quote)| qc_ext_change_amount(r)))),
        ("ext.change_pct"@, CellsView::Float(rows.map_values(|r: (String, Quote)| qc_ext_change_pct(r)))),
        ("ext.name"@, CellsView::Text(rows.map_values(|r: (String, Quote)| qc_ext_name(r)))),
        ("ext.turnover_rate"@, CellsView::Float(rows.map_values(|r: (String, Quote)| qc_ext_turnover_rate(r)))),
    ]
}

/// Converts a `symbol -> quote` map (given as its entries; keys distinct)
/// into a long-format table: one row per symbol, by ascending symbol, with
/// the columns `symbol`, `region`, `last_price`, `open`, `high`, `low`,
/// `prev_close`, `volume`, `amount`, `timestamp`, `trade_date`,
/// `trade_time` (local to the quote's region), `session` and the flattened
/// `ext.*` figures (null where the quote has no extension).
pub fn quotes_to_dataframe(entries: &Vec<(String, Quote)>) -> (r: Result<Frame, Error>)
    requires
        keys_distinct(entries@),
    ensures
        r is Ok,
        r matches Ok(f) ==> exists|order: Seq<usize>| is_key_order(entries@, order) && f@ == quote_table(ordered_rows(entries@, order)),
{
    let order = key_order(entries);
    let ghost rows = ordered_rows(entries@, order@);
    let mut symbols: Vec<Option<String>> = Vec::new();
    let mut regions: Vec<Option<String>> = Vec::new();
    let mut last_prices: Vec<Option<u64>> = Vec::new();
    let mut opens: Vec<Option<u64>> = Vec::new();
    let mut highs: Vec<Option<u64>> = Vec::new();
    let mut lows: Vec<Option<u64>> = Vec::new();
    let mut prev_closes: Vec<Option<u64>> = Vec::new();
    let mut volumes: Vec<Option<i64>> = Vec::new();
    let mut amounts: Vec<Option<u64>> = Vec::new();
    let mut timestamps: Vec<Option<i64>> = Vec::new();
    let mut trade_dates: Vec<Option<String>> = Vec::new();
    let mut trade_times: Vec<Option<String>> = Vec::new();
    let mut sessions: Vec<Option<String>> = Vec::new();
    let mut amplitudes: Vec<Option<u64>> = Vec::new();
    let mut change_amounts: Vec<Option<u64>> = Vec::new();
    let mut change_pcts: Vec<Option<u64>> = Vec::new();
    let mut ext_names: Vec<Option<String>> = Vec::new();
    let mut turnover_rates: Vec<Option<u64>> = Vec::new();
    let mut i: usize = 0;
    while i < order.len()
        invariant
            i <= order@.len(),
            is_key_order(entries@, order@),
            rows == ordered_rows(entries@, order@),
            opt_views(symbols@) == rows.subrange(0, i as int).map_values(|r: (String, Quote)| qc_symbol(r)),
            opt_views(regions@) == rows.subrange(0, i as int).map_values(|r: (String, Quote)| qc_region(r)),
            last_prices@ == rows.subrange(0, i as int).map_values(|r: (String, Quote)| qc_last_price(r)),
            opens@ == rows.subrange(0, i as int).map_values(|r: (String, Quote)| qc_open(r)),
            highs@ == rows.subrange(0, i as int).map_values(|r: (String, Quote)| qc_high(r)),
            lows@ == rows.subrange(0, i as int).map_values(|r: (String, Quote)| qc_low(r)),
            prev_closes@ == rows.subrange(0, i as int).map_values(|r: (String, Quote)| qc_prev_close(r)),
            volumes@ == rows.subrange(0, i as int).map_values(|r: (String, Quote)| qc_volume(r)),
            amounts@ == rows.subrange(0, i as int).map_values(|r: (String, Quote)| qc_amount(r)),
            timestamps@ == rows.subrange(0, i as int).map_values(|r: (String, Quote)| qc_timestamp(r)),
            opt_views(trade_dates@) == rows.subrange(0, i as int).map_values(|r: (String, Quote)| qc_trade_date(r)),
            opt_views(trade_times@) == rows.subrange(0, i as int).map_values(|r: (String, Quote)| qc_trade_time(r)),
            opt_views(sessions@) == rows.subrange(0, i as int).map_values(|r: (String, Quote)| qc_session(r)),
            amplitudes@ == rows.subrange(0, i as int).map_values(|r: (String, Quote)| qc_ext_amplitude(r)),
            change_amounts@ == rows.subrange(0, i as int).map_values(|r: (String, Quote)| qc_ext_change_amount(r)),
            change_pcts@ == rows.subrange(0, i as int).map_values(|r: (String, Quote)| qc_ext_change_pct(r)),
            opt_views(ext_names@) == rows.subrange(0, i as int).map_values(|r: (String, Quote)| qc_ext_name(r)),
            turnover_rates@ == rows.subrange(0, i as int).map_values(|r: (String, Quote)| qc_ext_turnover_rate(r)),
        decreases order.len() - i,
    {
        let key = &entries[order[i]].0;
        let q = &entries[order[i]].1;
        let ghost row = rows[i as int];
        assert(row == entries@[order@[i as int] as int]);
        let (date, time) = local_trade_stamp(q.timestamp, tz_for_region(q.region));
        let session = match &q.session {
            Some(s) => Some(String::from_str(s.as_str())),
            None => None,
        };
        let (amplitude, change_amount, change_pct, ext_name, turnover_rate) = match quote_ext_inner(q) {
            Some(e) => (e.amplitude, e.change_amount, e.change_pct, clone_opt(&e.name), e.turnover_rate),
            None => (None, None, None, None, None),
        };
        let ghost old_symbols = symbols@;
        let ghost old_regions = regions@;
        let ghost old_last_prices = last_prices@;
        let ghost old_opens = opens@;
        let ghost old_highs = highs@;
        let ghost old_lows = lows@;
        let ghost old_prev_closes = prev_closes@;
        let ghost old_volumes = volumes@;
        let ghost old_amounts = amounts@;
        let ghost old_timestamps = timestamps@;
        let ghost old_trade_dates = trade_dates@;
        let ghost old_trade_times = trade_times@;
        let ghost old_sessions = sessions@;
        let ghost old_amplitudes = amplitudes@;
        let ghost old_change_amounts = change_amounts@;
        let ghost old_change_pcts = change_pcts@;
        let ghost old_ext_names = ext_names@;
        let ghost old_turnover_rates = turnover_rates@;
        symbols.push(Some(key.clone()));
        regions.push(Some(String::from_str(q.region.as_str())));
        last_prices.push(Some(q.last_price));
        opens.push(Some(q.open));
        highs.push(Some(q.high));
        lows.push(Some(q.low));
        prev_closes.push(Some(q.prev_close));
        volumes.push(Some(q.volume));
        amounts.push(Some(q.amount));
        timestamps.push(Some(q.timestamp));
        trade_dates.push(date);
        trade_times.push(time);
        sessions.push(session);
        amplitudes.push(amplitude);
        change_amounts.push(change_amount);
        change_pcts.push(change_pct);
        ext_names.push(ext_name);
        turnover_rates.push(turnover_rate);
        proof {
            let base = rows.subrange(0, i as int);
            let pre = rows.subrange(0, i + 1);
            assert(pre =~= base.push(row));
            assert(opt_views(symbols@) =~= opt_views(old_symbols).push(qc_symbol(row)));
            assert(pre.map_values(|r: (String, Quote)| qc_symbol(r)) =~= base.map_values(|r: (String, Quote)| qc_symbol(r)).push(qc_symbol(row)));
            assert(opt_views(regions@) =~= opt_views(old_regions).push(qc_region(row)));
            assert(pre.map_values(|r: (String, Quote)| qc_region(r)) =~= base.map_values(|r: (String, Quote)| qc_region(r)).push(qc_region(row)));
            assert(last_prices@ =~= old_last_prices.push(qc_last_price(row)));
            assert(pre.map_values(|r: (String, Quote)| qc_last_price(r)) =~= base.map_values(|r: (String, Quote)| qc_last_price(r)).push(qc_last_price(row)));
            assert(opens@ =~= old_opens.push(qc_open(row)));
            assert(pre.map_values(|r: (String, Quote)| qc_open(r)) =~= base.map_values(|r: (String, Quote)| qc_open(r)).push(qc_open(row)));
            assert(highs@ =~= old_highs.push(qc_high(row)));
            assert(pre.map_values(|r: (String, Quote)| qc_high(r)) =~= base.map_values(|r: (String, Quote)| qc_high(r)).push(qc_high(row)));
            assert(lows@ =~= old_lows.push(qc_low(row)));
            assert(pre.map_values(|r: (String, Quote)| qc_low(r)) =~= base.map_values(|r: (String, Quote)| qc_low(r)).push(qc_low(row)));
            assert(prev_closes@ =~= old_prev_closes.push(qc_prev_close(row)));
            assert(pre.map_values(|r: (String, Quote)| qc_prev_close(r)) =~= base.map_values(|r: (String, Quote)| qc_prev_close(r)).push(qc_prev_close(row)));
            assert(volumes@ =~= old_volumes.push(qc_volume(row)));
            assert(pre.map_values(|r: (String, Quote)| qc_volume(r)) =~= base.map_values(|r: (String, Quote)| qc_volume(r)).push(qc_volume(row)));
            assert(amounts@ =~= old_amounts.push(qc_amount(row)));
            assert(pre.map_values(|r: (String, Quote)| qc_amount(r)) =~= base.map_values(|r: (String, Quote)| qc_amount(r)).push(qc_amount(row)));
            assert(timestamps@ =~= old_timestamps.push(qc_timestamp(row)));
            assert(pre.map_values(|r: (String, Quote)| qc_timestamp(r)) =~= base.map_values(|r: (String, Quote)| qc_timestamp(r)).push(qc_timestamp(row)));
            assert(opt_views(trade_dates@) =~= opt_views(old_trade_dates).push(qc_trade_date(row)));
            assert(pre.map_values(|r: (String, Quote)| qc_trade_date(r)) =~= base.map_values(|r: (String, Quote)| qc_trade_date(r)).push(qc_trade_date(row)));
            assert(opt_views(trade_times@) =~= opt_views(old_trade_times).push(qc_trade_time(row)));
            assert(pre.map_values(|r: (String, Quote)| qc_trade_time(r)) =~= base.map_values(|r: (String, Quote)| qc_trade_time(r)).push(qc_trade_time(row)));
            assert(opt_views(sessions@) =~= opt_views(old_sessions).push(qc_session(row)));
            assert(pre.map_values(|r: (String, Quote)| qc_session(r)) =~= base.map_values(|r: (String, Quote)| qc_session(r)).push(qc_session(row)));
            assert(amplitudes@ =~= old_amplitudes.push(qc_ext_amplitude(row)));
            assert(pre.map_values(|r: (String, Quote)| qc_ext_amplitude(r)) =~= base.map_values(|r: (String, Quote)| qc_ext_amplitude(r)).push(qc_ext_amplitude(row)));
            assert(change_amounts@ =~= old_change_amounts.push(qc_ext_change_amount(row)));
            assert(pre.map_values(|r: (String, Quote)| qc_ext_change_amount(r)) =~= base.map_values(|r: (String, Quote)| qc_ext_change_amount(r)).push(qc_ext_change_amount(row)));
            assert(change_pcts@ =~= old_change_pcts.push(qc_ext_change_pct(row)));
            assert(pre.map_values(|r: (String, Quote)| qc_ext_change_pct(r)) =~= base.map_values(|r: (String, Quote)| qc_ext_change_pct(r)).push(qc_ext_change_pct(row)));
            assert(opt_views(ext_names@) =~= opt_views(old_ext_names).push(qc_ext_name(row)));
            assert(pre.map_values(|r: (String, Quote)| qc_ext_name(r)) =~= base.map_values(|r: (String, Quote)| qc_ext_name(r)).push(qc_ext_name(row)));
            assert(turnover_rates@ =~= old_turnover_rates.push(qc_ext_turnover_rate(row)));
            assert(pre.map_values(|r: (String, Quote)| qc_ext_turnover_rate(r)) =~= base.map_values(|r: (String, Quote)| qc_ext_turnover_rate(r)).push(qc_ext_turnover_rate(row)));
        }
        i = i + 1;
    }
    proof {
        assert(rows.subrange(0, order@.len() as int) =~= rows);
    }
    let columns = vec![
        named("symbol", Cells::Text(symbols)),
        named("region", Cells::Text(regions)),
        named("last_price", Cells::Float(last_prices)),
        named("open", Cells::Float(opens)),
        named("high", Cells::Float(highs)),
        named("low", Cells::Float(lows)),
        named("prev_close", Cells::Float(prev_closes)),
        named("volume", Cells::Int(volumes)),
        named("amount", Cells::Float(amounts)),
        named("timestamp", Cells::Int(timestamps)),
        named("trade_date", Cells::Text(trade_dates)),
        named("trade_time", Cells::Text(trade_times)),
        named("session", Cells::Text(sessions)),
        named("ext.amplitude", Cells::Float(amplitudes)),
        named("ext.change_amount", Cells::Float(change_amounts)),
        named("ext.change_pct", Cells::Float(change_pcts)),
        named("ext.name", Cells::Text(ext_names)),
        named("ext.turnover_rate", Cells::Float(turnover_rates)),
    ];
    proof {
        reveal_strlit("symbol");
        assert("symbol"@.len() == 6);
        reveal_strlit("region");
        assert("region"@.len() == 6);
        reveal_strlit("last_price");
        assert("last_price"@.len() == 10);
        reveal_strlit("open");
        assert("open"@.len() == 4);
        reveal_strlit("high");
        assert("high"@.len() == 4);
        reveal_strlit("low");
        assert("low"@.len() == 3);
        reveal_strlit("prev_close");
        assert("prev_close"@.len() == 10);
        reveal_strlit("volume");
        assert("volume"@.len() == 6);
        reveal_strlit("amount");
        assert("amount"@.len() == 6);
        reveal_strlit("timestamp");
        assert("timestamp"@.len() == 9);
        reveal_strlit("trade_date");
        assert("trade_date"@.len() == 10);
        reveal_strlit("trade_time");
        assert("trade_time"@.len() == 10);
        reveal_strlit("session");
        assert("session"@.len() == 7);
        reveal_strlit("ext.amplitude");
        assert("ext.amplitude"@.len() == 13);
        reveal_strlit("ext.change_amount");
        assert("ext.change_amount"@.len() == 17);
        reveal_strlit("ext.change_pct");
        assert("ext.change_pct"@.len() == 14);
        reveal_strlit("ext.name");
        assert("ext.name"@.len() == 8);
        reveal_strlit("ext.turnover_rate");
        assert("ext.turnover_rate"@.len() == 17);
        assert("symbol"@[0] != "region"@[0]);
        assert("symbol"@[0] != "volume"@[0]);
        assert("symbol"@[0] != "amount"@[0]);
        assert("region"@[0] != "volume"@[0]);
        assert("region"@[0] != "amount"@[0]);
        assert("last_price"@[0] != "prev_close"@[0]);
        assert("last_price"@[0] != "trade_date"@[0]);
        assert("last_price"@[0] != "trade_time"@[0]);
        assert("open"@[0] != "high"@[0]);
        assert("prev_close"@[0] != "trade_date"@[0]);
        assert("prev_close"@[0] != "trade_time"@[0]);
        assert("volume"@[0] != "amount"@[0]);
        assert("trade_date"@[6] != "trade_time"@[6]);
        assert("ext.change_amount"@[4] != "ext.turnover_rate"@[4]);
        let expected = quote_table(rows);
        assert(columns_view(columns@) =~= expected);
        reveal_with_fuel(distinct_from, 20);
        reveal_with_fuel(distinct_after, 20);
        assert(column_names(expected) =~= seq!["symbol"@, "region"@, "last_price"@, "open"@, "high"@, "low"@, "prev_close"@, "volume"@, "amount"@, "timestamp"@, "trade_date"@, "trade_time"@, "session"@, "ext.amplitude"@, "ext.change_amount"@, "ext.change_pct"@, "ext.name"@, "ext.turnover_rate"@]);
        assert(distinct_after(column_names(expected), 0));
        lemma_names_distinct(expected);
        assert(table_shape(expected));
    }
    Frame::new(columns)
}

} // verus!
