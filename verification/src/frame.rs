//! Column tables ("data frames"): named, typed, equally long columns with
//! distinct names, and their construction from kline payloads. Floating-point
//! cells hold the IEEE-754 bit patterns of their `f64` values.
use vstd::prelude::*;
use vstd::string::*;

use crate::error::Error;
use crate::cache::{name_lookup, pick_name};
use crate::kline::{broadcast_to, price_columns_aligned, format_trade_columns, trade_dates, trade_times, ExfactorsData, KlineData};
use crate::symbol::{region_for_symbol, region_zone, symbol_region, tz_for_region, TimeZone};
use crate::text::{opt_view, opt_views};

verus! {

/// The cells of one column, by type; `None` is a null cell.
#[derive(Debug, Clone)]
pub enum Cells {
    Text(Vec<Option<String>>),
    Int(Vec<Option<i64>>),
    Float(Vec<Option<u64>>),
    Flag(Vec<Option<bool>>),
}

/// The cells of one column as plain values.
pub enum CellsView {
    Text(Seq<Option<Seq<char>>>),
    Int(Seq<Option<i64>>),
    Float(Seq<Option<u64>>),
    Flag(Seq<Option<bool>>),
}

impl View for Cells {
    type V = CellsView;

    open spec fn view(&self) -> CellsView {
        match self {
            Cells::Text(v) => CellsView::Text(opt_views(v@)),
            Cells::Int(v) => CellsView::Int(v@),
            Cells::Float(v) => CellsView::Float(v@),
            Cells::Flag(v) => CellsView::Flag(v@),
        }
    }
}

/// Number of cells of a column.
pub open spec fn cells_len(c: CellsView) -> nat {
    match c {
        CellsView::Text(v) => v.len(),
        CellsView::Int(v) => v.len(),
        CellsView::Float(v) => v.len(),
        CellsView::Flag(v) => v.len(),
    }
}

/// A named column.
#[derive(Debug, Clone)]
pub struct FrameColumn {
    pub name: String,
    pub cells: Cells,
}

impl View for FrameColumn {
    type V = (Seq<char>, CellsView);

    open spec fn view(&self) -> (Seq<char>, CellsView) {
        (self.name@, self.cells@)
    }
}

impl FrameColumn {
    /// Number of cells.
    pub fn len(&self) -> (r: usize)
        ensures
            r == cells_len(self@.1),
    {
        match &self.cells {
            Cells::Text(v) => v.len(),
            Cells::Int(v) => v.len(),
            Cells::Float(v) => v.len(),
            Cells::Flag(v) => v.len(),
        }
    }
}

/// The plain view of a list of columns.
pub open spec fn columns_view(cols: Seq<FrameColumn>) -> Seq<(Seq<char>, CellsView)> {
    cols.map_values(|c: FrameColumn| c@)
}

/// Columns form a table: all have the same number of cells, and no name
/// occurs twice.
pub open spec fn table_shape(cols: Seq<(Seq<char>, CellsView)>) -> bool {
    &&& forall|i: int| 0 <= i < cols.len() ==> cells_len(#[trigger] cols[i].1) == cells_len(cols[0].1)
    &&& forall|i: int, j: int| 0 <= i < j < cols.len() ==> cols[i].0 != cols[j].0
}

/// `names[i]` differs from every name from position `j` on.
pub open spec fn distinct_from(names: Seq<Seq<char>>, i: int, j: int) -> bool
    decreases names.len() - j,
{
    if j >= names.len() || j < 0 {
        true
    } else {
        names[i] != names[j] && distinct_from(names, i, j + 1)
    }
}

/// No two names from position `i` on are equal, checked pair by pair.
pub open spec fn distinct_after(names: Seq<Seq<char>>, i: int) -> bool
    decreases names.len() - i,
{
    if i >= names.len() || i < 0 {
        true
    } else {
        distinct_from(names, i, i + 1) && distinct_after(names, i + 1)
    }
}

proof fn lemma_distinct_from(names: Seq<Seq<char>>, i: int, j: int, k: int)
    requires
        distinct_from(names, i, j),
        0 <= j <= k < names.len(),
    ensures
        names[i] != names[k],
    decreases k - j,
{
    if j < k {
        lemma_distinct_from(names, i, j + 1, k);
    }
}

proof fn lemma_distinct_after(names: Seq<Seq<char>>, i: int, a: int, b: int)
    requires
        distinct_after(names, i),
        0 <= i <= a < b < names.len(),
    ensures
        names[a] != names[b],
    decreases a - i,
{
    if i < a {
        lemma_distinct_after(names, i + 1, a, b);
    } else {
        lemma_distinct_from(names, a, a + 1, b);
    }
}

/// The names of a list of columns.
pub open spec fn column_names(cols: Seq<(Seq<char>, CellsView)>) -> Seq<Seq<char>> {
    cols.map_values(|c: (Seq<char>, CellsView)| c.0)
}

/// Names checked pair by pair are pairwise distinct.
pub proof fn lemma_names_distinct(cols: Seq<(Seq<char>, CellsView)>)
    requires
        distinct_after(column_names(cols), 0),
    ensures
        forall|i: int, j: int| 0 <= i < j < cols.len() ==> cols[i].0 != cols[j].0,
{
    assert forall|i: int, j: int| 0 <= i < j < cols.len() implies cols[i].0 != cols[j].0 by {
        lemma_distinct_after(column_names(cols), 0, i, j);
    }
}

/// A table of named, typed, equally long columns with distinct names.
#[derive(Debug)]
pub struct Frame {
    columns: Vec<FrameColumn>,
}

impl View for Frame {
    type V = Seq<(Seq<char>, CellsView)>;

    closed spec fn view(&self) -> Seq<(Seq<char>, CellsView)> {
        columns_view(self.columns@)
    }
}

/// The number of rows of a table: the length of its columns (0 without
/// columns).
pub open spec fn table_height(cols: Seq<(Seq<char>, CellsView)>) -> nat {
    if cols.len() == 0 {
        0
    } else {
        cells_len(cols[0].1)
    }
}

impl Frame {
    #[verifier::type_invariant]
    closed spec fn wf(self) -> bool {
        table_shape(columns_view(self.columns@))
    }

    /// Builds a table from `columns`; refused when two columns differ in
    /// length or share a name.
    pub fn new(columns: Vec<FrameColumn>) -> (r: Result<Frame, Error>)
        ensures
            r is Ok <==> table_shape(columns_view(columns@)),
            r matches Ok(f) ==> f@ == columns_view(columns@),
            r matches Err(e) ==> e is DataFrame,
    {
        let ghost cv = columns_view(columns@);
        let k = columns.len();
        if k == 0 {
            return Ok(Frame { columns });
        }
        let h = columns[0].len();
        let mut i: usize = 0;
        while i < k
            invariant
                k == columns@.len(),
                k > 0,
                cv == columns_view(columns@),
                h == cells_len(cv[0].1),
                i <= k,
                forall|a: int| 0 <= a < i ==> cells_len(#[trigger] cv[a].1) == h,
                forall|a: int, b: int| 0 <= a < b < i ==> cv[a].0 != cv[b].0,
            decreases k - i,
        {
            assert(cv[i as int] == columns@[i as int]@);
            if columns[i].len() != h {
                return Err(Error::DataFrame(String::from_str("columns differ in length")));
            }
            let mut j: usize = 0;
            while j < i
                invariant
                    k == columns@.len(),
                    cv == columns_view(columns@),
                    i < k,
                    j <= i,
                    forall|b: int| 0 <= b < j ==> cv[b].0 != cv[i as int].0,
                decreases i - j,
            {
                assert(cv[j as int] == columns@[j as int]@);
                assert(cv[i as int] == columns@[i as int]@);
                if columns[j].name == columns[i].name {
                    return Err(Error::DataFrame(String::from_str("duplicate column name")));
                }
                j = j + 1;
            }
            i = i + 1;
        }
        Ok(Frame { columns })
    }

    /// Number of rows.
    pub fn height(&self) -> (r: usize)
        ensures
            r == table_height(self@),
    {
        if self.columns.len() == 0 {
            0
        } else {
            self.columns[0].len()
        }
    }

    /// Number of columns.
    pub fn width(&self) -> (r: usize)
        ensures
            r == self@.len(),
    {
        self.columns.len()
    }

    /// The columns, in order.
    pub fn columns(&self) -> (r: &Vec<FrameColumn>)
        ensures
            columns_view(r@) == self@,
    {
        &self.columns
    }

    /// The column called `name`, if any.
    pub fn column(&self, name: &str) -> (r: Option<&FrameColumn>)
        ensures
            r matches Some(c) ==> exists|i: int| 0 <= i < self@.len() && self@[i] == c@ && c@.0 == name@,
            r is None ==> forall|i: int| 0 <= i < self@.len() ==> self@[i].0 != name@,
    {
        let key = name.to_owned();
        let mut i: usize = 0;
        while i < self.columns.len()
            invariant
                key@ == name@,
                i <= self.columns@.len(),
                forall|j: int| 0 <= j < i ==> self@[j].0 != name@,
            decreases self.columns.len() - i,
        {
            if self.columns[i].name == key {
                assert(self@[i as int] == self.columns@[i as int]@);
                return Some(&self.columns[i]);
            }
            i = i + 1;
        }
        None
    }

    /// The columns, taking ownership.
    pub fn into_columns(self) -> (r: Vec<FrameColumn>)
        ensures
            columns_view(r@) == self@,
    {
        self.columns
    }
}

/// A column of present integers.
pub open spec fn present<T>(v: Seq<T>) -> Seq<Option<T>> {
    v.map_values(|x: T| Some(x))
}

/// Wraps every integer as a present cell.
pub fn present_ints(v: &Vec<i64>) -> (r: Vec<Option<i64>>)
    ensures
        r@ == present(v@),
{
    let mut out: Vec<Option<i64>> = Vec::new();
    let mut i: usize = 0;
    while i < v.len()
        invariant
            i <= v@.len(),
            out@ == present(v@.subrange(0, i as int)),
        decreases v.len() - i,
    {
        out.push(Some(v[i]));
        proof {
            assert(present(v@.subrange(0, i + 1)) =~= present(v@.subrange(0, i as int)).push(Some(v@[i as int])));
        }
        i = i + 1;
    }
    proof {
        assert(v@.subrange(0, v@.len() as int) =~= v@);
    }
    out
}

/// Wraps every bit pattern as a present cell.
pub fn present_floats(v: &Vec<u64>) -> (r: Vec<Option<u64>>)
    ensures
        r@ == present(v@),
{
    let mut out: Vec<Option<u64>> = Vec::new();
    let mut i: usize = 0;
    while i < v.len()
        invariant
            i <= v@.len(),
            out@ == present(v@.subrange(0, i as int)),
        decreases v.len() - i,
    {
        out.push(Some(v[i]));
        proof {
            assert(present(v@.subrange(0, i + 1)) =~= present(v@.subrange(0, i as int)).push(Some(v@[i as int])));
        }
        i = i + 1;
    }
    proof {
        assert(v@.subrange(0, v@.len() as int) =~= v@);
    }
    out
}

/// The characters of an optional string slice.
pub open spec fn str_opt_view(s: Option<&str>) -> Option<Seq<char>> {
    match s {
        Some(t) => Some(t@),
        None => None,
    }
}

/// Owned copies of optional string slices.
pub fn owned_texts(v: Vec<Option<&str>>) -> (r: Vec<Option<String>>)
    ensures
        opt_views(r@) == v@.map_values(|s: Option<&str>| str_opt_view(s)),
{
    let mut out: Vec<Option<String>> = Vec::new();
    let mut i: usize = 0;
    while i < v.len()
        invariant
            i <= v@.len(),
            opt_views(out@) == v@.subrange(0, i as int).map_values(|s: Option<&str>| str_opt_view(s)),
        decreases v.len() - i,
    {
        let cell = match v[i] {
            Some(s) => Some(s.to_owned()),
            None => None,
        };
        let ghost old_out = out@;
        out.push(cell);
        proof {
            assert(opt_views(out@) =~= opt_views(old_out).push(opt_view(cell)));
            assert(v@.subrange(0, i + 1).map_values(|s: Option<&str>| str_opt_view(s)) =~= v@.subrange(
                0,
                i as int,
            ).map_values(|s: Option<&str>| str_opt_view(s)).push(str_opt_view(v@[i as int])));
        }
        i = i + 1;
    }
    proof {
        assert(v@.subrange(0, v@.len() as int) =~= v@);
    }
    out
}

/// A named column.
pub fn named(name: &str, cells: Cells) -> (r: FrameColumn)
    ensures
        r@ == (name@, cells@),
{
    FrameColumn { name: name.to_owned(), cells }
}

/// The time zone of the market a symbol belongs to, if its suffix is known.
pub open spec fn symbol_zone(symbol: Option<Seq<char>>) -> Option<TimeZone> {
    match symbol {
        Some(s) => match symbol_region(s) {
            Some(r) => Some(region_zone(r)),
            None => None,
        },
        None => None,
    }
}

/// `n` copies of `x`.
pub open spec fn repeat<T>(x: T, n: nat) -> Seq<T> {
    Seq::new(n, |i: int| x)
}

/// The table that a kline payload becomes: symbol and name broadcast to
/// every bar, the bars' timestamps, their local trade date and time in the
/// symbol's market, and the price and volume columns.
pub open spec fn kline_table(
    d: KlineData,
    symbol: Option<Seq<char>>,
    name: Option<Seq<char>>,
) -> Seq<(Seq<char>, CellsView)> {
    let n = d.timestamp@.len();
    let tz = symbol_zone(symbol);
    seq![
        ("symbol"@, CellsView::Text(repeat(symbol, n))),
        ("name"@, CellsView::Text(repeat(name, n))),
        ("timestamp"@, CellsView::Int(present(d.timestamp@))),
        ("trade_date"@, CellsView::Text(trade_dates(d.timestamp@, tz))),
        ("trade_time"@, CellsView::Text(trade_times(d.timestamp@, tz))),
        ("open"@, CellsView::Float(present(d.open@))),
        ("high"@, CellsView::Float(present(d.high@))),
        ("low"@, CellsView::Float(present(d.low@))),
        ("close"@, CellsView::Float(present(d.close@))),
        ("volume"@, CellsView::Int(present(d.volume@))),
        ("amount"@, CellsView::Float(present(d.amount@))),
    ]
}

/// The zone of the symbol's market, computed.
pub fn zone_of_symbol(symbol: Option<&str>) -> (r: Option<TimeZone>)
    ensures
        r == symbol_zone(str_opt_view(symbol)),
{
    match symbol {
        Some(s) => match region_for_symbol(s) {
            Some(region) => tz_for_region(region),
            None => None,
        },
        None => None,
    }
}

/// Converts one kline payload into a table with the columns `symbol`,
/// `name`, `timestamp`, `trade_date`, `trade_time`, `open`, `high`, `low`,
/// `close`, `volume`, `amount`. The optional open-interest, previous-close
/// and settlement columns are not carried into the table. Refused when the
/// payload's price and volume columns differ in length from its timestamps.
pub fn kline_to_dataframe(data: &KlineData, symbol: Option<&str>, name: Option<&str>) -> (r: Result<Frame, Error>)
    ensures
        r is Ok <==> price_columns_aligned(*data),
        r matches Ok(f) ==> f@ == kline_table(*data, str_opt_view(symbol), str_opt_view(name)),
        r matches Err(e) ==> e is DataFrame,
{
    let n = data.len();
    let tz = zone_of_symbol(symbol);
    let (trade_dates_col, trade_times_col) = format_trade_columns(data.timestamp.as_slice(), tz);
    let symbols = owned_texts(broadcast_to(symbol, n));
    let names = owned_texts(broadcast_to(name, n));
    let ghost sv = str_opt_view(symbol);
    let ghost nv = str_opt_view(name);
    proof {
        assert(opt_views(symbols@) =~= repeat(sv, n as nat));
        assert(opt_views(names@) =~= repeat(nv, n as nat));
    }
    let columns = vec![
        named("symbol", Cells::Text(symbols)),
        named("name", Cells::Text(names)),
        named("timestamp", Cells::Int(present_ints(&data.timestamp))),
        named("trade_date", Cells::Text(trade_dates_col)),
        named("trade_time", Cells::Text(trade_times_col)),
        named("open", Cells::Float(present_floats(&data.open))),
        named("high", Cells::Float(present_floats(&data.high))),
        named("low", Cells::Float(present_floats(&data.low))),
        named("close", Cells::Float(present_floats(&data.close))),
        named("volume", Cells::Int(present_ints(&data.volume))),
        named("amount", Cells::Float(present_floats(&data.amount))),
    ];
    proof {
        reveal_strlit("symbol");
        reveal_strlit("name");
        reveal_strlit("timestamp");
        reveal_strlit("trade_date");
        reveal_strlit("trade_time");
        reveal_strlit("open");
        reveal_strlit("high");
        reveal_strlit("low");
        reveal_strlit("close");
        reveal_strlit("volume");
        reveal_strlit("amount");
        let cv = columns_view(columns@);
        let expected = kline_table(*data, sv, nv);
        assert(cv =~= expected);
        assert("symbol"@.len() == 6);
        assert("name"@.len() == 4);
        assert("timestamp"@.len() == 9);
        assert("trade_date"@.len() == 10);
        assert("trade_time"@.len() == 10);
        assert("open"@.len() == 4);
        assert("high"@.len() == 4);
        assert("low"@.len() == 3);
        assert("close"@.len() == 5);
        assert("volume"@.len() == 6);
        assert("amount"@.len() == 6);
        assert("open"@[0] != "high"@[0]);
        assert("open"@[0] != "name"@[0]);
        assert("high"@[0] != "name"@[0]);
        assert("symbol"@[0] != "volume"@[0]);
        assert("symbol"@[0] != "amount"@[0]);
        assert("volume"@[0] != "amount"@[0]);
        assert("trade_date"@[6] != "trade_time"@[6]);
        let n = data.timestamp@.len();
        assert(cells_len(expected[0].1) == n);
        assert(cells_len(expected[1].1) == n);
        assert(cells_len(expected[2].1) == n);
        assert(cells_len(expected[3].1) == n);
        assert(cells_len(expected[4].1) == n);
        assert(cells_len(expected[5].1) == data.open@.len());
        assert(cells_len(expected[6].1) == data.high@.len());
        assert(cells_len(expected[7].1) == data.low@.len());
        assert(cells_len(expected[8].1) == data.close@.len());
        assert(cells_len(expected[9].1) == data.volume@.len());
        assert(cells_len(expected[10].1) == data.amount@.len());
        reveal_with_fuel(distinct_from, 12);
        reveal_with_fuel(distinct_after, 12);
        assert(column_names(expected) =~= seq![
            "symbol"@, "name"@, "timestamp"@, "trade_date"@, "trade_time"@, "open"@, "high"@,
            "low"@, "close"@, "volume"@, "amount"@,
        ]);
        assert(distinct_after(column_names(expected), 0));
        lemma_names_distinct(expected);
        if price_columns_aligned(*data) {
            assert(table_shape(expected));
        }
        if table_shape(expected) {
            assert(cells_len(expected[5].1) == cells_len(expected[0].1));
            assert(cells_len(expected[6].1) == cells_len(expected[0].1));
            assert(cells_len(expected[7].1) == cells_len(expected[0].1));
            assert(cells_len(expected[8].1) == cells_len(expected[0].1));
            assert(cells_len(expected[9].1) == cells_len(expected[0].1));
            assert(cells_len(expected[10].1) == cells_len(expected[0].1));
        }
    }
    Frame::new(columns)
}

/// The tables that a batch of kline payloads becomes, one per symbol, with
/// the symbol's name from `names` where it has one.
pub open spec fn batch_tables_match(
    map: Seq<(String, KlineData)>,
    names: Seq<(String, String)>,
    out: Seq<(String, Frame)>,
) -> bool {
    &&& out.len() == map.len()
    &&& forall|i: int| 0 <= i < map.len() ==> {
        &&& #[trigger] out[i].0@ == map[i].0@
        &&& out[i].1@ == kline_table(map[i].1, Some(map[i].0@), name_lookup(names, map[i].0@))
    }
}

/// Converts a batch of `symbol -> kline payload` entries into one table per
/// symbol, filling the `name` column from `names` when the symbol has a
/// name there. Refused when some payload's price and volume columns differ
/// in length from its timestamps.
pub fn klines_batch_to_dataframes(
    map: &Vec<(String, KlineData)>,
    names: &Vec<(String, String)>,
) -> (r: Result<Vec<(String, Frame)>, Error>)
    ensures
        r is Ok <==> forall|i: int| 0 <= i < map@.len() ==> price_columns_aligned(#[trigger] map@[i].1),
        r matches Ok(out) ==> batch_tables_match(map@, names@, out@),
        r matches Err(e) ==> e is DataFrame,
{
    let mut out: Vec<(String, Frame)> = Vec::new();
    let mut i: usize = 0;
    while i < map.len()
        invariant
            i <= map@.len(),
            forall|j: int| 0 <= j < i ==> price_columns_aligned(#[trigger] map@[j].1),
            batch_tables_match(map@.subrange(0, i as int), names@, out@),
        decreases map.len() - i,
    {
        let symbol = &map[i].0;
        let name = pick_name(symbol.as_str(), names);
        let ghost nv = str_opt_view(name);
        assert(nv == name_lookup(names@, symbol@));
        let df = match kline_to_dataframe(&map[i].1, Some(symbol.as_str()), name) {
            Ok(df) => df,
            Err(e) => {
                return Err(e);
            },
        };
        let ghost old_out = out@;
        out.push((symbol.clone(), df));
        proof {
            let sub = map@.subrange(0, i + 1);
            assert forall|j: int| 0 <= j < sub.len() implies {
                &&& #[trigger] out@[j].0@ == sub[j].0@
                &&& out@[j].1@ == kline_table(sub[j].1, Some(sub[j].0@), name_lookup(names@, sub[j].0@))
            } by {
                if j < i {
                    assert(out@[j] == old_out[j]);
                    assert(sub[j] == map@.subrange(0, i as int)[j]);
                }
            }
        }
        i = i + 1;
    }
    proof {
        assert(map@.subrange(0, map@.len() as int) =~= map@);
    }
    Ok(out)
}

/// One row of the ex-factor table: symbol, timestamp, local trade date,
/// factor.
pub type FactorRow = (Seq<char>, i64, Option<Seq<char>>, u64);

/// The rows of one symbol's factors.
pub open spec fn entry_factor_rows(e: (String, Vec<ExfactorsData>)) -> Seq<FactorRow> {
    e.1@.map_values(
        |f: ExfactorsData|
            (e.0@, f.timestamp, crate::clock::stamp_date(f.timestamp, symbol_zone(Some(e.0@))), f.ex_factor),
    )
}

/// The rows of the ex-factor table: each symbol's factors in order, symbols
/// in the order given.
pub open spec fn factor_rows(m: Seq<(String, Vec<ExfactorsData>)>) -> Seq<FactorRow>
    decreases m.len(),
{
    if m.len() == 0 {
        Seq::empty()
    } else {
        factor_rows(m.drop_last()) + entry_factor_rows(m.last())
    }
}

/// The long-format ex-factor table of `m`.
pub open spec fn factor_table(m: Seq<(String, Vec<ExfactorsData>)>) -> Seq<(Seq<char>, CellsView)> {
    let rows = factor_rows(m);
    seq![
        ("symbol"@, CellsView::Text(rows.map_values(|r: FactorRow| Some(r.0)))),
        ("timestamp"@, CellsView::Int(rows.map_values(|r: FactorRow| Some(r.1)))),
        ("trade_date"@, CellsView::Text(rows.map_values(|r: FactorRow| r.2))),
        ("ex_factor"@, CellsView::Float(rows.map_values(|r: FactorRow| Some(r.3)))),
    ]
}

/// Converts an ex-factors answer into a long-format table with the columns
/// `symbol`, `timestamp`, `trade_date` (local date in the symbol's market),
/// `ex_factor`: one row per factor, symbols in the order given.
pub fn factors_to_dataframe(map: &Vec<(String, Vec<ExfactorsData>)>) -> (r: Result<Frame, Error>)
    ensures
        r matches Ok(f) && f@ == factor_table(map@),
{
    let mut symbols: Vec<Option<String>> = Vec::new();
    let mut timestamps: Vec<Option<i64>> = Vec::new();
    let mut dates: Vec<Option<String>> = Vec::new();
    let mut factors: Vec<Option<u64>> = Vec::new();
    let mut k: usize = 0;
    while k < map.len()
        invariant
            k <= map@.len(),
            opt_views(symbols@) == factor_rows(map@.subrange(0, k as int)).map_values(|r: FactorRow| Some(r.0)),
            timestamps@ == factor_rows(map@.subrange(0, k as int)).map_values(|r: FactorRow| Some(r.1)),
            opt_views(dates@) == factor_rows(map@.subrange(0, k as int)).map_values(|r: FactorRow| r.2),
            factors@ == factor_rows(map@.subrange(0, k as int)).map_values(|r: FactorRow| Some(r.3)),
        decreases map.len() - k,
    {
        let symbol = &map[k].0;
        let entries = &map[k].1;
        let ghost base = factor_rows(map@.subrange(0, k as int));
        let ghost erows = entry_factor_rows(map@[k as int]);
        proof {
            assert(map@.subrange(0, k + 1).drop_last() =~= map@.subrange(0, k as int));
        }
        if entries.len() > 0 {
            let tz = zone_of_symbol(Some(symbol.as_str()));
            let mut stamps: Vec<i64> = Vec::new();
            let mut j: usize = 0;
            while j < entries.len()
                invariant
                    j <= entries@.len(),
                    stamps@ == entries@.subrange(0, j as int).map_values(|f: ExfactorsData| f.timestamp),
                decreases entries.len() - j,
            {
                stamps.push(entries[j].timestamp);
                proof {
                    assert(entries@.subrange(0, j + 1).map_values(|f: ExfactorsData| f.timestamp) =~= entries@.subrange(
                        0,
                        j as int,
                    ).map_values(|f: ExfactorsData| f.timestamp).push(entries@[j as int].timestamp));
                }
                j = j + 1;
            }
            proof {
                assert(entries@.subrange(0, entries@.len() as int) =~= entries@);
            }
            let (entry_dates, _) = format_trade_columns(stamps.as_slice(), tz);
            assert(opt_views(entry_dates@).len() == entry_dates@.len());
            let mut i: usize = 0;
            while i < entries.len()
                invariant
                    i <= entries@.len(),
                    entries@ == map@[k as int].1@,
                    symbol@ == map@[k as int].0@,
                    tz == symbol_zone(Some(symbol@)),
                    stamps@ == entries@.map_values(|f: ExfactorsData| f.timestamp),
                    opt_views(entry_dates@) == trade_dates(stamps@, tz),
                    entry_dates@.len() == entries@.len(),
                    erows == entry_factor_rows(map@[k as int]),
                    opt_views(symbols@) == (base + erows.subrange(0, i as int)).map_values(|r: FactorRow| Some(r.0)),
                    timestamps@ == (base + erows.subrange(0, i as int)).map_values(|r: FactorRow| Some(r.1)),
                    opt_views(dates@) == (base + erows.subrange(0, i as int)).map_values(|r: FactorRow| r.2),
                    factors@ == (base + erows.subrange(0, i as int)).map_values(|r: FactorRow| Some(r.3)),
                decreases entries.len() - i,
            {
                let ghost os = symbols@;
                let ghost od = dates@;
                let date = match &entry_dates[i] {
                    Some(d) => Some(d.clone()),
                    None => None,
                };
                symbols.push(Some(symbol.clone()));
                timestamps.push(Some(entries[i].timestamp));
                dates.push(date);
                factors.push(Some(entries[i].ex_factor));
                proof {
                    assert(opt_view(date) == opt_views(entry_dates@)[i as int]);
                    let row = erows[i as int];
                    assert(opt_views(entry_dates@)[i as int] == crate::clock::stamp_date(stamps@[i as int], tz));
                    assert(row == (symbol@, entries@[i as int].timestamp, crate::clock::stamp_date(entries@[i as int].timestamp, tz), entries@[i as int].ex_factor));
                    let before = base + erows.subrange(0, i as int);
                    let after = base + erows.subrange(0, i + 1);
                    assert(after =~= before.push(row));
                    assert(opt_views(symbols@) =~= opt_views(os).push(Some(symbol@)));
                    assert(opt_views(dates@) =~= opt_views(od).push(opt_view(date)));
                    assert(opt_views(symbols@) =~= after.map_values(|r: FactorRow| Some(r.0)));
                    assert(timestamps@ =~= after.map_values(|r: FactorRow| Some(r.1)));
                    assert(opt_views(dates@) =~= after.map_values(|r: FactorRow| r.2));
                    assert(factors@ =~= after.map_values(|r: FactorRow| Some(r.3)));
                }
                i = i + 1;
            }
            proof {
                assert(erows.subrange(0, entries@.len() as int) =~= erows);
            }
        } else {
            proof {
                assert(erows =~= Seq::<FactorRow>::empty());
                assert(base + erows =~= base);
            }
        }
        k = k + 1;
    }
    proof {
        assert(map@.subrange(0, map@.len() as int) =~= map@);
    }
    let columns = vec![
        named("symbol", Cells::Text(symbols)),
        named("timestamp", Cells::Int(timestamps)),
        named("trade_date", Cells::Text(dates)),
        named("ex_factor", Cells::Float(factors)),
    ];
    proof {
        reveal_strlit("symbol");
        reveal_strlit("timestamp");
        reveal_strlit("trade_date");
        reveal_strlit("ex_factor");
        assert("symbol"@.len() == 6);
        assert("timestamp"@.len() == 9);
        assert("trade_date"@.len() == 10);
        assert("ex_factor"@.len() == 9);
        assert("timestamp"@[0] != "ex_factor"@[0]);
        let expected = factor_table(map@);
        assert(columns_view(columns@) =~= expected);
        reveal_with_fuel(distinct_from, 5);
        reveal_with_fuel(distinct_after, 5);
        assert(column_names(expected) =~= seq!["symbol"@, "timestamp"@, "trade_date"@, "ex_factor"@]);
        assert(distinct_after(column_names(expected), 0));
        lemma_names_distinct(expected);
        assert(table_shape(expected));
    }
    Frame::new(columns)
}

} // verus!
