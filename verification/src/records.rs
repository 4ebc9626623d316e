//! Long-format tables of per-symbol record lists (financial statements):
//! every record is a JSON object; each field becomes a column, typed by its
//! first non-null value.
use vstd::prelude::*;
use vstd::string::*;

use crate::batch::keys_distinct;
use crate::error::Error;
use crate::frame::{cells_len, columns_view, named, table_shape, Cells, CellsView, Frame, FrameColumn};
use crate::order::{is_key_order, key_order};
use crate::text::{opt_view, opt_views};

verus! {

/// A JSON value as a table cell sees it. Numbers carry the bit pattern of
/// their `f64` reading (`as_f64`); every non-null value but a boolean
/// carries its JSON text, used when a column falls back to text.
#[derive(Debug)]
pub enum JsonValue {
    Null,
    Bool(bool),
    Number { as_f64: u64, text: String },
    Str { value: String, text: String },
    Nested { text: String },
}

impl Clone for JsonValue {
    fn clone(&self) -> (r: Self)
        ensures
            r == *self,
    {
        match self {
            JsonValue::Null => JsonValue::Null,
            JsonValue::Bool(b) => JsonValue::Bool(*b),
            JsonValue::Number { as_f64, text } => JsonValue::Number { as_f64: *as_f64, text: text.clone() },
            JsonValue::Str { value, text } => JsonValue::Str { value: value.clone(), text: text.clone() },
            JsonValue::Nested { text } => JsonValue::Nested { text: text.clone() },
        }
    }
}

/// A JSON object: its fields in order.
pub type JsonObject = Vec<(String, JsonValue)>;

/// The JSON text of a non-null value.
pub open spec fn json_text(v: JsonValue) -> Seq<char> {
    match v {
        JsonValue::Null => "null"@,
        JsonValue::Bool(b) => if b {
            "true"@
        } else {
            "false"@
        },
        JsonValue::Number { text, .. } => text@,
        JsonValue::Str { text, .. } => text@,
        JsonValue::Nested { text } => text@,
    }
}

/// The first non-null value of a column, if any.
pub open spec fn first_non_null(s: Seq<JsonValue>) -> Option<JsonValue>
    decreases s.len(),
{
    if s.len() == 0 {
        None
    } else if s[0] is Null {
        first_non_null(s.drop_first())
    } else {
        Some(s[0])
    }
}

/// The string inside a value, if it is a string.
pub open spec fn as_text(v: JsonValue) -> Option<Seq<char>> {
    match v {
        JsonValue::Str { value, .. } => Some(value@),
        _ => None,
    }
}

/// The boolean inside a value, if it is a boolean.
pub open spec fn as_flag(v: JsonValue) -> Option<bool> {
    match v {
        JsonValue::Bool(b) => Some(b),
        _ => None,
    }
}

/// The `f64` reading of a value, if it is a number.
pub open spec fn as_number(v: JsonValue) -> Option<u64> {
    match v {
        JsonValue::Number { as_f64, .. } => Some(as_f64),
        _ => None,
    }
}

/// The JSON text of a value; `None` for null.
pub open spec fn as_json_text(v: JsonValue) -> Option<Seq<char>> {
    match v {
        JsonValue::Null => None,
        _ => Some(json_text(v)),
    }
}

/// The typed cells of a column of JSON values: the first non-null value
/// fixes the type, and values of another type become nulls; a column whose
/// first non-null value is an array or object, or that is all null, holds
/// the values' JSON text.
pub open spec fn json_cells(values: Seq<JsonValue>) -> CellsView {
    match first_non_null(values) {
        Some(JsonValue::Str { .. }) => CellsView::Text(values.map_values(|v: JsonValue| as_text(v))),
        Some(JsonValue::Bool(_)) => CellsView::Flag(values.map_values(|v: JsonValue| as_flag(v))),
        Some(JsonValue::Number { .. }) => CellsView::Float(values.map_values(|v: JsonValue| as_number(v))),
        _ => CellsView::Text(values.map_values(|v: JsonValue| as_json_text(v))),
    }
}

/// The JSON text of a value, computed.
fn text_of(v: &JsonValue) -> (r: Option<String>)
    ensures
        opt_view(r) == as_json_text(*v),
{
    match v {
        JsonValue::Null => None,
        JsonValue::Bool(b) => if *b {
            Some(String::from_str("true"))
        } else {
            Some(String::from_str("false"))
        },
        JsonValue::Number { text, .. } => Some(text.clone()),
        JsonValue::Str { text, .. } => Some(text.clone()),
        JsonValue::Nested { text } => Some(text.clone()),
    }
}

/// Builds one typed column from a column of JSON values.
pub fn json_column(name: &str, values: &[JsonValue]) -> (r: FrameColumn)
    ensures
        r@ == (name@, json_cells(values@)),
{
    let mut i: usize = 0;
    assert(values@.skip(0) =~= values@);
    while i < values.len() && matches!(values[i], JsonValue::Null)
        invariant
            i <= values@.len(),
            first_non_null(values@) == first_non_null(values@.skip(i as int)),
        decreases values.len() - i,
    {
        proof {
            assert(values@.skip(i as int).drop_first() =~= values@.skip(i + 1));
        }
        i = i + 1;
    }
    proof {
        if i < values@.len() {
            assert(values@.skip(i as int)[0] == values@[i as int]);
        } else {
            assert(values@.skip(i as int).len() == 0);
        }
    }
    let n = values.len();
    let mut k: usize = 0;
    if i < n && matches!(values[i], JsonValue::Str { .. }) {
        let mut out: Vec<Option<String>> = Vec::new();
        while k < n
            invariant
                n == values@.len(),
                k <= n,
                opt_views(out@) == values@.subrange(0, k as int).map_values(|v: JsonValue| as_text(v)),
            decreases n - k,
        {
            let cell = match &values[k] {
                JsonValue::Str { value, .. } => Some(value.clone()),
                _ => None,
            };
            let ghost old_out = out@;
            out.push(cell);
            proof {
                assert(opt_views(out@) =~= opt_views(old_out).push(opt_view(cell)));
                assert(values@.subrange(0, k + 1).map_values(|v: JsonValue| as_text(v)) =~= values@.subrange(0, k as int).map_values(
                    |v: JsonValue| as_text(v),
                ).push(as_text(values@[k as int])));
            }
            k = k + 1;
        }
        proof {
            assert(values@.subrange(0, n as int) =~= values@);
        }
        named(name, Cells::Text(out))
    } else if i < n && matches!(values[i], JsonValue::Bool(_)) {
        let mut out: Vec<Option<bool>> = Vec::new();
        while k < n
            invariant
                n == values@.len(),
                k <= n,
                out@ == values@.subrange(0, k as int).map_values(|v: JsonValue| as_flag(v)),
            decreases n - k,
        {
            let cell = match &values[k] {
                JsonValue::Bool(b) => Some(*b),
                _ => None,
            };
            out.push(cell);
            proof {
                assert(values@.subrange(0, k + 1).map_values(|v: JsonValue| as_flag(v)) =~= values@.subrange(0, k as int).map_values(
                    |v: JsonValue| as_flag(v),
                ).push(as_flag(values@[k as int])));
            }
            k = k + 1;
        }
        proof {
            assert(values@.subrange(0, n as int) =~= values@);
        }
        named(name, Cells::Flag(out))
    } else if i < n && matches!(values[i], JsonValue::Number { .. }) {
        let mut out: Vec<Option<u64>> = Vec::new();
        while k < n
            invariant
                n == values@.len(),
                k <= n,
                out@ == values@.subrange(0, k as int).map_values(|v: JsonValue| as_number(v)),
            decreases n - k,
        {
            let cell = match &values[k] {
                JsonValue::Number { as_f64, .. } => Some(*as_f64),
                _ => None,
            };
            out.push(cell);
            proof {
                assert(values@.subrange(0, k + 1).map_values(|v: JsonValue| as_number(v)) =~= values@.subrange(0, k as int).map_values(
                    |v: JsonValue| as_number(v),
                ).push(as_number(values@[k as int])));
            }
            k = k + 1;
        }
        proof {
            assert(values@.subrange(0, n as int) =~= values@);
        }
        named(name, Cells::Float(out))
    } else {
        let mut out: Vec<Option<String>> = Vec::new();
        while k < n
            invariant
                n == values@.len(),
                k <= n,
                opt_views(out@) == values@.subrange(0, k as int).map_values(|v: JsonValue| as_json_text(v)),
            decreases n - k,
        {
            let cell = text_of(&values[k]);
            let ghost old_out = out@;
            out.push(cell);
            proof {
                assert(opt_views(out@) =~= opt_views(old_out).push(opt_view(cell)));
                assert(values@.subrange(0, k + 1).map_values(|v: JsonValue| as_json_text(v)) =~= values@.subrange(
                    0,
                    k as int,
                ).map_values(|v: JsonValue| as_json_text(v)).push(as_json_text(values@[k as int])));
            }
            k = k + 1;
        }
        proof {
            assert(values@.subrange(0, n as int) =~= values@);
        }
        named(name, Cells::Text(out))
    }
}

/// A record row: the symbol it belongs to and the record's fields.
pub type RecordRow = (String, Seq<(String, JsonValue)>);

/// The field names of a record, in order.
pub open spec fn obj_names(o: Seq<(String, JsonValue)>) -> Seq<Seq<char>> {
    o.map_values(|f: (String, JsonValue)| f.0@)
}

/// Whether a record has a field called `c`.
pub open spec fn has_field(o: Seq<(String, JsonValue)>, c: Seq<char>) -> bool {
    obj_names(o).contains(c)
}

/// The value of field `c` of a record (its last occurrence); null when the
/// record has no such field.
pub open spec fn field_value(o: Seq<(String, JsonValue)>, c: Seq<char>) -> JsonValue
    decreases o.len(),
{
    if o.len() == 0 {
        JsonValue::Null
    } else if o.last().0@ == c {
        o.last().1
    } else {
        field_value(o.drop_last(), c)
    }
}

/// The field names of all rows, row after row, repeats kept.
pub open spec fn all_names(rows: Seq<RecordRow>) -> Seq<Seq<char>>
    decreases rows.len(),
{
    if rows.len() == 0 {
        Seq::empty()
    } else {
        all_names(rows.drop_last()) + obj_names(rows.last().1)
    }
}

/// The distinct elements of `s`, in the order of their first occurrence.
pub open spec fn dedup(s: Seq<Seq<char>>) -> Seq<Seq<char>>
    decreases s.len(),
{
    if s.len() == 0 {
        Seq::empty()
    } else {
        let d = dedup(s.drop_last());
        if d.contains(s.last()) {
            d
        } else {
            d.push(s.last())
        }
    }
}

/// An element of a sequence is in its front part or is its last element.
pub proof fn lemma_contains_last(s: Seq<Seq<char>>, x: Seq<char>)
    requires
        s.len() > 0,
    ensures
        s.contains(x) <==> (s.drop_last().contains(x) || x == s.last()),
{
    if s.contains(x) && x != s.last() {
        let i = choose|i: int| 0 <= i < s.len() && s[i] == x;
        assert(s.drop_last()[i] == x);
    }
    if s.drop_last().contains(x) {
        let i = choose|i: int| 0 <= i < s.drop_last().len() && s.drop_last()[i] == x;
        assert(s[i] == x);
    }
    if x == s.last() {
        assert(s[s.len() - 1] == x);
    }
}

/// `dedup` keeps exactly the elements, once each.
pub proof fn lemma_dedup(s: Seq<Seq<char>>)
    ensures
        forall|x: Seq<char>| dedup(s).contains(x) <==> s.contains(x),
        dedup(s).no_duplicates(),
    decreases s.len(),
{
    if s.len() > 0 {
        lemma_dedup(s.drop_last());
        let d = dedup(s.drop_last());
        assert forall|x: Seq<char>| dedup(s).contains(x) <==> s.contains(x) by {
            lemma_contains_last(s, x);
            if !d.contains(s.last()) {
                let p = d.push(s.last());
                assert(p.drop_last() =~= d);
                lemma_contains_last(p, x);
            }
        }
        if !d.contains(s.last()) {
            let p = d.push(s.last());
            assert forall|i: int, j: int| 0 <= i < p.len() && 0 <= j < p.len() && i != j implies p[i] != p[j] by {
                if i < d.len() && j < d.len() {
                } else if i < d.len() {
                    assert(p[i] == d[i]);
                } else {
                    assert(p[j] == d[j]);
                }
            }
        }
    }
}

/// Appending a field to a record.
pub proof fn lemma_field_push(o: Seq<(String, JsonValue)>, e: (String, JsonValue), c: Seq<char>)
    ensures
        field_value(o.push(e), c) == (if e.0@ == c {
            e.1
        } else {
            field_value(o, c)
        }),
        has_field(o.push(e), c) == (has_field(o, c) || e.0@ == c),
{
    assert(o.push(e).drop_last() =~= o);
    assert(obj_names(o.push(e)) =~= obj_names(o).push(e.0@));
    if has_field(o.push(e), c) && e.0@ != c {
        let i = choose|i: int| 0 <= i < obj_names(o.push(e)).len() && obj_names(o.push(e))[i] == c;
        assert(obj_names(o)[i] == c);
    }
    if has_field(o, c) {
        let i = choose|i: int| 0 <= i < obj_names(o).len() && obj_names(o)[i] == c;
        assert(obj_names(o.push(e))[i] == c);
    }
    if e.0@ == c {
        assert(obj_names(o.push(e))[o.len() as int] == c);
    }
}

/// A record without field `c` reads null there.
pub proof fn lemma_no_field(o: Seq<(String, JsonValue)>, c: Seq<char>)
    requires
        !has_field(o, c),
    ensures
        field_value(o, c) == JsonValue::Null,
    decreases o.len(),
{
    if o.len() > 0 {
        let t = o.drop_last();
        assert(o =~= t.push(o.last()));
        lemma_field_push(t, o.last(), c);
        lemma_no_field(t, c);
    }
}

/// A name occurs among the rows' field names exactly when some row has it.
pub proof fn lemma_all_names(rows: Seq<RecordRow>, c: Seq<char>)
    ensures
        all_names(rows).contains(c) <==> exists|t: int| 0 <= t < rows.len() && has_field(#[trigger] rows[t].1, c),
    decreases rows.len(),
{
    if rows.len() > 0 {
        let d = rows.drop_last();
        lemma_all_names(d, c);
        let a = all_names(d);
        let b = obj_names(rows.last().1);
        if (a + b).contains(c) {
            let i = choose|i: int| 0 <= i < (a + b).len() && (a + b)[i] == c;
            if i < a.len() {
                assert(a[i] == c);
                let t = choose|t: int| 0 <= t < d.len() && has_field(#[trigger] d[t].1, c);
                assert(rows[t] == d[t]);
            } else {
                assert(b[i - a.len()] == c);
                assert(has_field(rows[rows.len() - 1].1, c));
            }
        }
        if exists|t: int| 0 <= t < rows.len() && has_field(#[trigger] rows[t].1, c) {
            let t = choose|t: int| 0 <= t < rows.len() && has_field(#[trigger] rows[t].1, c);
            if t < d.len() {
                assert(d[t] == rows[t]);
                let i = choose|i: int| 0 <= i < a.len() && a[i] == c;
                assert((a + b)[i] == c);
            } else {
                let i = choose|i: int| 0 <= i < b.len() && b[i] == c;
                assert((a + b)[a.len() + i] == c);
            }
        }
    }
}

/// The names of a list of columns under construction.
pub open spec fn col_names(cols: Seq<(String, Vec<JsonValue>)>) -> Seq<Seq<char>> {
    cols.map_values(|c: (String, Vec<JsonValue>)| c.0@)
}

/// The plain rows of a list of `(symbol, record)` references.
pub open spec fn row_views(rows: Seq<(&String, &JsonObject)>) -> Seq<RecordRow> {
    rows.map_values(|p: (&String, &JsonObject)| (*p.0, p.1@))
}

/// A column under construction is consistent after the rows before `ri`
/// and the fields `pre` of row `ri`: it holds the values of every row
/// before `ri` up to its length, rows beyond its length lack the field, and
/// it reaches row `ri` exactly when `pre` has the field.
pub open spec fn col_ok(rows: Seq<RecordRow>, ri: int, pre: Seq<(String, JsonValue)>, nm: Seq<char>, v: Seq<JsonValue>) -> bool {
    &&& v.len() <= ri + 1
    &&& forall|t: int| 0 <= t < v.len() && t < ri ==> v[t] == field_value(#[trigger] rows[t].1, nm)
    &&& (v.len() == ri + 1 <==> has_field(pre, nm))
    &&& (v.len() == ri + 1 ==> v[ri] == field_value(pre, nm))
    &&& forall|t: int| v.len() <= t < ri ==> !has_field(#[trigger] rows[t].1, nm)
}

/// Truncates or null-pads `vals` to `len` entries.
fn pad_to(vals: &mut Vec<JsonValue>, len: usize)
    ensures
        final(vals)@.len() == len,
        forall|t: int| 0 <= t < len && t < old(vals)@.len() ==> final(vals)@[t] == old(vals)@[t],
        forall|t: int| old(vals)@.len() <= t < len ==> final(vals)@[t] == JsonValue::Null,
{
    if vals.len() >= len {
        vals.truncate(len);
    } else {
        let ghost start = vals@;
        while vals.len() < len
            invariant
                start.len() <= vals@.len() <= len,
                forall|t: int| 0 <= t < start.len() ==> vals@[t] == start[t],
                forall|t: int| start.len() <= t < vals@.len() ==> vals@[t] == JsonValue::Null,
            decreases len - vals@.len(),
        {
            vals.push(JsonValue::Null);
        }
    }
}

/// Position of the column called `name`, if any.
fn find_column(cols: &Vec<(String, Vec<JsonValue>)>, name: &String) -> (r: Option<usize>)
    ensures
        match r {
            Some(i) => i < cols@.len() && cols@[i as int].0@ == name@,
            None => !col_names(cols@).contains(name@),
        },
{
    let mut i: usize = 0;
    while i < cols.len()
        invariant
            i <= cols@.len(),
            forall|j: int| 0 <= j < i ==> cols@[j].0@ != name@,
        decreases cols.len() - i,
    {
        if cols[i].0 == *name {
            return Some(i);
        }
        i = i + 1;
    }
    proof {
        if col_names(cols@).contains(name@) {
            let j = choose|j: int| 0 <= j < col_names(cols@).len() && col_names(cols@)[j] == name@;
            assert(cols@[j].0@ == name@);
        }
    }
    None
}

/// Collects the rows' fields into columns: one per distinct field name, in
/// order of first appearance, each holding every row's value of that field
/// (null where a row lacks it).
pub fn assemble_columns(rows: &Vec<(&String, &JsonObject)>) -> (r: Vec<(String, Vec<JsonValue>)>)
    ensures
        col_names(r@) == dedup(all_names(row_views(rows@))),
        forall|c: int| 0 <= c < r@.len() ==> (#[trigger] r@[c]).1@ == Seq::new(
            rows@.len() as nat,
            |t: int| field_value(row_views(rows@)[t].1, r@[c].0@),
        ),
{
    let ghost rv = row_views(rows@);
    let mut cols: Vec<(String, Vec<JsonValue>)> = Vec::new();
    let mut ri: usize = 0;
    proof {
        assert(rv.take(0) =~= Seq::<RecordRow>::empty());
        assert(obj_names(Seq::<(String, JsonValue)>::empty()) =~= Seq::<Seq<char>>::empty());
        assert(all_names(rv.take(0)) + obj_names(Seq::<(String, JsonValue)>::empty()) =~= Seq::<Seq<char>>::empty());
        assert(col_names(cols@) =~= Seq::<Seq<char>>::empty());
    }
    while ri < rows.len()
        invariant
            rv == row_views(rows@),
            ri <= rows@.len(),
            col_names(cols@) == dedup(all_names(rv.take(ri as int))),
            forall|c: int| 0 <= c < cols@.len() ==> col_ok(rv, ri as int, Seq::empty(), (#[trigger] cols@[c]).0@, cols@[c].1@),
        decreases rows.len() - ri,
    {
        let record = rows[ri].1;
        let ghost rec = rv[ri as int].1;
        assert(rec == record@);
        let mut f: usize = 0;
        proof {
            assert(rec.take(0) =~= Seq::<(String, JsonValue)>::empty());
            assert(all_names(rv.take(ri as int)) + obj_names(rec.take(0)) =~= all_names(rv.take(ri as int)));
        }
        while f < record.len()
            invariant
                rv == row_views(rows@),
                ri < rows@.len(),
                rec == rv[ri as int].1,
                rec == record@,
                f <= rec.len(),
                col_names(cols@) == dedup(all_names(rv.take(ri as int)) + obj_names(rec.take(f as int))),
                forall|c: int| 0 <= c < cols@.len() ==> col_ok(rv, ri as int, rec.take(f as int), (#[trigger] cols@[c]).0@, cols@[c].1@),
            decreases record.len() - f,
        {
            let name = &record[f].0;
            let ghost e = rec[f as int];
            let ghost pre = rec.take(f as int);
            let ghost post = rec.take(f + 1);
            let ghost a = all_names(rv.take(ri as int));
            proof {
                assert(post =~= pre.push(e));
                assert(obj_names(post) =~= obj_names(pre).push(e.0@));
                assert(a + obj_names(post) =~= (a + obj_names(pre)).push(e.0@));
                assert((a + obj_names(post)).drop_last() =~= a + obj_names(pre));
                lemma_dedup(a + obj_names(pre));
            }
            let idx = match find_column(&cols, name) {
                Some(i) => {
                    proof {
                        assert(col_names(cols@)[i as int] == e.0@);
                    }
                    i
                },
                None => {
                    proof {
                        assert(!(a + obj_names(pre)).contains(e.0@));
                        lemma_all_names(rv.take(ri as int), e.0@);
                        assert forall|t: int| 0 <= t < ri implies !has_field(#[trigger] rv[t].1, e.0@) by {
                            if has_field(rv[t].1, e.0@) {
                                assert(rv.take(ri as int)[t] == rv[t]);
                                let i = choose|i: int| 0 <= i < a.len() && a[i] == e.0@;
                                assert((a + obj_names(pre))[i] == e.0@);
                            }
                        }
                        if has_field(pre, e.0@) {
                            let i = choose|i: int| 0 <= i < obj_names(pre).len() && obj_names(pre)[i] == e.0@;
                            assert((a + obj_names(pre))[a.len() + i] == e.0@);
                        }
                    }
                    let ghost old_cols = cols@;
                    cols.push((name.clone(), Vec::new()));
                    proof {
                        assert(col_names(cols@) =~= col_names(old_cols).push(e.0@));
                        assert(forall|c: int| 0 <= c < old_cols.len() ==> cols@[c] == old_cols[c]);
                    }
                    cols.len() - 1
                },
            };
            proof {
                assert(col_names(cols@) == dedup(a + obj_names(post)));
            }
            let ghost mid = cols@;
            let (nm, mut vals) = cols.remove(idx);
            pad_to(&mut vals, ri);
            vals.push(record[f].1.clone());
            cols.insert(idx, (nm, vals));
            proof {
                assert(cols@ =~= mid.update(idx as int, cols@[idx as int]));
                assert(col_names(cols@) =~= col_names(mid));
                lemma_field_push(pre, e, e.0@);
                assert forall|c: int| 0 <= c < cols@.len() implies col_ok(rv, ri as int, post, (#[trigger] cols@[c]).0@, cols@[c].1@) by {
                    let nmc = cols@[c].0@;
                    lemma_field_push(pre, e, nmc);
                    if c != idx {
                        assert(cols@[c] == mid[c]);
                        assert(col_ok(rv, ri as int, pre, mid[c].0@, mid[c].1@));
                        assert(nmc != e.0@) by {
                            lemma_dedup(a + obj_names(post));
                            assert(col_names(mid)[c] == nmc);
                            assert(col_names(mid)[idx as int] == e.0@);
                        }
                    } else {
                        let old_v = mid[c].1@;
                        assert(col_ok(rv, ri as int, pre, e.0@, old_v));
                        let v = cols@[c].1@;
                        assert forall|t: int| 0 <= t < v.len() && t < ri implies v[t] == field_value(#[trigger] rv[t].1, nmc) by {
                            if t >= old_v.len() {
                                lemma_no_field(rv[t].1, nmc);
                            }
                        }
                    }
                }
            }
            f = f + 1;
        }
        proof {
            assert(rec.take(rec.len() as int) =~= rec);
            let next = rv.take(ri + 1);
            assert(next.drop_last() =~= rv.take(ri as int));
            assert(all_names(next) == all_names(rv.take(ri as int)) + obj_names(rec));
            assert forall|c: int| 0 <= c < cols@.len() implies col_ok(rv, ri + 1, Seq::empty(), (#[trigger] cols@[c]).0@, cols@[c].1@) by {
                let nmc = cols@[c].0@;
                let v = cols@[c].1@;
                assert(!has_field(Seq::<(String, JsonValue)>::empty(), nmc)) by {
                    assert(obj_names(Seq::<(String, JsonValue)>::empty()) =~= Seq::<Seq<char>>::empty());
                }
            }
        }
        ri = ri + 1;
    }
    let height = rows.len();
    let mut c: usize = 0;
    proof {
        assert(rv.take(height as int) =~= rv);
    }
    while c < cols.len()
        invariant
            rv == row_views(rows@),
            height == rows@.len(),
            c <= cols@.len(),
            col_names(cols@) == dedup(all_names(rv)),
            forall|k: int| 0 <= k < c ==> (#[trigger] cols@[k]).1@ == Seq::new(
                height as nat,
                |t: int| field_value(rv[t].1, cols@[k].0@),
            ),
            forall|k: int| c <= k < cols@.len() ==> col_ok(rv, height as int, Seq::empty(), (#[trigger] cols@[k]).0@, cols@[k].1@),
        decreases cols.len() - c,
    {
        let ghost mid = cols@;
        let (nm, mut vals) = cols.remove(c);
        let ghost old_v = vals@;
        pad_to(&mut vals, height);
        cols.insert(c, (nm, vals));
        proof {
            assert(cols@ =~= mid.update(c as int, cols@[c as int]));
            assert(col_names(cols@) =~= col_names(mid));
            let nmc = cols@[c as int].0@;
            assert(col_ok(rv, height as int, Seq::empty(), nmc, old_v));
            assert(!has_field(Seq::<(String, JsonValue)>::empty(), nmc)) by {
                assert(obj_names(Seq::<(String, JsonValue)>::empty()) =~= Seq::<Seq<char>>::empty());
            }
            assert forall|t: int| 0 <= t < height implies cols@[c as int].1@[t] == field_value(rv[t].1, nmc) by {
                if t >= old_v.len() {
                    lemma_no_field(rv[t].1, nmc);
                }
            }
            assert(cols@[c as int].1@ =~= Seq::new(height as nat, |t: int| field_value(rv[t].1, nmc)));
            assert forall|k: int| 0 <= k < cols@.len() && k != c implies cols@[k] == mid[k] by {}
        }
        c = c + 1;
    }
    cols
}

/// The rows of one symbol's records.
pub open spec fn entry_rows(e: (String, Vec<JsonObject>)) -> Seq<RecordRow> {
    e.1@.map_values(|o: JsonObject| (e.0, o@))
}

/// The rows of the records table: each symbol's records in order, symbols
/// in the order `order` lists them.
pub open spec fn record_rows(entries: Seq<(String, Vec<JsonObject>)>, order: Seq<usize>) -> Seq<RecordRow>
    decreases order.len(),
{
    if order.len() == 0 {
        Seq::empty()
    } else {
        record_rows(entries, order.drop_last()) + entry_rows(entries[order.last() as int])
    }
}

/// The records table of `rows`: a `symbol` column, then one column per
/// field name in order of first appearance.
pub open spec fn records_table(rows: Seq<RecordRow>) -> Seq<(Seq<char>, CellsView)> {
    seq![("symbol"@, CellsView::Text(rows.map_values(|r: RecordRow| Some(r.0@))))] + dedup(all_names(rows)).map_values(
        |c: Seq<char>| (c, json_cells(rows.map_values(|r: RecordRow| field_value(r.1, c)))),
    )
}

/// Converts a `symbol -> records` map (given as its entries; keys distinct)
/// into a long-format table: symbols in ascending order, each symbol's
/// records in order, one row per record; a `symbol` column, then one column
/// per field, typed by its first non-null value. Refused when some record
/// has a field called `symbol`, whose column would clash with the symbol
/// column.
pub fn records_to_dataframe(entries: &Vec<(String, Vec<JsonObject>)>) -> (r: Result<Frame, Error>)
    requires
        keys_distinct(entries@),
    ensures
        exists|order: Seq<usize>| {
            &&& is_key_order(entries@, order)
            &&& (r is Ok <==> !dedup(all_names(record_rows(entries@, order))).contains("symbol"@))
            &&& (r matches Ok(f) ==> f@ == records_table(record_rows(entries@, order)))
        },
        r matches Err(e) ==> e is DataFrame,
{
    let order = key_order(entries);
    let mut rows: Vec<(&String, &JsonObject)> = Vec::new();
    let mut k: usize = 0;
    proof {
        assert(order@.take(0) =~= Seq::<usize>::empty());
        assert(row_views(rows@) =~= Seq::<RecordRow>::empty());
    }
    while k < order.len()
        invariant
            is_key_order(entries@, order@),
            k <= order@.len(),
            row_views(rows@) == record_rows(entries@, order@.take(k as int)),
        decreases order.len() - k,
    {
        let o = order[k];
        let symbol = &entries[o].0;
        let records = &entries[o].1;
        let ghost base = row_views(rows@);
        let ghost erows = entry_rows(entries@[o as int]);
        let mut j: usize = 0;
        proof {
            assert(erows.take(0) =~= Seq::<RecordRow>::empty());
            assert(base + erows.take(0) =~= base);
        }
        while j < records.len()
            invariant
                o < entries@.len(),
                symbol == &entries@[o as int].0,
                records == &entries@[o as int].1,
                erows == entry_rows(entries@[o as int]),
                j <= records@.len(),
                row_views(rows@) == base + erows.take(j as int),
            decreases records.len() - j,
        {
            let ghost old_rows = rows@;
            rows.push((symbol, &records[j]));
            proof {
                assert(row_views(rows@) =~= row_views(old_rows).push((*symbol, records@[j as int]@)));
                assert(erows.take(j + 1) =~= erows.take(j as int).push(erows[j as int]));
            }
            j = j + 1;
        }
        proof {
            assert(erows.take(records@.len() as int) =~= erows);
            let t = order@.take(k + 1);
            assert(t.drop_last() =~= order@.take(k as int));
            assert(t.last() == o);
        }
        k = k + 1;
    }
    proof {
        assert(order@.take(order@.len() as int) =~= order@);
    }
    let ghost rv = row_views(rows@);
    let cols = assemble_columns(&rows);
    let mut symbols: Vec<Option<String>> = Vec::new();
    let mut i: usize = 0;
    while i < rows.len()
        invariant
            rv == row_views(rows@),
            i <= rows@.len(),
            opt_views(symbols@) == rv.take(i as int).map_values(|r: RecordRow| Some(r.0@)),
        decreases rows.len() - i,
    {
        let ghost old_symbols = symbols@;
        symbols.push(Some(rows[i].0.clone()));
        proof {
            assert(opt_views(symbols@) =~= opt_views(old_symbols).push(Some(rv[i as int].0@)));
            assert(rv.take(i + 1).map_values(|r: RecordRow| Some(r.0@)) =~= rv.take(i as int).map_values(
                |r: RecordRow| Some(r.0@),
            ).push(Some(rv[i as int].0@)));
        }
        i = i + 1;
    }
    proof {
        assert(rv.take(rv.len() as int) =~= rv);
    }
    let mut columns: Vec<FrameColumn> = Vec::new();
    columns.push(named("symbol", Cells::Text(symbols)));
    let ghost names = dedup(all_names(rv));
    let ghost tail = names.map_values(
        |c: Seq<char>| (c, json_cells(rv.map_values(|r: RecordRow| field_value(r.1, c)))),
    );
    let mut c: usize = 0;
    while c < cols.len()
        invariant
            rv == row_views(rows@),
            col_names(cols@) == names,
            names == dedup(all_names(rv)),
            tail == names.map_values(
                |c: Seq<char>| (c, json_cells(rv.map_values(|r: RecordRow| field_value(r.1, c)))),
            ),
            cols@.len() == names.len(),
            forall|q: int| 0 <= q < cols@.len() ==> (#[trigger] cols@[q]).1@ == Seq::new(
                rows@.len() as nat,
                |t: int| field_value(rv[t].1, cols@[q].0@),
            ),
            c <= cols@.len(),
            columns_view(columns@) == seq![("symbol"@, CellsView::Text(rv.map_values(|r: RecordRow| Some(r.0@))))] + tail.take(c as int),
        decreases cols.len() - c,
    {
        let col = json_column(cols[c].0.as_str(), cols[c].1.as_slice());
        let ghost old_columns = columns@;
        columns.push(col);
        proof {
            let nmc = cols@[c as int].0@;
            assert(names[c as int] == nmc);
            assert(cols@[c as int].1@ =~= rv.map_values(|r: RecordRow| field_value(r.1, nmc)));
            assert(tail[c as int] == (nmc, json_cells(rv.map_values(|r: RecordRow| field_value(r.1, nmc)))));
            assert(columns_view(columns@) =~= columns_view(old_columns).push(col@));
            assert(tail.take(c + 1) =~= tail.take(c as int).push(tail[c as int]));
        }
        c = c + 1;
    }
    proof {
        assert(tail.take(cols@.len() as int) =~= tail);
        let expected = records_table(rv);
        assert(columns_view(columns@) =~= expected);
        lemma_dedup(all_names(rv));
        let h = rv.len();
        assert forall|q: int| 0 <= q < expected.len() implies cells_len(#[trigger] expected[q].1) == h by {
            if q > 0 {
                let nmc = names[q - 1];
                assert(expected[q] == tail[q - 1]);
                assert(rv.map_values(|r: RecordRow| field_value(r.1, nmc)).len() == h);
            }
        }
        if !names.contains("symbol"@) {
            assert forall|a: int, b: int| 0 <= a < b < expected.len() implies expected[a].0 != expected[b].0 by {
                assert(expected[b] == tail[b - 1]);
                if a == 0 {
                    assert(expected[b].0 == names[b - 1]);
                } else {
                    assert(expected[a] == tail[a - 1]);
                }
            }
            assert(table_shape(expected));
        } else {
            let q = choose|q: int| 0 <= q < names.len() && names[q] == "symbol"@;
            assert(expected[q + 1] == tail[q]);
            assert(expected[q + 1].0 == expected[0].0);
            assert(!table_shape(expected));
        }
    }
    Frame::new(columns)
}

} // verus!
