//! Splitting identifier lists into request-sized chunks, and merging the
//! keyed answers of several requests. Keyed answers are association lists
//! `(key, value)`; a later entry for a key replaces an earlier one, as a
//! later `insert` does in a map.
use vstd::prelude::*;
use vstd::string::*;

use crate::text::{join_with, seq_join, string_views};

verus! {

/// `s` cut into consecutive pieces of `size` elements; the last piece may be
/// shorter, and no piece is empty (what `[T]::chunks(size)` yields).
pub open spec fn chunked<T>(s: Seq<T>, size: nat) -> Seq<Seq<T>>
    decreases s.len(),
{
    if s.len() == 0 || size == 0 {
        Seq::empty()
    } else if s.len() <= size {
        seq![s]
    } else {
        seq![s.take(size as int)] + chunked(s.skip(size as int), size)
    }
}

/// The element views of a list of string lists.
pub open spec fn nested_views(v: Seq<Vec<String>>) -> Seq<Seq<String>> {
    v.map_values(|c: Vec<String>| c@)
}

/// A copy of `items[lo..hi]`.
pub fn copy_range(items: &[String], lo: usize, hi: usize) -> (r: Vec<String>)
    requires
        lo <= hi <= items@.len(),
    ensures
        r@ == items@.subrange(lo as int, hi as int),
{
    let mut out: Vec<String> = Vec::new();
    let mut i = lo;
    while i < hi
        invariant
            lo <= i <= hi <= items@.len(),
            out@ == items@.subrange(lo as int, i as int),
        decreases hi - i,
    {
        out.push(items[i].clone());
        proof {
            assert(items@.subrange(lo as int, i + 1) =~= items@.subrange(lo as int, i as int).push(
                items@[i as int],
            ));
        }
        i = i + 1;
    }
    out
}

/// Splits `items` into chunks of at most `size` elements, in order.
pub fn chunk_strings(items: &[String], size: usize) -> (r: Vec<Vec<String>>)
    requires
        size > 0,
    ensures
        nested_views(r@) == chunked(items@, size as nat),
{
    let n = items.len();
    let mut out: Vec<Vec<String>> = Vec::new();
    let mut i: usize = 0;
    proof {
        assert(items@.skip(0) =~= items@);
        assert(nested_views(out@) + chunked(items@, size as nat) =~= chunked(items@, size as nat));
    }
    while i < n
        invariant
            n == items@.len(),
            size > 0,
            i <= n,
            chunked(items@, size as nat) == nested_views(out@) + chunked(
                items@.skip(i as int),
                size as nat,
            ),
        decreases n - i,
    {
        let ghost rest = items@.skip(i as int);
        let hi = if n - i <= size {
            n
        } else {
            i + size
        };
        let chunk = copy_range(items, i, hi);
        proof {
            let tail = items@.skip(hi as int);
            if n - i <= size {
                assert(rest =~= items@.subrange(i as int, n as int));
                assert(chunked(rest, size as nat) == seq![rest]);
                assert(tail.len() == 0);
                assert(chunked(tail, size as nat) =~= Seq::<Seq<String>>::empty());
            } else {
                assert(rest.take(size as int) =~= items@.subrange(i as int, hi as int));
                assert(rest.skip(size as int) =~= tail);
            }
            assert(nested_views(out@.push(chunk)) =~= nested_views(out@).push(chunk@));
        }
        out.push(chunk);
        proof {
            assert(nested_views(out@) + chunked(items@.skip(hi as int), size as nat) =~=
                nested_views(out@.drop_last()) + (seq![chunk@] + chunked(items@.skip(hi as int), size as nat)));
        }
        i = hi;
    }
    proof {
        assert(items@.skip(n as int).len() == 0);
        assert(nested_views(out@) + chunked(items@.skip(n as int), size as nat) =~= nested_views(out@));
    }
    out
}

/// The chunks of `s`, each joined with commas.
pub open spec fn csv_chunked(s: Seq<String>, size: nat) -> Seq<Seq<char>> {
    chunked(s, size).map_values(|c: Seq<String>| seq_join(string_views(c), ","@))
}

/// Splits `items` into chunks of at most `size` elements and joins each
/// chunk with commas, the form the batch endpoints take in a query string.
pub fn csv_chunks(items: &[String], size: usize) -> (r: Vec<String>)
    requires
        size > 0,
    ensures
        r@.map_values(|s: String| s@) == csv_chunked(items@, size as nat),
{
    let chunks = chunk_strings(items, size);
    let mut out: Vec<String> = Vec::new();
    let mut i: usize = 0;
    let ghost target = csv_chunked(items@, size as nat);
    while i < chunks.len()
        invariant
            i <= chunks@.len(),
            nested_views(chunks@) == chunked(items@, size as nat),
            target == csv_chunked(items@, size as nat),
            out@.map_values(|s: String| s@) == target.subrange(0, i as int),
        decreases chunks.len() - i,
    {
        let joined = join_with(chunks[i].as_slice(), ",");
        proof {
            assert(nested_views(chunks@)[i as int] == chunks@[i as int]@);
            assert(target[i as int] == seq_join(string_views(chunks@[i as int]@), ","@));
        }
        let ghost old_out = out@;
        out.push(joined);
        proof {
            assert(out@ == old_out.push(joined));
            assert(out@.map_values(|s: String| s@) =~= old_out.map_values(|s: String| s@).push(joined@));
            assert(target.subrange(0, i + 1) =~= target.subrange(0, i as int).push(target[i as int]));
        }
        i = i + 1;
    }
    proof {
        assert(target.subrange(0, chunks@.len() as int) =~= target);
    }
    out
}

/// The keys of an association list.
pub open spec fn entry_keys<V>(s: Seq<(String, V)>) -> Seq<Seq<char>> {
    s.map_values(|e: (String, V)| e.0@)
}

/// No key occurs twice.
pub open spec fn keys_distinct<V>(s: Seq<(String, V)>) -> bool {
    forall|i: int, j: int| 0 <= i < j < s.len() ==> s[i].0@ != s[j].0@
}

/// The map that an association list denotes: for each key, the value of its
/// last entry.
pub open spec fn assoc_map<V>(s: Seq<(String, V)>) -> Map<Seq<char>, V>
    decreases s.len(),
{
    if s.len() == 0 {
        Map::empty()
    } else {
        let rest = assoc_map(s.drop_first());
        if rest.contains_key(s[0].0@) {
            rest
        } else {
            rest.insert(s[0].0@, s[0].1)
        }
    }
}

/// The keys of an association list are the keys of the map it denotes.
pub proof fn lemma_assoc_map_dom<V>(s: Seq<(String, V)>, k: Seq<char>)
    ensures
        assoc_map(s).contains_key(k) <==> exists|i: int| 0 <= i < s.len() && s[i].0@ == k,
    decreases s.len(),
{
    if s.len() > 0 {
        lemma_assoc_map_dom(s.drop_first(), k);
        if assoc_map(s).contains_key(k) && s[0].0@ != k {
            let i = choose|i: int| 0 <= i < s.len() - 1 && s.drop_first()[i].0@ == k;
            assert(s[i + 1].0@ == k);
        }
        if exists|i: int| 0 <= i < s.len() && s[i].0@ == k {
            let i = choose|i: int| 0 <= i < s.len() && s[i].0@ == k;
            if i > 0 {
                assert(s.drop_first()[i - 1].0@ == k);
            }
        }
    }
}

/// Appending an entry to an association list binds its key to its value,
/// whatever came before.
pub proof fn lemma_assoc_map_push<V>(s: Seq<(String, V)>, e: (String, V))
    ensures
        assoc_map(s.push(e)) == assoc_map(s).insert(e.0@, e.1),
    decreases s.len(),
{
    if s.len() == 0 {
        assert(s.push(e).drop_first() =~= Seq::<(String, V)>::empty());
        assert(assoc_map(Seq::<(String, V)>::empty()) == Map::<Seq<char>, V>::empty());
        assert(assoc_map(s.push(e)) =~= Map::<Seq<char>, V>::empty().insert(e.0@, e.1));
    } else {
        let t = s.drop_first();
        assert(s.push(e).drop_first() =~= t.push(e));
        assert(s.push(e)[0] == s[0]);
        lemma_assoc_map_push(t, e);
        let x = s[0];
        if x.0@ == e.0@ {
            assert(assoc_map(s.push(e)) =~= assoc_map(s).insert(e.0@, e.1));
        } else {
            assert(assoc_map(s.push(e)) =~= assoc_map(s).insert(e.0@, e.1));
        }
    }
}

/// The last entry with a given key carries the value that the list denotes.
pub proof fn lemma_assoc_map_last<V>(s: Seq<(String, V)>, i: int)
    requires
        0 <= i < s.len(),
        forall|j: int| i < j < s.len() ==> s[j].0@ != s[i].0@,
    ensures
        assoc_map(s).contains_key(s[i].0@),
        assoc_map(s)[s[i].0@] == s[i].1,
    decreases s.len(),
{
    let t = s.drop_first();
    if i == 0 {
        lemma_assoc_map_dom(t, s[0].0@);
        assert forall|j: int| 0 <= j < t.len() implies t[j].0@ != s[0].0@ by {
            assert(t[j] == s[j + 1]);
        }
    } else {
        assert forall|j: int| i - 1 < j < t.len() implies #[trigger] t[j].0@ != t[i - 1].0@ by {
            assert(t[j] == s[j + 1]);
        }
        lemma_assoc_map_last(t, i - 1);
        assert(t[i - 1] == s[i]);
    }
}

/// Whether some entry of `entries` has key `key`.
pub fn has_key<V>(entries: &Vec<(String, V)>, key: &String) -> (r: bool)
    ensures
        r == exists|i: int| 0 <= i < entries@.len() && entries@[i].0@ == key@,
{
    let mut i: usize = 0;
    while i < entries.len()
        invariant
            i <= entries@.len(),
            forall|j: int| 0 <= j < i ==> entries@[j].0@ != key@,
        decreases entries.len() - i,
    {
        if entries[i].0 == *key {
            return true;
        }
        i = i + 1;
    }
    false
}

/// Merges the keyed answers of several requests into one list without
/// repeated keys; where a key occurs more than once, the last occurrence
/// wins, as when the maps are extended one after the other.
pub fn merge_maps<V>(maps: Vec<Vec<(String, V)>>) -> (r: Vec<(String, V)>)
    ensures
        keys_distinct(r@),
        assoc_map(r@) == assoc_map(maps@.map_values(|m: Vec<(String, V)>| m@).flatten()),
{
    let ghost whole = maps@.map_values(|m: Vec<(String, V)>| m@).flatten();
    let mut maps = maps;
    let mut out: Vec<(String, V)> = Vec::new();
    let ghost mut done: Seq<(String, V)> = Seq::empty();
    while maps.len() > 0
        invariant
            keys_distinct(out@),
            assoc_map(out@) == assoc_map(done),
            whole == maps@.map_values(|m: Vec<(String, V)>| m@).flatten() + done,
        decreases maps.len(),
    {
        let ghost before = maps@;
        let mut m = maps.pop().unwrap();
        let ghost prev_done = done;
        proof {
            let views = before.map_values(|m: Vec<(String, V)>| m@);
            views.lemma_flatten_and_flatten_alt_are_equivalent();
            maps@.map_values(|m: Vec<(String, V)>| m@).lemma_flatten_and_flatten_alt_are_equivalent();
            assert(views.drop_last() =~= maps@.map_values(|m: Vec<(String, V)>| m@));
            assert(whole =~= maps@.map_values(|m: Vec<(String, V)>| m@).flatten() + (m@ + done));
            done = m@ + done;
            assert(done.skip(m@.len() as int) =~= prev_done);
        }
        let ghost rest_done = done;
        while m.len() > 0
            invariant
                keys_distinct(out@),
                rest_done == m@ + done.skip(m@.len() as int),
                m@.len() <= done.len(),
                done == rest_done,
                assoc_map(out@) == assoc_map(done.skip(m@.len() as int)),
            decreases m.len(),
        {
            let ghost k = m@.len() as int;
            let e = m.pop().unwrap();
            proof {
                assert(done.skip(k - 1).drop_first() =~= done.skip(k));
                assert(done.skip(k - 1)[0] == e);
                lemma_assoc_map_dom(out@, e.0@);
                lemma_assoc_map_dom(done.skip(k), e.0@);
            }
            if !has_key(&out, &e.0) {
                proof {
                    lemma_assoc_map_push(out@, e);
                }
                out.push(e);
            }
        }
        proof {
            assert(done.skip(0) =~= done);
        }
    }
    proof {
        assert(maps@.map_values(|m: Vec<(String, V)>| m@).len() == 0);
        assert(maps@.map_values(|m: Vec<(String, V)>| m@).flatten() =~= Seq::<(String, V)>::empty());
        assert(whole =~= done);
    }
    out
}

} // verus!
