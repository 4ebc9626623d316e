//! The symbol-to-name store behind the instrument-name cache: which symbols
//! still need a lookup, what a lookup adds, and what the store answers for a
//! list of symbols.
use vstd::prelude::*;
use vstd::string::*;

use crate::batch::{assoc_map, lemma_assoc_map_dom, lemma_assoc_map_last, lemma_assoc_map_push};
use crate::text::opt_view;

verus! {

/// The name an association list gives `symbol`: the value of its last entry
/// for that key.
pub open spec fn name_lookup(names: Seq<(String, String)>, symbol: Seq<char>) -> Option<Seq<char>> {
    if assoc_map(names).contains_key(symbol) {
        Some(assoc_map(names)[symbol]@)
    } else {
        None
    }
}

/// Picks the name for `symbol` from `names`, if present.
pub fn pick_name<'a>(symbol: &str, names: &'a Vec<(String, String)>) -> (r: Option<&'a str>)
    ensures
        match r {
            Some(n) => name_lookup(names@, symbol@) == Some(n@),
            None => name_lookup(names@, symbol@) is None,
        },
{
    let key = symbol.to_owned();
    let mut i: usize = names.len();
    while i > 0
        invariant
            key@ == symbol@,
            i <= names@.len(),
            forall|j: int| i <= j < names@.len() ==> names@[j].0@ != symbol@,
        decreases i,
    {
        i = i - 1;
        if names[i].0 == key {
            proof {
                lemma_assoc_map_last(names@, i as int);
            }
            return Some(names[i].1.as_str());
        }
    }
    proof {
        lemma_assoc_map_dom(names@, symbol@);
    }
    None
}

/// The names an association list of `(symbol, name)` pairs holds, by
/// symbol; a later pair for a symbol replaces an earlier one.
pub open spec fn names_map(names: Seq<(String, String)>) -> Map<Seq<char>, Seq<char>> {
    assoc_map(names).map_values(|v: String| v@)
}

/// What an association list of lookups records, by symbol: the name found,
/// or `None` for a symbol looked up without a name; a later entry for a
/// symbol replaces an earlier one.
pub open spec fn lookups_map(entries: Seq<(String, Option<String>)>) -> Map<Seq<char>, Option<Seq<char>>> {
    assoc_map(entries).map_values(|v: Option<String>| opt_view(v))
}

/// Appending a lookup records its outcome for its symbol.
proof fn lemma_lookups_map_push(s: Seq<(String, Option<String>)>, e: (String, Option<String>))
    ensures
        lookups_map(s.push(e)) == lookups_map(s).insert(e.0@, opt_view(e.1)),
{
    lemma_assoc_map_push(s, e);
    assert(lookups_map(s.push(e)) =~= lookups_map(s).insert(e.0@, opt_view(e.1)));
}

/// Fetched names as lookup outcomes.
pub open spec fn found(fresh: Map<Seq<char>, Seq<char>>) -> Map<Seq<char>, Option<Seq<char>>> {
    fresh.map_values(|n: Seq<char>| Some(n))
}

/// `store` with each symbol of `asked` that it has no entry for recorded as
/// looked up without a name.
pub open spec fn mark_asked(store: Map<Seq<char>, Option<Seq<char>>>, asked: Seq<String>) -> Map<Seq<char>, Option<Seq<char>>>
    decreases asked.len(),
{
    if asked.len() == 0 {
        store
    } else {
        let m = mark_asked(store, asked.drop_last());
        let k = asked.last()@;
        if m.contains_key(k) {
            m
        } else {
            m.insert(k, None)
        }
    }
}

/// After marking, a symbol has an entry exactly when it had one or was
/// asked for; entries it had are kept.
pub proof fn lemma_mark_asked(store: Map<Seq<char>, Option<Seq<char>>>, asked: Seq<String>, k: Seq<char>)
    ensures
        mark_asked(store, asked).contains_key(k) <==> (store.contains_key(k) || exists|i: int|
            0 <= i < asked.len() && asked[i]@ == k),
        store.contains_key(k) ==> mark_asked(store, asked)[k] == store[k],
    decreases asked.len(),
{
    if asked.len() > 0 {
        let rest = asked.drop_last();
        lemma_mark_asked(store, rest, k);
        if exists|i: int| 0 <= i < asked.len() && asked[i]@ == k {
            let i = choose|i: int| 0 <= i < asked.len() && asked[i]@ == k;
            if i < rest.len() {
                assert(rest[i] == asked[i]);
            }
        }
        if exists|i: int| 0 <= i < rest.len() && rest[i]@ == k {
            let i = choose|i: int| 0 <= i < rest.len() && rest[i]@ == k;
            assert(asked[i] == rest[i]);
        }
    }
}

/// Symbol-to-name store: for each symbol looked up so far, the name found,
/// or the fact that none was found.
#[derive(Debug)]
pub struct NameStore {
    entries: Vec<(String, Option<String>)>,
}

impl View for NameStore {
    type V = Map<Seq<char>, Option<Seq<char>>>;

    closed spec fn view(&self) -> Map<Seq<char>, Option<Seq<char>>> {
        lookups_map(self.entries@)
    }
}

/// The symbols of `symbols` that `store` has no entry for, in order: the
/// ones a lookup still has to fetch.
pub open spec fn missing_symbols(store: Map<Seq<char>, Option<Seq<char>>>, symbols: Seq<String>) -> Seq<String> {
    symbols.filter(|s: String| !store.contains_key(s@))
}

/// The `(symbol, name)` pairs that `store` answers for `symbols`, in order:
/// one per symbol that has a name.
pub open spec fn cached_pairs(store: Map<Seq<char>, Option<Seq<char>>>, symbols: Seq<String>) -> Seq<(Seq<char>, Seq<char>)>
    decreases symbols.len(),
{
    if symbols.len() == 0 {
        Seq::empty()
    } else {
        let rest = cached_pairs(store, symbols.drop_last());
        let s = symbols.last()@;
        if store.contains_key(s) && store[s] is Some {
            rest.push((s, store[s]->0))
        } else {
            rest
        }
    }
}

/// The plain view of a list of `(symbol, name)` pairs.
pub open spec fn pair_views(s: Seq<(String, String)>) -> Seq<(Seq<char>, Seq<char>)> {
    s.map_values(|p: (String, String)| (p.0@, p.1@))
}

impl NameStore {
    /// An empty store.
    pub fn new() -> (r: Self)
        ensures
            r@ == Map::<Seq<char>, Option<Seq<char>>>::empty(),
    {
        let r = NameStore { entries: Vec::new() };
        assert(lookups_map(r.entries@) =~= Map::<Seq<char>, Option<Seq<char>>>::empty());
        r
    }

    /// Whether `symbol` has been looked up (with or without a name found).
    pub fn contains(&self, symbol: &String) -> (r: bool)
        ensures
            r == self@.contains_key(symbol@),
    {
        proof {
            lemma_assoc_map_dom(self.entries@, symbol@);
        }
        crate::batch::has_key(&self.entries, symbol)
    }

    /// The name stored for `symbol`, if a lookup found one.
    pub fn get(&self, symbol: &String) -> (r: Option<&str>)
        ensures
            match r {
                Some(n) => self@.contains_key(symbol@) && self@[symbol@] == Some(n@),
                None => !self@.contains_key(symbol@) || self@[symbol@] is None,
            },
    {
        let mut i: usize = self.entries.len();
        while i > 0
            invariant
                i <= self.entries@.len(),
                forall|j: int| i <= j < self.entries@.len() ==> self.entries@[j].0@ != symbol@,
            decreases i,
        {
            i = i - 1;
            if self.entries[i].0 == *symbol {
                proof {
                    lemma_assoc_map_last(self.entries@, i as int);
                }
                return match &self.entries[i].1 {
                    Some(n) => Some(n.as_str()),
                    None => None,
                };
            }
        }
        proof {
            lemma_assoc_map_dom(self.entries@, symbol@);
        }
        None
    }

    /// The symbols of `symbols` that have not been looked up, in order
    /// (repeats kept): the ones a lookup has to fetch.
    pub fn missing(&self, symbols: &[String]) -> (r: Vec<String>)
        ensures
            r@ == missing_symbols(self@, symbols@),
    {
        let mut out: Vec<String> = Vec::new();
        let mut i: usize = 0;
        while i < symbols.len()
            invariant
                i <= symbols@.len(),
                out@ == missing_symbols(self@, symbols@.subrange(0, i as int)),
            decreases symbols.len() - i,
        {
            let ghost pre = symbols@.subrange(0, i + 1);
            proof {
                assert(pre.drop_last() =~= symbols@.subrange(0, i as int));
                reveal_with_fuel(Seq::filter, 1);
            }
            if !self.contains(&symbols[i]) {
                out.push(symbols[i].clone());
            }
            i = i + 1;
        }
        proof {
            assert(symbols@.subrange(0, symbols@.len() as int) =~= symbols@);
        }
        out
    }

    /// Records `name` for `symbol`, replacing any earlier outcome.
    pub fn insert(&mut self, symbol: String, name: String)
        ensures
            final(self)@ == old(self)@.insert(symbol@, Some(name@)),
    {
        let ghost before = self.entries@;
        let ghost e = (symbol, Some(name));
        self.entries.push((symbol, Some(name)));
        proof {
            assert(self.entries@ == before.push(e));
            lemma_lookups_map_push(before, e);
        }
    }

    /// Adds the `(symbol, name)` pairs of a lookup, in order; a later pair
    /// for a symbol replaces an earlier one.
    pub fn extend(&mut self, fresh: Vec<(String, String)>)
        ensures
            final(self)@ == old(self)@.union_prefer_right(found(names_map(fresh@))),
    {
        let ghost start = self@;
        let mut i: usize = 0;
        proof {
            assert(found(names_map(fresh@.subrange(0, 0))) =~= Map::<Seq<char>, Option<Seq<char>>>::empty());
            assert(start.union_prefer_right(Map::<Seq<char>, Option<Seq<char>>>::empty()) =~= start);
        }
        while i < fresh.len()
            invariant
                i <= fresh@.len(),
                self@ == start.union_prefer_right(found(names_map(fresh@.subrange(0, i as int)))),
            decreases fresh.len() - i,
        {
            let symbol = fresh[i].0.clone();
            let name = fresh[i].1.clone();
            self.insert(symbol, name);
            proof {
                let pre = fresh@.subrange(0, i as int);
                let e = fresh@[i as int];
                assert(fresh@.subrange(0, i + 1) =~= pre.push(e));
                lemma_assoc_map_push(pre, e);
                assert(names_map(pre.push(e)) =~= names_map(pre).insert(e.0@, e.1@));
                assert(start.union_prefer_right(found(names_map(pre.push(e)))) =~= start.union_prefer_right(
                    found(names_map(pre)),
                ).insert(e.0@, Some(e.1@)));
            }
            i = i + 1;
        }
        proof {
            assert(fresh@.subrange(0, fresh@.len() as int) =~= fresh@);
        }
    }

    /// Records the outcome of a lookup of `asked`: the names found in
    /// `fresh`, and, for each asked symbol without an entry, that it was
    /// looked up. Afterwards no symbol of `asked` is missing, so repeating
    /// the lookup fetches nothing.
    pub fn record_lookup(&mut self, asked: &[String], fresh: Vec<(String, String)>)
        ensures
            final(self)@ == mark_asked(old(self)@, asked@).union_prefer_right(found(names_map(fresh@))),
            missing_symbols(final(self)@, asked@).len() == 0,
    {
        let ghost start = self@;
        let mut i: usize = 0;
        proof {
            assert(asked@.subrange(0, 0) =~= Seq::<String>::empty());
        }
        while i < asked.len()
            invariant
                i <= asked@.len(),
                self@ == mark_asked(start, asked@.subrange(0, i as int)),
            decreases asked.len() - i,
        {
            let ghost pre = asked@.subrange(0, i + 1);
            proof {
                assert(pre.drop_last() =~= asked@.subrange(0, i as int));
            }
            if !self.contains(&asked[i]) {
                let ghost before = self.entries@;
                let e: (String, Option<String>) = (asked[i].clone(), None);
                self.entries.push(e);
                proof {
                    lemma_lookups_map_push(before, e);
                }
            }
            i = i + 1;
        }
        proof {
            assert(asked@.subrange(0, asked@.len() as int) =~= asked@);
        }
        self.extend(fresh);
        proof {
            let after = self@;
            if missing_symbols(after, asked@).len() > 0 {
                let x = missing_symbols(after, asked@)[0];
                let pred = |t: String| !after.contains_key(t@);
                asked@.lemma_filter_pred(pred, 0);
                assert(missing_symbols(after, asked@).contains(x));
                asked@.lemma_filter_contains_rev(pred, x);
                let j = choose|j: int| 0 <= j < asked@.len() && asked@[j] == x;
                lemma_mark_asked(start, asked@, x@);
            }
        }
    }

    /// The `(symbol, name)` pairs the store holds for `symbols`, in order:
    /// one per symbol that has a name.
    pub fn resolve_cached(&self, symbols: &[String]) -> (r: Vec<(String, String)>)
        ensures
            pair_views(r@) == cached_pairs(self@, symbols@),
    {
        let mut out: Vec<(String, String)> = Vec::new();
        let mut i: usize = 0;
        while i < symbols.len()
            invariant
                i <= symbols@.len(),
                pair_views(out@) == cached_pairs(self@, symbols@.subrange(0, i as int)),
            decreases symbols.len() - i,
        {
            let ghost pre = symbols@.subrange(0, i + 1);
            proof {
                assert(pre.drop_last() =~= symbols@.subrange(0, i as int));
            }
            match self.get(&symbols[i]) {
                Some(n) => {
                    let ghost old_out = out@;
                    out.push((symbols[i].clone(), n.to_owned()));
                    proof {
                        assert(pair_views(out@) =~= pair_views(old_out).push((symbols@[i as int]@, n@)));
                    }
                },
                None => {},
            }
            i = i + 1;
        }
        proof {
            assert(symbols@.subrange(0, symbols@.len() as int) =~= symbols@);
        }
        out
    }
}

/// Keeps the instruments that have a name.
pub open spec fn named_pairs(instruments: Seq<(String, Option<String>)>) -> Seq<(Seq<char>, Seq<char>)> {
    instruments.filter(|p: (String, Option<String>)| p.1 is Some).map_values(
        |p: (String, Option<String>)| (p.0@, p.1->0@),
    )
}

/// The `(symbol, name)` pairs of the instruments that have a name, in order.
pub fn named_entries(instruments: &Vec<(String, Option<String>)>) -> (r: Vec<(String, String)>)
    ensures
        pair_views(r@) == named_pairs(instruments@),
{
    let mut out: Vec<(String, String)> = Vec::new();
    let mut i: usize = 0;
    while i < instruments.len()
        invariant
            i <= instruments@.len(),
            pair_views(out@) == named_pairs(instruments@.subrange(0, i as int)),
        decreases instruments.len() - i,
    {
        let ghost pre = instruments@.subrange(0, i + 1);
        proof {
            assert(pre.drop_last() =~= instruments@.subrange(0, i as int));
            reveal_with_fuel(Seq::filter, 1);
        }
        match &instruments[i].1 {
            Some(n) => {
                let ghost old_out = out@;
                out.push((instruments[i].0.clone(), n.clone()));
                proof {
                    assert(pair_views(out@) =~= pair_views(old_out).push((instruments@[i as int].0@, n@)));
                }
            },
            None => {},
        }
        i = i + 1;
    }
    proof {
        assert(instruments@.subrange(0, instruments@.len() as int) =~= instruments@);
    }
    out
}

} // verus!
