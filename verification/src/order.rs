//! Ordering keyed entries by their keys, in code-point order.
use vstd::prelude::*;

use crate::text::{seq_lt, str_lt};

verus! {

/// No string sorts before itself.
pub proof fn lemma_seq_lt_irreflexive(a: Seq<char>)
    ensures
        !seq_lt(a, a),
    decreases a.len(),
{
    if a.len() > 0 {
        lemma_seq_lt_irreflexive(a.drop_first());
    }
}

/// Code-point order is transitive.
pub proof fn lemma_seq_lt_transitive(a: Seq<char>, b: Seq<char>, c: Seq<char>)
    requires
        seq_lt(a, b),
        seq_lt(b, c),
    ensures
        seq_lt(a, c),
    decreases a.len(),
{
    if a.len() > 0 && b.len() > 0 && c.len() > 0 {
        if a[0] == b[0] && b[0] == c[0] {
            lemma_seq_lt_transitive(a.drop_first(), b.drop_first(), c.drop_first());
        }
    }
}

/// Of two different strings, one sorts before the other.
pub proof fn lemma_seq_lt_total(a: Seq<char>, b: Seq<char>)
    requires
        a != b,
    ensures
        seq_lt(a, b) || seq_lt(b, a),
    decreases a.len(),
{
    if a.len() > 0 && b.len() > 0 {
        if a[0] == b[0] {
            if a.drop_first() == b.drop_first() {
                assert(a =~= seq![a[0]] + a.drop_first());
                assert(b =~= seq![b[0]] + b.drop_first());
            }
            lemma_seq_lt_total(a.drop_first(), b.drop_first());
        } else {
        }
    } else if a.len() == 0 && b.len() == 0 {
        assert(a =~= b);
    }
}

/// No two strings sort before each other.
pub proof fn lemma_seq_lt_asymmetric(a: Seq<char>, b: Seq<char>)
    requires
        seq_lt(a, b),
    ensures
        !seq_lt(b, a),
{
    if seq_lt(b, a) {
        lemma_seq_lt_transitive(a, b, a);
        lemma_seq_lt_irreflexive(a);
    }
}

/// The key of entry `i`.
pub open spec fn key_at<V>(entries: Seq<(String, V)>, i: int) -> Seq<char> {
    entries[i].0@
}

/// Some position of `order` holds `j`.
pub open spec fn lists(order: Seq<usize>, j: int) -> bool {
    exists|i: int| 0 <= i < order.len() && order[i] == j
}

/// `order` lists every index of `entries` once, by strictly ascending key.
pub open spec fn is_key_order<V>(entries: Seq<(String, V)>, order: Seq<usize>) -> bool {
    &&& order.len() == entries.len()
    &&& forall|i: int| 0 <= i < order.len() ==> #[trigger] order[i] < entries.len()
    &&& forall|j: int| 0 <= j < entries.len() ==> #[trigger] lists(order, j)
    &&& forall|i: int, j: int|
        0 <= i < j < order.len() ==> seq_lt(#[trigger] key_at(entries, order[i] as int), #[trigger] key_at(entries, order[j] as int))
}

/// The indices of `entries` by ascending key; keys must be distinct, as
/// the keys of a map are.
pub fn key_order<V>(entries: &Vec<(String, V)>) -> (r: Vec<usize>)
    requires
        crate::batch::keys_distinct(entries@),
    ensures
        is_key_order(entries@, r@),
{
    let n = entries.len();
    let mut order: Vec<usize> = Vec::new();
    let mut k: usize = 0;
    while k < n
        invariant
            n == entries@.len(),
            k <= n,
            crate::batch::keys_distinct(entries@),
            order@.len() == k,
            forall|i: int| 0 <= i < order@.len() ==> #[trigger] order@[i] < k,
            forall|j: int| 0 <= j < k ==> #[trigger] lists(order@, j),
            forall|i: int, j: int|
                0 <= i < j < order@.len() ==> seq_lt(#[trigger] key_at(entries@, order@[i] as int), #[trigger] key_at(entries@, order@[j] as int)),
        decreases n - k,
    {
        let mut p: usize = 0;
        while p < order.len() && !str_lt(entries[k].0.as_str(), entries[order[p]].0.as_str())
            invariant
                n == entries@.len(),
                k < n,
                p <= order@.len(),
                order@.len() == k,
                forall|i: int| 0 <= i < order@.len() ==> #[trigger] order@[i] < k,
                forall|q: int| 0 <= q < p ==> !seq_lt(key_at(entries@, k as int), #[trigger] key_at(entries@, order@[q] as int)),
            decreases order@.len() - p,
        {
            p = p + 1;
        }
        let ghost old_order = order@;
        let ghost kk = key_at(entries@, k as int);
        order.insert(p, k);
        proof {
            assert(order@ == old_order.insert(p as int, k));
            assert forall|q: int| 0 <= q < p implies seq_lt(#[trigger] key_at(entries@, old_order[q] as int), kk) by {
                let o = old_order[q] as int;
                assert(o < k);
                assert(entries@[o].0@ != entries@[k as int].0@);
                lemma_seq_lt_total(kk, key_at(entries@, o));
            }
            if p < old_order.len() {
                assert forall|q: int| p <= q < old_order.len() implies seq_lt(kk, #[trigger] key_at(entries@, old_order[q] as int)) by {
                    if q > p {
                        lemma_seq_lt_transitive(kk, key_at(entries@, old_order[p as int] as int), key_at(entries@, old_order[q] as int));
                    }
                }
            }
            assert forall|i: int, j: int|
                0 <= i < j < order@.len() implies seq_lt(#[trigger] key_at(entries@, order@[i] as int), #[trigger] key_at(entries@, order@[j] as int)) by {
                if i < p && j < p {
                    assert(order@[i] == old_order[i] && order@[j] == old_order[j]);
                } else if i < p && j == p {
                } else if i < p {
                    assert(order@[j] == old_order[j - 1]);
                    assert(order@[i] == old_order[i]);
                } else if i == p {
                    assert(order@[j] == old_order[j - 1]);
                } else {
                    assert(order@[i] == old_order[i - 1] && order@[j] == old_order[j - 1]);
                }
            }
            assert forall|j: int| 0 <= j < k + 1 implies #[trigger] lists(order@, j) by {
                if j == k {
                    assert(order@[p as int] == k);
                } else {
                    assert(lists(old_order, j));
                    let i = choose|i: int| 0 <= i < old_order.len() && old_order[i] == j;
                    if i < p {
                        assert(order@[i] == j);
                    } else {
                        assert(order@[i + 1] == j);
                    }
                }
            }
            assert forall|i: int| 0 <= i < order@.len() implies #[trigger] order@[i] < k + 1 by {
                if i < p {
                    assert(order@[i] == old_order[i]);
                } else if i > p {
                    assert(order@[i] == old_order[i - 1]);
                }
            }
        }
        k = k + 1;
    }
    order
}

} // verus!
