//! Collections keyed by text, where a later item replaces an earlier one
//! with the same key and the result is listed in key order (the behaviour
//! of collecting into an ordered map and reading its values back).
use vstd::prelude::*;
use crate::text::{text_lt, lemma_text_lt_total, lemma_text_lt_transitive, lemma_text_lt_irreflexive};
use crate::seqs::lemma_first_match_bounds;

verus! {

/// Item `i` is the last one with its key.
pub open spec fn last_of_key<V>(items: Seq<V>, i: int, key: spec_fn(V) -> Seq<char>) -> bool {
    &&& 0 <= i < items.len()
    &&& forall|j: int| i < j < items.len() ==> key(#[trigger] items[j]) != key(items[i])
}

/// The keys are strictly increasing.
pub open spec fn strictly_sorted<V>(out: Seq<V>, key: spec_fn(V) -> Seq<char>) -> bool {
    forall|a: int, b: int| 0 <= a < b < out.len() ==> text_lt(key(#[trigger] out[a]), key(#[trigger] out[b]))
}

/// `v` is an item that no later item with the same key follows.
pub open spec fn from_last_item<V>(items: Seq<V>, v: V, key: spec_fn(V) -> Seq<char>) -> bool {
    exists|i: int| #[trigger] last_of_key(items, i, key) && v == items[i]
}

/// `out` holds, in key order, for each key among `items` the last item with
/// that key, and nothing else.
pub open spec fn keyed_by_last<V>(out: Seq<V>, items: Seq<V>, key: spec_fn(V) -> Seq<char>) -> bool {
    &&& strictly_sorted(out, key)
    &&& out.map_values(key).to_set() == items.map_values(key).to_set()
    &&& forall|k: int| 0 <= k < out.len() ==> from_last_item(items, #[trigger] out[k], key)
}

/// Where an item with key `k` goes in a keyed collection: at the first
/// element whose key does not come before `k`.
pub open spec fn keyed_position<V>(out: Seq<V>, k: Seq<char>, key: spec_fn(V) -> Seq<char>) -> int {
    crate::seqs::first_match(out, |v: V| !text_lt(key(v), k))
}

/// The collection after one more item: it replaces the element with its
/// key, or is inserted where its key belongs.
pub open spec fn keyed_insert<V>(out: Seq<V>, x: V, key: spec_fn(V) -> Seq<char>) -> Seq<V> {
    let p = keyed_position(out, key(x), key);
    if p < out.len() && key(out[p]) == key(x) {
        out.update(p, x)
    } else {
        out.insert(p, x)
    }
}

/// The collection made from `items`, one after another.
pub open spec fn keyed_fold<V>(items: Seq<V>, key: spec_fn(V) -> Seq<char>) -> Seq<V>
    decreases items.len(),
{
    if items.len() == 0 {
        Seq::empty()
    } else {
        keyed_insert(keyed_fold(items.drop_last(), key), items.last(), key)
    }
}

/// `keyed_by_last` with the source of each element of `out` named.
pub open spec fn keyed_witness<V>(out: Seq<V>, items: Seq<V>, src: Seq<int>, key: spec_fn(V) -> Seq<char>) -> bool {
    &&& src.len() == out.len()
    &&& strictly_sorted(out, key)
    &&& out.map_values(key).to_set() == items.map_values(key).to_set()
    &&& forall|k: int| 0 <= k < out.len() ==> last_of_key(items, #[trigger] src[k], key) && out[k] == items[src[k]]
}

pub proof fn lemma_witness_keyed<V>(out: Seq<V>, items: Seq<V>, src: Seq<int>, key: spec_fn(V) -> Seq<char>)
    requires
        keyed_witness(out, items, src, key),
    ensures
        keyed_by_last(out, items, key),
{
    assert forall|k: int| 0 <= k < out.len() implies from_last_item(items, #[trigger] out[k], key) by {
        let i = src[k];
        assert(last_of_key(items, i, key) && out[k] == items[i]);
    }
    assert(strictly_sorted(out, key));
    assert(out.map_values(key).to_set() == items.map_values(key).to_set());
}

pub proof fn lemma_witness_empty<V>(key: spec_fn(V) -> Seq<char>)
    ensures
        keyed_witness(Seq::<V>::empty(), Seq::<V>::empty(), Seq::<int>::empty(), key),
{
    assert(Seq::<V>::empty().map_values(key).to_set() =~= Set::<Seq<char>>::empty());
}

/// One more item: it replaces the element with its key at `pos`, or, when no
/// element has its key, it is inserted at `pos`, the place its key belongs.
pub proof fn lemma_keyed_step<V>(
    out: Seq<V>,
    items: Seq<V>,
    src: Seq<int>,
    x: V,
    pos: int,
    replace: bool,
    key: spec_fn(V) -> Seq<char>,
) -> (src2: Seq<int>)
    requires
        keyed_witness(out, items, src, key),
        replace ==> 0 <= pos < out.len() && key(out[pos]) == key(x),
        !replace ==> 0 <= pos <= out.len() && (forall|j: int| 0 <= j < pos ==> text_lt(key(#[trigger] out[j]), key(x)))
            && (pos < out.len() ==> text_lt(key(x), key(out[pos]))),
    ensures
        keyed_witness(
            if replace { out.update(pos, x) } else { out.insert(pos, x) },
            items.push(x),
            src2,
            key,
        ),
{
    let n = items.len() as int;
    let items2 = items.push(x);
    let kx = key(x);
    assert(items2.map_values(key) =~= items.map_values(key).push(kx));
    if replace {
        let out2 = out.update(pos, x);
        let src2 = src.update(pos, n);
        assert(out2.map_values(key) =~= out.map_values(key));
        assert(items.map_values(key).to_set().contains(kx)) by {
            assert(out.map_values(key)[pos] == kx);
            assert(out.map_values(key).to_set().contains(kx));
        }
        assert(items2.map_values(key).to_set() =~= items.map_values(key).to_set()) by {
            items.map_values(key).lemma_push_to_set_commute(kx);
        }
        assert forall|k: int| 0 <= k < out2.len() implies last_of_key(items2, #[trigger] src2[k], key) && out2[k] == items2[src2[k]] by {
            if k != pos {
                assert(last_of_key(items, src[k], key));
                lemma_text_lt_irreflexive(key(out[k]));
                if k < pos {
                    assert(text_lt(key(out[k]), key(out[pos])));
                } else {
                    assert(text_lt(key(out[pos]), key(out[k])));
                }
                assert(key(out[k]) != kx);
            }
        }
        assert(strictly_sorted(out2, key)) by {
            assert forall|a: int, b: int| 0 <= a < b < out2.len() implies text_lt(key(#[trigger] out2[a]), key(#[trigger] out2[b])) by {
                assert(text_lt(key(out[a]), key(out[b])));
            }
        }
        src2
    } else {
        let out2 = out.insert(pos, x);
        let src2 = src.insert(pos, n);
        assert forall|k: int| 0 <= k < out.len() implies key(#[trigger] out[k]) != kx by {
            if k < pos {
                lemma_text_lt_irreflexive(kx);
            } else {
                if k > pos {
                    lemma_text_lt_transitive(kx, key(out[pos]), key(out[k]));
                }
                lemma_text_lt_irreflexive(kx);
            }
        }
        assert(out2.map_values(key).to_set() =~= out.map_values(key).to_set().insert(kx)) by {
            assert forall|y: Seq<char>| out2.map_values(key).to_set().contains(y) <==> out.map_values(key).to_set().insert(kx).contains(y) by {
                if out2.map_values(key).to_set().contains(y) {
                    let k = choose|k: int| 0 <= k < out2.len() && out2.map_values(key)[k] == y;
                    if k < pos {
                        assert(out.map_values(key)[k] == y);
                    } else if k > pos {
                        assert(out.map_values(key)[k - 1] == y);
                    }
                }
                if out.map_values(key).to_set().contains(y) {
                    let k = choose|k: int| 0 <= k < out.len() && out.map_values(key)[k] == y;
                    if k < pos {
                        assert(out2.map_values(key)[k] == y);
                    } else {
                        assert(out2.map_values(key)[k + 1] == y);
                    }
                }
                if y == kx {
                    assert(out2.map_values(key)[pos] == y);
                }
            }
        }
        assert(items2.map_values(key).to_set() =~= items.map_values(key).to_set().insert(kx)) by {
            items.map_values(key).lemma_push_to_set_commute(kx);
        }
        assert forall|k: int| 0 <= k < out2.len() implies last_of_key(items2, #[trigger] src2[k], key) && out2[k] == items2[src2[k]] by {
            if k < pos {
                assert(last_of_key(items, src[k], key));
                assert(key(out[k]) != kx);
            } else if k > pos {
                assert(src2[k] == src[k - 1]);
                assert(last_of_key(items, src[k - 1], key));
                assert(key(out[k - 1]) != kx);
            }
        }
        assert(strictly_sorted(out2, key)) by {
            assert forall|a: int, b: int| 0 <= a < b < out2.len() implies text_lt(key(#[trigger] out2[a]), key(#[trigger] out2[b])) by {
                if b < pos {
                    assert(text_lt(key(out[a]), key(out[b])));
                } else if a > pos {
                    assert(text_lt(key(out[a - 1]), key(out[b - 1])));
                } else if a == pos {
                    if b - 1 > pos {
                        lemma_text_lt_transitive(kx, key(out[pos]), key(out[b - 1]));
                    }
                } else if b == pos {
                } else {
                    assert(a < pos && b > pos);
                    assert(text_lt(key(out[a]), kx));
                    if b - 1 > pos {
                        lemma_text_lt_transitive(kx, key(out[pos]), key(out[b - 1]));
                    }
                    lemma_text_lt_transitive(key(out[a]), kx, key(out[b - 1]));
                }
            }
        }
        src2
    }
}

/// Every element of a keyed collection is one of the items it was made from.
pub proof fn lemma_keyed_fold_from_items<V>(items: Seq<V>, key: spec_fn(V) -> Seq<char>)
    ensures
        forall|j: int| 0 <= j < keyed_fold(items, key).len() ==> items.contains(#[trigger] keyed_fold(items, key)[j]),
    decreases items.len(),
{
    if items.len() > 0 {
        let t = items.drop_last();
        let x = items.last();
        lemma_keyed_fold_from_items(t, key);
        let out = keyed_fold(t, key);
        let r = keyed_fold(items, key);
        assert(items[items.len() - 1] == x);
        assert forall|j: int| 0 <= j < out.len() implies items.contains(#[trigger] out[j]) by {
            assert(t.contains(out[j]));
            let i = choose|i: int| 0 <= i < t.len() && t[i] == out[j];
            assert(items[i] == t[i]);
        }
        let p = keyed_position(out, key(x), key);
        lemma_first_match_bounds(out, |v: V| !text_lt(key(v), key(x)));
        assert(0 <= p <= out.len());
        assert(r == keyed_insert(out, x, key));
        assert(items.contains(x));
        assert forall|j: int| 0 <= j < r.len() implies items.contains(#[trigger] r[j]) by {
            if p < out.len() && key(out[p]) == key(x) {
                if j != p {
                    assert(r[j] == out[j]);
                }
            } else {
                if j < p {
                    assert(r[j] == out[j]);
                } else if j > p {
                    assert(r[j] == out[j - 1]);
                }
            }
        }
    }
}

/// When no two items share a key, the keyed collection keeps every item.
pub proof fn lemma_keyed_fold_keeps_all<V>(items: Seq<V>, key: spec_fn(V) -> Seq<char>)
    requires
        forall|i: int, j: int| 0 <= i < items.len() && 0 <= j < items.len() && i != j
            ==> #[trigger] key(items[i]) != #[trigger] key(items[j]),
    ensures
        forall|i: int| 0 <= i < items.len() ==> keyed_fold(items, key).contains(#[trigger] items[i]),
        keyed_fold(items, key).len() == items.len(),
    decreases items.len(),
{
    if items.len() > 0 {
        let n = items.len() as int;
        let t = items.drop_last();
        let x = items.last();
        assert forall|i: int, j: int| 0 <= i < t.len() && 0 <= j < t.len() && i != j
            implies #[trigger] key(t[i]) != #[trigger] key(t[j]) by {
            assert(t[i] == items[i] && t[j] == items[j]);
        }
        lemma_keyed_fold_keeps_all(t, key);
        lemma_keyed_fold_from_items(t, key);
        let out = keyed_fold(t, key);
        let p = keyed_position(out, key(x), key);
        crate::seqs::lemma_first_match_bounds(out, |v: V| !text_lt(key(v), key(x)));
        let r = keyed_fold(items, key);
        assert(r == keyed_insert(out, x, key));
        if p < out.len() && key(out[p]) == key(x) {
            assert(t.contains(out[p]));
            let j = choose|j: int| 0 <= j < t.len() && t[j] == out[p];
            assert(items[j] == t[j]);
            assert(key(items[j]) != key(items[n - 1]));
        }
        assert(r == out.insert(p, x));
        assert forall|i: int| 0 <= i < items.len() implies r.contains(#[trigger] items[i]) by {
            if i == n - 1 {
                assert(r[p] == x);
            } else {
                assert(items[i] == t[i]);
                assert(out.contains(t[i]));
                let q = choose|q: int| 0 <= q < out.len() && out[q] == t[i];
                if q < p {
                    assert(r[q] == out[q]);
                } else {
                    assert(r[q + 1] == out[q]);
                }
            }
        }
    }
}

proof fn lemma_keyed_fold_witness<V>(items: Seq<V>, key: spec_fn(V) -> Seq<char>) -> (src: Seq<int>)
    ensures
        keyed_witness(keyed_fold(items, key), items, src, key),
    decreases items.len(),
{
    if items.len() == 0 {
        lemma_witness_empty(key);
        assert(items =~= Seq::<V>::empty());
        Seq::empty()
    } else {
        let t = items.drop_last();
        let x = items.last();
        let src0 = lemma_keyed_fold_witness(t, key);
        let out = keyed_fold(t, key);
        let pred = |v: V| !text_lt(key(v), key(x));
        let p = keyed_position(out, key(x), key);
        lemma_first_match_bounds(out, pred);
        crate::seqs::lemma_first_match_before(out, pred);
        let replace = p < out.len() && key(out[p]) == key(x);
        if !replace && p < out.len() {
            lemma_text_lt_total(key(x), key(out[p]));
        }
        let src2 = lemma_keyed_step(out, t, src0, x, p, replace, key);
        assert(t.push(x) =~= items);
        src2
    }
}

/// Changing each item in a way that keeps its key changes the keyed
/// collection element by element in the same way.
pub proof fn lemma_keyed_fold_map<V>(items: Seq<V>, f: spec_fn(V) -> V, key: spec_fn(V) -> Seq<char>)
    requires
        forall|v: V| #[trigger] key(f(v)) == key(v),
    ensures
        keyed_fold(items.map_values(f), key) == keyed_fold(items, key).map_values(f),
    decreases items.len(),
{
    if items.len() > 0 {
        let t = items.drop_last();
        let x = items.last();
        let m = items.map_values(f);
        assert(m.drop_last() =~= t.map_values(f));
        assert(m.last() == f(x));
        lemma_keyed_fold_map(t, f, key);
        let out = keyed_fold(t, key);
        let out2 = out.map_values(f);
        assert(keyed_fold(m, key) == keyed_insert(out2, f(x), key));
        let pred = |v: V| !text_lt(key(v), key(x));
        let pred2 = |v: V| !text_lt(key(v), key(f(x)));
        let p = crate::seqs::first_match(out, pred);
        lemma_first_match_bounds(out, pred);
        crate::seqs::lemma_first_match_before(out, pred);
        assert forall|j: int| 0 <= j < p implies !pred2(#[trigger] out2[j]) by {
            assert(!pred(out[j]));
            assert(key(f(out[j])) == key(out[j]));
        }
        if p < out.len() {
            assert(key(f(out[p])) == key(out[p]));
        }
        crate::seqs::lemma_first_match(out2, pred2, p);
        assert(keyed_position(out2, key(f(x)), key) == p);
        assert(keyed_position(out, key(x), key) == p);
        if p < out.len() && key(out[p]) == key(x) {
            assert(keyed_insert(out2, f(x), key) =~= out.update(p, x).map_values(f));
        } else {
            assert(keyed_insert(out2, f(x), key) =~= out.insert(p, x).map_values(f));
        }
    }
}

/// A keyed collection holds, in key order, the last item of each key.
pub proof fn lemma_keyed_fold_by_last<V>(items: Seq<V>, key: spec_fn(V) -> Seq<char>)
    ensures
        keyed_by_last(keyed_fold(items, key), items, key),
{
    let src = lemma_keyed_fold_witness(items, key);
    lemma_witness_keyed(keyed_fold(items, key), items, src, key);
}

} // verus!
