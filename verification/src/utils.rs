//! Small helpers shared by the storage code: line endings and the order
//! of the files found under a directory.
use vstd::prelude::*;
use crate::text::chars_of;
use crate::text::string_of;
use crate::sync::{texts_of, lemma_insert_multiset};
use vstd::relations::{total_ordering, sorted_by};

verus! {

/// `s` with every `\r\n` and every lone `\r` turned into `\n`.
pub open spec fn unix_line_endings(s: Seq<char>) -> Seq<char>
    decreases s.len(),
{
    if s.len() == 0 {
        s
    } else if s[0] == '\r' && s.len() >= 2 && s[1] == '\n' {
        seq!['\n'] + unix_line_endings(s.skip(2))
    } else if s[0] == '\r' {
        seq!['\n'] + unix_line_endings(s.skip(1))
    } else {
        seq![s[0]] + unix_line_endings(s.skip(1))
    }
}

/// Converts Windows (`\r\n`) and old Mac (`\r`) line endings to `\n`.
pub fn normalize_line_endings(input: &str) -> (r: String)
    ensures
        r@ == unix_line_endings(input@),
{
    let v = chars_of(input);
    let mut out: Vec<char> = Vec::new();
    let mut i: usize = 0;
    assert(v@.skip(0) =~= v@);
    while i < v.len()
        invariant
            i <= v@.len(),
            v@ == input@,
            out@ + unix_line_endings(v@.skip(i as int)) == unix_line_endings(v@),
        decreases v@.len() - i,
    {
        let rest = Ghost(v@.skip(i as int));
        if v[i] == '\r' && i + 1 < v.len() && v[i + 1] == '\n' {
            assert(rest@.skip(2) =~= v@.skip(i + 2));
            out.push('\n');
            i = i + 2;
        } else if v[i] == '\r' {
            assert(rest@.skip(1) =~= v@.skip(i + 1));
            out.push('\n');
            i = i + 1;
        } else {
            assert(rest@.skip(1) =~= v@.skip(i + 1));
            out.push(v[i]);
            i = i + 1;
        }
        assert(out@ + unix_line_endings(v@.skip(i as int)) =~= unix_line_endings(v@));
    }
    assert(v@.skip(i as int) =~= Seq::<char>::empty());
    assert(out@ =~= unix_line_endings(v@));
    string_of(&out)
}

/// `x` sorts before `y` in a path: `/`, the separator, before everything
/// else, other characters by code point.
pub open spec fn char_before(x: char, y: char) -> bool {
    x != y && (x == '/' || (y != '/' && x < y))
}

/// Strict path order on relative paths: component by component, each
/// component as a string, a path before every longer path it begins
/// (for paths without empty components this is the order of `Path`).
pub open spec fn path_lt(a: Seq<char>, b: Seq<char>) -> bool
    decreases a.len(),
{
    if a.len() == 0 {
        b.len() > 0
    } else if b.len() == 0 {
        false
    } else if a[0] != b[0] {
        char_before(a[0], b[0])
    } else {
        path_lt(a.drop_first(), b.drop_first())
    }
}

/// Path order, reflexive.
pub open spec fn path_order() -> spec_fn(Seq<char>, Seq<char>) -> bool {
    |a: Seq<char>, b: Seq<char>| a == b || path_lt(a, b)
}

proof fn lemma_path_lt_total(a: Seq<char>, b: Seq<char>)
    ensures
        a == b || path_lt(a, b) || path_lt(b, a),
        !(path_lt(a, b) && path_lt(b, a)),
    decreases a.len(),
{
    if a.len() > 0 && b.len() > 0 && a[0] == b[0] {
        lemma_path_lt_total(a.drop_first(), b.drop_first());
        if a.drop_first() == b.drop_first() {
            assert(a =~= seq![a[0]] + a.drop_first());
            assert(b =~= seq![b[0]] + b.drop_first());
        }
    } else if a.len() == 0 && b.len() == 0 {
        assert(a =~= b);
    }
}

proof fn lemma_path_lt_transitive(a: Seq<char>, b: Seq<char>, c: Seq<char>)
    requires
        path_lt(a, b),
        path_lt(b, c),
    ensures
        path_lt(a, c),
    decreases a.len(),
{
    if a.len() > 0 && b.len() > 0 && c.len() > 0 && a[0] == b[0] && b[0] == c[0] {
        lemma_path_lt_transitive(a.drop_first(), b.drop_first(), c.drop_first());
    }
}

proof fn lemma_path_order_total()
    ensures
        total_ordering(path_order()),
{
    assert forall|a: Seq<char>, b: Seq<char>| #[trigger] (path_order())(a, b) && #[trigger] (path_order())(b, a) implies a == b by {
        lemma_path_lt_total(a, b);
    }
    assert forall|a: Seq<char>, b: Seq<char>, c: Seq<char>|
        #[trigger] (path_order())(a, b) && #[trigger] (path_order())(b, c) implies #[trigger] (path_order())(a, c) by {
        if path_lt(a, b) && path_lt(b, c) {
            lemma_path_lt_transitive(a, b, c);
        }
    }
    assert forall|a: Seq<char>, b: Seq<char>| #[trigger] (path_order())(a, b) || #[trigger] (path_order())(b, a) by {
        lemma_path_lt_total(a, b);
    }
}

fn char_sorts_before(x: char, y: char) -> (r: bool)
    ensures
        r == char_before(x, y),
{
    x != y && (x == '/' || (y != '/' && x < y))
}

/// Compares two relative paths in path order.
pub fn path_less(a: &str, b: &str) -> (r: bool)
    ensures
        r == path_lt(a@, b@),
{
    let av = chars_of(a);
    let bv = chars_of(b);
    let mut i: usize = 0;
    assert(a@.skip(0) =~= a@);
    assert(b@.skip(0) =~= b@);
    while i < av.len() && i < bv.len() && av[i] == bv[i]
        invariant
            i <= av@.len(),
            i <= bv@.len(),
            av@ == a@,
            bv@ == b@,
            path_lt(a@, b@) == path_lt(a@.skip(i as int), b@.skip(i as int)),
        decreases av@.len() - i,
    {
        proof {
            assert(a@.skip(i as int).drop_first() =~= a@.skip(i + 1));
            assert(b@.skip(i as int).drop_first() =~= b@.skip(i + 1));
        }
        i = i + 1;
    }
    if i < av.len() && i < bv.len() {
        char_sorts_before(av[i], bv[i])
    } else {
        i < bv.len() && i >= av.len()
    }
}

/// The files found under a directory, given as paths relative to it with
/// `/` between components, in path order.
pub fn collect_files_recursive(found: Vec<String>) -> (r: Vec<String>)
    ensures
        texts_of(r@) == texts_of(found@).sort_by(path_order()),
{
    let ghost nv = texts_of(found@);
    let mut out: Vec<String> = Vec::new();
    let mut i: usize = 0;
    broadcast use vstd::seq_lib::group_to_multiset_ensures;
    assert(texts_of(out@) =~= Seq::<Seq<char>>::empty());
    assert(nv.take(0) =~= Seq::<Seq<char>>::empty());
    while i < found.len()
        invariant
            i <= found@.len(),
            nv == texts_of(found@),
            sorted_by(texts_of(out@), path_order()),
            texts_of(out@).to_multiset() == nv.take(i as int).to_multiset(),
        decreases found@.len() - i,
    {
        let x = found[i].clone();
        let ghost ov = texts_of(out@);
        let mut pos: usize = 0;
        while pos < out.len() && !path_less(x.as_str(), out[pos].as_str())
            invariant
                pos <= out@.len(),
                ov == texts_of(out@),
                forall|j: int| 0 <= j < pos ==> !path_lt(x@, #[trigger] ov[j]),
            decreases out@.len() - pos,
        {
            assert(ov[pos as int] == out@[pos as int]@);
            pos = pos + 1;
        }
        proof {
            if pos < out@.len() {
                assert(ov[pos as int] == out@[pos as int]@);
            }
            lemma_insert_multiset(ov, pos as int, x@);
            assert(nv.take(i + 1) =~= nv.take(i as int).push(nv[i as int]));
            assert(nv[i as int] == found@[i as int]@);
            let t = ov.insert(pos as int, x@);
            assert forall|a: int, b: int| 0 <= a < b < t.len() implies #[trigger] (path_order())(t[a], t[b]) by {
                if b < pos {
                    assert((path_order())(ov[a], ov[b]));
                } else if a > pos {
                    assert((path_order())(ov[a - 1], ov[b - 1]));
                } else if a == pos {
                    assert(path_lt(x@, ov[pos as int]));
                    if b - 1 > pos {
                        assert((path_order())(ov[pos as int], ov[b - 1]));
                        if path_lt(ov[pos as int], ov[b - 1]) {
                            lemma_path_lt_transitive(x@, ov[pos as int], ov[b - 1]);
                        }
                    }
                } else if b == pos {
                    lemma_path_lt_total(x@, ov[a]);
                } else {
                    lemma_path_lt_total(x@, ov[a]);
                    assert(path_lt(x@, ov[pos as int]));
                    if b - 1 > pos {
                        assert((path_order())(ov[pos as int], ov[b - 1]));
                        if path_lt(ov[pos as int], ov[b - 1]) {
                            lemma_path_lt_transitive(x@, ov[pos as int], ov[b - 1]);
                        }
                    }
                    if path_lt(ov[a], x@) && path_lt(x@, ov[b - 1]) {
                        lemma_path_lt_transitive(ov[a], x@, ov[b - 1]);
                    }
                }
            }
        }
        out.insert(pos, x);
        assert(texts_of(out@) =~= ov.insert(pos as int, found@[i as int]@));
        proof {
            nv.take(i as int).to_multiset_ensures();
        }
        assert(nv.take(i as int).push(nv[i as int]).to_multiset() =~= nv.take(i as int).to_multiset().insert(nv[i as int]));
        assert(texts_of(out@).to_multiset() == nv.take(i + 1).to_multiset());
        i = i + 1;
    }
    proof {
        assert(nv.take(found@.len() as int) =~= nv);
        lemma_path_order_total();
        nv.lemma_sort_by_ensures(path_order());
        vstd::seq_lib::lemma_sorted_unique(texts_of(out@), nv.sort_by(path_order()), path_order());
    }
    out
}

} // verus!
