//! Planning a sync: which files go up to the remote, which remote files go
//! away, and what the remote's manifest lists afterwards.
use vstd::prelude::*;
use vstd::relations::{sorted_by, total_ordering};
use crate::text::{text_lt, text_le, text_less, concat, lemma_text_lt_total, lemma_text_lt_transitive, lemma_text_lt_irreflexive};

verus! {

/// The name of the manifest file on the remote.
pub open spec fn manifest_file_name() -> Seq<char> {
    ".byi-sync-manifest.toml"@
}

/// The name of the manifest file on the remote.
pub fn remote_manifest_file() -> (s: &'static str)
    ensures
        s@ == manifest_file_name(),
{
    ".byi-sync-manifest.toml"
}

/// String order, reflexive.
pub open spec fn text_order() -> spec_fn(Seq<char>, Seq<char>) -> bool {
    |a: Seq<char>, b: Seq<char>| text_le(a, b)
}

pub proof fn lemma_text_order_total()
    ensures
        total_ordering(text_order()),
{
    assert forall|a: Seq<char>| #[trigger] (text_order())(a, a) by {}
    assert forall|a: Seq<char>, b: Seq<char>| #[trigger] (text_order())(a, b) && #[trigger] (text_order())(b, a) implies a == b by {
        lemma_text_lt_total(a, b);
    }
    assert forall|a: Seq<char>, b: Seq<char>, c: Seq<char>|
        #[trigger] (text_order())(a, b) && #[trigger] (text_order())(b, c) implies #[trigger] (text_order())(a, c) by {
        if text_lt(a, b) && text_lt(b, c) {
            lemma_text_lt_transitive(a, b, c);
        }
    }
    assert forall|a: Seq<char>, b: Seq<char>| #[trigger] (text_order())(a, b) || #[trigger] (text_order())(b, a) by {
        lemma_text_lt_total(a, b);
    }
}

/// Every name with a prefix.
pub open spec fn prefixed(prefix: Seq<char>, names: Seq<Seq<char>>) -> Seq<Seq<char>> {
    names.map_values(|n: Seq<char>| prefix + n)
}

/// The files a push uploads, in string order: the files under `skills/` and
/// under `registry/`, named from the data directory.
pub open spec fn local_sync_files(skills: Seq<Seq<char>>, registry: Seq<Seq<char>>) -> Seq<Seq<char>> {
    (prefixed("skills/"@, skills) + prefixed("registry/"@, registry)).sort_by(text_order())
}

/// The files the remote manifest lists that are no longer local.
pub open spec fn stale_files(manifest: Seq<Seq<char>>, local: Seq<Seq<char>>) -> Seq<Seq<char>> {
    manifest.filter(|f: Seq<char>| !local.contains(f))
}

/// What a push does: upload each of `uploads`, delete each of `deletes`,
/// then write a manifest listing `uploads`.
#[derive(Debug)]
pub struct SyncPushPlan {
    pub uploads: Vec<String>,
    pub deletes: Vec<String>,
}

pub open spec fn texts_of(v: Seq<String>) -> Seq<Seq<char>> {
    v.map_values(|s: String| s@)
}

pub(crate) proof fn lemma_insert_multiset<A>(s: Seq<A>, p: int, x: A)
    requires
        0 <= p <= s.len(),
    ensures
        s.insert(p, x).to_multiset() == s.to_multiset().insert(x),
{
    broadcast use vstd::seq_lib::group_to_multiset_ensures;
    broadcast use vstd::multiset::group_multiset_axioms;
    let t = s.insert(p, x);
    s.insert_ensures(p, x);
    assert(t.remove(p) =~= s);
    assert(t[p] == x);
    assert(t.remove(p).to_multiset() =~= t.to_multiset().remove(x));
    assert(t.contains(x));
    assert(t.to_multiset().count(x) > 0);
    assert(t.to_multiset() =~= s.to_multiset().insert(x));
}

/// The names in string order.
pub fn sort_texts(names: Vec<String>) -> (r: Vec<String>)
    ensures
        texts_of(r@) == texts_of(names@).sort_by(text_order()),
{
    let ghost nv = texts_of(names@);
    let mut out: Vec<String> = Vec::new();
    let mut i: usize = 0;
    broadcast use vstd::seq_lib::group_to_multiset_ensures;
    assert(texts_of(out@) =~= Seq::<Seq<char>>::empty());
    assert(nv.take(0) =~= Seq::<Seq<char>>::empty());
    while i < names.len()
        invariant
            i <= names@.len(),
            nv == texts_of(names@),
            sorted_by(texts_of(out@), text_order()),
            texts_of(out@).to_multiset() == nv.take(i as int).to_multiset(),
        decreases names@.len() - i,
    {
        let x = names[i].clone();
        let ghost ov = texts_of(out@);
        let mut pos: usize = 0;
        while pos < out.len() && !text_less(x.as_str(), out[pos].as_str())
            invariant
                pos <= out@.len(),
                ov == texts_of(out@),
                forall|j: int| 0 <= j < pos ==> !text_lt(x@, #[trigger] ov[j]),
            decreases out@.len() - pos,
        {
            assert(ov[pos as int] == out@[pos as int]@);
            pos = pos + 1;
        }
        proof {
            if pos < out@.len() {
                assert(ov[pos as int] == out@[pos as int]@);
            }
            lemma_insert_multiset(ov, pos as int, x@);
            assert(nv.take(i + 1) =~= nv.take(i as int).push(nv[i as int]));
            assert(nv[i as int] == names@[i as int]@);
            let t = ov.insert(pos as int, x@);
            assert forall|a: int, b: int| 0 <= a < b < t.len() implies #[trigger] (text_order())(t[a], t[b]) by {
                if b < pos {
                    assert((text_order())(ov[a], ov[b]));
                } else if a > pos {
                    assert((text_order())(ov[a - 1], ov[b - 1]));
                } else if a == pos {
                    assert(text_lt(x@, ov[pos as int]));
                    if b - 1 > pos {
                        assert((text_order())(ov[pos as int], ov[b - 1]));
                        if text_lt(ov[pos as int], ov[b - 1]) {
                            lemma_text_lt_transitive(x@, ov[pos as int], ov[b - 1]);
                        }
                    }
                } else if b == pos {
                    lemma_text_lt_total(x@, ov[a]);
                } else {
                    lemma_text_lt_total(x@, ov[a]);
                    assert(text_lt(x@, ov[pos as int]));
                    if b - 1 > pos {
                        assert((text_order())(ov[pos as int], ov[b - 1]));
                        if text_lt(ov[pos as int], ov[b - 1]) {
                            lemma_text_lt_transitive(x@, ov[pos as int], ov[b - 1]);
                        }
                    }
                    if text_lt(ov[a], x@) && text_lt(x@, ov[b - 1]) {
                        lemma_text_lt_transitive(ov[a], x@, ov[b - 1]);
                    }
                }
            }
        }
        out.insert(pos, x);
        assert(texts_of(out@) =~= ov.insert(pos as int, names@[i as int]@));
        proof {
            nv.take(i as int).to_multiset_ensures();
        }
        assert(nv.take(i as int).push(nv[i as int]).to_multiset() =~= nv.take(i as int).to_multiset().insert(nv[i as int]));
        assert(texts_of(out@).to_multiset() == nv.take(i + 1).to_multiset());
        i = i + 1;
    }
    proof {
        assert(nv.take(names@.len() as int) =~= nv);
        lemma_text_order_total();
        nv.lemma_sort_by_ensures(text_order());
        vstd::seq_lib::lemma_sorted_unique(texts_of(out@), nv.sort_by(text_order()), text_order());
    }
    out
}

fn prefix_all(prefix: &str, names: &Vec<String>, out: &mut Vec<String>)
    ensures
        texts_of(final(out)@) == texts_of(old(out)@) + prefixed(prefix@, texts_of(names@)),
{
    let ghost start = texts_of(out@);
    let mut i: usize = 0;
    while i < names.len()
        invariant
            i <= names@.len(),
            texts_of(out@) == start + prefixed(prefix@, texts_of(names@)).take(i as int),
        decreases names@.len() - i,
    {
        let ghost before = texts_of(out@);
        out.push(concat(prefix, names[i].as_str()));
        assert(texts_of(out@) =~= before.push(prefix@ + names@[i as int]@));
        assert(prefixed(prefix@, texts_of(names@)).take(i + 1) =~= prefixed(prefix@, texts_of(names@)).take(i as int).push(prefix@ + names@[i as int]@));
        i = i + 1;
    }
    assert(prefixed(prefix@, texts_of(names@)).take(names@.len() as int) =~= prefixed(prefix@, texts_of(names@)));
}

/// Plans a push from the files under `skills/` and `registry/` (paths
/// relative to those directories) and the file list of the remote manifest
/// (none when it cannot be read).
pub fn plan_sync_push(skills_files: &Vec<String>, registry_files: &Vec<String>, manifest: &Option<Vec<String>>) -> (p: SyncPushPlan)
    ensures
        texts_of(p.uploads@) == local_sync_files(texts_of(skills_files@), texts_of(registry_files@)),
        texts_of(p.deletes@) == stale_files(
            match manifest {
                Some(m) => texts_of(m@),
                None => Seq::empty(),
            },
            texts_of(p.uploads@),
        ),
{
    let mut all: Vec<String> = Vec::new();
    assert(texts_of(all@) =~= Seq::<Seq<char>>::empty());
    prefix_all("skills/", skills_files, &mut all);
    prefix_all("registry/", registry_files, &mut all);
    let uploads = sort_texts(all);
    let ghost up = texts_of(uploads@);
    let mut deletes: Vec<String> = Vec::new();
    match manifest {
        None => {
            assert(texts_of(deletes@) =~= stale_files(Seq::empty(), up));
        },
        Some(m) => {
            let ghost mv = texts_of(m@);
            let mut i: usize = 0;
            assert(texts_of(deletes@) =~= stale_files(mv.take(0), up));
            while i < m.len()
                invariant
                    i <= m@.len(),
                    mv == texts_of(m@),
                    up == texts_of(uploads@),
                    texts_of(deletes@) == stale_files(mv.take(i as int), up),
                decreases m@.len() - i,
            {
                let mut found = false;
                let mut k: usize = 0;
                while k < uploads.len()
                    invariant
                        k <= uploads@.len(),
                        i < m@.len(),
                        up == texts_of(uploads@),
                        mv == texts_of(m@),
                        found <==> exists|j: int| 0 <= j < k && #[trigger] up[j] == mv[i as int],
                    decreases uploads@.len() - k,
                {
                    assert(up[k as int] == uploads@[k as int]@);
                    assert(mv[i as int] == m@[i as int]@);
                    if uploads[k] == m[i] {
                        found = true;
                    }
                    k = k + 1;
                }
                proof {
                    assert(found == up.contains(mv[i as int]));
                    assert(mv.take(i + 1) =~= mv.take(i as int).push(mv[i as int]));
                    mv.take(i as int).lemma_filter_push(mv[i as int], |f: Seq<char>| !up.contains(f));
                }
                if !found {
                    let ghost before = texts_of(deletes@);
                    deletes.push(m[i].clone());
                    assert(texts_of(deletes@) =~= before.push(mv[i as int]));
                }
                i = i + 1;
            }
            assert(mv.take(m@.len() as int) =~= mv);
        },
    }
    SyncPushPlan { uploads, deletes }
}

} // verus!
