//! What a second scan finds right after a first one: the repairs of a scan
//! are stable, so scanning again changes nothing but the update times.
use vstd::prelude::*;
use crate::text::{is_space, is_blank, trim_start, trim_end, decimal, digit_char};
use crate::seqs::{lemma_first_match_bounds, lemma_first_match_le};
use crate::skill::clock::{Clock, timestamp, fresh_id};
use crate::skill::keyed::{keyed_fold, lemma_keyed_fold_keeps_all, lemma_keyed_fold_from_items, lemma_keyed_fold_map};
use crate::skill::model::{MetadataView, InstalledView, IssueView};
use crate::skill::scan::{DirView, reconciled, existing_metadata, kept_or, is_copied, needs_new_id, id_offset, clock_after, dir_instance_id, scan_view_of, scanned_installed, skill_of, previous_index, is_added, is_updated, is_removed, installed_key, path_join, issues_upto, dir_issues, missing_issues};

verus! {

/// The directories once a scan at clock `c` wrote their metadata back.
pub open spec fn dirs_after_scan(dirs: Seq<DirView>, c: Clock) -> Seq<DirView> {
    Seq::new(
        dirs.len(),
        |i: int|
            DirView {
                dir_name: dirs[i].dir_name,
                metadata: Some(reconciled(dirs, i, c)),
                has_skill_md: dirs[i].has_skill_md,
                skill_md: dirs[i].skill_md,
            },
    )
}

/// The scan at clock `c` gives every directory its own instance id.
pub open spec fn ids_distinct(dirs: Seq<DirView>, c: Clock) -> bool {
    forall|i: int, j: int|
        0 <= i < dirs.len() && 0 <= j < dirs.len() && i != j
            ==> #[trigger] reconciled(dirs, i, c).instance_id != #[trigger] reconciled(dirs, j, c).instance_id
}

/// The directory names are as a directory listing gives them: none holds a
/// `/`, and no two are equal.
pub open spec fn names_listed(dirs: Seq<DirView>) -> bool {
    &&& forall|i: int, q: int| 0 <= i < dirs.len() && 0 <= q < dirs[i].dir_name.len() ==> #[trigger] dirs[i].dir_name[q] != '/'
    &&& forall|i: int, j: int| 0 <= i < dirs.len() && 0 <= j < dirs.len() && i != j
        ==> #[trigger] dirs[i].dir_name != #[trigger] dirs[j].dir_name
}

/// Two different names without `/` lie at two different places under a directory.
pub proof fn lemma_path_join_distinct(base: Seq<char>, a: Seq<char>, b: Seq<char>)
    requires
        a != b,
        forall|q: int| 0 <= q < a.len() ==> #[trigger] a[q] != '/',
        forall|q: int| 0 <= q < b.len() ==> #[trigger] b[q] != '/',
    ensures
        path_join(base, a) != path_join(base, b),
{
    let pre = if base.len() == 0 {
        Seq::<char>::empty()
    } else if base.last() == '/' {
        base
    } else {
        base + seq!['/']
    };
    if a.len() > 0 {
        assert(a[0] != '/');
    }
    if b.len() > 0 {
        assert(b[0] != '/');
    }
    assert(path_join(base, a) =~= pre + a);
    assert(path_join(base, b) =~= pre + b);
    if pre + a == pre + b {
        assert((pre + a).skip(pre.len() as int) =~= a);
        assert((pre + b).skip(pre.len() as int) =~= b);
    }
}

/// Every record still has its directory: no report of a missing one.
proof fn lemma_no_missing_issues(previous: Seq<InstalledView>, present: Seq<bool>)
    requires
        present.len() == previous.len(),
        forall|k: int| 0 <= k < present.len() ==> #[trigger] present[k],
    ensures
        missing_issues(previous, present).len() == 0,
    decreases previous.len(),
{
    if previous.len() > 0 {
        assert(present.last());
        lemma_no_missing_issues(previous.drop_last(), present.drop_last());
    }
}

/// The reports about the written-back directories are only about missing
/// `SKILL.md` files.
proof fn lemma_rescan_issues(sd: Seq<char>, dirs: Seq<DirView>, c: Clock, c2: Clock, m: int)
    requires
        0 <= m <= dirs.len(),
        ids_distinct(dirs, c),
        names_listed(dirs),
    ensures
        forall|k: int| 0 <= k < issues_upto(sd, dirs_after_scan(dirs, c), m).len()
            ==> (#[trigger] issues_upto(sd, dirs_after_scan(dirs, c), m)[k]).code == "missing-skill-md"@,
    decreases m,
{
    let d2 = dirs_after_scan(dirs, c);
    if m > 0 {
        let i = m - 1;
        lemma_rescan_issues(sd, dirs, c, c2, m - 1);
        lemma_rescan_metadata(dirs, c, c2, i);
        let p = path_join(sd, d2[i].dir_name);
        assert forall|j: int| 0 <= j < i implies #[trigger] path_join(sd, d2[j].dir_name) != p by {
            assert(dirs[j].dir_name != dirs[i].dir_name);
            assert forall|q: int| 0 <= q < dirs[j].dir_name.len() implies #[trigger] dirs[j].dir_name[q] != '/' by {
                assert(dirs[j].dir_name[q] != '/');
            }
            assert forall|q: int| 0 <= q < dirs[i].dir_name.len() implies #[trigger] dirs[i].dir_name[q] != '/' by {
                assert(dirs[i].dir_name[q] != '/');
            }
            lemma_path_join_distinct(sd, dirs[j].dir_name, dirs[i].dir_name);
        }
        let di = dir_issues(sd, d2, i);
        let before = issues_upto(sd, d2, m - 1);
        assert(issues_upto(sd, d2, m) == before + di);
        assert forall|k: int| 0 <= k < di.len() implies (#[trigger] di[k]).code == "missing-skill-md"@ by {
            assert(di =~= (if d2[i].has_skill_md {
                Seq::<IssueView>::empty()
            } else {
                seq![crate::skill::scan::warning("missing-skill-md"@, "缺少 SKILL.md: "@ + p)]
            }));
        }
        assert forall|k: int| 0 <= k < issues_upto(sd, d2, m).len()
            implies (#[trigger] issues_upto(sd, d2, m)[k]).code == "missing-skill-md"@ by {
            if k < before.len() {
                assert(issues_upto(sd, d2, m)[k] == before[k]);
            } else {
                assert(issues_upto(sd, d2, m)[k] == di[k - before.len()]);
            }
        }
    }
}

proof fn lemma_trim_end_keeps_start(s: Seq<char>)
    requires
        s.len() > 0,
        !is_space(s[0]),
    ensures
        trim_end(s).len() > 0,
    decreases s.len(),
{
    if s.len() > 1 && is_space(s.last()) {
        lemma_trim_end_keeps_start(s.drop_last());
    }
}

/// A text that starts with a character other than white space is not blank.
proof fn lemma_not_blank(s: Seq<char>)
    requires
        s.len() > 0,
        !is_space(s[0]),
    ensures
        !is_blank(s),
{
    assert(trim_start(s) == s);
    lemma_trim_end_keeps_start(s);
}

proof fn lemma_decimal_starts_with_digit(n: nat)
    ensures
        decimal(n).len() > 0,
        '0' <= decimal(n)[0] <= '9',
    decreases n,
{
    if n >= 10 {
        lemma_decimal_starts_with_digit(n / 10);
        assert(decimal(n)[0] == decimal(n / 10)[0]);
    } else {
        assert(decimal(n) == seq![digit_char(n)]);
    }
}

proof fn lemma_timestamp_not_blank(c: Clock)
    ensures
        !is_blank(timestamp(c)),
{
    lemma_decimal_starts_with_digit(c.secs as nat);
    lemma_not_blank(timestamp(c));
}

proof fn lemma_fresh_id_not_blank(c: Clock, k: nat)
    ensures
        !is_blank(fresh_id(c, k)),
{
    reveal_strlit("inst_");
    let s = fresh_id(c, k);
    assert(s[0] == 'i');
    lemma_not_blank(s);
}

/// What a first scan writes has a usable instance id and creation time.
proof fn lemma_reconciled_filled(dirs: Seq<DirView>, i: int, c: Clock)
    requires
        0 <= i < dirs.len(),
    ensures
        !is_blank(reconciled(dirs, i, c).instance_id),
        !is_blank(reconciled(dirs, i, c).created_at),
{
    let c1 = clock_after(c, id_offset(dirs, i));
    lemma_fresh_id_not_blank(c1, 0);
    lemma_fresh_id_not_blank(c1, 1);
    lemma_timestamp_not_blank(c1);
}

/// Filling a field twice from the same default fills it once.
proof fn lemma_kept_or_twice(v: Seq<char>, d: Seq<char>)
    ensures
        kept_or(kept_or(v, d), d) == kept_or(v, d),
{
}

/// Scanning the written-back directories again repairs nothing: each
/// directory keeps its metadata but for the update time.
proof fn lemma_rescan_metadata(dirs: Seq<DirView>, c: Clock, c2: Clock, i: int)
    requires
        0 <= i < dirs.len(),
        ids_distinct(dirs, c),
    ensures
        !is_copied(dirs_after_scan(dirs, c), i),
        !needs_new_id(dirs_after_scan(dirs, c)[i]),
        reconciled(dirs_after_scan(dirs, c), i, c2)
            == (MetadataView { updated_at: timestamp(c2), ..reconciled(dirs, i, c) }),
{
    let d2 = dirs_after_scan(dirs, c);
    let w = reconciled(dirs, i, c);
    let m0 = existing_metadata(dirs[i]);
    lemma_reconciled_filled(dirs, i, c);
    assert(dir_instance_id(d2[i]) == w.instance_id);
    assert forall|j: int| 0 <= j < d2.len() && j != i implies #[trigger] dir_instance_id(d2[j]) != dir_instance_id(d2[i]) by {
        assert(dir_instance_id(d2[j]) == reconciled(dirs, j, c).instance_id);
    }
    assert(!is_copied(d2, i));
    assert(!needs_new_id(d2[i]));
    let c3 = clock_after(c2, id_offset(d2, i));
    assert(timestamp(c3) == timestamp(c2));
    lemma_kept_or_twice(m0.name, crate::skill::names::display_name(dirs[i].dir_name));
    lemma_kept_or_twice(m0.source, "local"@);
    lemma_kept_or_twice(m0.description, crate::skill::scan::md_description_of(dirs[i]));
    lemma_kept_or_twice(
        m0.skill_id,
        crate::skill::names::skill_id_of(crate::skill::names::namespace_of(w.source), w.name),
    );
    assert(crate::skill::scan::md_description_of(d2[i]) == crate::skill::scan::md_description_of(dirs[i]));
}

proof fn lemma_filter_none<A>(s: Seq<A>, p: spec_fn(A) -> bool)
    requires
        forall|i: int| 0 <= i < s.len() ==> !p(#[trigger] s[i]),
    ensures
        s.filter(p).len() == 0,
{
    if s.filter(p).len() > 0 {
        s.lemma_filter_pred(p, 0);
        let x = s.filter(p)[0];
        assert(s.filter(p).contains(x));
        s.lemma_filter_contains_rev(p, x);
        let j = choose|j: int| 0 <= j < s.len() && s[j] == x;
        assert(!p(s[j]));
    }
}

/// Scanning again right after a scan, once its metadata and registries are
/// written back (so every copy it recorded has its directory), finds nothing
/// to add, update or remove, gives the same skills and the same installed
/// copies but for their update time, and leaves each directory's metadata as
/// it was but for the update time, provided the first scan gave each
/// directory its own instance id. When the directory names are as a listing
/// gives them, the only reports left are of missing `SKILL.md` files.
pub proof fn rescan_changes_nothing(
    sd: Seq<char>,
    dirs: Seq<DirView>,
    previous: Seq<InstalledView>,
    present: Seq<bool>,
    c: Clock,
    c2: Clock,
)
    requires
        ids_distinct(dirs, c),
    ensures
        ({
            let first = scan_view_of(sd, dirs, previous, present, c);
            let again = dirs_after_scan(dirs, c);
            let second = scan_view_of(
                sd,
                again,
                first.installed_skills,
                Seq::new(first.installed_skills.len(), |k: int| true),
                c2,
            );
            &&& second.skills == first.skills
            &&& second.added == 0
            &&& second.updated == 0
            &&& second.removed == 0
            &&& forall|i: int| 0 <= i < dirs.len() ==> #[trigger] reconciled(again, i, c2)
                == (MetadataView { updated_at: timestamp(c2), ..reconciled(dirs, i, c) })
            &&& second.installed_skills
                == first.installed_skills.map_values(|x: InstalledView| InstalledView { updated_at: timestamp(c2), ..x })
            &&& names_listed(dirs) ==> forall|k: int| 0 <= k < second.issues.len()
                ==> (#[trigger] second.issues[k]).code == "missing-skill-md"@
        }),
{
    let n = dirs.len() as int;
    let d2 = dirs_after_scan(dirs, c);
    let first = scan_view_of(sd, dirs, previous, present, c);
    let i1 = first.installed_skills;
    let present2 = Seq::new(i1.len(), |k: int| true);
    let second = scan_view_of(sd, d2, i1, present2, c2);
    assert forall|i: int| 0 <= i < n implies #[trigger] reconciled(d2, i, c2)
        == (MetadataView { updated_at: timestamp(c2), ..reconciled(dirs, i, c) }) by {
        lemma_rescan_metadata(dirs, c, c2, i);
    }

    // The same skills.
    let sk1 = Seq::new(n as nat, |i: int| skill_of(reconciled(dirs, i, c)));
    let sk2 = Seq::new(n as nat, |i: int| skill_of(reconciled(d2, i, c2)));
    assert(sk1 =~= sk2);

    // The copies of both scans are exactly their items.
    let items1 = Seq::new(n as nat, |i: int| scanned_installed(sd, dirs, i, previous, c));
    let items2 = Seq::new(n as nat, |i: int| scanned_installed(sd, d2, i, i1, c2));
    let key = installed_key();
    assert forall|i: int, j: int| 0 <= i < n && 0 <= j < n && i != j
        implies #[trigger] key(items1[i]) != #[trigger] key(items1[j]) by {
        assert(reconciled(dirs, i, c).instance_id != reconciled(dirs, j, c).instance_id);
    }
    assert forall|i: int, j: int| 0 <= i < n && 0 <= j < n && i != j
        implies #[trigger] key(items2[i]) != #[trigger] key(items2[j]) by {
        assert(reconciled(dirs, i, c).instance_id != reconciled(dirs, j, c).instance_id);
        assert(reconciled(d2, i, c2).instance_id == reconciled(dirs, i, c).instance_id);
        assert(reconciled(d2, j, c2).instance_id == reconciled(dirs, j, c).instance_id);
    }
    assert(i1 == keyed_fold(items1, key));
    let i2 = second.installed_skills;
    assert(i2 == keyed_fold(items2, key));
    lemma_keyed_fold_keeps_all(items1, key);
    lemma_keyed_fold_from_items(items1, key);
    lemma_keyed_fold_keeps_all(items2, key);
    lemma_keyed_fold_from_items(items2, key);

    // Each directory finds its earlier record.
    assert forall|i: int| 0 <= i < n implies {
        let k = #[trigger] previous_index(i1, items2[i].instance_id);
        0 <= k < i1.len() && i1[k] == items1[i]
    } by {
        let id = items2[i].instance_id;
        assert(id == items1[i].instance_id);
        let pr = |p: InstalledView| p.instance_id == id;
        assert(i1.contains(items1[i]));
        let q = choose|q: int| 0 <= q < i1.len() && i1[q] == items1[i];
        lemma_first_match_le(i1, pr, q);
        lemma_first_match_bounds(i1, pr);
        let k = previous_index(i1, id);
        assert(i1.contains(i1[k]));
        let j = choose|j: int| 0 <= j < n && items1[j] == i1[k];
        if j != i {
            assert(key(items1[i]) != key(items1[j]));
        }
    }

    // Nothing added or updated.
    assert forall|x: int| 0 <= x < i2.len() implies !is_added(i1, #[trigger] i2[x]) && !is_updated(i1, i2[x]) by {
        assert(i2.contains(i2[x]));
        let i = choose|i: int| 0 <= i < n && items2[i] == i2[x];
        let k = previous_index(i1, items2[i].instance_id);
        assert(0 <= k < i1.len() && i1[k] == items1[i]);
        assert forall|q: int| 0 <= q < i1.len() && #[trigger] i1[q].instance_id == i2[x].instance_id implies !(
            i1[q].dir_name != i2[x].dir_name || i1[q].install_path != i2[x].install_path
                || i1[q].skill_id != i2[x].skill_id || i1[q].source != i2[x].source) by {
            assert(i1.contains(i1[q]));
            let j = choose|j: int| 0 <= j < n && items1[j] == i1[q];
            if j != i {
                assert(key(items1[i]) != key(items1[j]));
            }
        }
    }
    lemma_filter_none(i2, |x: InstalledView| is_added(i1, x));
    lemma_filter_none(i2, |x: InstalledView| is_updated(i1, x));

    // Nothing removed.
    assert forall|q: int| 0 <= q < i1.len() implies !is_removed(i2, #[trigger] i1[q]) by {
        assert(i1.contains(i1[q]));
        let j = choose|j: int| 0 <= j < n && items1[j] == i1[q];
        assert(i2.contains(items2[j]));
        let r = choose|r: int| 0 <= r < i2.len() && i2[r] == items2[j];
        lemma_first_match_le(i2, |x: InstalledView| x.instance_id == i1[q].instance_id, r);
    }
    lemma_filter_none(i1, |p: InstalledView| is_removed(i2, p));

    // The same copies, with the new update time.
    let bump = |x: InstalledView| InstalledView { updated_at: timestamp(c2), ..x };
    assert forall|i: int| 0 <= i < n implies #[trigger] items2[i] == bump(items1[i]) by {
        let k = previous_index(i1, items2[i].instance_id);
        assert(0 <= k < i1.len() && i1[k] == items1[i]);
    }
    assert(items2 =~= items1.map_values(bump));
    lemma_keyed_fold_map(items1, bump, key);

    // Only missing `SKILL.md` files are reported.
    if names_listed(dirs) {
        lemma_rescan_issues(sd, dirs, c, c2, n);
        lemma_no_missing_issues(i1, present2);
        let up = issues_upto(sd, d2, n);
        assert(second.issues == up + missing_issues(i1, present2));
        assert forall|k: int| 0 <= k < second.issues.len()
            implies (#[trigger] second.issues[k]).code == "missing-skill-md"@ by {
            assert(second.issues[k] == up[k]);
        }
    }
}

} // verus!
