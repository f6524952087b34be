//! What holds of the library as a whole: properties that span functions or
//! hold for every input.
use vstd::prelude::*;
use crate::text::{
    trim, trim_start, trim_end, is_space, trim_char, trim_start_char, trim_end_char, before_char,
    char_index, lemma_char_index, lemma_char_index_bounds,
};
use crate::skill::names::{repo_is_valid, namespace_of, skill_id_of, skill_id_prefix, sanitized, sanitized_chars, sanitized_char, collapse_dashes, ascii_lower, is_ascii_alnum, display_name};
use crate::utils::unix_line_endings;
use crate::webdav::{WebDavPreset, preset_name, preset_named};
use crate::tui::{Tab, tab_after, tab_before};
use crate::sync::stale_files;
use crate::seqs::{first_match, lemma_first_match_bounds, lemma_first_match_le};
use crate::text::text_lt;
use crate::rescan::{ids_distinct, names_listed, lemma_path_join_distinct};
use crate::skill::keyed::{keyed_fold, keyed_by_last, from_last_item, last_of_key, lemma_keyed_fold_from_items, lemma_keyed_fold_keeps_all, lemma_keyed_fold_by_last};
use crate::skill::lookup::resolution;
use crate::skill::model::{InstalledView, SkillView};
use crate::skill::scan::{DirView, scan_view_of, scanned_installed, reconciled, path_join, installed_key, skill_key, skill_of, clock_after};
use crate::skill::manager::{StagedView, WorkspaceView, EffectView, file_response, new_metadata, metadata_ids, with_new_dir, skills_dir_of, scan_of, copy_index, after_scan, dirs_after_removal, remove_response, toggle_response, scan_effects};
use crate::skill::clock::{Clock, hex, hex_char, fresh_id, counter_after};
use crate::skill::add::{add_plan, AddPlanView, first_free_from, name_taken, numbered, dir_candidate, dir_name_choice};

verus! {

/// A character a directory name made by the store may hold.
pub open spec fn is_dir_name_char(c: char) -> bool {
    ('a' <= c && c <= 'z') || ('0' <= c && c <= '9') || c == '-' || c == '_' || c == '.'
}

/// No two `-` stand next to each other.
pub open spec fn no_double_dash(s: Seq<char>) -> bool {
    forall|i: int, j: int| 0 <= i && j == i + 1 && j < s.len() ==> !(#[trigger] s[i] == '-' && #[trigger] s[j] == '-')
}

proof fn lemma_sanitized_char_clean(c: char)
    ensures
        sanitized_char(c) matches Some(m) ==> is_dir_name_char(m),
{
    if 'A' <= c && c <= 'Z' {
        assert(65 <= (c as u32) <= 90);
        assert(97 <= (c as u32) + 32 <= 122);
    }
}

proof fn lemma_sanitized_chars_clean(s: Seq<char>)
    ensures
        forall|i: int| 0 <= i < sanitized_chars(s).len() ==> is_dir_name_char(#[trigger] sanitized_chars(s)[i]),
    decreases s.len(),
{
    if s.len() > 0 {
        lemma_sanitized_chars_clean(s.drop_last());
        lemma_sanitized_char_clean(s.last());
        let r = sanitized_chars(s.drop_last());
        match sanitized_char(s.last()) {
            Some(m) => {
                assert forall|i: int| 0 <= i < r.push(m).len() implies is_dir_name_char(#[trigger] r.push(m)[i]) by {
                    if i < r.len() {
                        assert(r.push(m)[i] == r[i]);
                    }
                }
            },
            None => {},
        }
    }
}

proof fn lemma_collapse(s: Seq<char>)
    requires
        forall|i: int| 0 <= i < s.len() ==> is_dir_name_char(#[trigger] s[i]),
    ensures
        no_double_dash(collapse_dashes(s)),
        forall|i: int| 0 <= i < collapse_dashes(s).len() ==> is_dir_name_char(#[trigger] collapse_dashes(s)[i]),
        s.len() > 0 ==> collapse_dashes(s).len() > 0 && collapse_dashes(s).last() == s.last(),
        s.len() == 0 ==> collapse_dashes(s).len() == 0,
    decreases s.len(),
{
    if s.len() > 0 {
        let t = s.drop_last();
        assert forall|i: int| 0 <= i < t.len() implies is_dir_name_char(#[trigger] t[i]) by {
            assert(t[i] == s[i]);
        }
        lemma_collapse(t);
        let ct = collapse_dashes(t);
        if s.len() >= 2 && s.last() == '-' && s[s.len() - 2] == '-' {
            assert(t.last() == s[s.len() - 2]);
        } else {
            let r = ct.push(s.last());
            assert(is_dir_name_char(s[s.len() - 1]));
            assert forall|i: int| 0 <= i < r.len() implies is_dir_name_char(#[trigger] r[i]) by {
                if i < ct.len() {
                    assert(r[i] == ct[i]);
                }
            }
            assert forall|i: int, j: int| 0 <= i && j == i + 1 && j < r.len() implies !(#[trigger] r[i] == '-' && #[trigger] r[j] == '-') by {
                if i < ct.len() - 1 {
                    assert(r[i] == ct[i] && r[j] == ct[j]);
                } else {
                    assert(i == ct.len() - 1);
                    assert(r[i] == ct.last());
                    if t.len() > 0 {
                        assert(ct.last() == t.last());
                        assert(t.last() == s[s.len() - 2]);
                    }
                }
            }
        }
    }
}

proof fn lemma_trim_start_char_suffix(s: Seq<char>, c: char)
    ensures
        exists|k: int| 0 <= k <= s.len() && trim_start_char(s, c) == s.skip(k),
        trim_start_char(s, c).len() > 0 ==> trim_start_char(s, c)[0] != c,
    decreases s.len(),
{
    if s.len() > 0 && s[0] == c {
        lemma_trim_start_char_suffix(s.drop_first(), c);
        let k = choose|k: int| 0 <= k <= s.drop_first().len() && trim_start_char(s.drop_first(), c) == s.drop_first().skip(k);
        assert(s.drop_first().skip(k) =~= s.skip(k + 1));
    } else {
        assert(s.skip(0) =~= s);
    }
}

proof fn lemma_trim_end_char_prefix(s: Seq<char>, c: char)
    ensures
        exists|k: int| 0 <= k <= s.len() && trim_end_char(s, c) == s.take(k),
        trim_end_char(s, c).len() > 0 ==> trim_end_char(s, c).last() != c,
    decreases s.len(),
{
    if s.len() > 0 && s.last() == c {
        lemma_trim_end_char_prefix(s.drop_last(), c);
        let k = choose|k: int| 0 <= k <= s.drop_last().len() && trim_end_char(s.drop_last(), c) == s.drop_last().take(k);
        assert(s.drop_last().take(k) =~= s.take(k));
    } else {
        assert(s.take(s.len() as int) =~= s);
    }
}

/// A piece of `s` from `a` to `b` keeps what holds of every character and
/// of every neighbouring pair of `s`.
proof fn lemma_trimmed_dash_clean(s: Seq<char>)
    requires
        forall|i: int| 0 <= i < s.len() ==> is_dir_name_char(#[trigger] s[i]),
        no_double_dash(s),
    ensures
        forall|i: int| 0 <= i < trim_char(s, '-').len() ==> is_dir_name_char(#[trigger] trim_char(s, '-')[i]),
        no_double_dash(trim_char(s, '-')),
        trim_char(s, '-').len() > 0 ==> trim_char(s, '-')[0] != '-' && trim_char(s, '-').last() != '-',
{
    lemma_trim_start_char_suffix(s, '-');
    let a = trim_start_char(s, '-');
    let k = choose|k: int| 0 <= k <= s.len() && a == s.skip(k);
    lemma_trim_end_char_prefix(a, '-');
    let b = trim_end_char(a, '-');
    let m = choose|m: int| 0 <= m <= a.len() && b == a.take(m);
    assert forall|i: int| 0 <= i < b.len() implies is_dir_name_char(#[trigger] b[i]) && b[i] == s[k + i] by {
        assert(b[i] == a[i]);
        assert(a[i] == s[k + i]);
    }
    assert forall|i: int, j: int| 0 <= i && j == i + 1 && j < b.len() implies !(#[trigger] b[i] == '-' && #[trigger] b[j] == '-') by {
        assert(b[i] == s[k + i] && b[j] == s[k + j]);
    }
    if b.len() > 0 {
        assert(b[0] == a[0]);
    }
}

/// A directory name the store makes from a name holds only lower-case
/// ASCII letters, digits, `-`, `_` and `.`, never two `-` in a row, and no
/// `-` at either end.
pub proof fn sanitized_is_clean(name: Seq<char>)
    ensures
        forall|i: int| 0 <= i < sanitized(name).len() ==> is_dir_name_char(#[trigger] sanitized(name)[i]),
        no_double_dash(sanitized(name)),
        sanitized(name).len() > 0 ==> sanitized(name)[0] != '-' && sanitized(name).last() != '-',
{
    let raw = sanitized_chars(name);
    lemma_sanitized_chars_clean(name);
    lemma_collapse(raw);
    lemma_trimmed_dash_clean(collapse_dashes(raw));
}

proof fn lemma_clean_chars_kept(s: Seq<char>)
    requires
        forall|i: int| 0 <= i < s.len() ==> is_dir_name_char(#[trigger] s[i]),
    ensures
        sanitized_chars(s) == s,
    decreases s.len(),
{
    if s.len() > 0 {
        let t = s.drop_last();
        assert forall|i: int| 0 <= i < t.len() implies is_dir_name_char(#[trigger] t[i]) by {
            assert(t[i] == s[i]);
        }
        lemma_clean_chars_kept(t);
        assert(is_dir_name_char(s[s.len() - 1]));
        assert(sanitized_char(s.last()) == Some(s.last()));
        assert(t.push(s.last()) =~= s);
    }
}

proof fn lemma_collapse_kept(s: Seq<char>)
    requires
        no_double_dash(s),
    ensures
        collapse_dashes(s) == s,
    decreases s.len(),
{
    if s.len() > 0 {
        let t = s.drop_last();
        assert forall|i: int, j: int| 0 <= i && j == i + 1 && j < t.len() implies !(#[trigger] t[i] == '-' && #[trigger] t[j] == '-') by {
            assert(t[i] == s[i] && t[j] == s[j]);
        }
        lemma_collapse_kept(t);
        if s.len() >= 2 {
            let i = s.len() - 2;
            let j = s.len() - 1;
            assert(!(s[i] == '-' && s[j] == '-'));
        }
        assert(t.push(s.last()) =~= s);
    }
}

proof fn lemma_trim_char_kept(s: Seq<char>, c: char)
    requires
        s.len() > 0 ==> s[0] != c && s.last() != c,
    ensures
        trim_char(s, c) == s,
{
}

/// Sanitizing is idempotent: a directory name the store made is its own
/// sanitized form.
pub proof fn sanitized_idempotent(name: Seq<char>)
    ensures
        sanitized(sanitized(name)) == sanitized(name),
{
    let n = sanitized(name);
    sanitized_is_clean(name);
    lemma_clean_chars_kept(n);
    lemma_collapse_kept(n);
    lemma_trim_char_kept(n, '-');
}

/// The namespace read back from a new skill id is the sanitized namespace
/// it was made from.
pub proof fn namespace_of_new_skill_id(namespace: Seq<char>, name: Seq<char>)
    ensures
        namespace_of(skill_id_of(namespace, name)) == sanitized(namespace),
{
    let ns = sanitized(namespace);
    let id = skill_id_of(namespace, name);
    sanitized_is_clean(namespace);
    assert(id.subrange(0, 6) =~= skill_id_prefix());
    let rest = id.skip(6);
    assert(rest =~= ns + seq!['/'] + sanitized(name));
    assert forall|j: int| 0 <= j < ns.len() implies rest[j] != '/' by {
        assert(rest[j] == ns[j]);
        assert(is_dir_name_char(ns[j]));
    }
    assert(rest[ns.len() as int] == '/');
    lemma_char_index(rest, '/', ns.len() as int);
    assert(rest.take(ns.len() as int) =~= ns);
}

/// `github-` followed by a clean name is its own sanitized form; `github-`
/// alone sanitizes to `github`.
proof fn lemma_github_namespace_sanitized(x: Seq<char>)
    requires
        forall|i: int| 0 <= i < x.len() ==> is_dir_name_char(#[trigger] x[i]),
        no_double_dash(x),
        x.len() > 0 ==> x[0] != '-' && x.last() != '-',
    ensures
        sanitized("github-"@ + x) == (if x.len() == 0 { "github"@ } else { "github-"@ + x }),
{
    reveal_strlit("github-");
    reveal_strlit("github");
    let g = "github-"@;
    let s = g + x;
    assert forall|i: int| 0 <= i < s.len() implies is_dir_name_char(#[trigger] s[i]) by {
        if i >= 7 {
            assert(s[i] == x[i - 7]);
        }
    }
    lemma_clean_chars_kept(s);
    if x.len() == 0 {
        assert(s =~= g);
        assert(no_double_dash(g));
        lemma_collapse_kept(g);
        assert(crate::text::trim_start_char(g, '-') == g);
        assert(g.drop_last() =~= "github"@);
        assert(crate::text::trim_end_char(g, '-') == crate::text::trim_end_char("github"@, '-'));
        assert(crate::text::trim_end_char("github"@, '-') == "github"@);
    } else {
        assert forall|i: int, j: int| 0 <= i && j == i + 1 && j < s.len() implies !(#[trigger] s[i] == '-' && #[trigger] s[j] == '-') by {
            if i >= 7 {
                assert(s[i] == x[i - 7] && s[j] == x[j - 7]);
            } else if i == 6 {
                assert(s[j] == x[0]);
            }
        }
        lemma_collapse_kept(s);
        assert(s.last() == x.last());
        lemma_trim_char_kept(s, '-');
    }
}

/// The namespace of a skill added from GitHub is `github-` followed by the
/// repository, with each `/` turned into `-`, sanitized. So two repositories
/// whose sanitized forms differ give different namespaces, and the skills
/// filed from them get different skill ids, whatever is staged and
/// whenever: the namespace a new skill id carries is the plan's namespace
/// or its sanitized form, and neither is shared.
pub proof fn github_namespace_names_the_repo(
    repo1: Seq<char>,
    repo2: Seq<char>,
    ref1: Option<Seq<char>>,
    ref2: Option<Seq<char>>,
    sub1: Option<Seq<char>>,
    sub2: Option<Seq<char>>,
    home: Option<Seq<char>>,
    c1: Clock,
    c2: Clock,
    st1: StagedView,
    st2: StagedView,
    k1: Clock,
    k2: Clock,
)
    requires
        repo_is_valid(repo1),
        repo_is_valid(repo2),
    ensures
        ({
            let d1 = sanitized(repo1.map_values(|ch: char| if ch == '/' { '-' } else { ch }));
            let d2 = sanitized(repo2.map_values(|ch: char| if ch == '/' { '-' } else { ch }));
            &&& add_plan(None, Some(repo1), ref1, sub1, home, c1) matches Ok(p1)
            &&& add_plan(None, Some(repo2), ref2, sub2, home, c2) matches Ok(p2)
            &&& p1.namespace == "github-"@ + d1
            &&& d1 != d2 ==> p1.namespace != p2.namespace
                && new_metadata(p1, st1, k1).skill_id != new_metadata(p2, st2, k2).skill_id
        }),
{
    let d1 = sanitized(repo1.map_values(|ch: char| if ch == '/' { '-' } else { ch }));
    let d2 = sanitized(repo2.map_values(|ch: char| if ch == '/' { '-' } else { ch }));
    assert(crate::skill::add::slash_to_dash(repo1) =~= repo1.map_values(|ch: char| if ch == '/' { '-' } else { ch }));
    assert(crate::skill::add::slash_to_dash(repo2) =~= repo2.map_values(|ch: char| if ch == '/' { '-' } else { ch }));
    let p1 = add_plan(None, Some(repo1), ref1, sub1, home, c1)->Ok_0;
    let p2 = add_plan(None, Some(repo2), ref2, sub2, home, c2)->Ok_0;
    assert(p1.namespace == "github-"@ + d1);
    assert(p2.namespace == "github-"@ + d2);
    if d1 != d2 {
        reveal_strlit("github-");
        reveal_strlit("github");
        assert(p1.namespace != p2.namespace) by {
            if p1.namespace == p2.namespace {
                assert(p1.namespace.skip(7) =~= d1);
                assert(p2.namespace.skip(7) =~= d2);
            }
        }
        sanitized_is_clean(repo1.map_values(|ch: char| if ch == '/' { '-' } else { ch }));
        sanitized_is_clean(repo2.map_values(|ch: char| if ch == '/' { '-' } else { ch }));
        lemma_github_namespace_sanitized(d1);
        lemma_github_namespace_sanitized(d2);
        lemma_new_skill_namespace(p1, st1, k1);
        lemma_new_skill_namespace(p2, st2, k2);
        let n1 = namespace_of(new_metadata(p1, st1, k1).skill_id);
        let n2 = namespace_of(new_metadata(p2, st2, k2).skill_id);
        let g1 = sanitized(p1.namespace);
        let g2 = sanitized(p2.namespace);
        assert(n1 == p1.namespace || n1 == g1);
        assert(n2 == p2.namespace || n2 == g2);
        if d1.len() > 0 && d2.len() > 0 {
            assert(n1 != n2);
        } else if d1.len() == 0 {
            assert(p2.namespace.len() >= 8 && g2.len() >= 8);
            assert(p1.namespace.len() == 7 && g1.len() == 6);
            assert(n1 != n2);
        } else {
            assert(p1.namespace.len() >= 8 && g1.len() >= 8);
            assert(p2.namespace.len() == 7 && g2.len() == 6);
            assert(n1 != n2);
        }
    }
}

/// The namespace a newly filed skill id carries is the plan's namespace, or
/// its sanitized form when the id was made anew.
proof fn lemma_new_skill_namespace(plan: AddPlanView, st: StagedView, c: Clock)
    ensures
        namespace_of(new_metadata(plan, st, c).skill_id) == plan.namespace
            || namespace_of(new_metadata(plan, st, c).skill_id) == sanitized(plan.namespace),
{
    let m = new_metadata(plan, st, c);
    let hint = crate::skill::manager::name_hint(plan, st);
    namespace_of_new_skill_id(plan.namespace, hint);
    let now = crate::skill::clock::timestamp(c);
    let base = match st.metadata {
        Some(mm) => mm,
        None => crate::skill::model::MetadataView {
            instance_id: fresh_id(c, 0),
            skill_id: skill_id_of(plan.namespace, hint),
            name: hint,
            description: crate::skill::manager::staged_description(st),
            source: plan.source_kind,
            created_at: now,
            updated_at: now,
            domains: Seq::empty(),
            modules: Seq::empty(),
        },
    };
    namespace_of_new_skill_id(plan.namespace, base.name);
}

/// Reading the name a preset is written by gives the preset back.
pub proof fn preset_name_round_trip(p: WebDavPreset)
    ensures
        preset_named(preset_name(p)) == Some(p),
{
    reveal_strlit("jianguoyun");
    reveal_strlit("custom");
    reveal_strlit("坚果云");
    reveal_strlit("自定义");
    assert("jianguoyun"@.len() == 10 && "custom"@.len() == 6);
    assert("坚果云"@.len() == 3 && "自定义"@.len() == 3);
}

/// Moving one tab on and one tab back, or back and then on, returns to the
/// tab one started from.
pub proof fn tab_steps_undo(t: Tab)
    ensures
        tab_before(tab_after(t)) == t,
        tab_after(tab_before(t)) == t,
{
}

proof fn lemma_trim_start_suffix(s: Seq<char>)
    ensures
        exists|k: int| 0 <= k <= s.len() && trim_start(s) == s.skip(k),
        trim_start(s).len() > 0 ==> !is_space(trim_start(s)[0]),
    decreases s.len(),
{
    if s.len() > 0 && is_space(s[0]) {
        lemma_trim_start_suffix(s.drop_first());
        let k = choose|k: int| 0 <= k <= s.drop_first().len() && trim_start(s.drop_first()) == s.drop_first().skip(k);
        assert(s.drop_first().skip(k) =~= s.skip(k + 1));
    } else {
        assert(s.skip(0) =~= s);
    }
}

proof fn lemma_trim_end_prefix(s: Seq<char>)
    ensures
        exists|k: int| 0 <= k <= s.len() && trim_end(s) == s.take(k),
        trim_end(s).len() > 0 ==> !is_space(trim_end(s).last()),
    decreases s.len(),
{
    if s.len() > 0 && is_space(s.last()) {
        lemma_trim_end_prefix(s.drop_last());
        let k = choose|k: int| 0 <= k <= s.drop_last().len() && trim_end(s.drop_last()) == s.drop_last().take(k);
        assert(s.drop_last().take(k) =~= s.take(k));
    } else {
        assert(s.take(s.len() as int) =~= s);
    }
}

/// What trimming leaves: a piece of the text, with no white space at
/// either end.
proof fn lemma_trim_piece(s: Seq<char>)
    ensures
        exists|a: int, b: int| 0 <= a <= b <= s.len() && trim(s) == s.subrange(a, b),
        trim(s).len() > 0 ==> !is_space(trim(s)[0]) && !is_space(trim(s).last()),
{
    lemma_trim_start_suffix(s);
    let t = trim_start(s);
    let a = choose|k: int| 0 <= k <= s.len() && t == s.skip(k);
    lemma_trim_end_prefix(t);
    let b = choose|k: int| 0 <= k <= t.len() && trim_end(t) == t.take(k);
    assert(t.take(b) =~= s.subrange(a, a + b));
    if trim(s).len() > 0 {
        assert(trim(s)[0] == t[0]);
    }
}

proof fn lemma_trim_kept(s: Seq<char>)
    requires
        s.len() > 0 ==> !is_space(s[0]) && !is_space(s.last()),
    ensures
        trim(s) == s,
{
}

/// Trimming twice trims no more than once.
proof fn lemma_trim_idempotent(s: Seq<char>)
    ensures
        trim(trim(s)) == trim(s),
{
    lemma_trim_piece(s);
    lemma_trim_kept(trim(s));
}

proof fn lemma_before_char_free(s: Seq<char>, c: char)
    ensures
        !before_char(s, c).contains(c),
{
    lemma_char_index_bounds(s, c);
    let b = before_char(s, c);
    assert forall|j: int| 0 <= j < b.len() implies b[j] != c by {
        assert(b[j] == s[j]);
    }
}

proof fn lemma_before_char_kept(s: Seq<char>, c: char)
    requires
        !s.contains(c),
    ensures
        before_char(s, c) == s,
{
    assert forall|j: int| 0 <= j < s.len() implies s[j] != c by {
        if s[j] == c {
            assert(s.contains(c));
        }
    }
    lemma_char_index(s, c, s.len() as int);
    assert(s.take(s.len() as int) =~= s);
}

/// A display name holds no `~`, and showing a display name again changes
/// nothing.
pub proof fn display_name_idempotent(dir_name: Seq<char>)
    ensures
        !display_name(dir_name).contains('~'),
        display_name(display_name(dir_name)) == display_name(dir_name),
{
    let b = before_char(dir_name, '~');
    lemma_before_char_free(dir_name, '~');
    lemma_trim_piece(b);
    let d = trim(b);
    let (x, y) = choose|x: int, y: int| 0 <= x <= y <= b.len() && d == b.subrange(x, y);
    if d.contains('~') {
        let j = choose|j: int| 0 <= j < d.len() && d[j] == '~';
        assert(b[x + j] == '~');
        assert(b.contains('~'));
    }
    lemma_before_char_kept(d, '~');
    lemma_trim_idempotent(b);
}

proof fn lemma_first_free(candidate: Seq<char>, names: Seq<Seq<char>>, from: nat)
    ensures
        first_free_from(candidate, names, from) matches Some(n) ==> !name_taken(names, n)
            && exists|k: nat| n == numbered(candidate, k),
    decreases 1000 - from,
{
    if from < 1000 && name_taken(names, numbered(candidate, from)) {
        lemma_first_free(candidate, names, from + 1);
    }
}

/// The directory name a skill name asks for holds no `~` and no white space
/// at either end.
proof fn lemma_candidate_plain(name: Seq<char>)
    ensures
        !dir_candidate(name).contains('~'),
        dir_candidate(name).len() > 0,
        !is_space(dir_candidate(name)[0]),
        !is_space(dir_candidate(name).last()),
{
    reveal_strlit("skill");
    let c = dir_candidate(name);
    if sanitized(name).len() == 0 {
        assert(c =~= seq!['s', 'k', 'i', 'l', 'l']);
        if c.contains('~') {
            let j = choose|j: int| 0 <= j < c.len() && c[j] == '~';
        }
    } else {
        sanitized_is_clean(name);
        assert(is_dir_name_char(c[0]));
        assert(is_dir_name_char(c[c.len() - 1]));
        if c.contains('~') {
            let j = choose|j: int| 0 <= j < c.len() && c[j] == '~';
            assert(is_dir_name_char(c[j]));
        }
    }
}

/// The directory a new skill gets is free, and it shows as the name the
/// skill asked for, whichever `~k` it had to take.
pub proof fn chosen_dir_is_free_and_shows_name(name: Seq<char>, names: Seq<Seq<char>>)
    ensures
        dir_name_choice(name, names) matches Some(n) ==> !name_taken(names, n)
            && display_name(n) == dir_candidate(name),
{
    let c = dir_candidate(name);
    lemma_candidate_plain(name);
    lemma_first_free(c, names, 2);
    lemma_trim_kept(c);
    if let Some(n) = dir_name_choice(name, names) {
        if n == c {
            lemma_before_char_kept(c, '~');
        } else {
            let k = choose|k: nat| n == numbered(c, k);
            assert forall|j: int| 0 <= j < c.len() implies n[j] != '~' by {
                assert(n[j] == c[j]);
                if c[j] == '~' {
                    assert(c.contains('~'));
                }
            }
            assert(n[c.len() as int] == '~');
            lemma_char_index(n, '~', c.len() as int);
            assert(n.take(c.len() as int) =~= c);
        }
    }
}

/// Normalized text holds no `\r`, and normalizing it again changes nothing.
pub proof fn line_endings_normalized(s: Seq<char>)
    ensures
        !unix_line_endings(s).contains('\r'),
        unix_line_endings(unix_line_endings(s)) == unix_line_endings(s),
    decreases s.len(),
{
    if s.len() > 0 {
        let rest = if s[0] == '\r' && s.len() >= 2 && s[1] == '\n' { s.skip(2) } else { s.skip(1) };
        line_endings_normalized(rest);
        let r = unix_line_endings(rest);
        let head = if s[0] == '\r' { '\n' } else { s[0] };
        let out = unix_line_endings(s);
        assert(out =~= seq![head] + r);
        assert forall|j: int| 0 <= j < out.len() implies out[j] != '\r' by {
            if j > 0 {
                assert(out[j] == r[j - 1]);
                if r[j - 1] == '\r' {
                    assert(r.contains('\r'));
                }
            }
        }
        if out.contains('\r') {
            let j = choose|j: int| 0 <= j < out.len() && out[j] == '\r';
        }
        assert(out.skip(1) =~= r);
        assert(out[0] != '\r');
    }
}

/// A push never deletes a file it uploads: it deletes exactly the files the
/// remote manifest lists that are not uploaded.
pub proof fn push_deletes_only_stale(manifest: Seq<Seq<char>>, local: Seq<Seq<char>>)
    ensures
        forall|f: Seq<char>| #[trigger] stale_files(manifest, local).contains(f)
            <==> manifest.contains(f) && !local.contains(f),
{
    let p = |f: Seq<char>| !local.contains(f);
    assert forall|f: Seq<char>| #[trigger] stale_files(manifest, local).contains(f)
        <==> manifest.contains(f) && !local.contains(f) by {
        if stale_files(manifest, local).contains(f) {
            manifest.lemma_filter_contains_rev(p, f);
            let j = choose|j: int| 0 <= j < manifest.filter(p).len() && manifest.filter(p)[j] == f;
            manifest.lemma_filter_pred(p, j);
        }
        if manifest.contains(f) && !local.contains(f) {
            let i = choose|i: int| 0 <= i < manifest.len() && manifest[i] == f;
            manifest.lemma_filter_contains(p, i);
        }
    }
}

proof fn lemma_hex_char_injective(a: nat, b: nat)
    requires
        a < 16,
        b < 16,
        hex_char(a) == hex_char(b),
    ensures
        a == b,
{
}

proof fn lemma_hex_len(n: nat)
    ensures
        hex(n).len() >= 1,
        n >= 16 ==> hex(n).len() >= 2,
    decreases n,
{
    if n >= 16 {
        lemma_hex_len(n / 16);
    }
}

proof fn lemma_hex_injective(a: nat, b: nat)
    requires
        hex(a) == hex(b),
    ensures
        a == b,
    decreases a,
{
    lemma_hex_len(a);
    lemma_hex_len(b);
    if a < 16 {
        assert(b < 16);
        assert(hex(a) == seq![hex_char(a)]);
        assert(hex(b) == seq![hex_char(b)]);
        assert(hex(a)[0] == hex_char(a));
        assert(hex(b)[0] == hex_char(b));
        lemma_hex_char_injective(a, b);
    } else {
        assert(b >= 16);
        assert(hex(a) == hex(a / 16).push(hex_char(a % 16)));
        assert(hex(b) == hex(b / 16).push(hex_char(b % 16)));
        assert(hex(a).last() == hex_char(a % 16));
        assert(hex(b).last() == hex_char(b % 16));
        lemma_hex_char_injective(a % 16, b % 16);
        assert(hex(a).drop_last() =~= hex(a / 16));
        assert(hex(b).drop_last() =~= hex(b / 16));
        lemma_hex_injective(a / 16, b / 16);
    }
}

/// The instance ids a clock hands out are all different: the `j`-th and the
/// `k`-th differ whenever `j` and `k` do, within one turn of the counter.
pub proof fn fresh_ids_distinct(c: Clock, j: nat, k: nat)
    requires
        j < 0x1_0000_0000_0000_0000,
        k < 0x1_0000_0000_0000_0000,
        j != k,
    ensures
        fresh_id(c, j) != fresh_id(c, k),
{
    let a = counter_after(c.next_id, j);
    let b = counter_after(c.next_id, k);
    let m: int = 0x1_0000_0000_0000_0000;
    assert(a != b) by {
        let x = c.next_id as int + j;
        let y = c.next_id as int + k;
        assert(0 <= x < 2 * m && 0 <= y < 2 * m);
        assert(x % m == (if x >= m { x - m } else { x })) by (nonlinear_arith)
            requires 0 <= x < 2 * m, m == 0x1_0000_0000_0000_0000;
        assert(y % m == (if y >= m { y - m } else { y })) by (nonlinear_arith)
            requires 0 <= y < 2 * m, m == 0x1_0000_0000_0000_0000;
    }
    let p = "inst_"@ + hex(c.millis as nat);
    if fresh_id(c, j) == fresh_id(c, k) {
        assert(fresh_id(c, j).skip(p.len() as int) =~= hex(a as nat));
        assert(fresh_id(c, k).skip(p.len() as int) =~= hex(b as nat));
        lemma_hex_injective(a as nat, b as nat);
    }
}

/// A lower-case hexadecimal digit.
pub open spec fn is_lower_hex(ch: char) -> bool {
    ('0' <= ch && ch <= '9') || ('a' <= ch && ch <= 'f')
}

proof fn lemma_hex_digits(n: nat)
    ensures
        forall|q: int| 0 <= q < hex(n).len() ==> is_lower_hex(#[trigger] hex(n)[q]),
    decreases n,
{
    if n < 16 {
        assert(hex(n)[0] == hex_char(n));
    } else {
        lemma_hex_digits(n / 16);
        let h = hex(n / 16);
        assert(hex(n) == h.push(hex_char(n % 16)));
        assert forall|q: int| 0 <= q < hex(n).len() implies is_lower_hex(#[trigger] hex(n)[q]) by {
            if q < h.len() {
                assert(hex(n)[q] == h[q]);
            }
        }
    }
}

proof fn lemma_hex_len_grows(a: nat, b: nat)
    requires
        a <= b,
    ensures
        hex(a).len() <= hex(b).len(),
    decreases b,
{
    lemma_hex_len(a);
    lemma_hex_len(b);
    if a >= 16 {
        assert(a / 16 <= b / 16) by (nonlinear_arith)
            requires a <= b;
        lemma_hex_len_grows(a / 16, b / 16);
        assert(hex(a).len() == hex(a / 16).len() + 1);
        assert(hex(b).len() == hex(b / 16).len() + 1);
    }
}

/// An instance id is `inst_` followed by lower-case hexadecimal digits; and
/// an id drawn later in the same process, from a clock reading no earlier in
/// milliseconds and at a later value of the process's counter, differs from
/// an earlier one, as long as the counter has not gone round.
pub proof fn later_instance_ids_differ(c1: Clock, j: nat, c2: Clock, k: nat)
    requires
        c1.millis <= c2.millis,
        c1.next_id + j < c2.next_id + k,
        c2.next_id + k < 0x1_0000_0000_0000_0000,
    ensures
        fresh_id(c1, j) != fresh_id(c2, k),
        fresh_id(c2, k).len() > 5,
        fresh_id(c2, k).take(5) == "inst_"@,
        forall|q: int| 5 <= q < fresh_id(c2, k).len() ==> is_lower_hex(#[trigger] fresh_id(c2, k)[q]),
{
    reveal_strlit("inst_");
    let m: int = 0x1_0000_0000_0000_0000;
    let a = counter_after(c1.next_id, j);
    let b = counter_after(c2.next_id, k);
    assert((c1.next_id + j) % m == c1.next_id + j) by (nonlinear_arith)
        requires 0 <= c1.next_id + j < m;
    assert((c2.next_id + k) % m == c2.next_id + k) by (nonlinear_arith)
        requires 0 <= c2.next_id + k < m;
    assert(a < b);
    let h1 = hex(c1.millis as nat);
    let h2 = hex(c2.millis as nat);
    let g1 = hex(a as nat);
    let g2 = hex(b as nat);
    let id1 = fresh_id(c1, j);
    let id2 = fresh_id(c2, k);
    assert(id1 == "inst_"@ + h1 + g1);
    assert(id2 == "inst_"@ + h2 + g2);
    lemma_hex_len(c2.millis as nat);
    lemma_hex_len(b as nat);
    lemma_hex_digits(c2.millis as nat);
    lemma_hex_digits(b as nat);
    assert(id2.take(5) =~= "inst_"@);
    assert forall|q: int| 5 <= q < id2.len() implies is_lower_hex(#[trigger] id2[q]) by {
        if q < 5 + h2.len() {
            assert(id2[q] == h2[q - 5]);
        } else {
            assert(id2[q] == g2[q - 5 - h2.len()]);
        }
    }
    if id1 == id2 {
        lemma_hex_len_grows(c1.millis as nat, c2.millis as nat);
        lemma_hex_len_grows(a as nat, b as nat);
        assert(h1.len() == h2.len() && g1.len() == g2.len());
        assert(id1.skip(5 + h1.len() as int) =~= g1);
        assert(id2.skip(5 + h2.len() as int) =~= g2);
        lemma_hex_injective(a as nat, b as nat);
    }
}

/// `skill remove` deletes the copy's directory, and the scan that follows
/// lists no copy at that place.
pub proof fn removed_copy_is_gone(sd: Seq<char>, ws: WorkspaceView, c: Clock, id: Seq<char>)
    ensures
        ({
            let scan = scan_of(sd, ws, c);
            let k = copy_index(scan, id);
            k < scan.installed_skills.len() ==> {
                let removed = scan.installed_skills[k].install_path;
                let c1 = after_scan(ws.dirs, c);
                let dirs2 = dirs_after_removal(sd, ws.dirs, c, removed);
                let present2 = scan.installed_skills.map_values(|x: InstalledView| x.install_path != removed);
                let scan2 = scan_view_of(sd, dirs2, scan.installed_skills, present2, c1);
                let r = remove_response(sd, ws, c, id).0;
                &&& r.effects.contains(EffectView::RemoveDir(removed))
                &&& r.effects.last() == EffectView::WriteInstalledRegistry(scan2.installed_skills)
                &&& forall|j: int| 0 <= j < scan2.installed_skills.len()
                    ==> (#[trigger] scan2.installed_skills[j]).install_path != removed
            }
        }),
{
    let scan = scan_of(sd, ws, c);
    let k = copy_index(scan, id);
    if k < scan.installed_skills.len() {
        let removed = scan.installed_skills[k].install_path;
        let c1 = after_scan(ws.dirs, c);
        let dirs2 = dirs_after_removal(sd, ws.dirs, c, removed);
        let present2 = scan.installed_skills.map_values(|x: InstalledView| x.install_path != removed);
        let scan2 = scan_view_of(sd, dirs2, scan.installed_skills, present2, c1);
        let fx = scan_effects(sd, ws.dirs, c, scan);
        let r = remove_response(sd, ws, c, id).0;
        assert(r.effects == fx.push(EffectView::RemoveDir(removed)) + scan_effects(sd, dirs2, c1, scan2));
        assert(r.effects[fx.len() as int] == EffectView::RemoveDir(removed));
        let items = Seq::new(dirs2.len(), |i: int| scanned_installed(sd, dirs2, i, scan.installed_skills, c1));
        let pred = |d: DirView| path_join(sd, d.dir_name) != removed;
        let all = Seq::new(
            ws.dirs.len(),
            |i: int|
                DirView {
                    dir_name: ws.dirs[i].dir_name,
                    metadata: Some(reconciled(ws.dirs, i, c)),
                    has_skill_md: ws.dirs[i].has_skill_md,
                    skill_md: ws.dirs[i].skill_md,
                },
        );
        assert(dirs2 == all.filter(pred));
        assert forall|i: int| 0 <= i < items.len() implies (#[trigger] items[i]).install_path != removed by {
            all.lemma_filter_pred(pred, i);
        }
        lemma_keyed_fold_from_items(items, installed_key());
        assert(scan2.installed_skills == keyed_fold(items, installed_key()));
        assert forall|j: int| 0 <= j < scan2.installed_skills.len()
            implies (#[trigger] scan2.installed_skills[j]).install_path != removed by {
            let x = keyed_fold(items, installed_key())[j];
            assert(items.contains(x));
            let i = choose|i: int| 0 <= i < items.len() && items[i] == x;
        }
    }
}

/// `skill enable` and `skill disable` change nothing but the named copy's
/// state in the installed registry: no directory is removed or copied, and
/// the registry written last lists the same copies, the named one switched
/// as asked.
pub proof fn toggle_changes_only_state(sd: Seq<char>, ws: WorkspaceView, c: Clock, id: Seq<char>, enabled: bool)
    ensures
        ({
            let scan = scan_of(sd, ws, c);
            let k = copy_index(scan, id);
            let r = toggle_response(sd, ws, c, id, enabled).0;
            &&& forall|j: int| 0 <= j < r.effects.len() ==> !(#[trigger] r.effects[j] is RemoveDir)
                && !(r.effects[j] is CopyStaged)
            &&& (k < scan.installed_skills.len() ==> r.result is Ok && {
                let after = r.effects.last()->WriteInstalledRegistry_0;
                &&& r.effects.last() is WriteInstalledRegistry
                &&& after.len() == scan.installed_skills.len()
                &&& after[k].instance_id == id
                &&& after[k].enabled == enabled
                &&& forall|j: int| 0 <= j < after.len() && j != k ==> #[trigger] after[j] == scan.installed_skills[j]
            })
            &&& (k >= scan.installed_skills.len() ==> r.result is Err)
        }),
{
    let scan = scan_of(sd, ws, c);
    let k = copy_index(scan, id);
    let fx = scan_effects(sd, ws.dirs, c, scan);
    lemma_first_match_bounds(scan.installed_skills, |x: InstalledView| x.instance_id == id);
}

/// `skill add` files the staged skill under the directory it chose: it
/// copies the skill there, and the installed registry it writes lists a
/// copy in that directory, provided the scan that follows gives every
/// directory its own instance id.
pub proof fn added_skill_is_listed(data_dir: Seq<char>, p: AddPlanView, ws: WorkspaceView, c1: Clock, t: Seq<char>)
    requires
        !(p.source is Local && !ws.staged.found),
        dir_name_choice(new_metadata(p, ws.staged, c1).name, ws.entry_names) == Some(t),
        ids_distinct(
            with_new_dir(
                ws.dirs,
                DirView {
                    dir_name: t,
                    metadata: Some(new_metadata(p, ws.staged, c1)),
                    has_skill_md: ws.staged.has_skill_md,
                    skill_md: ws.staged.skill_md,
                },
            ),
            clock_after(c1, metadata_ids(ws.staged)),
        ),
    ensures
        ({
            let r = file_response(data_dir, p, ws, c1).0;
            let target = path_join(skills_dir_of(data_dir), t);
            &&& r.result is Ok
            &&& r.effects[0] == EffectView::CopyStaged(target)
            &&& r.effects.last() is WriteInstalledRegistry
            &&& exists|k: int| #![trigger r.effects.last()->WriteInstalledRegistry_0[k]]
                0 <= k < r.effects.last()->WriteInstalledRegistry_0.len()
                && r.effects.last()->WriteInstalledRegistry_0[k].dir_name == t
                && r.effects.last()->WriteInstalledRegistry_0[k].install_path == target
        }),
{
    let sd = skills_dir_of(data_dir);
    let m = new_metadata(p, ws.staged, c1);
    let c2 = clock_after(c1, metadata_ids(ws.staged));
    let target = path_join(sd, t);
    let nd = DirView { dir_name: t, metadata: Some(m), has_skill_md: ws.staged.has_skill_md, skill_md: ws.staged.skill_md };
    let dirs2 = with_new_dir(ws.dirs, nd);
    let present2 = Seq::new(ws.previous.len(), |k: int| ws.present[k] || ws.previous[k].install_path == target);
    let scan = scan_view_of(sd, dirs2, ws.previous, present2, c2);
    let r = file_response(data_dir, p, ws, c1).0;
    assert(r.effects == seq![EffectView::CopyStaged(target), EffectView::WriteMetadata(target, m)] + scan_effects(sd, dirs2, c2, scan));
    let fx = scan_effects(sd, dirs2, c2, scan);
    assert(r.effects.last() == fx.last());
    assert(fx.last() == EffectView::WriteInstalledRegistry(scan.installed_skills));
    let pos = first_match(ws.dirs, |x: DirView| text_lt(nd.dir_name, x.dir_name));
    lemma_first_match_bounds(ws.dirs, |x: DirView| text_lt(nd.dir_name, x.dir_name));
    assert(dirs2[pos] == nd);
    let items = Seq::new(dirs2.len(), |i: int| scanned_installed(sd, dirs2, i, ws.previous, c2));
    let key = installed_key();
    assert forall|i: int, j: int| 0 <= i < items.len() && 0 <= j < items.len() && i != j
        implies #[trigger] key(items[i]) != #[trigger] key(items[j]) by {
        assert(reconciled(dirs2, i, c2).instance_id != reconciled(dirs2, j, c2).instance_id);
    }
    lemma_keyed_fold_keeps_all(items, key);
    assert(scan.installed_skills == keyed_fold(items, key));
    assert(scan.installed_skills.contains(items[pos]));
    let k = choose|k: int| 0 <= k < scan.installed_skills.len() && scan.installed_skills[k] == items[pos];
    let list = r.effects.last()->WriteInstalledRegistry_0;
    assert(list == scan.installed_skills);
    assert(list[k].dir_name == t && list[k].install_path == target);
}

/// A scan lists each skill id and each instance id once, in order; every
/// directory's instance id and skill id is among them, and each listed copy
/// and skill is the one of the last directory that has its id.
pub proof fn scan_lists_each_id_once(
    sd: Seq<char>,
    dirs: Seq<DirView>,
    previous: Seq<InstalledView>,
    present: Seq<bool>,
    c: Clock,
)
    ensures
        ({
            let scan = scan_view_of(sd, dirs, previous, present, c);
            let n = dirs.len();
            &&& keyed_by_last(scan.skills, Seq::new(n, |i: int| skill_of(reconciled(dirs, i, c))), skill_key())
            &&& keyed_by_last(
                scan.installed_skills,
                Seq::new(n, |i: int| scanned_installed(sd, dirs, i, previous, c)),
                installed_key(),
            )
        }),
{
    let n = dirs.len();
    lemma_keyed_fold_by_last(Seq::new(n, |i: int| skill_of(reconciled(dirs, i, c))), skill_key());
    lemma_keyed_fold_by_last(Seq::new(n, |i: int| scanned_installed(sd, dirs, i, previous, c)), installed_key());
}

/// A scan holds exactly one installed copy for each skill directory: as many
/// copies as directories, each at its directory's place and with its name,
/// every directory among them, and no place twice; provided the scan gives
/// each directory its own instance id and the names are as a directory
/// listing gives them.
#[verifier::spinoff_prover]
#[verifier::rlimit(40)]
pub proof fn scan_holds_one_copy_per_directory(
    sd: Seq<char>,
    dirs: Seq<DirView>,
    previous: Seq<InstalledView>,
    present: Seq<bool>,
    c: Clock,
)
    requires
        ids_distinct(dirs, c),
        names_listed(dirs),
    ensures
        ({
            let inst = scan_view_of(sd, dirs, previous, present, c).installed_skills;
            &&& inst.len() == dirs.len()
            &&& forall|i: int| 0 <= i < dirs.len() ==> exists|k: int| 0 <= k < inst.len()
                && (#[trigger] inst[k]).dir_name == (#[trigger] dirs[i]).dir_name
                && inst[k].install_path == path_join(sd, dirs[i].dir_name)
            &&& forall|k: int| 0 <= k < inst.len() ==> exists|i: int| 0 <= i < dirs.len()
                && (#[trigger] inst[k]).dir_name == (#[trigger] dirs[i]).dir_name
                && inst[k].install_path == path_join(sd, dirs[i].dir_name)
            &&& forall|a: int, b: int| 0 <= a < b < inst.len()
                ==> (#[trigger] inst[a]).install_path != (#[trigger] inst[b]).install_path
        }),
{
    let n = dirs.len() as int;
    let inst = scan_view_of(sd, dirs, previous, present, c).installed_skills;
    let items = Seq::new(n as nat, |i: int| scanned_installed(sd, dirs, i, previous, c));
    let key = installed_key();
    assert forall|i: int, j: int| 0 <= i < n && 0 <= j < n && i != j
        implies #[trigger] key(items[i]) != #[trigger] key(items[j]) by {
        assert(reconciled(dirs, i, c).instance_id != reconciled(dirs, j, c).instance_id);
    }
    assert(inst == keyed_fold(items, key));
    lemma_keyed_fold_keeps_all(items, key);
    lemma_keyed_fold_from_items(items, key);
    lemma_keyed_fold_by_last(items, key);
    assert forall|i: int| 0 <= i < n implies exists|k: int| 0 <= k < inst.len()
        && (#[trigger] inst[k]).dir_name == (#[trigger] dirs[i]).dir_name
        && inst[k].install_path == path_join(sd, dirs[i].dir_name) by {
        assert(inst.contains(items[i]));
        let k = choose|k: int| 0 <= k < inst.len() && inst[k] == items[i];
        assert(inst[k].dir_name == dirs[i].dir_name);
    }
    assert forall|k: int| 0 <= k < inst.len() implies exists|i: int| 0 <= i < n
        && (#[trigger] inst[k]).dir_name == (#[trigger] dirs[i]).dir_name
        && inst[k].install_path == path_join(sd, dirs[i].dir_name) by {
        assert(items.contains(inst[k]));
        let i = choose|i: int| 0 <= i < n && items[i] == inst[k];
        assert(inst[k].dir_name == dirs[i].dir_name);
    }
    assert forall|a: int, b: int| 0 <= a < b < inst.len()
        implies (#[trigger] inst[a]).install_path != (#[trigger] inst[b]).install_path by {
        assert(items.contains(inst[a]));
        assert(items.contains(inst[b]));
        let i = choose|i: int| 0 <= i < n && items[i] == inst[a];
        let j = choose|j: int| 0 <= j < n && items[j] == inst[b];
        assert(text_lt(key(inst[a]), key(inst[b])));
        crate::text::lemma_text_lt_irreflexive(key(inst[a]));
        assert(i != j);
        assert(dirs[i].dir_name != dirs[j].dir_name);
        assert forall|q: int| 0 <= q < dirs[i].dir_name.len() implies #[trigger] dirs[i].dir_name[q] != '/' by {
            assert(dirs[i].dir_name[q] != '/');
        }
        assert forall|q: int| 0 <= q < dirs[j].dir_name.len() implies #[trigger] dirs[j].dir_name[q] != '/' by {
            assert(dirs[j].dir_name[q] != '/');
        }
        lemma_path_join_distinct(sd, dirs[i].dir_name, dirs[j].dir_name);
    }
}

/// Every copy a scan lists can be looked up by its instance id: the lookup
/// finds that very copy, paired with a definition of its skill.
#[verifier::spinoff_prover]
#[verifier::rlimit(40)]
pub proof fn listed_copies_resolve(
    sd: Seq<char>,
    dirs: Seq<DirView>,
    previous: Seq<InstalledView>,
    present: Seq<bool>,
    c: Clock,
    k: int,
)
    requires
        0 <= k < scan_view_of(sd, dirs, previous, present, c).installed_skills.len(),
    ensures
        ({
            let scan = scan_view_of(sd, dirs, previous, present, c);
            let x = scan.installed_skills[k];
            resolution(scan.skills, scan.installed_skills, x.instance_id) matches Ok(e)
                && e.installed == x && e.skill.id == x.skill_id
        }),
{
    let scan = scan_view_of(sd, dirs, previous, present, c);
    let n = dirs.len();
    let sitems = Seq::new(n, |i: int| skill_of(reconciled(dirs, i, c)));
    let items = Seq::new(n, |i: int| scanned_installed(sd, dirs, i, previous, c));
    scan_lists_each_id_once(sd, dirs, previous, present, c);
    let inst = scan.installed_skills;
    let x = inst[k];
    let ik = installed_key();
    let sk = skill_key();

    // The lookup by instance id stops at `k`.
    let by_id = |i: InstalledView| i.instance_id == x.instance_id;
    lemma_first_match_le(inst, by_id, k);
    lemma_first_match_bounds(inst, by_id);
    let a = first_match(inst, by_id);
    if a < k {
        assert(text_lt(ik(inst[a]), ik(inst[k])));
        crate::text::lemma_text_lt_irreflexive(ik(inst[k]));
    }

    // The copy's skill id is defined.
    assert(from_last_item(items, inst[k], ik));
    let i = choose|i: int| #[trigger] last_of_key(items, i, ik) && inst[k] == items[i];
    assert(x.skill_id == sk(sitems[i]));
    assert(sitems.map_values(sk)[i] == x.skill_id);
    assert(sitems.map_values(sk).to_set().contains(x.skill_id));
    assert(scan.skills.map_values(sk).to_set().contains(x.skill_id));
    let j = choose|j: int| 0 <= j < scan.skills.len() && scan.skills.map_values(sk)[j] == x.skill_id;
    let by_skill = |s: SkillView| s.id == x.skill_id;
    lemma_first_match_le(scan.skills, by_skill, j);
    lemma_first_match_bounds(scan.skills, by_skill);
}

} // verus!
