//! `skill add`: where a new skill comes from, what it is called, and which
//! directory it gets.
use vstd::prelude::*;
use crate::text::{
    has_prefix, text_starts_with, concat, chars_of, string_of, string_of_range, split_on, split_text,
    is_blank, is_blank_text, decimal, decimal_text, trim_char, text_lt, text_less,
};
use crate::seqs::{first_match, lemma_first_match};
use crate::skill::names::{
    sanitized, sanitize_name, display_name, normalize_display_name, repo_is_valid, validate_repo,
    repo_format_error, trim_char_chars,
};
use crate::skill::scan::{path_join, path_join_text};
use crate::skill::clock::{Clock, fresh_id, new_instance_id, counter_after};

verus! {

/// Where a new skill is taken from.
#[derive(Debug)]
pub enum AddSource {
    /// A directory on this machine.
    Local { source_path: String },
    /// A directory of a GitHub repository at a git ref; `download_root` is
    /// the subdirectory without `/` at either end.
    GitHub { repo: String, git_ref: String, subdir: String, download_root: String },
}

/// What `skill add` was asked for, worked out before anything is copied:
/// the source, the name of the scratch directory the source is staged in,
/// how the source is recorded, and the namespace of the skill's id.
#[derive(Debug)]
pub struct AddPlan {
    pub source: AddSource,
    pub temp_name: String,
    pub source_kind: String,
    pub namespace: String,
}

pub enum AddSourceView {
    Local(Seq<char>),
    GitHub(Seq<char>, Seq<char>, Seq<char>, Seq<char>),
}

pub struct AddPlanView {
    pub source: AddSourceView,
    pub temp_name: Seq<char>,
    pub source_kind: Seq<char>,
    pub namespace: Seq<char>,
}

impl View for AddPlan {
    type V = AddPlanView;

    open spec fn view(&self) -> AddPlanView {
        AddPlanView {
            source: match self.source {
                AddSource::Local { source_path } => AddSourceView::Local(source_path@),
                AddSource::GitHub { repo, git_ref, subdir, download_root } => AddSourceView::GitHub(
                    repo@,
                    git_ref@,
                    subdir@,
                    download_root@,
                ),
            },
            temp_name: self.temp_name@,
            source_kind: self.source_kind@,
            namespace: self.namespace@,
        }
    }
}

/// A path with a leading `~/` taken from the home directory.
pub open spec fn expanded_path(path: Seq<char>, home: Option<Seq<char>>) -> Result<Seq<char>, Seq<char>> {
    if has_prefix(path, "~/"@) {
        match home {
            Some(h) => Ok(path_join(h, path.skip(2))),
            None => Err("无法确定用户 home 目录。"@),
        }
    } else {
        Ok(path)
    }
}

/// Expands a leading `~/` to the home directory.
pub fn expand_tilde(path: &str, home: &Option<String>) -> (r: Result<String, String>)
    ensures
        match r {
            Ok(p) => expanded_path(path@, match home { Some(h) => Some(h@), None => None }) == Ok::<Seq<char>, Seq<char>>(p@),
            Err(e) => expanded_path(path@, match home { Some(h) => Some(h@), None => None }) == Err::<Seq<char>, Seq<char>>(e@),
        },
{
    if text_starts_with(path, "~/") {
        match home {
            Some(h) => {
                let v = chars_of(path);
                proof { reveal_strlit("~/"); }
                assert(v@.len() >= 2);
                let rest = string_of_range(&v, 2, v.len());
                assert(rest@ =~= path@.skip(2));
                Ok(path_join_text(h.as_str(), rest.as_str()))
            },
            None => Err(String::from_str("无法确定用户 home 目录。")),
        }
    } else {
        Ok(String::from_str(path))
    }
}

/// A named component: not empty and not `.`.
pub open spec fn is_path_component(p: Seq<char>) -> bool {
    p.len() > 0 && p != seq!['.']
}

/// The last component of a path, as `Path::file_name` gives it: none for a
/// path that is empty, the root, or ends in `..`.
pub open spec fn path_file_name(path: Seq<char>) -> Option<Seq<char>> {
    let parts = split_on(path, '/').filter(|p: Seq<char>| is_path_component(p));
    if parts.len() == 0 {
        None
    } else if parts.last() == seq!['.', '.'] {
        None
    } else {
        Some(parts.last())
    }
}

/// The last component of a path.
pub fn file_name_of(path: &str) -> (r: Option<String>)
    ensures
        match r {
            Some(n) => path_file_name(path@) == Some(n@),
            None => path_file_name(path@) is None,
        },
{
    let pieces = split_text(path, '/');
    let ghost all = pieces@.map_values(|p: String| p@);
    let mut last: Option<String> = None;
    let ghost mut kept: Seq<Seq<char>> = Seq::empty();
    let mut i: usize = 0;
    while i < pieces.len()
        invariant
            i <= pieces@.len(),
            all == pieces@.map_values(|p: String| p@),
            kept == all.take(i as int).filter(|p: Seq<char>| is_path_component(p)),
            match last {
                Some(l) => kept.len() > 0 && kept.last() == l@,
                None => kept.len() == 0,
            },
        decreases pieces@.len() - i,
    {
        let v = chars_of(pieces[i].as_str());
        proof {
            assert(all.take(i + 1) =~= all.take(i as int).push(all[i as int]));
            all.take(i as int).lemma_filter_push(all[i as int], |p: Seq<char>| is_path_component(p));
        }
        let dot = v.len() == 1 && v[0] == '.';
        assert(dot == (v@ == seq!['.'])) by {
            if v@.len() == 1 && v@[0] == '.' {
                assert(v@ =~= seq!['.']);
            }
        }
        if v.len() > 0 && !dot {
            last = Some(pieces[i].clone());
            proof {
                kept = kept.push(all[i as int]);
            }
        }
        i = i + 1;
    }
    assert(all.take(pieces@.len() as int) =~= all);
    match last {
        None => None,
        Some(l) => {
            let v = chars_of(l.as_str());
            if v.len() == 2 && v[0] == '.' && v[1] == '.' {
                assert(v@ =~= seq!['.', '.']);
                None
            } else {
                assert(v@.len() == 2 ==> v@ != seq!['.', '.']);
                Some(l)
            }
        },
    }
}

/// `repo` with each `/` turned into `-`.
pub open spec fn slash_to_dash(s: Seq<char>) -> Seq<char> {
    s.map_values(|c: char| if c == '/' { '-' } else { c })
}

/// The name a GitHub source suggests: the last component of the
/// subdirectory, or when there is none the repository's name, each read as
/// a directory name; `skill` when that leaves nothing.
pub open spec fn github_skill_name(repo: Seq<char>, subdir: Seq<char>) -> Seq<char> {
    if !is_blank(subdir) {
        match path_file_name(subdir) {
            Some(n) => if display_name(n).len() > 0 { display_name(n) } else { "skill"@ },
            None => "skill"@,
        }
    } else {
        let last = split_on(repo, '/').last();
        if display_name(last).len() > 0 { display_name(last) } else { "skill"@ }
    }
}

/// The name a GitHub source suggests.
pub fn infer_github_skill_name(repo: &str, subdir: &str) -> (r: String)
    ensures
        r@ == github_skill_name(repo@, subdir@),
{
    if !is_blank_text(subdir) {
        match file_name_of(subdir) {
            Some(n) => {
                let d = normalize_display_name(n.as_str());
                if chars_of(d.as_str()).len() > 0 { d } else { String::from_str("skill") }
            },
            None => String::from_str("skill"),
        }
    } else {
        let parts = split_text(repo, '/');
        assert(parts@.map_values(|p: String| p@).len() == parts@.len());
        let last = &parts[parts.len() - 1];
        assert(parts@.map_values(|p: String| p@).last() == last@);
        let d = normalize_display_name(last.as_str());
        if chars_of(d.as_str()).len() > 0 { d } else { String::from_str("skill") }
    }
}

pub open spec fn both_sources_message() -> Seq<char> {
    "`byi skill add` 不能同时指定本地路径和 --github。"@
}

pub open spec fn no_source_message() -> Seq<char> {
    "`byi skill add` 需要本地路径或 --github。"@
}

/// The plan for `skill add`, from the command, the home directory and the
/// clock; one instance id goes to the scratch directory's name.
pub open spec fn add_plan(
    path: Option<Seq<char>>,
    github: Option<Seq<char>>,
    git_ref: Option<Seq<char>>,
    subdir: Option<Seq<char>>,
    home: Option<Seq<char>>,
    c: Clock,
) -> Result<AddPlanView, Seq<char>> {
    let temp = "byi-skill-add-"@ + fresh_id(c, 0);
    match (path, github) {
        (Some(_), Some(_)) => Err(both_sources_message()),
        (None, None) => Err(no_source_message()),
        (Some(p), None) => match expanded_path(p, home) {
            Err(e) => Err(e),
            Ok(sp) => Ok(AddPlanView {
                source: AddSourceView::Local(sp),
                temp_name: temp,
                source_kind: "local:"@ + sp,
                namespace: "local"@,
            }),
        },
        (None, Some(repo)) => if !repo_is_valid(repo) {
            Err(repo_format_error())
        } else {
            let r = match git_ref { Some(x) => x, None => "main"@ };
            let d = match subdir { Some(x) => x, None => Seq::empty() };
            Ok(AddPlanView {
                source: AddSourceView::GitHub(repo, r, d, trim_char(d, '/')),
                temp_name: temp,
                source_kind: if d.len() == 0 {
                    "github:"@ + repo
                } else {
                    "github:"@ + repo + "?ref="@ + r + "&subdir="@ + d
                },
                namespace: "github-"@ + sanitized(slash_to_dash(repo)),
            })
        },
    }
}

/// `skill add` consumes an instance id for its scratch directory once the
/// command names exactly one source.
pub open spec fn plan_uses_id(path: Option<Seq<char>>, github: Option<Seq<char>>) -> bool {
    path is Some != github is Some
}

pub open spec fn opt_view(o: Option<String>) -> Option<Seq<char>> {
    match o {
        Some(s) => Some(s@),
        None => None,
    }
}

fn replace_slashes(s: &str) -> (r: String)
    ensures
        r@ == slash_to_dash(s@),
{
    let v = chars_of(s);
    let mut out: Vec<char> = Vec::new();
    let mut i: usize = 0;
    while i < v.len()
        invariant
            i <= v@.len(),
            v@ == s@,
            out@ == slash_to_dash(v@.take(i as int)),
        decreases v@.len() - i,
    {
        out.push(if v[i] == '/' { '-' } else { v[i] });
        i = i + 1;
        assert(out@ =~= slash_to_dash(v@.take(i as int)));
    }
    assert(v@.take(v@.len() as int) =~= v@);
    string_of(&out)
}

/// Works out where `skill add` takes the skill from.
pub fn plan_add(
    path: &Option<String>,
    github: &Option<String>,
    git_ref: &Option<String>,
    subdir: &Option<String>,
    home: &Option<String>,
    clock: &mut Clock,
) -> (r: Result<AddPlan, String>)
    ensures
        match r {
            Ok(p) => add_plan(opt_view(*path), opt_view(*github), opt_view(*git_ref), opt_view(*subdir), opt_view(*home), *old(clock)) == Ok::<AddPlanView, Seq<char>>(p@),
            Err(e) => add_plan(opt_view(*path), opt_view(*github), opt_view(*git_ref), opt_view(*subdir), opt_view(*home), *old(clock)) == Err::<AddPlanView, Seq<char>>(e@),
        },
        *final(clock) == (if plan_uses_id(opt_view(*path), opt_view(*github)) {
            Clock { next_id: counter_after(old(clock).next_id, 1), ..*old(clock) }
        } else {
            *old(clock)
        }),
{
    match (path, github) {
        (Some(_), Some(_)) => {
            return Err(String::from_str("`byi skill add` 不能同时指定本地路径和 --github。"));
        },
        (None, None) => {
            return Err(String::from_str("`byi skill add` 需要本地路径或 --github。"));
        },
        _ => {},
    }
    let id = new_instance_id(clock);
    let temp_name = concat("byi-skill-add-", id.as_str());
    match path {
        Some(p) => {
            let expanded = expand_tilde(p.as_str(), home);
            match expanded {
                Err(e) => Err(e),
                Ok(sp) => {
                    let kind = concat("local:", sp.as_str());
                    Ok(AddPlan {
                        source: AddSource::Local { source_path: sp },
                        temp_name,
                        source_kind: kind,
                        namespace: String::from_str("local"),
                    })
                },
            }
        },
        None => {
            let repo = match github {
                Some(r) => r,
                None => { return Err(String::new()); },
            };
            match validate_repo(repo.as_str()) {
                Err(e) => { return Err(e); },
                Ok(()) => {},
            }
            let r = match git_ref {
                Some(x) => x.clone(),
                None => String::from_str("main"),
            };
            let d = match subdir {
                Some(x) => x.clone(),
                None => String::new(),
            };
            let root = string_of(&trim_char_chars(&chars_of(d.as_str()), '/'));
            let kind = if chars_of(d.as_str()).len() == 0 {
                concat("github:", repo.as_str())
            } else {
                let mut k = concat("github:", repo.as_str());
                k.append("?ref=");
                k.append(r.as_str());
                k.append("&subdir=");
                k.append(d.as_str());
                k
            };
            let ns_tail = sanitize_name(replace_slashes(repo.as_str()).as_str());
            let namespace = concat("github-", ns_tail.as_str());
            Ok(AddPlan {
                source: AddSource::GitHub { repo: repo.clone(), git_ref: r, subdir: d, download_root: root },
                temp_name,
                source_kind: kind,
                namespace,
            })
        },
    }
}

/// `n` cannot name a new directory: it is `.`, `..` or already there.
pub open spec fn name_taken(names: Seq<Seq<char>>, n: Seq<char>) -> bool {
    n == seq!['.'] || n == seq!['.', '.'] || names.contains(n)
}

/// The directory name a skill name asks for: its sanitized form, or `skill`.
pub open spec fn dir_candidate(name: Seq<char>) -> Seq<char> {
    if sanitized(name).len() == 0 { "skill"@ } else { sanitized(name) }
}

/// `candidate~k`.
pub open spec fn numbered(candidate: Seq<char>, k: nat) -> Seq<char> {
    candidate + seq!['~'] + decimal(k)
}

/// The first free `candidate~k` with `k` from `from` up to 999.
pub open spec fn first_free_from(candidate: Seq<char>, names: Seq<Seq<char>>, from: nat) -> Option<Seq<char>>
    decreases 1000 - from,
{
    if from >= 1000 {
        None
    } else if !name_taken(names, numbered(candidate, from)) {
        Some(numbered(candidate, from))
    } else {
        first_free_from(candidate, names, from + 1)
    }
}

/// The directory a new skill named `name` gets, given the names already
/// taken: the candidate itself, else the first free `candidate~2` ...
/// `candidate~999`, else none.
pub open spec fn dir_name_choice(name: Seq<char>, names: Seq<Seq<char>>) -> Option<Seq<char>> {
    let c = dir_candidate(name);
    if !name_taken(names, c) { Some(c) } else { first_free_from(c, names, 2) }
}

fn is_taken(names: &Vec<String>, n: &String) -> (b: bool)
    ensures
        b == name_taken(names@.map_values(|s: String| s@), n@),
{
    let v = chars_of(n.as_str());
    if v.len() == 1 && v[0] == '.' {
        assert(v@ =~= seq!['.']);
        return true;
    }
    if v.len() == 2 && v[0] == '.' && v[1] == '.' {
        assert(v@ =~= seq!['.', '.']);
        return true;
    }
    assert(v@.len() == 1 ==> v@ != seq!['.']);
    assert(v@.len() == 2 ==> v@ != seq!['.', '.']);
    let ghost nv = names@.map_values(|s: String| s@);
    let mut i: usize = 0;
    while i < names.len()
        invariant
            i <= names@.len(),
            nv == names@.map_values(|s: String| s@),
            forall|j: int| 0 <= j < i ==> nv[j] != n@,
        decreases names@.len() - i,
    {
        assert(nv[i as int] == names@[i as int]@);
        if names[i] == *n {
            assert(nv.contains(n@));
            return true;
        }
        i = i + 1;
    }
    false
}

/// The error when every directory name is taken.
pub open spec fn no_dir_name_message(name: Seq<char>) -> Seq<char> {
    "无法为 skill 分配目录名: "@ + name
}

/// Chooses the directory a new skill named `name` gets.
pub fn choose_dir_name(name: &str, names: &Vec<String>) -> (r: Result<String, String>)
    ensures
        match r {
            Ok(d) => dir_name_choice(name@, names@.map_values(|s: String| s@)) == Some(d@),
            Err(e) => dir_name_choice(name@, names@.map_values(|s: String| s@)) is None && e@ == no_dir_name_message(name@),
        },
{
    let ghost nv = names@.map_values(|s: String| s@);
    let base = sanitize_name(name);
    let candidate = if chars_of(base.as_str()).len() == 0 { String::from_str("skill") } else { base };
    assert(candidate@ == dir_candidate(name@));
    if !is_taken(names, &candidate) {
        return Ok(candidate);
    }
    let mut k: u64 = 2;
    while k < 1000
        invariant
            2 <= k <= 1000,
            nv == names@.map_values(|s: String| s@),
            candidate@ == dir_candidate(name@),
            name_taken(nv, candidate@),
            first_free_from(candidate@, nv, 2) == first_free_from(candidate@, nv, k as nat),
        decreases 1000 - k,
    {
        let mut next = concat(candidate.as_str(), "~");
        next.append(decimal_text(k).as_str());
        proof { reveal_strlit("~"); }
        assert(next@ =~= numbered(candidate@, k as nat));
        if !is_taken(names, &next) {
            return Ok(next);
        }
        k = k + 1;
    }
    Err(concat("无法为 skill 分配目录名: ", name))
}

} // verus!
