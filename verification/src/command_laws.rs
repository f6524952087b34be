//! What the commands are for, stated over their inputs: the keys of the
//! skills tab act on the selected copy, a rescan counts each changed copy,
//! every contents request names the remote's branch, and `skill view` shows
//! whether the copy is enabled.
use vstd::prelude::*;
use crate::text::trim_char;
use crate::tui::{TuiView, TuiAction, CommandPurpose, Key, Tab, ActionView, key_step, action_view};
use crate::skill::manager::SkillCommand;
use crate::skill::model::{InstalledView, EntryView};
use crate::skill::scan::{DirView, scan_view_of, is_updated};
use crate::skill::clock::Clock;
use crate::skill::format::{view_text, entry_row};
use crate::skill::add::add_plan;
use crate::github::{GitHubRemote, GhRequest, first_step, put_args, delete_args};

verus! {

/// `s` ends with `t`.
pub open spec fn ends_with(s: Seq<char>, t: Seq<char>) -> bool {
    t.len() <= s.len() && s.skip(s.len() - t.len()) == t
}

/// On the skills tab with no popup open and a copy selected, `e` asks to
/// enable exactly the selected copy and `d` to disable it, and neither key
/// changes the interface; an action reported as enabling (disabling) a copy
/// is the `enable` (`disable`) command for that copy's instance id.
pub proof fn enable_and_disable_keys_act_on_selection(s: TuiView, a: TuiAction)
    requires
        s.tab == Tab::Skills,
        s.popup is None,
        s.selected < s.entries.len(),
    ensures
        key_step(s, Key::Char('e'), false) == (s, ActionView::Enable(s.entries[s.selected as int].installed.instance_id)),
        key_step(s, Key::Char('d'), false) == (s, ActionView::Disable(s.entries[s.selected as int].installed.instance_id)),
        action_view(a) is Enable ==> (a matches TuiAction::RunSkill { command: SkillCommand::Enable(c), purpose: CommandPurpose::Enable }
            && action_view(a) == ActionView::Enable(c.instance_id@)),
        action_view(a) is Disable ==> (a matches TuiAction::RunSkill { command: SkillCommand::Disable(c), purpose: CommandPurpose::Disable }
            && action_view(a) == ActionView::Disable(c.instance_id@)),
{
}

/// On the skills tab with no popup open and a copy selected, `v` asks to
/// view the selected copy under its skill's name, and `x` asks for
/// confirmation first: confirming with `y` then removes exactly the selected
/// copy, and any other key removes nothing. With nothing selected, `e`, `d`,
/// `v` and `x` do nothing. An action reported as removing (viewing) a copy is
/// the `remove` (`view`) command for it.
pub proof fn selection_keys_act_on_selection(s: TuiView, a: TuiAction)
    requires
        s.tab == Tab::Skills,
        s.popup is None,
    ensures
        s.selected < s.entries.len() ==> {
            let e = s.entries[s.selected as int];
            let asked = key_step(s, Key::Char('x'), false).0;
            &&& key_step(s, Key::Char('v'), false).1 == ActionView::View(e.installed.instance_id, e.skill.name)
            &&& key_step(s, Key::Char('x'), false).1 == ActionView::Nothing
            &&& key_step(asked, Key::Char('y'), false).1 == ActionView::Remove(e.installed.instance_id)
            &&& key_step(asked, Key::Char('n'), false).1 == ActionView::Nothing
        },
        s.selected >= s.entries.len() ==> {
            &&& key_step(s, Key::Char('e'), false).1 == ActionView::Nothing
            &&& key_step(s, Key::Char('d'), false).1 == ActionView::Nothing
            &&& key_step(s, Key::Char('v'), false).1 == ActionView::Nothing
            &&& key_step(s, Key::Char('x'), false) == (s, ActionView::Nothing)
        },
        action_view(a) is Remove ==> (a matches TuiAction::RunSkill { command: SkillCommand::Remove(c), purpose: CommandPurpose::Remove }
            && action_view(a) == ActionView::Remove(c.instance_id@)),
        action_view(a) is View ==> (a matches TuiAction::RunSkill { command: SkillCommand::View(v), purpose: CommandPurpose::View { name } }
            && action_view(a) == ActionView::View(v.reference@, name@)),
{
}

/// A copy counts as updated when an earlier record has its instance id but
/// another directory name, install path, skill id or source.
pub open spec fn changed_since(previous: Seq<InstalledView>, x: InstalledView) -> bool {
    exists|k: int| 0 <= k < previous.len() && #[trigger] previous[k].instance_id == x.instance_id && (
        previous[k].dir_name != x.dir_name || previous[k].install_path != x.install_path
            || previous[k].skill_id != x.skill_id || previous[k].source != x.source)
}

/// A scan's updated count is the number of copies it finds whose earlier
/// record (same instance id) differs in directory name, install path, skill
/// id or source; in particular a copy whose skill id or source alone changed
/// makes the count positive.
pub proof fn rescan_counts_changed_copies(
    sd: Seq<char>,
    dirs: Seq<DirView>,
    previous: Seq<InstalledView>,
    present: Seq<bool>,
    c: Clock,
)
    ensures
        ({
            let scan = scan_view_of(sd, dirs, previous, present, c);
            &&& scan.updated == scan.installed_skills.filter(|x: InstalledView| changed_since(previous, x)).len()
            &&& scan.added == scan.installed_skills.filter(
                |x: InstalledView| forall|k: int| 0 <= k < previous.len() ==> #[trigger] previous[k].instance_id != x.instance_id,
            ).len()
            &&& scan.removed == previous.filter(
                |p: InstalledView| forall|i: int| 0 <= i < scan.installed_skills.len()
                    ==> #[trigger] scan.installed_skills[i].instance_id != p.instance_id,
            ).len()
            &&& forall|i: int, k: int|
                0 <= i < scan.installed_skills.len() && 0 <= k < previous.len()
                    && #[trigger] previous[k].instance_id == #[trigger] scan.installed_skills[i].instance_id
                    && (previous[k].skill_id != scan.installed_skills[i].skill_id
                        || previous[k].source != scan.installed_skills[i].source)
                    ==> scan.updated > 0
        }),
{
    let scan = scan_view_of(sd, dirs, previous, present, c);
    let inst = scan.installed_skills;
    let p1 = |x: InstalledView| is_updated(previous, x);
    let p2 = |x: InstalledView| changed_since(previous, x);
    assert(p1 =~= p2);
    let a1 = |x: InstalledView| crate::skill::scan::is_added(previous, x);
    let a2 = |x: InstalledView| forall|k: int| 0 <= k < previous.len() ==> #[trigger] previous[k].instance_id != x.instance_id;
    assert forall|x: InstalledView| #[trigger] a1(x) == a2(x) by {
        let pr = |q: InstalledView| q.instance_id == x.instance_id;
        crate::seqs::lemma_first_match_bounds(previous, pr);
        crate::seqs::lemma_first_match_before(previous, pr);
        if !a2(x) {
            let k = choose|k: int| 0 <= k < previous.len() && previous[k].instance_id == x.instance_id;
            crate::seqs::lemma_first_match_le(previous, pr, k);
        }
    }
    assert(a1 =~= a2);
    let r1 = |q: InstalledView| crate::skill::scan::is_removed(inst, q);
    let r2 = |q: InstalledView| forall|i: int| 0 <= i < inst.len() ==> #[trigger] inst[i].instance_id != q.instance_id;
    assert forall|q: InstalledView| #[trigger] r1(q) == r2(q) by {
        let pr = |x: InstalledView| x.instance_id == q.instance_id;
        crate::seqs::lemma_first_match_bounds(inst, pr);
        crate::seqs::lemma_first_match_before(inst, pr);
        if !r2(q) {
            let i = choose|i: int| 0 <= i < inst.len() && inst[i].instance_id == q.instance_id;
            crate::seqs::lemma_first_match_le(inst, pr, i);
        }
    }
    assert(r1 =~= r2);
    assert forall|i: int, k: int|
        0 <= i < inst.len() && 0 <= k < previous.len()
            && #[trigger] previous[k].instance_id == #[trigger] inst[i].instance_id
            && (previous[k].skill_id != inst[i].skill_id || previous[k].source != inst[i].source)
        implies scan.updated > 0 by {
        assert(p2(inst[i]));
        inst.lemma_filter_contains(p2, i);
    }
}

/// Every contents request names the remote's branch: the first command of
/// reading, writing, deleting or listing under a remote ends its endpoint
/// with `?ref=` and the branch, reading a file asks for
/// `repos/<repo>/contents/<path>?ref=<branch>`, writing and deleting send the
/// branch as a field; and listing a directory whose `/`-trimmed
/// path `t` is not empty asks for `repos/<repo>/contents/<t>?ref=<branch>`
/// with the type and path of each entry.
pub proof fn contents_requests_name_the_branch(remote: GitHubRemote, path: String, contents: Vec<u8>)
    ensures
        ({
            let tail = "?ref="@ + remote.branch@;
            &&& ends_with(first_step(GhRequest::GetFile { remote, path }).1[1], tail)
            &&& ends_with(first_step(GhRequest::GetFileBytes { remote, path }).1[1], tail)
            &&& ends_with(first_step(GhRequest::PutFileBytes { remote, path, contents }).1[1], tail)
            &&& ends_with(first_step(GhRequest::DeleteFile { remote, path }).1[1], tail)
            &&& ends_with(first_step(GhRequest::ListDirectory { remote, path }).1[1], tail)
        }),
        first_step(GhRequest::GetFile { remote, path }).1 == seq![
            "api"@,
            "repos/"@ + remote.repo@ + "/contents/"@ + path@ + "?ref="@ + remote.branch@,
            "--jq"@,
            ".content"@,
        ],
        forall|sha: Option<Seq<char>>| #[trigger] put_args(remote.repo@, remote.branch@, path@, contents@, sha)[9]
            == "branch="@ + remote.branch@,
        forall|sha: Seq<char>| #[trigger] delete_args(remote.repo@, remote.branch@, path@, sha)[9]
            == "branch="@ + remote.branch@,
        trim_char(path@, '/').len() > 0 ==> first_step(GhRequest::ListDirectory { remote, path }).1 == seq![
            "api"@,
            "repos/"@ + remote.repo@ + "/contents/"@ + trim_char(path@, '/') + "?ref="@ + remote.branch@,
            "--jq"@,
            ".[] | [.type, .path] | @tsv"@,
        ],
{
    let tail = "?ref="@ + remote.branch@;
    let r = remote.repo@;
    let b = remote.branch@;
    let p = path@;
    lemma_ends_with_tail("repos/"@ + r + "/contents/"@ + p, tail);
    assert(crate::github::ref_endpoint(r, b, p) =~= ("repos/"@ + r + "/contents/"@ + p) + tail);
    assert(first_step(GhRequest::GetFile { remote, path }).1 =~= seq![
        "api"@,
        "repos/"@ + r + "/contents/"@ + p + "?ref="@ + b,
        "--jq"@,
        ".content"@,
    ]);
    assert forall|sha: Option<Seq<char>>| #[trigger] put_args(r, b, p, contents@, sha)[9] == "branch="@ + b by {
        reveal_strlit("branch=");
        reveal_strlit("branch");
        assert(crate::github::field("branch"@, b) =~= "branch="@ + b);
    }
    assert forall|sha: Seq<char>| #[trigger] delete_args(r, b, p, sha)[9] == "branch="@ + b by {
        reveal_strlit("branch=");
        reveal_strlit("branch");
        assert(crate::github::field("branch"@, b) =~= "branch="@ + b);
    }
    let t = trim_char(p, '/');
    if t.len() == 0 {
        lemma_ends_with_tail("repos/"@ + r + "/contents"@, tail);
        assert("repos/"@ + r + "/contents?ref="@ + b =~= ("repos/"@ + r + "/contents"@) + tail) by {
            reveal_strlit("/contents?ref=");
            reveal_strlit("/contents");
            reveal_strlit("?ref=");
        }
    } else {
        lemma_ends_with_tail("repos/"@ + r + "/contents/"@ + t, tail);
        assert(crate::github::ref_endpoint(r, b, t) =~= ("repos/"@ + r + "/contents/"@ + t) + tail);
    }
    if trim_char(path@, '/').len() > 0 {
        assert(first_step(GhRequest::ListDirectory { remote, path }).1 =~= seq![
            "api"@,
            "repos/"@ + remote.repo@ + "/contents/"@ + trim_char(path@, '/') + "?ref="@ + remote.branch@,
            "--jq"@,
            ".[] | [.type, .path] | @tsv"@,
        ]);
    }
}

proof fn lemma_ends_with_tail(a: Seq<char>, tail: Seq<char>)
    ensures
        ends_with(a + tail, tail),
{
    assert((a + tail).skip((a + tail).len() - tail.len()) =~= tail);
}

/// `skill add` takes exactly one source: a local path or a GitHub
/// repository, never both and never neither; a skill added from a local
/// path is filed in the `local` namespace.
pub proof fn add_takes_one_source(
    path: Seq<char>,
    repo: Seq<char>,
    git_ref: Option<Seq<char>>,
    subdir: Option<Seq<char>>,
    home: Option<Seq<char>>,
    c: Clock,
)
    ensures
        add_plan(Some(path), Some(repo), git_ref, subdir, home, c) is Err,
        add_plan(None, None, git_ref, subdir, home, c) is Err,
        add_plan(Some(path), None, git_ref, subdir, home, c) matches Ok(p) ==> p.namespace == "local"@,
{
}

/// `skill view` ends with `enabled: yes` when the copy is enabled and
/// `enabled: no` when it is not: the same value the ENABLED column of the
/// listing shows for that copy.
pub proof fn view_shows_enabled(e: EntryView, long: bool)
    ensures
        ({
            let shown: Seq<char> = if e.installed.enabled { "yes"@ } else { "no"@ };
            &&& ends_with(view_text(e), "\nenabled: "@ + shown)
            &&& entry_row(e, long)[3] == shown
        }),
{
    reveal_strlit("yes");
    reveal_strlit("no");
    let shown: Seq<char> = if e.installed.enabled { "yes"@ } else { "no"@ };
    let tail = "\nenabled: "@ + shown;
    let t = view_text(e);
    assert(t.skip(t.len() - tail.len()) =~= tail);
    if long {
        assert(entry_row(e, long)[3] == shown);
    } else {
        assert(entry_row(e, long)[3] == shown);
    }
}

} // verus!
