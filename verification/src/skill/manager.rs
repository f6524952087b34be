//! The skill commands: what each one reads from the store, what it answers,
//! and what it changes on disk.
use vstd::prelude::*;
use crate::seqs::{first_match, lemma_first_match};
use crate::text::{concat, chars_of};
use crate::skill::model::{
    Skill, SkillView, InstalledSkill, InstalledView, SkillMetadata, MetadataView, SkillEntry, EntryView,
    SkillDoctorIssue, IssueView, ScanResult, ScanView,
};
use crate::skill::clock::{Clock, timestamp, current_timestamp};
use crate::skill::scan::{
    SkillDirState, DirView, ScanOutcome, scan_dirs, scan_view_of, scan_writes_of, reconciled, path_join,
    path_join_text, dir_views, metadata_views, issue_views, clock_after, id_offset,
};
use crate::skill::lookup::{
    skill_views, installed_views, entry_views, join_skill_entries, in_list_order, joined_entries,
    resolve_skill_reference, resolution, outcome_view,
};
use crate::skill::add::{
    AddPlan, AddPlanView, AddSource, AddSourceView, add_plan, plan_add, plan_uses_id, opt_view, path_file_name,
    file_name_of, github_skill_name, infer_github_skill_name, dir_name_choice, choose_dir_name, no_dir_name_message,
};
use crate::skill::markdown::{markdown_description, markdown_title, read_description, read_title};
use crate::skill::names::{display_name, normalize_display_name, namespace_of, source_namespace, skill_id_of, new_skill_id};
use crate::skill::clock::{fresh_id, new_instance_id, counter_after};
use crate::text::{is_blank, is_blank_text, text_lt, text_less};
use crate::skill::format::{
    entry_table, format_entry_table, view_text, format_view, doctor_text, format_doctor, rescan_text,
    format_rescan, scan_summary, format_scan_summary,
};

verus! {

/// How a listing is printed: as JSON, and with every field.
#[derive(Clone, Copy, Debug)]
pub struct SkillFormatCommand {
    pub json: bool,
    pub long: bool,
}

impl Default for SkillFormatCommand {
    fn default() -> (r: Self)
        ensures
            !r.json && !r.long,
    {
        SkillFormatCommand { json: false, long: false }
    }
}

/// `skill add`: a local directory or a GitHub repository, with a git ref and
/// a subdirectory for the latter.
#[derive(Clone, Debug)]
pub struct SkillAddCommand {
    pub path: Option<String>,
    pub github: Option<String>,
    pub git_ref: Option<String>,
    pub subdir: Option<String>,
}

/// `skill list`: only enabled or only disabled copies when asked.
#[derive(Clone, Debug)]
pub struct SkillListCommand {
    pub format: SkillFormatCommand,
    pub enabled: bool,
    pub disabled: bool,
}

/// `skill view`.
#[derive(Clone, Debug)]
pub struct SkillViewCommand {
    pub reference: String,
    pub format: SkillFormatCommand,
}

/// `skill edit`.
#[derive(Clone, Debug)]
pub struct SkillEditCommand {
    pub reference: String,
}

/// A command on one installed copy: `remove`, `enable`, `disable`.
#[derive(Clone, Debug)]
pub struct SkillInstanceCommand {
    pub instance_id: String,
}

/// `skill instances`.
#[derive(Clone, Debug)]
pub struct SkillInstancesCommand {
    pub format: SkillFormatCommand,
}

/// The skill subcommands.
#[derive(Clone, Debug)]
pub enum SkillCommand {
    Add(SkillAddCommand),
    List(SkillListCommand),
    View(SkillViewCommand),
    Edit(SkillEditCommand),
    Remove(SkillInstanceCommand),
    Enable(SkillInstanceCommand),
    Disable(SkillInstanceCommand),
    Instances(SkillInstancesCommand),
    Doctor(SkillFormatCommand),
    Rescan(SkillFormatCommand),
}

/// A record of the installed registry, and whether its directory exists.
#[derive(Debug)]
pub struct RegistryRecord {
    pub installed: InstalledSkill,
    pub dir_exists: bool,
}

/// What `skill add` copied in before it files the skill: whether the source
/// was found, its parsed metadata file, whether it has a `SKILL.md`, and the
/// text of that file when readable.
#[derive(Debug)]
pub struct StagedSkill {
    pub found: bool,
    pub metadata: Option<SkillMetadata>,
    pub has_skill_md: bool,
    pub skill_md: Option<String>,
}

/// What the store holds when a command starts: the directories under
/// `skills/` in path order, the names of all entries there, the installed
/// registry, the user's home directory, and for `skill add` what was staged.
#[derive(Debug)]
pub struct SkillWorkspace {
    pub dirs: Vec<SkillDirState>,
    pub entry_names: Vec<String>,
    pub previous: Vec<RegistryRecord>,
    pub home: Option<String>,
    pub staged: StagedSkill,
}

pub struct StagedView {
    pub found: bool,
    pub metadata: Option<MetadataView>,
    pub has_skill_md: bool,
    pub skill_md: Option<Seq<char>>,
}

pub struct WorkspaceView {
    pub dirs: Seq<DirView>,
    pub entry_names: Seq<Seq<char>>,
    pub previous: Seq<InstalledView>,
    pub present: Seq<bool>,
    pub home: Option<Seq<char>>,
    pub staged: StagedView,
}

impl View for SkillWorkspace {
    type V = WorkspaceView;

    open spec fn view(&self) -> WorkspaceView {
        WorkspaceView {
            dirs: dir_views(self.dirs@),
            entry_names: self.entry_names@.map_values(|s: String| s@),
            previous: self.previous@.map_values(|r: RegistryRecord| r.installed@),
            present: self.previous@.map_values(|r: RegistryRecord| r.dir_exists),
            home: match self.home {
                Some(h) => Some(h@),
                None => None,
            },
            staged: StagedView {
                found: self.staged.found,
                metadata: match self.staged.metadata {
                    Some(m) => Some(m@),
                    None => None,
                },
                has_skill_md: self.staged.has_skill_md,
                skill_md: match self.staged.skill_md {
                    Some(t) => Some(t@),
                    None => None,
                },
            },
        }
    }
}

/// A change a command makes on disk, in the order given.
#[derive(Debug)]
pub enum SkillEffect {
    /// Write `byi-skill.toml` in the directory.
    WriteMetadata { dir: String, metadata: SkillMetadata },
    /// Write `registry/skills.toml`.
    WriteSkillRegistry(Vec<Skill>),
    /// Write `registry/installed.toml`.
    WriteInstalledRegistry(Vec<InstalledSkill>),
    /// Remove the directory and everything in it.
    RemoveDir(String),
    /// Copy what `skill add` staged to the directory.
    CopyStaged(String),
}

pub enum EffectView {
    WriteMetadata(Seq<char>, MetadataView),
    WriteSkillRegistry(Seq<SkillView>),
    WriteInstalledRegistry(Seq<InstalledView>),
    RemoveDir(Seq<char>),
    CopyStaged(Seq<char>),
}

impl View for SkillEffect {
    type V = EffectView;

    open spec fn view(&self) -> EffectView {
        match self {
            SkillEffect::WriteMetadata { dir, metadata } => EffectView::WriteMetadata(dir@, metadata@),
            SkillEffect::WriteSkillRegistry(v) => EffectView::WriteSkillRegistry(skill_views(v@)),
            SkillEffect::WriteInstalledRegistry(v) => EffectView::WriteInstalledRegistry(installed_views(v@)),
            SkillEffect::RemoveDir(d) => EffectView::RemoveDir(d@),
            SkillEffect::CopyStaged(d) => EffectView::CopyStaged(d@),
        }
    }
}

pub open spec fn effect_views(s: Seq<SkillEffect>) -> Seq<EffectView> {
    s.map_values(|e: SkillEffect| e@)
}

/// What a command answers with: text, or data to print as JSON.
#[derive(Debug)]
pub enum SkillOutput {
    Text(String),
    /// A listing; every field of each entry when `include_instance_fields`.
    EntriesJson { entries: Vec<SkillEntry>, include_instance_fields: bool },
    EntryJson(SkillEntry),
    IssuesJson(Vec<SkillDoctorIssue>),
    RescanJson { added: usize, updated: usize, removed: usize, issues: Vec<SkillDoctorIssue> },
    /// The metadata file `skill edit` opens.
    EditTarget(String),
}

pub enum OutputView {
    Text(Seq<char>),
    EntriesJson(Seq<EntryView>, bool),
    EntryJson(EntryView),
    IssuesJson(Seq<IssueView>),
    RescanJson(nat, nat, nat, Seq<IssueView>),
    EditTarget(Seq<char>),
}

impl View for SkillOutput {
    type V = OutputView;

    open spec fn view(&self) -> OutputView {
        match self {
            SkillOutput::Text(t) => OutputView::Text(t@),
            SkillOutput::EntriesJson { entries, include_instance_fields } => OutputView::EntriesJson(
                entry_views(entries@),
                *include_instance_fields,
            ),
            SkillOutput::EntryJson(e) => OutputView::EntryJson(e@),
            SkillOutput::IssuesJson(v) => OutputView::IssuesJson(issue_views(v@)),
            SkillOutput::RescanJson { added, updated, removed, issues } => OutputView::RescanJson(
                *added as nat,
                *updated as nat,
                *removed as nat,
                issue_views(issues@),
            ),
            SkillOutput::EditTarget(p) => OutputView::EditTarget(p@),
        }
    }
}

/// A command's answer (or error) and the changes to make on disk, which are
/// made in both cases.
#[derive(Debug)]
pub struct SkillResponse {
    pub result: Result<SkillOutput, String>,
    pub effects: Vec<SkillEffect>,
}

pub struct ResponseView {
    pub result: Result<OutputView, Seq<char>>,
    pub effects: Seq<EffectView>,
}

impl View for SkillResponse {
    type V = ResponseView;

    open spec fn view(&self) -> ResponseView {
        ResponseView {
            result: match self.result {
                Ok(o) => Ok(o@),
                Err(e) => Err(e@),
            },
            effects: effect_views(self.effects@),
        }
    }
}

/// The skill store under a data directory.
#[derive(Clone, Debug)]
pub struct SkillManager {
    pub data_dir: String,
}

/// `skills/` under the data directory.
pub open spec fn skills_dir_of(data_dir: Seq<char>) -> Seq<char> {
    path_join(data_dir, "skills"@)
}

/// `registry/` under the data directory.
pub open spec fn registry_dir_of(data_dir: Seq<char>) -> Seq<char> {
    path_join(data_dir, "registry"@)
}


/// The scan a command starts with.
pub open spec fn scan_of(skills_dir: Seq<char>, ws: WorkspaceView, c: Clock) -> ScanView {
    scan_view_of(skills_dir, ws.dirs, ws.previous, ws.present, c)
}

/// The clock after the scan a command starts with.
pub open spec fn after_scan(dirs: Seq<DirView>, c: Clock) -> Clock {
    clock_after(c, id_offset(dirs, dirs.len() as int))
}

/// What a scan writes: each directory's metadata, then both registries.
pub open spec fn scan_effects(skills_dir: Seq<char>, dirs: Seq<DirView>, c: Clock, scan: ScanView) -> Seq<EffectView> {
    Seq::new(dirs.len(), |i: int| EffectView::WriteMetadata(path_join(skills_dir, dirs[i].dir_name), reconciled(dirs, i, c)))
        + seq![EffectView::WriteSkillRegistry(scan.skills), EffectView::WriteInstalledRegistry(scan.installed_skills)]
}

/// The entries of a scan in listing order.
pub open spec fn listed(scan: ScanView) -> Seq<EntryView> {
    in_list_order(joined_entries(scan.skills, scan.installed_skills))
}

/// The entries `skill list` keeps: only enabled ones with `--enabled`, only
/// disabled ones with `--disabled` (none with both).
pub open spec fn kept_entries(entries: Seq<EntryView>, enabled: bool, disabled: bool) -> Seq<EntryView> {
    let a = if enabled { with_enabled(entries, true) } else { entries };
    if disabled { with_enabled(a, false) } else { a }
}

/// The entries that are enabled (`want`) or disabled (`!want`).
pub open spec fn with_enabled(entries: Seq<EntryView>, want: bool) -> Seq<EntryView> {
    entries.filter(|e: EntryView| e.installed.enabled == want)
}

/// A listing, as a table or as JSON; `all_fields` asks for the fuller fields
/// in either form.
pub open spec fn listing(entries: Seq<EntryView>, json: bool, all_fields: bool) -> OutputView {
    if json { OutputView::EntriesJson(entries, all_fields) } else { OutputView::Text(entry_table(entries, all_fields)) }
}

/// Where the copy with instance id `id` stands among a scan's copies.
pub open spec fn copy_index(scan: ScanView, id: Seq<char>) -> int {
    first_match(scan.installed_skills, |x: InstalledView| x.instance_id == id)
}

pub open spec fn not_found_message(id: Seq<char>) -> Seq<char> {
    "未找到实例: "@ + id
}

pub open spec fn toggle_message(id: Seq<char>, enabled: bool) -> Seq<char> {
    "实例 "@ + id + " 已"@ + (if enabled { "启用"@ } else { "停用"@ }) + "。"@
}

/// The copies with copy `k` switched on or off, stamped with the time.
pub open spec fn toggled(copies: Seq<InstalledView>, k: int, enabled: bool, c: Clock) -> Seq<InstalledView> {
    copies.update(k, InstalledView { enabled: enabled, updated_at: timestamp(c), ..copies[k] })
}

/// The directories after a scan wrote their metadata and the directory at
/// `removed` was deleted.
pub open spec fn dirs_after_removal(skills_dir: Seq<char>, dirs: Seq<DirView>, c: Clock, removed: Seq<char>) -> Seq<DirView> {
    Seq::new(
        dirs.len(),
        |i: int|
            DirView {
                dir_name: dirs[i].dir_name,
                metadata: Some(reconciled(dirs, i, c)),
                has_skill_md: dirs[i].has_skill_md,
                skill_md: dirs[i].skill_md,
            },
    ).filter(|d: DirView| path_join(skills_dir, d.dir_name) != removed)
}

pub open spec fn removed_message(id: Seq<char>, scan: ScanView) -> Seq<char> {
    "已删除实例 "@ + id + "。\n"@ + scan_summary(scan.added, scan.updated, scan.removed)
}

pub open spec fn missing_command_message() -> Seq<char> {
    "缺少 skill 子命令。运行 `byi skill --help` 查看用法。"@
}

/// The answer, changes and final clock of a command on a store under
/// `data_dir` that holds `ws`, with clock reading `c`.
pub open spec fn command_response(
    data_dir: Seq<char>,
    command: Option<SkillCommand>,
    ws: WorkspaceView,
    c: Clock,
) -> (ResponseView, Clock) {
    let sd = skills_dir_of(data_dir);
    let scan = scan_of(sd, ws, c);
    let c1 = after_scan(ws.dirs, c);
    let fx = scan_effects(sd, ws.dirs, c, scan);
    match command {
        None => (ResponseView { result: Err(missing_command_message()), effects: Seq::empty() }, c),
        Some(SkillCommand::Add(a)) => add_response(data_dir, a, ws, c),
        Some(SkillCommand::List(l)) => (
            ResponseView {
                result: Ok(listing(kept_entries(listed(scan), l.enabled, l.disabled), l.format.json, l.format.long)),
                effects: fx,
            },
            c1,
        ),
        Some(SkillCommand::Instances(l)) => (
            ResponseView { result: Ok(listing(listed(scan), l.format.json, true)), effects: fx },
            c1,
        ),
        Some(SkillCommand::View(v)) => (
            ResponseView {
                result: match resolution(scan.skills, scan.installed_skills, v.reference@) {
                    Ok(e) => Ok(if v.format.json { OutputView::EntryJson(e) } else { OutputView::Text(view_text(e)) }),
                    Err(m) => Err(m),
                },
                effects: fx,
            },
            c1,
        ),
        Some(SkillCommand::Edit(v)) => edit_response(sd, ws, c, v.reference@),
        Some(SkillCommand::Doctor(f)) => (
            ResponseView {
                result: Ok(if f.json { OutputView::IssuesJson(scan.issues) } else { OutputView::Text(doctor_text(scan.issues)) }),
                effects: fx,
            },
            c1,
        ),
        Some(SkillCommand::Rescan(f)) => (
            ResponseView {
                result: Ok(if f.json {
                    OutputView::RescanJson(scan.added, scan.updated, scan.removed, scan.issues)
                } else {
                    OutputView::Text(rescan_text(scan.added, scan.updated, scan.removed, scan.issues.len()))
                }),
                effects: fx,
            },
            c1,
        ),
        Some(SkillCommand::Enable(t)) => toggle_response(sd, ws, c, t.instance_id@, true),
        Some(SkillCommand::Disable(t)) => toggle_response(sd, ws, c, t.instance_id@, false),
        Some(SkillCommand::Remove(t)) => remove_response(sd, ws, c, t.instance_id@),
    }
}

/// `skill edit`: the metadata file of the copy the reference names.
pub open spec fn edit_response(sd: Seq<char>, ws: WorkspaceView, c: Clock, reference: Seq<char>) -> (ResponseView, Clock) {
    let scan = scan_of(sd, ws, c);
    (
        ResponseView {
            result: match resolution(scan.skills, scan.installed_skills, reference) {
                Ok(e) => Ok(OutputView::EditTarget(path_join(e.installed.install_path, "byi-skill.toml"@))),
                Err(m) => Err(m),
            },
            effects: scan_effects(sd, ws.dirs, c, scan),
        },
        after_scan(ws.dirs, c),
    )
}

/// `skill enable` and `skill disable`.
pub open spec fn toggle_response(sd: Seq<char>, ws: WorkspaceView, c: Clock, id: Seq<char>, enabled: bool) -> (ResponseView, Clock) {
    let scan = scan_of(sd, ws, c);
    let c1 = after_scan(ws.dirs, c);
    let fx = scan_effects(sd, ws.dirs, c, scan);
    let k = copy_index(scan, id);
    if k >= scan.installed_skills.len() {
        (ResponseView { result: Err(not_found_message(id)), effects: fx }, c1)
    } else {
        (
            ResponseView {
                result: Ok(OutputView::Text(toggle_message(id, enabled))),
                effects: fx.push(EffectView::WriteInstalledRegistry(toggled(scan.installed_skills, k, enabled, c1))),
            },
            c1,
        )
    }
}

/// `skill remove`: scan, delete the copy's directory, scan again.
pub open spec fn remove_response(sd: Seq<char>, ws: WorkspaceView, c: Clock, id: Seq<char>) -> (ResponseView, Clock) {
    let scan = scan_of(sd, ws, c);
    let c1 = after_scan(ws.dirs, c);
    let fx = scan_effects(sd, ws.dirs, c, scan);
    let k = copy_index(scan, id);
    if k >= scan.installed_skills.len() {
        (ResponseView { result: Err(not_found_message(id)), effects: fx }, c1)
    } else {
        let removed = scan.installed_skills[k].install_path;
        let dirs2 = dirs_after_removal(sd, ws.dirs, c, removed);
        let present2 = scan.installed_skills.map_values(|x: InstalledView| x.install_path != removed);
        let scan2 = scan_view_of(sd, dirs2, scan.installed_skills, present2, c1);
        (
            ResponseView {
                result: Ok(OutputView::Text(removed_message(id, scan2))),
                effects: fx.push(EffectView::RemoveDir(removed)) + scan_effects(sd, dirs2, c1, scan2),
            },
            after_scan(dirs2, c1),
        )
    }
}


/// The previous records and, for each, whether its directory exists.
fn split_records(records: &Vec<RegistryRecord>) -> (r: (Vec<InstalledSkill>, Vec<bool>))
    ensures
        installed_views(r.0@) == records@.map_values(|x: RegistryRecord| x.installed@),
        r.1@ == records@.map_values(|x: RegistryRecord| x.dir_exists),
{
    let mut a: Vec<InstalledSkill> = Vec::new();
    let mut b: Vec<bool> = Vec::new();
    let mut i: usize = 0;
    while i < records.len()
        invariant
            i <= records@.len(),
            installed_views(a@) == records@.take(i as int).map_values(|x: RegistryRecord| x.installed@),
            b@ == records@.take(i as int).map_values(|x: RegistryRecord| x.dir_exists),
        decreases records@.len() - i,
    {
        let ghost av = installed_views(a@);
        a.push(records[i].installed.clone());
        b.push(records[i].dir_exists);
        assert(records@.take(i + 1) =~= records@.take(i as int).push(records@[i as int]));
        assert(installed_views(a@) =~= av.push(records@[i as int].installed@));
        i = i + 1;
        assert(b@ =~= records@.take(i as int).map_values(|x: RegistryRecord| x.dir_exists));
    }
    assert(records@.take(records@.len() as int) =~= records@);
    (a, b)
}

fn copy_skills(v: &Vec<Skill>) -> (r: Vec<Skill>)
    ensures
        skill_views(r@) == skill_views(v@),
{
    let mut r: Vec<Skill> = Vec::new();
    let mut i: usize = 0;
    while i < v.len()
        invariant
            i <= v@.len(),
            skill_views(r@) == skill_views(v@).take(i as int),
        decreases v@.len() - i,
    {
        let ghost before = skill_views(r@);
        r.push(v[i].clone());
        assert(skill_views(r@) =~= before.push(v@[i as int]@));
        assert(skill_views(v@).take(i + 1) =~= skill_views(v@).take(i as int).push(v@[i as int]@));
        i = i + 1;
    }
    assert(skill_views(v@).take(v@.len() as int) =~= skill_views(v@));
    r
}

fn copy_installed(v: &Vec<InstalledSkill>) -> (r: Vec<InstalledSkill>)
    ensures
        installed_views(r@) == installed_views(v@),
{
    let mut r: Vec<InstalledSkill> = Vec::new();
    let mut i: usize = 0;
    while i < v.len()
        invariant
            i <= v@.len(),
            installed_views(r@) == installed_views(v@).take(i as int),
        decreases v@.len() - i,
    {
        let ghost before = installed_views(r@);
        r.push(v[i].clone());
        assert(installed_views(r@) =~= before.push(v@[i as int]@));
        assert(installed_views(v@).take(i + 1) =~= installed_views(v@).take(i as int).push(v@[i as int]@));
        i = i + 1;
    }
    assert(installed_views(v@).take(v@.len() as int) =~= installed_views(v@));
    r
}

fn copy_issues(v: &Vec<SkillDoctorIssue>) -> (r: Vec<SkillDoctorIssue>)
    ensures
        issue_views(r@) == issue_views(v@),
{
    let mut r: Vec<SkillDoctorIssue> = Vec::new();
    let mut i: usize = 0;
    while i < v.len()
        invariant
            i <= v@.len(),
            issue_views(r@) == issue_views(v@).take(i as int),
        decreases v@.len() - i,
    {
        let ghost before = issue_views(r@);
        r.push(v[i].clone());
        assert(issue_views(r@) =~= before.push(v@[i as int]@));
        assert(issue_views(v@).take(i + 1) =~= issue_views(v@).take(i as int).push(v@[i as int]@));
        i = i + 1;
    }
    assert(issue_views(v@).take(v@.len() as int) =~= issue_views(v@));
    r
}

/// The effects of a scan of `dirs`, given what it returned.
fn effects_of_scan(skills_dir: &str, dirs: &[SkillDirState], outcome: &ScanOutcome, Ghost(c): Ghost<Clock>) -> (r: Vec<SkillEffect>)
    requires
        metadata_views(outcome.metadata@) == scan_writes_of(dir_views(dirs@), c),
    ensures
        effect_views(r@) == scan_effects(skills_dir@, dir_views(dirs@), c, outcome.result@),
{
    let ghost dv = dir_views(dirs@);
    let ghost target = scan_effects(skills_dir@, dv, c, outcome.result@);
    let mut effects: Vec<SkillEffect> = Vec::new();
    let metas = &outcome.metadata;
    let ghost mv = metadata_views(metas@);
    assert(mv.len() == metas@.len());
    let n = dirs.len();
    let mut i: usize = 0;
    while i < n
        invariant
            i <= n == dirs@.len() == metas@.len(),
            dv == dir_views(dirs@),
            mv == metadata_views(metas@),
            mv == scan_writes_of(dv, c),
            target == scan_effects(skills_dir@, dv, c, outcome.result@),
            effect_views(effects@) == target.take(i as int),
        decreases n - i,
    {
        let dir = path_join_text(skills_dir, dirs[i].dir_name.as_str());
        assert(dv[i as int] == dirs@[i as int]@);
        let m = metas[i].clone();
        assert(m@ == mv[i as int]);
        assert(mv[i as int] == reconciled(dv, i as int, c));
        assert(target[i as int] == EffectView::WriteMetadata(path_join(skills_dir@, dv[i as int].dir_name), reconciled(dv, i as int, c)));
        let ghost before = effect_views(effects@);
        effects.push(SkillEffect::WriteMetadata { dir, metadata: m });
        assert(effect_views(effects@) =~= before.push(target[i as int]));
        assert(target.take(i + 1) =~= target.take(i as int).push(target[i as int]));
        i = i + 1;
    }
    let ghost before = effect_views(effects@);
    assert(before =~= Seq::new(dv.len(), |i: int| EffectView::WriteMetadata(path_join(skills_dir@, dv[i].dir_name), reconciled(dv, i, c))));
    let sk = copy_skills(&outcome.result.skills);
    let ins = copy_installed(&outcome.result.installed_skills);
    effects.push(SkillEffect::WriteSkillRegistry(sk));
    effects.push(SkillEffect::WriteInstalledRegistry(ins));
    assert(effect_views(effects@) =~= before.push(EffectView::WriteSkillRegistry(outcome.result@.skills)).push(EffectView::WriteInstalledRegistry(outcome.result@.installed_skills)));
    assert(effect_views(effects@) =~= target);
    effects
}

impl SkillManager {
    /// The store under `data_dir`.
    pub fn new(data_dir: String) -> (m: Self)
        ensures
            m.data_dir == data_dir,
    {
        SkillManager { data_dir }
    }

    /// The directory that holds one directory per installed copy.
    pub fn skills_dir(&self) -> (s: String)
        ensures
            s@ == skills_dir_of(self.data_dir@),
    {
        path_join_text(self.data_dir.as_str(), "skills")
    }

    /// The directory that holds the registries.
    pub fn registry_dir(&self) -> (s: String)
        ensures
            s@ == registry_dir_of(self.data_dir@),
    {
        path_join_text(self.data_dir.as_str(), "registry")
    }

    /// Reconciles the store: returns what the scan found, and the metadata
    /// and registry writes that bring the disk in line with it.
    pub fn scan_and_reconcile_skills(&self, ws: &SkillWorkspace, clock: &mut Clock) -> (r: (ScanResult, Vec<SkillEffect>))
        ensures
            r.0@ == scan_of(skills_dir_of(self.data_dir@), ws@, *old(clock)),
            effect_views(r.1@) == scan_effects(
                skills_dir_of(self.data_dir@),
                ws@.dirs,
                *old(clock),
                scan_of(skills_dir_of(self.data_dir@), ws@, *old(clock)),
            ),
            *final(clock) == after_scan(ws@.dirs, *old(clock)),
    {
        let (outcome, effects) = self.scan_full(ws, clock);
        (outcome.result, effects)
    }

    fn scan_full(&self, ws: &SkillWorkspace, clock: &mut Clock) -> (r: (ScanOutcome, Vec<SkillEffect>))
        ensures
            r.0.result@ == scan_of(skills_dir_of(self.data_dir@), ws@, *old(clock)),
            metadata_views(r.0.metadata@) == scan_writes_of(ws@.dirs, *old(clock)),
            effect_views(r.1@) == scan_effects(
                skills_dir_of(self.data_dir@),
                ws@.dirs,
                *old(clock),
                scan_of(skills_dir_of(self.data_dir@), ws@, *old(clock)),
            ),
            *final(clock) == after_scan(ws@.dirs, *old(clock)),
    {
        let ghost c0 = *clock;
        let sd = self.skills_dir();
        let (prev, present) = split_records(&ws.previous);
        let outcome = scan_dirs(sd.as_str(), ws.dirs.as_slice(), prev.as_slice(), present.as_slice(), clock);
        let effects = effects_of_scan(sd.as_str(), ws.dirs.as_slice(), &outcome, Ghost(c0));
        (outcome, effects)
    }
}


fn keep_enabled(entries: Vec<SkillEntry>, want: bool) -> (r: Vec<SkillEntry>)
    ensures
        entry_views(r@) == with_enabled(entry_views(entries@), want),
{
    let ghost ev = entry_views(entries@);
    let mut r: Vec<SkillEntry> = Vec::new();
    let mut i: usize = 0;
    while i < entries.len()
        invariant
            i <= entries@.len(),
            ev == entry_views(entries@),
            entry_views(r@) == with_enabled(ev.take(i as int), want),
        decreases entries@.len() - i,
    {
        proof {
            assert(ev[i as int] == entries@[i as int]@);
            assert(ev.take(i + 1) =~= ev.take(i as int).push(ev[i as int]));
            ev.take(i as int).lemma_filter_push(ev[i as int], |e: EntryView| e.installed.enabled == want);
        }
        if entries[i].installed.enabled == want {
            let ghost before = entry_views(r@);
            r.push(entries[i].clone());
            assert(entry_views(r@) =~= before.push(ev[i as int]));
        }
        i = i + 1;
    }
    assert(ev.take(entries@.len() as int) =~= ev);
    r
}

fn listing_output(entries: Vec<SkillEntry>, json: bool, all_fields: bool) -> (o: SkillOutput)
    ensures
        o@ == listing(entry_views(entries@), json, all_fields),
{
    if json {
        SkillOutput::EntriesJson { entries, include_instance_fields: all_fields }
    } else {
        SkillOutput::Text(format_entry_table(&entries, all_fields))
    }
}

fn find_copy(copies: &Vec<InstalledSkill>, id: &String) -> (k: usize)
    ensures
        k == first_match(installed_views(copies@), |x: InstalledView| x.instance_id == id@),
{
    let ghost iv = installed_views(copies@);
    let mut k: usize = 0;
    while k < copies.len() && !(copies[k].instance_id == *id)
        invariant
            k <= copies@.len(),
            iv == installed_views(copies@),
            forall|j: int| 0 <= j < k ==> iv[j].instance_id != id@,
        decreases copies@.len() - k,
    {
        assert(iv[k as int] == copies@[k as int]@);
        k = k + 1;
    }
    proof {
        lemma_first_match(iv, |x: InstalledView| x.instance_id == id@, k as int);
    }
    k
}

impl SkillManager {
    fn skill_list(&self, command: &SkillListCommand, ws: &SkillWorkspace, clock: &mut Clock) -> (r: SkillResponse)
        ensures
            (r@, *final(clock)) == command_response(self.data_dir@, Some(SkillCommand::List(*command)), ws@, *old(clock)),
    {
        let (scan, effects) = self.scan_and_reconcile_skills(ws, clock);
        let mut entries = join_skill_entries(scan.skills.as_slice(), scan.installed_skills.as_slice());
        if command.enabled {
            entries = keep_enabled(entries, true);
        }
        if command.disabled {
            entries = keep_enabled(entries, false);
        }
        SkillResponse { result: Ok(listing_output(entries, command.format.json, command.format.long)), effects }
    }

    fn skill_instances(&self, command: &SkillInstancesCommand, ws: &SkillWorkspace, clock: &mut Clock) -> (r: SkillResponse)
        ensures
            (r@, *final(clock)) == command_response(self.data_dir@, Some(SkillCommand::Instances(*command)), ws@, *old(clock)),
    {
        let (scan, effects) = self.scan_and_reconcile_skills(ws, clock);
        let entries = join_skill_entries(scan.skills.as_slice(), scan.installed_skills.as_slice());
        SkillResponse { result: Ok(listing_output(entries, command.format.json, true)), effects }
    }

    fn skill_view(&self, command: &SkillViewCommand, ws: &SkillWorkspace, clock: &mut Clock) -> (r: SkillResponse)
        ensures
            (r@, *final(clock)) == command_response(self.data_dir@, Some(SkillCommand::View(*command)), ws@, *old(clock)),
    {
        let (scan, effects) = self.scan_and_reconcile_skills(ws, clock);
        let found = resolve_skill_reference(scan.skills.as_slice(), scan.installed_skills.as_slice(), command.reference.as_str());
        let result = match found {
            Ok(entry) => if command.format.json {
                Ok(SkillOutput::EntryJson(entry))
            } else {
                Ok(SkillOutput::Text(format_view(&entry)))
            },
            Err(m) => Err(m),
        };
        SkillResponse { result, effects }
    }

    /// The metadata file of the copy a reference names, for `skill edit`.
    pub fn edit_target(&self, reference: &str, ws: &SkillWorkspace, clock: &mut Clock) -> (r: SkillResponse)
        ensures
            (r@, *final(clock)) == edit_response(skills_dir_of(self.data_dir@), ws@, *old(clock), reference@),
    {
        let (scan, effects) = self.scan_and_reconcile_skills(ws, clock);
        let found = resolve_skill_reference(scan.skills.as_slice(), scan.installed_skills.as_slice(), reference);
        let result = match found {
            Ok(entry) => Ok(SkillOutput::EditTarget(path_join_text(entry.installed.install_path.as_str(), "byi-skill.toml"))),
            Err(m) => Err(m),
        };
        SkillResponse { result, effects }
    }
}


impl SkillManager {
    fn skill_doctor(&self, format: &SkillFormatCommand, ws: &SkillWorkspace, clock: &mut Clock) -> (r: SkillResponse)
        ensures
            (r@, *final(clock)) == command_response(self.data_dir@, Some(SkillCommand::Doctor(*format)), ws@, *old(clock)),
    {
        let (scan, effects) = self.scan_and_reconcile_skills(ws, clock);
        let result = if format.json {
            Ok(SkillOutput::IssuesJson(copy_issues(&scan.issues)))
        } else {
            Ok(SkillOutput::Text(format_doctor(&scan.issues)))
        };
        SkillResponse { result, effects }
    }

    fn skill_rescan(&self, format: &SkillFormatCommand, ws: &SkillWorkspace, clock: &mut Clock) -> (r: SkillResponse)
        ensures
            (r@, *final(clock)) == command_response(self.data_dir@, Some(SkillCommand::Rescan(*format)), ws@, *old(clock)),
    {
        let (scan, effects) = self.scan_and_reconcile_skills(ws, clock);
        assert(issue_views(scan.issues@).len() == scan.issues@.len());
        let result = if format.json {
            Ok(SkillOutput::RescanJson {
                added: scan.added,
                updated: scan.updated,
                removed: scan.removed,
                issues: copy_issues(&scan.issues),
            })
        } else {
            Ok(SkillOutput::Text(format_rescan(scan.added, scan.updated, scan.removed, scan.issues.len())))
        };
        SkillResponse { result, effects }
    }

    fn skill_set_enabled(&self, command: &SkillInstanceCommand, enabled: bool, ws: &SkillWorkspace, clock: &mut Clock) -> (r: SkillResponse)
        ensures
            (r@, *final(clock)) == toggle_response(skills_dir_of(self.data_dir@), ws@, *old(clock), command.instance_id@, enabled),
    {
        let (scan, mut effects) = self.scan_and_reconcile_skills(ws, clock);
        let k = find_copy(&scan.installed_skills, &command.instance_id);
        if k >= scan.installed_skills.len() {
            return SkillResponse { result: Err(concat("未找到实例: ", command.instance_id.as_str())), effects };
        }
        let mut registry = copy_installed(&scan.installed_skills);
        let mut item = registry[k].clone();
        item.enabled = enabled;
        item.updated_at = current_timestamp(clock);
        registry.set(k, item);
        assert(installed_views(registry@) =~= toggled(scan@.installed_skills, k as int, enabled, *clock));
        let ghost before = effect_views(effects@);
        effects.push(SkillEffect::WriteInstalledRegistry(registry));
        assert(effect_views(effects@) =~= before.push(EffectView::WriteInstalledRegistry(toggled(scan@.installed_skills, k as int, enabled, *clock))));
        let mut msg = concat("实例 ", command.instance_id.as_str());
        msg.append(" 已");
        msg.append(if enabled { "启用" } else { "停用" });
        msg.append("。");
        SkillResponse { result: Ok(SkillOutput::Text(msg)), effects }
    }

    fn skill_remove(&self, command: &SkillInstanceCommand, ws: &SkillWorkspace, clock: &mut Clock) -> (r: SkillResponse)
        ensures
            (r@, *final(clock)) == remove_response(skills_dir_of(self.data_dir@), ws@, *old(clock), command.instance_id@),
    {
        let ghost c0 = *clock;
        let sd = self.skills_dir();
        let (outcome, mut effects) = self.scan_full(ws, clock);
        let ghost c1 = *clock;
        let copies = &outcome.result.installed_skills;
        let k = find_copy(copies, &command.instance_id);
        if k >= copies.len() {
            return SkillResponse { result: Err(concat("未找到实例: ", command.instance_id.as_str())), effects };
        }
        let removed = copies[k].install_path.clone();
        assert(removed@ == outcome.result@.installed_skills[k as int].install_path);
        let ghost before = effect_views(effects@);
        effects.push(SkillEffect::RemoveDir(removed.clone()));
        assert(effect_views(effects@) =~= before.push(EffectView::RemoveDir(removed@)));
        let ghost dv = ws@.dirs;
        let ghost all2 = Seq::new(
            dv.len(),
            |i: int|
                DirView {
                    dir_name: dv[i].dir_name,
                    metadata: Some(reconciled(dv, i, c0)),
                    has_skill_md: dv[i].has_skill_md,
                    skill_md: dv[i].skill_md,
                },
        );
        let ghost keep = |d: DirView| path_join(sd@, d.dir_name) != removed@;
        let mut dirs2: Vec<SkillDirState> = Vec::new();
        let n = ws.dirs.len();
        assert(metadata_views(outcome.metadata@).len() == outcome.metadata@.len());
        let mut i: usize = 0;
        while i < n
            invariant
                i <= n == ws.dirs@.len() == outcome.metadata@.len(),
                dv == dir_views(ws.dirs@),
                metadata_views(outcome.metadata@) == scan_writes_of(dv, c0),
                sd@ == skills_dir_of(self.data_dir@),
                all2 == Seq::new(
                    dv.len(),
                    |i: int|
                        DirView {
                            dir_name: dv[i].dir_name,
                            metadata: Some(reconciled(dv, i, c0)),
                            has_skill_md: dv[i].has_skill_md,
                            skill_md: dv[i].skill_md,
                        },
                ),
                keep == (|d: DirView| path_join(sd@, d.dir_name) != removed@),
                dir_views(dirs2@) == all2.take(i as int).filter(keep),
            decreases n - i,
        {
            let d = &ws.dirs[i];
            assert(dv[i as int] == d@);
            let path = path_join_text(sd.as_str(), d.dir_name.as_str());
            proof {
                assert(all2.take(i + 1) =~= all2.take(i as int).push(all2[i as int]));
                all2.take(i as int).lemma_filter_push(all2[i as int], keep);
            }
            if !(path == removed) {
                let md = match &d.skill_md {
                    Some(t) => Some(t.clone()),
                    None => None,
                };
                let m = outcome.metadata[i].clone();
                assert(m@ == reconciled(dv, i as int, c0)) by {
                    assert(metadata_views(outcome.metadata@)[i as int] == outcome.metadata@[i as int]@);
                }
                let nd = SkillDirState { dir_name: d.dir_name.clone(), metadata: Some(m), has_skill_md: d.has_skill_md, skill_md: md };
                assert(nd@ == all2[i as int]);
                let ghost b = dir_views(dirs2@);
                dirs2.push(nd);
                assert(dir_views(dirs2@) =~= b.push(all2[i as int]));
            }
            i = i + 1;
        }
        assert(all2.take(n as int) =~= all2);
        let prev2 = copy_installed(copies);
        let mut present2: Vec<bool> = Vec::new();
        let mut j: usize = 0;
        while j < copies.len()
            invariant
                j <= copies@.len(),
                present2@ == installed_views(copies@).take(j as int).map_values(|x: InstalledView| x.install_path != removed@),
            decreases copies@.len() - j,
        {
            let p = !(copies[j].install_path == removed);
            present2.push(p);
            proof {
                assert(installed_views(copies@)[j as int] == copies@[j as int]@);
                assert(installed_views(copies@).take(j + 1) =~= installed_views(copies@).take(j as int).push(installed_views(copies@)[j as int]));
            }
            j = j + 1;
            assert(present2@ =~= installed_views(copies@).take(j as int).map_values(|x: InstalledView| x.install_path != removed@));
        }
        assert(installed_views(copies@).take(copies@.len() as int) =~= installed_views(copies@));
        let outcome2 = scan_dirs(sd.as_str(), dirs2.as_slice(), prev2.as_slice(), present2.as_slice(), clock);
        let mut fx2 = effects_of_scan(sd.as_str(), dirs2.as_slice(), &outcome2, Ghost(c1));
        let ghost e1 = effect_views(effects@);
        let ghost e2 = effect_views(fx2@);
        effects.append(&mut fx2);
        assert(effect_views(effects@) =~= e1 + e2);
        let mut msg = concat("已删除实例 ", command.instance_id.as_str());
        msg.append("。\n");
        let summary = format_scan_summary(outcome2.result.added, outcome2.result.updated, outcome2.result.removed);
        msg.append(summary.as_str());
        SkillResponse { result: Ok(SkillOutput::Text(msg)), effects }
    }
}


/// The description the staged `SKILL.md` gives, or nothing.
pub open spec fn staged_description(st: StagedView) -> Seq<char> {
    match st.skill_md {
        Some(t) => match markdown_description(t) {
            Some(x) => x,
            None => Seq::empty(),
        },
        None => Seq::empty(),
    }
}

/// The name a new skill gets when its metadata names none: the title of its
/// `SKILL.md`, else the name of its directory or repository.
pub open spec fn name_hint(plan: AddPlanView, st: StagedView) -> Seq<char> {
    let title = match st.skill_md {
        Some(t) => markdown_title(t),
        None => None,
    };
    match title {
        Some(t) => t,
        None => match plan.source {
            AddSourceView::Local(sp) => match path_file_name(sp) {
                Some(n) => display_name(n),
                None => "skill"@,
            },
            AddSourceView::GitHub(repo, _, d, _) => github_skill_name(repo, d),
        },
    }
}

/// The metadata a new skill is filed with: its own metadata file, or one
/// made from the hints, with a fresh instance id, the source recorded, the
/// skill id moved into the source's namespace, and a description filled in.
pub open spec fn new_metadata(plan: AddPlanView, st: StagedView, c: Clock) -> MetadataView {
    let hint = name_hint(plan, st);
    let now = timestamp(c);
    let base = match st.metadata {
        Some(m) => m,
        None => MetadataView {
            instance_id: fresh_id(c, 0),
            skill_id: skill_id_of(plan.namespace, hint),
            name: hint,
            description: staged_description(st),
            source: plan.source_kind,
            created_at: now,
            updated_at: now,
            domains: Seq::empty(),
            modules: Seq::empty(),
        },
    };
    let m1 = MetadataView {
        instance_id: fresh_id(c, if st.metadata is None { 1nat } else { 0nat }),
        source: plan.source_kind,
        updated_at: now,
        ..base
    };
    let m2 = if is_blank(m1.skill_id) || namespace_of(m1.skill_id) != plan.namespace {
        MetadataView { skill_id: skill_id_of(plan.namespace, m1.name), ..m1 }
    } else {
        m1
    };
    if is_blank(m2.description) {
        MetadataView { description: staged_description(st), ..m2 }
    } else {
        m2
    }
}

/// How many instance ids filing the metadata takes.
pub open spec fn metadata_ids(st: StagedView) -> nat {
    if st.metadata is None { 2 } else { 1 }
}

pub open spec fn added_message(name: Seq<char>, dir: Seq<char>, id: Seq<char>, kind: Seq<char>, scan: ScanView) -> Seq<char> {
    "已添加 skill。\n名称: "@ + name + "\n目录: "@ + dir + "\n实例: "@ + id + "\n来源: "@ + kind + "\n"@
        + scan_summary(scan.added, scan.updated, scan.removed)
}

pub open spec fn missing_source_message(path: Seq<char>) -> Seq<char> {
    "skill 路径不存在或不是目录: "@ + path
}

/// The directories with a new one placed before the first with a later name.
pub open spec fn with_new_dir(dirs: Seq<DirView>, d: DirView) -> Seq<DirView> {
    dirs.insert(first_match(dirs, |x: DirView| text_lt(d.dir_name, x.dir_name)), d)
}

/// `skill add`, once the source is staged: the plan, the metadata, the
/// directory, the copy, and the scan that files it.
pub open spec fn add_response(data_dir: Seq<char>, cmd: SkillAddCommand, ws: WorkspaceView, c: Clock) -> (ResponseView, Clock) {
    let plan = add_plan(opt_view(cmd.path), opt_view(cmd.github), opt_view(cmd.git_ref), opt_view(cmd.subdir), ws.home, c);
    let c1 = if plan_uses_id(opt_view(cmd.path), opt_view(cmd.github)) { clock_after(c, 1) } else { c };
    match plan {
        Err(e) => (ResponseView { result: Err(e), effects: Seq::empty() }, c1),
        Ok(p) => file_response(data_dir, p, ws, c1),
    }
}

/// Filing a staged skill according to its plan.
pub open spec fn file_response(data_dir: Seq<char>, p: AddPlanView, ws: WorkspaceView, c1: Clock) -> (ResponseView, Clock) {
    if p.source is Local && !ws.staged.found {
        (ResponseView { result: Err(missing_source_message(p.source->Local_0)), effects: Seq::empty() }, c1)
    } else {
        let m = new_metadata(p, ws.staged, c1);
        let c2 = clock_after(c1, metadata_ids(ws.staged));
        match dir_name_choice(m.name, ws.entry_names) {
            None => (ResponseView { result: Err(no_dir_name_message(m.name)), effects: Seq::empty() }, c2),
            Some(t) => {
                let sd = skills_dir_of(data_dir);
                let target = path_join(sd, t);
                let nd = DirView {
                    dir_name: t,
                    metadata: Some(m),
                    has_skill_md: ws.staged.has_skill_md,
                    skill_md: ws.staged.skill_md,
                };
                let dirs2 = with_new_dir(ws.dirs, nd);
                let present2 = Seq::new(
                    ws.previous.len(),
                    |k: int| ws.present[k] || ws.previous[k].install_path == target,
                );
                let scan = scan_view_of(sd, dirs2, ws.previous, present2, c2);
                (
                    ResponseView {
                        result: Ok(OutputView::Text(added_message(m.name, t, m.instance_id, p.source_kind, scan))),
                        effects: seq![EffectView::CopyStaged(target), EffectView::WriteMetadata(target, m)]
                            + scan_effects(sd, dirs2, c2, scan),
                    },
                    after_scan(dirs2, c2),
                )
            },
        }
    }
}

} // verus!

verus! {

fn no_effects() -> (v: Vec<SkillEffect>)
    ensures
        effect_views(v@) == Seq::<EffectView>::empty(),
{
    let v: Vec<SkillEffect> = Vec::new();
    assert(effect_views(v@) =~= Seq::<EffectView>::empty());
    v
}

fn clone_text_opt(o: &Option<String>) -> (r: Option<String>)
    ensures
        opt_view(r) == opt_view(*o),
        r is Some == o is Some,
{
    match o {
        Some(t) => Some(t.clone()),
        None => None,
    }
}

fn clone_dir(d: &SkillDirState) -> (r: SkillDirState)
    ensures
        r@ == d@,
{
    let metadata = match &d.metadata {
        Some(m) => Some(m.clone()),
        None => None,
    };
    SkillDirState {
        dir_name: d.dir_name.clone(),
        metadata,
        has_skill_md: d.has_skill_md,
        skill_md: clone_text_opt(&d.skill_md),
    }
}

fn staged_description_text(st: &StagedSkill) -> (r: String)
    ensures
        r@ == staged_description(st_view(st)),
{
    match &st.skill_md {
        Some(t) => match read_description(t.as_str()) {
            Some(x) => x,
            None => String::new(),
        },
        None => String::new(),
    }
}

pub open spec fn st_view(st: &StagedSkill) -> StagedView {
    StagedView {
        found: st.found,
        metadata: match st.metadata {
            Some(m) => Some(m@),
            None => None,
        },
        has_skill_md: st.has_skill_md,
        skill_md: opt_view(st.skill_md),
    }
}

fn name_hint_text(plan: &AddPlan, st: &StagedSkill) -> (r: String)
    ensures
        r@ == name_hint(plan@, st_view(st)),
{
    let title = match &st.skill_md {
        Some(t) => read_title(t.as_str()),
        None => None,
    };
    match title {
        Some(t) => t,
        None => match &plan.source {
            AddSource::Local { source_path } => match file_name_of(source_path.as_str()) {
                Some(n) => normalize_display_name(n.as_str()),
                None => String::from_str("skill"),
            },
            AddSource::GitHub { repo, git_ref: _, subdir, download_root: _ } => infer_github_skill_name(
                repo.as_str(),
                subdir.as_str(),
            ),
        },
    }
}

fn build_new_metadata(plan: &AddPlan, st: &StagedSkill, clock: &mut Clock) -> (r: SkillMetadata)
    ensures
        r@ == new_metadata(plan@, st_view(st), *old(clock)),
        *final(clock) == clock_after(*old(clock), metadata_ids(st_view(st))),
{
    let ghost c0 = *clock;
    let hint = name_hint_text(plan, st);
    let now = current_timestamp(clock);
    let mut m = match &st.metadata {
        Some(m) => m.clone(),
        None => {
            let id = new_instance_id(clock);
            let e = SkillMetadata {
                instance_id: id,
                skill_id: new_skill_id(plan.namespace.as_str(), hint.as_str()),
                name: hint.clone(),
                description: staged_description_text(st),
                source: plan.source_kind.clone(),
                created_at: now.clone(),
                updated_at: now.clone(),
                domains: Vec::new(),
                modules: Vec::new(),
            };
            assert(e@.domains =~= Seq::<Seq<char>>::empty());
            assert(e@.modules =~= Seq::<Seq<char>>::empty());
            e
        },
    };
    m.instance_id = new_instance_id(clock);
    m.source = plan.source_kind.clone();
    m.updated_at = now;
    proof {
        crate::skill::scan::lemma_counter_after_add(c0.next_id, 1, 1);
        crate::skill::scan::lemma_counter_after_add(c0.next_id, 0, 1);
        crate::skill::scan::lemma_counter_after_add(c0.next_id, 0, 0);
    }
    if is_blank_text(m.skill_id.as_str()) || !(source_namespace(m.skill_id.as_str()) == plan.namespace) {
        m.skill_id = new_skill_id(plan.namespace.as_str(), m.name.as_str());
    }
    if is_blank_text(m.description.as_str()) {
        m.description = staged_description_text(st);
    }
    m
}

fn insert_dir(dirs: &Vec<SkillDirState>, d: SkillDirState) -> (r: Vec<SkillDirState>)
    ensures
        dir_views(r@) == with_new_dir(dir_views(dirs@), d@),
{
    let ghost dv = dir_views(dirs@);
    let mut pos: usize = 0;
    while pos < dirs.len() && !text_less(d.dir_name.as_str(), dirs[pos].dir_name.as_str())
        invariant
            pos <= dirs@.len(),
            dv == dir_views(dirs@),
            forall|j: int| 0 <= j < pos ==> !text_lt(d@.dir_name, #[trigger] dv[j].dir_name),
        decreases dirs@.len() - pos,
    {
        assert(dv[pos as int] == dirs@[pos as int]@);
        pos = pos + 1;
    }
    proof {
        if pos < dirs@.len() {
            assert(dv[pos as int] == dirs@[pos as int]@);
        }
        lemma_first_match(dv, |x: DirView| text_lt(d@.dir_name, x.dir_name), pos as int);
    }
    let mut r: Vec<SkillDirState> = Vec::new();
    let mut i: usize = 0;
    while i < pos
        invariant
            i <= pos <= dirs@.len(),
            dv == dir_views(dirs@),
            dir_views(r@) == dv.take(i as int),
        decreases pos - i,
    {
        let ghost b = dir_views(r@);
        r.push(clone_dir(&dirs[i]));
        assert(dir_views(r@) =~= b.push(dv[i as int]));
        assert(dv.take(i + 1) =~= dv.take(i as int).push(dv[i as int]));
        i = i + 1;
    }
    let ghost dd = d@;
    r.push(d);
    let mut j: usize = pos;
    while j < dirs.len()
        invariant
            pos <= j <= dirs@.len(),
            dv == dir_views(dirs@),
            dir_views(r@) == dv.take(pos as int).push(dd) + dv.subrange(pos as int, j as int),
        decreases dirs@.len() - j,
    {
        let ghost b = dir_views(r@);
        r.push(clone_dir(&dirs[j]));
        assert(dir_views(r@) =~= b.push(dv[j as int]));
        j = j + 1;
        assert(dir_views(r@) =~= dv.take(pos as int).push(dd) + dv.subrange(pos as int, j as int));
    }
    assert(dir_views(r@) =~= dv.insert(pos as int, dd));
    r
}

impl SkillManager {
    /// The directory name a new skill named `name` gets in this store.
    pub fn next_available_dir_name(&self, name: &str, ws: &SkillWorkspace) -> (r: Result<String, String>)
        ensures
            match r {
                Ok(d) => dir_name_choice(name@, ws@.entry_names) == Some(d@),
                Err(e) => dir_name_choice(name@, ws@.entry_names) is None && e@ == no_dir_name_message(name@),
            },
    {
        choose_dir_name(name, &ws.entry_names)
    }

    fn skill_add(&self, command: &SkillAddCommand, ws: &SkillWorkspace, clock: &mut Clock) -> (r: SkillResponse)
        ensures
            (r@, *final(clock)) == add_response(self.data_dir@, *command, ws@, *old(clock)),
    {
        let planned = plan_add(&command.path, &command.github, &command.git_ref, &command.subdir, &ws.home, clock);
        match planned {
            Err(e) => SkillResponse { result: Err(e), effects: no_effects() },
            Ok(p) => self.file_staged(&p, ws, clock),
        }
    }

    /// Files a staged skill: its metadata, its directory, the copy and the scan.
    pub fn file_staged(&self, plan: &AddPlan, ws: &SkillWorkspace, clock: &mut Clock) -> (r: SkillResponse)
        ensures
            (r@, *final(clock)) == file_response(self.data_dir@, plan@, ws@, *old(clock)),
    {
        let ghost c1 = *clock;
        match &plan.source {
            AddSource::Local { source_path } => {
                if !ws.staged.found {
                    let e = concat("skill 路径不存在或不是目录: ", source_path.as_str());
                    return SkillResponse { result: Err(e), effects: no_effects() };
                }
            },
            AddSource::GitHub { .. } => {},
        }
        assert(st_view(&ws.staged) == ws@.staged);
        let m = build_new_metadata(plan, &ws.staged, clock);
        let ghost c2 = *clock;
        assert(m@ == new_metadata(plan@, ws@.staged, c1));
        let t = match choose_dir_name(m.name.as_str(), &ws.entry_names) {
            Err(e) => {
                return SkillResponse { result: Err(e), effects: no_effects() };
            },
            Ok(t) => t,
        };
        let sd = self.skills_dir();
        let target = path_join_text(sd.as_str(), t.as_str());
        let nd = SkillDirState {
            dir_name: t.clone(),
            metadata: Some(m.clone()),
            has_skill_md: ws.staged.has_skill_md,
            skill_md: clone_text_opt(&ws.staged.skill_md),
        };
        let dirs2 = insert_dir(&ws.dirs, nd);
        let (prev, present) = split_records(&ws.previous);
        let mut present2: Vec<bool> = Vec::new();
        let mut k: usize = 0;
        while k < prev.len()
            invariant
                k <= prev@.len() == present@.len(),
                installed_views(prev@) == ws@.previous,
                present@ == ws@.present,
                present2@ == Seq::new(k as nat, |q: int| ws@.present[q] || ws@.previous[q].install_path == target@),
            decreases prev@.len() - k,
        {
            assert(installed_views(prev@)[k as int] == prev@[k as int]@);
            let b = present[k] || prev[k].install_path == target;
            present2.push(b);
            k = k + 1;
            assert(present2@ =~= Seq::new(k as nat, |q: int| ws@.present[q] || ws@.previous[q].install_path == target@));
        }
        assert(installed_views(prev@).len() == prev@.len());
        let outcome = scan_dirs(sd.as_str(), dirs2.as_slice(), prev.as_slice(), present2.as_slice(), clock);
        let mut fx = effects_of_scan(sd.as_str(), dirs2.as_slice(), &outcome, Ghost(c2));
        let mut effects: Vec<SkillEffect> = Vec::new();
        effects.push(SkillEffect::CopyStaged(target.clone()));
        effects.push(SkillEffect::WriteMetadata { dir: target, metadata: m.clone() });
        let ghost e1 = effect_views(effects@);
        assert(e1 =~= seq![EffectView::CopyStaged(target@), EffectView::WriteMetadata(target@, m@)]);
        let ghost e2 = effect_views(fx@);
        effects.append(&mut fx);
        assert(effect_views(effects@) =~= e1 + e2);
        let ghost dirs2v = dir_views(dirs2@);
        assert(dirs2v == with_new_dir(ws@.dirs, DirView { dir_name: t@, metadata: Some(m@), has_skill_md: ws@.staged.has_skill_md, skill_md: ws@.staged.skill_md }));
        assert(outcome.result@ == scan_view_of(sd@, dirs2v, ws@.previous, present2@, c2));
        let mut msg = String::from_str("已添加 skill。\n名称: ");
        msg.append(m.name.as_str());
        msg.append("\n目录: ");
        msg.append(t.as_str());
        msg.append("\n实例: ");
        msg.append(m.instance_id.as_str());
        msg.append("\n来源: ");
        msg.append(plan.source_kind.as_str());
        msg.append("\n");
        let summary = format_scan_summary(outcome.result.added, outcome.result.updated, outcome.result.removed);
        msg.append(summary.as_str());
        SkillResponse { result: Ok(SkillOutput::Text(msg)), effects }
    }
}


impl SkillManager {
    /// Runs a skill command on the store as `ws` describes it: the answer or
    /// error, and the changes to make on disk (made in both cases).
    pub fn run_command(&self, command: Option<SkillCommand>, ws: &SkillWorkspace, clock: &mut Clock) -> (r: SkillResponse)
        ensures
            (r@, *final(clock)) == command_response(self.data_dir@, command, ws@, *old(clock)),
    {
        match command {
            None => SkillResponse {
                result: Err(String::from_str("缺少 skill 子命令。运行 `byi skill --help` 查看用法。")),
                effects: no_effects(),
            },
            Some(SkillCommand::Add(c)) => self.skill_add(&c, ws, clock),
            Some(SkillCommand::List(c)) => self.skill_list(&c, ws, clock),
            Some(SkillCommand::View(c)) => self.skill_view(&c, ws, clock),
            Some(SkillCommand::Edit(c)) => self.edit_target(c.reference.as_str(), ws, clock),
            Some(SkillCommand::Remove(c)) => self.skill_remove(&c, ws, clock),
            Some(SkillCommand::Enable(c)) => self.skill_set_enabled(&c, true, ws, clock),
            Some(SkillCommand::Disable(c)) => self.skill_set_enabled(&c, false, ws, clock),
            Some(SkillCommand::Instances(c)) => self.skill_instances(&c, ws, clock),
            Some(SkillCommand::Doctor(f)) => self.skill_doctor(&f, ws, clock),
            Some(SkillCommand::Rescan(f)) => self.skill_rescan(&f, ws, clock),
        }
    }
}

} // verus!
