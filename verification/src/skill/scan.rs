//! Reconciling the skill store with its directories: every directory under
//! `skills/` becomes one installed copy, its metadata repaired, and the
//! registries rebuilt from what was found.
use vstd::prelude::*;
use crate::seqs::{first_match, lemma_first_match};
use crate::text::{is_blank, is_blank_text, concat, chars_of, string_of};
use crate::skill::model::{
    Skill, SkillView, InstalledSkill, InstalledView, SkillMetadata, MetadataView,
    SkillDoctorIssue, IssueView, ScanResult, copy_texts,
};
use crate::skill::names::{display_name, normalize_display_name, namespace_of, source_namespace, skill_id_of, new_skill_id};
use crate::skill::markdown::{markdown_description, read_description};
use crate::skill::clock::{Clock, timestamp, current_timestamp, fresh_id, counter_after, new_instance_id};
use crate::skill::keyed::{keyed_fold, keyed_insert, keyed_position, keyed_by_last, keyed_witness, lemma_keyed_step, lemma_witness_keyed, lemma_witness_empty};
use crate::skill::lookup::{skill_views, installed_views};
use crate::text::{text_less, lemma_text_lt_total};

verus! {

/// What a scan knows of one directory under `skills/`: its name, its parsed
/// metadata file (none when the file is missing or not valid TOML for it),
/// whether `SKILL.md` exists, and the text of `SKILL.md` when it is readable.
#[derive(Debug)]
pub struct SkillDirState {
    pub dir_name: String,
    pub metadata: Option<SkillMetadata>,
    pub has_skill_md: bool,
    pub skill_md: Option<String>,
}

pub struct DirView {
    pub dir_name: Seq<char>,
    pub metadata: Option<MetadataView>,
    pub has_skill_md: bool,
    pub skill_md: Option<Seq<char>>,
}

impl View for SkillDirState {
    type V = DirView;

    open spec fn view(&self) -> DirView {
        DirView {
            dir_name: self.dir_name@,
            metadata: match self.metadata {
                Some(m) => Some(m@),
                None => None,
            },
            has_skill_md: self.has_skill_md,
            skill_md: match self.skill_md {
                Some(t) => Some(t@),
                None => None,
            },
        }
    }
}

pub open spec fn dir_views(s: Seq<SkillDirState>) -> Seq<DirView> {
    s.map_values(|d: SkillDirState| d@)
}

pub open spec fn metadata_views(s: Seq<SkillMetadata>) -> Seq<MetadataView> {
    s.map_values(|m: SkillMetadata| m@)
}

pub open spec fn issue_views(s: Seq<SkillDoctorIssue>) -> Seq<IssueView> {
    s.map_values(|m: SkillDoctorIssue| m@)
}

/// `name` under the directory `base`, as `Path::join` forms it.
pub open spec fn path_join(base: Seq<char>, name: Seq<char>) -> Seq<char> {
    if name.len() > 0 && name[0] == '/' {
        name
    } else if base.len() == 0 {
        name
    } else if base.last() == '/' {
        base + name
    } else {
        base + seq!['/'] + name
    }
}

/// `name` under the directory `base`.
pub fn path_join_text(base: &str, name: &str) -> (r: String)
    ensures
        r@ == path_join(base@, name@),
{
    let b = chars_of(base);
    let n = chars_of(name);
    if n.len() > 0 && n[0] == '/' {
        String::from_str(name)
    } else if b.len() == 0 {
        String::from_str(name)
    } else if b[b.len() - 1] == '/' {
        concat(base, name)
    } else {
        proof { reveal_strlit("/"); }
        let a = concat(base, "/");
        concat(a.as_str(), name)
    }
}

/// Metadata with every field empty: what a directory without a metadata file has.
pub open spec fn blank_metadata() -> MetadataView {
    MetadataView {
        instance_id: Seq::empty(),
        skill_id: Seq::empty(),
        name: Seq::empty(),
        description: Seq::empty(),
        source: Seq::empty(),
        created_at: Seq::empty(),
        updated_at: Seq::empty(),
        domains: Seq::empty(),
        modules: Seq::empty(),
    }
}

pub open spec fn existing_metadata(d: DirView) -> MetadataView {
    match d.metadata {
        Some(m) => m,
        None => blank_metadata(),
    }
}

/// The instance id a directory's metadata file records (empty without one).
pub open spec fn dir_instance_id(d: DirView) -> Seq<char> {
    existing_metadata(d).instance_id
}

/// The directory shares its recorded instance id with another directory:
/// it was copied, and gets a new id.
pub open spec fn is_copied(dirs: Seq<DirView>, i: int) -> bool {
    &&& dir_instance_id(dirs[i]).len() > 0
    &&& exists|j: int| 0 <= j < dirs.len() && j != i && #[trigger] dir_instance_id(dirs[j]) == dir_instance_id(dirs[i])
}

/// The directory records no usable instance id.
pub open spec fn needs_new_id(d: DirView) -> bool {
    is_blank(existing_metadata(d).instance_id)
}

/// How many instance ids reconciling the directory takes.
pub open spec fn ids_taken(d: DirView, copied: bool) -> nat {
    (if needs_new_id(d) { 1nat } else { 0nat }) + (if copied { 1nat } else { 0nat })
}

/// How many instance ids the directories before `n` take.
pub open spec fn id_offset(dirs: Seq<DirView>, n: int) -> nat
    decreases n,
{
    if n <= 0 {
        0
    } else {
        id_offset(dirs, n - 1) + ids_taken(dirs[n - 1], is_copied(dirs, n - 1))
    }
}

/// `v`, or `default` when `v` is blank.
pub open spec fn kept_or(v: Seq<char>, default: Seq<char>) -> Seq<char> {
    if is_blank(v) { default } else { v }
}

/// The description line of the directory's `SKILL.md`, or nothing.
pub open spec fn md_description_of(d: DirView) -> Seq<char> {
    match d.skill_md {
        Some(t) => match markdown_description(t) {
            Some(x) => x,
            None => Seq::empty(),
        },
        None => Seq::empty(),
    }
}

/// The clock after `k` instance ids were handed out.
pub open spec fn clock_after(c: Clock, k: nat) -> Clock {
    Clock { secs: c.secs, millis: c.millis, next_id: counter_after(c.next_id, k) }
}

/// A directory's metadata after repair: each blank field filled in (the name
/// from the directory name, the description from `SKILL.md`, the source as
/// `local`, the skill id from the source's namespace and the name, the
/// instance id and timestamps fresh), and a new instance id for a copy.
pub open spec fn repaired(d: DirView, copied: bool, c: Clock) -> MetadataView {
    let m = existing_metadata(d);
    let name = kept_or(m.name, display_name(d.dir_name));
    let source = kept_or(m.source, "local"@);
    let now = timestamp(c);
    let first = kept_or(m.instance_id, fresh_id(c, 0));
    MetadataView {
        instance_id: if copied {
            fresh_id(c, if needs_new_id(d) { 1nat } else { 0nat })
        } else {
            first
        },
        skill_id: kept_or(m.skill_id, skill_id_of(namespace_of(source), name)),
        name: name,
        description: kept_or(m.description, md_description_of(d)),
        source: source,
        created_at: kept_or(m.created_at, now),
        updated_at: now,
        domains: m.domains,
        modules: m.modules,
    }
}

/// The repaired metadata of directory `i` in a scan that started at clock `c`.
pub open spec fn reconciled(dirs: Seq<DirView>, i: int, c: Clock) -> MetadataView {
    repaired(dirs[i], is_copied(dirs, i), clock_after(c, id_offset(dirs, i)))
}

/// The skill a metadata file defines.
pub open spec fn skill_of(m: MetadataView) -> SkillView {
    SkillView {
        id: m.skill_id,
        name: m.name,
        description: m.description,
        source: m.source,
        domains: m.domains,
        modules: m.modules,
    }
}

/// The first earlier record of an instance id.
pub open spec fn previous_index(previous: Seq<InstalledView>, id: Seq<char>) -> int {
    first_match(previous, |p: InstalledView| p.instance_id == id)
}

/// The installed copy directory `i` stands for: enabled state and creation
/// time carried over from an earlier record of its instance id.
pub open spec fn scanned_installed(
    skills_dir: Seq<char>,
    dirs: Seq<DirView>,
    i: int,
    previous: Seq<InstalledView>,
    c: Clock,
) -> InstalledView {
    let m = reconciled(dirs, i, c);
    let k = previous_index(previous, m.instance_id);
    InstalledView {
        instance_id: m.instance_id,
        skill_id: m.skill_id,
        dir_name: dirs[i].dir_name,
        install_path: path_join(skills_dir, dirs[i].dir_name),
        enabled: if k < previous.len() { previous[k].enabled } else { true },
        source: m.source,
        created_at: if k < previous.len() { previous[k].created_at } else { m.created_at },
        updated_at: timestamp(c),
    }
}

/// A warning found by a scan.
pub open spec fn warning(code: Seq<char>, message: Seq<char>) -> IssueView {
    IssueView { code, level: "warn"@, message }
}

/// What a scan reports about directory `i`: a copy given a new id, a
/// missing `SKILL.md`, a path met twice.
pub open spec fn dir_issues(skills_dir: Seq<char>, dirs: Seq<DirView>, i: int) -> Seq<IssueView> {
    let p = path_join(skills_dir, dirs[i].dir_name);
    (if is_copied(dirs, i) {
        seq![warning("copied-instance"@, "检测到复制目录，已重建实例 ID: "@ + p)]
    } else {
        Seq::empty()
    }) + (if dirs[i].has_skill_md {
        Seq::empty()
    } else {
        seq![warning("missing-skill-md"@, "缺少 SKILL.md: "@ + p)]
    }) + (if exists|j: int| 0 <= j < i && #[trigger] path_join(skills_dir, dirs[j].dir_name) == p {
        seq![warning("duplicate-install-path"@, "目录被重复引用: "@ + p)]
    } else {
        Seq::empty()
    })
}

/// The reports about the first `n` directories, in order.
pub open spec fn issues_upto(skills_dir: Seq<char>, dirs: Seq<DirView>, n: int) -> Seq<IssueView>
    decreases n,
{
    if n <= 0 {
        Seq::empty()
    } else {
        issues_upto(skills_dir, dirs, n - 1) + dir_issues(skills_dir, dirs, n - 1)
    }
}

/// A report for each earlier record whose directory is gone.
pub open spec fn missing_issues(previous: Seq<InstalledView>, present: Seq<bool>) -> Seq<IssueView>
    decreases previous.len(),
{
    if previous.len() == 0 {
        Seq::empty()
    } else {
        missing_issues(previous.drop_last(), present.drop_last()) + if present.last() {
            Seq::empty()
        } else {
            seq![warning("missing-directory"@, "注册表存在但目录已删除: "@ + previous.last().install_path)]
        }
    }
}

/// No earlier record has the copy's instance id.
pub open spec fn is_added(previous: Seq<InstalledView>, x: InstalledView) -> bool {
    previous_index(previous, x.instance_id) >= previous.len()
}

/// An earlier record has the copy's instance id with another directory,
/// path, skill id or source.
pub open spec fn is_updated(previous: Seq<InstalledView>, x: InstalledView) -> bool {
    exists|k: int| 0 <= k < previous.len() && #[trigger] previous[k].instance_id == x.instance_id && (
        previous[k].dir_name != x.dir_name || previous[k].install_path != x.install_path
            || previous[k].skill_id != x.skill_id || previous[k].source != x.source)
}

/// No copy found by the scan has the record's instance id.
pub open spec fn is_removed(installed: Seq<InstalledView>, p: InstalledView) -> bool {
    first_match(installed, |x: InstalledView| x.instance_id == p.instance_id) >= installed.len()
}

pub open spec fn skill_key() -> spec_fn(SkillView) -> Seq<char> {
    |s: SkillView| s.id
}

pub open spec fn installed_key() -> spec_fn(InstalledView) -> Seq<char> {
    |x: InstalledView| x.instance_id
}

/// The skills a scan finds: one per skill id, the last directory winning, in id order.
pub open spec fn scanned_skills(dirs: Seq<DirView>, c: Clock) -> Seq<SkillView> {
    keyed_fold(Seq::new(dirs.len(), |i: int| skill_of(reconciled(dirs, i, c))), skill_key())
}

/// The installed copies a scan finds: one per instance id, the last
/// directory winning, in instance id order.
pub open spec fn scanned_copies(
    skills_dir: Seq<char>,
    dirs: Seq<DirView>,
    previous: Seq<InstalledView>,
    c: Clock,
) -> Seq<InstalledView> {
    keyed_fold(Seq::new(dirs.len(), |i: int| scanned_installed(skills_dir, dirs, i, previous, c)), installed_key())
}

/// The result of a scan of `dirs` under `skills_dir`, with the registry of
/// the previous scan and, for each of its records, whether its directory
/// still exists; the clock reading `c` supplies timestamps and new ids.
pub open spec fn scan_view_of(
    skills_dir: Seq<char>,
    dirs: Seq<DirView>,
    previous: Seq<InstalledView>,
    present: Seq<bool>,
    c: Clock,
) -> ScanView {
    let installed = scanned_copies(skills_dir, dirs, previous, c);
    ScanView {
        skills: scanned_skills(dirs, c),
        installed_skills: installed,
        issues: issues_upto(skills_dir, dirs, dirs.len() as int) + missing_issues(previous, present),
        added: installed.filter(|x: InstalledView| is_added(previous, x)).len(),
        updated: installed.filter(|x: InstalledView| is_updated(previous, x)).len(),
        removed: previous.filter(|p: InstalledView| is_removed(installed, p)).len(),
    }
}

/// The metadata a scan writes back, one per directory.
pub open spec fn scan_writes_of(dirs: Seq<DirView>, c: Clock) -> Seq<MetadataView> {
    Seq::new(dirs.len(), |i: int| reconciled(dirs, i, c))
}

/// Everything a scan produces: the result and the metadata written back,
/// and of the result, that it lists each skill id and instance id once, in
/// order, from the last directory that has it.
pub open spec fn scan_outcome(
    skills_dir: Seq<char>,
    dirs: Seq<DirView>,
    previous: Seq<InstalledView>,
    present: Seq<bool>,
    c: Clock,
    result: ScanView,
    writes: Seq<MetadataView>,
) -> bool {
    let n = dirs.len() as int;
    &&& result == scan_view_of(skills_dir, dirs, previous, present, c)
    &&& writes == scan_writes_of(dirs, c)
    &&& keyed_by_last(result.skills, Seq::new(n as nat, |i: int| skill_of(reconciled(dirs, i, c))), skill_key())
    &&& keyed_by_last(
        result.installed_skills,
        Seq::new(n as nat, |i: int| scanned_installed(skills_dir, dirs, i, previous, c)),
        installed_key(),
    )
}

pub use crate::skill::model::ScanView;

pub proof fn lemma_counter_after_add(n: u64, a: nat, b: nat)
    ensures
        counter_after(counter_after(n, a), b) == counter_after(n, a + b),
        counter_after(n, 0) == n,
{
    let m: int = 0x1_0000_0000_0000_0000;
    vstd::arithmetic::div_mod::lemma_add_mod_noop(n as int + a, b as int, m);
    vstd::arithmetic::div_mod::lemma_mod_twice(n as int + a, m);
    vstd::arithmetic::div_mod::lemma_small_mod(n as nat, m as nat);
    assert(counter_after(n, a) as int == (n as int + a) % m);
    if b < m {
        assert(((n as int + a) % m + b) % m == (n as int + a + b) % m) by {
            vstd::arithmetic::div_mod::lemma_add_mod_noop(n as int + a, b as int, m);
            vstd::arithmetic::div_mod::lemma_mod_twice(n as int + a, m);
        }
    } else {
        vstd::arithmetic::div_mod::lemma_add_mod_noop(n as int + a, b as int, m);
        vstd::arithmetic::div_mod::lemma_add_mod_noop_right((n as int + a) % m, b as int, m);
        vstd::arithmetic::div_mod::lemma_mod_twice(n as int + a, m);
        vstd::arithmetic::div_mod::lemma_add_mod_noop((n as int + a) % m, b as int, m);
    }
}

fn metadata_field_or_empty(d: &SkillDirState) -> (m: SkillMetadata)
    ensures
        m@ == existing_metadata(d@),
{
    match &d.metadata {
        Some(m) => m.clone(),
        None => {
            let e = SkillMetadata {
                instance_id: String::new(),
                skill_id: String::new(),
                name: String::new(),
                description: String::new(),
                source: String::new(),
                created_at: String::new(),
                updated_at: String::new(),
                domains: Vec::new(),
                modules: Vec::new(),
            };
            assert(e@.domains =~= Seq::<Seq<char>>::empty());
            assert(e@.modules =~= Seq::<Seq<char>>::empty());
            e
        },
    }
}

/// Repairs one directory's metadata.
pub fn repair_dir(d: &SkillDirState, copied: bool, clock: &mut Clock) -> (r: SkillMetadata)
    ensures
        r@ == repaired(d@, copied, *old(clock)),
        *final(clock) == clock_after(*old(clock), ids_taken(d@, copied)),
{
    let ghost c0 = *clock;
    let m = metadata_field_or_empty(d);
    let name = if is_blank_text(m.name.as_str()) {
        normalize_display_name(d.dir_name.as_str())
    } else {
        m.name.clone()
    };
    let description = if is_blank_text(m.description.as_str()) {
        match &d.skill_md {
            Some(t) => match read_description(t.as_str()) {
                Some(x) => x,
                None => String::new(),
            },
            None => String::new(),
        }
    } else {
        m.description.clone()
    };
    let source = if is_blank_text(m.source.as_str()) {
        String::from_str("local")
    } else {
        m.source.clone()
    };
    let first = if is_blank_text(m.instance_id.as_str()) {
        new_instance_id(clock)
    } else {
        m.instance_id.clone()
    };
    let skill_id = if is_blank_text(m.skill_id.as_str()) {
        let ns = source_namespace(source.as_str());
        new_skill_id(ns.as_str(), name.as_str())
    } else {
        m.skill_id.clone()
    };
    let now = current_timestamp(clock);
    let created_at = if is_blank_text(m.created_at.as_str()) {
        now.clone()
    } else {
        m.created_at.clone()
    };
    let instance_id = if copied {
        new_instance_id(clock)
    } else {
        first
    };
    proof {
        lemma_counter_after_add(c0.next_id, 0, 0);
        lemma_counter_after_add(c0.next_id, 1, 1);
        lemma_counter_after_add(c0.next_id, 1, 0);
        lemma_counter_after_add(c0.next_id, 0, 1);
    }
    SkillMetadata {
        instance_id,
        skill_id,
        name,
        description,
        source,
        created_at,
        updated_at: now,
        domains: copy_texts(&m.domains),
        modules: copy_texts(&m.modules),
    }
}


fn dir_id(d: &SkillDirState) -> (r: String)
    ensures
        r@ == dir_instance_id(d@),
{
    match &d.metadata {
        Some(m) => m.instance_id.clone(),
        None => String::new(),
    }
}

/// For each directory, whether it is a copy of another one.
pub fn detect_copies(dirs: &[SkillDirState]) -> (r: Vec<bool>)
    ensures
        r@.len() == dirs@.len(),
        forall|i: int| 0 <= i < dirs@.len() ==> r@[i] == is_copied(dir_views(dirs@), i),
{
    let ghost dv = dir_views(dirs@);
    let n = dirs.len();
    let mut ids: Vec<String> = Vec::new();
    let mut k: usize = 0;
    while k < n
        invariant
            k <= n == dirs@.len(),
            dv == dir_views(dirs@),
            ids@.len() == k,
            forall|j: int| 0 <= j < k ==> ids@[j]@ == dir_instance_id(#[trigger] dv[j]),
        decreases n - k,
    {
        assert(dv[k as int] == dirs@[k as int]@);
        ids.push(dir_id(&dirs[k]));
        k = k + 1;
    }
    let mut r: Vec<bool> = Vec::new();
    let mut i: usize = 0;
    while i < n
        invariant
            i <= n == dirs@.len() == ids@.len(),
            dv == dir_views(dirs@),
            forall|j: int| 0 <= j < n ==> ids@[j]@ == dir_instance_id(#[trigger] dv[j]),
            r@.len() == i,
            forall|j: int| 0 <= j < i ==> r@[j] == is_copied(dv, j),
        decreases n - i,
    {
        let mut found = false;
        if chars_of(ids[i].as_str()).len() > 0 {
            let mut j: usize = 0;
            while j < n
                invariant
                    i < n,
                    j <= n == ids@.len() == dv.len(),
                    forall|x: int| 0 <= x < n ==> ids@[x]@ == dir_instance_id(#[trigger] dv[x]),
                    found <==> exists|x: int| 0 <= x < j && x != i && #[trigger] dir_instance_id(dv[x]) == dir_instance_id(dv[i as int]),
                decreases n - j,
            {
                if j != i && ids[j] == ids[i] {
                    found = true;
                }
                assert(ids@[j as int]@ == dir_instance_id(dv[j as int]));
                j = j + 1;
            }
        }
        r.push(found);
        i = i + 1;
    }
    r
}

fn insert_keyed_skill(out: &mut Vec<Skill>, x: Skill, Ghost(items): Ghost<Seq<SkillView>>, Ghost(src): Ghost<Seq<int>>) -> (src2: Ghost<Seq<int>>)
    requires
        keyed_witness(skill_views(old(out)@), items, src, skill_key()),
    ensures
        keyed_witness(skill_views(final(out)@), items.push(x@), src2@, skill_key()),
        skill_views(final(out)@) == keyed_insert(skill_views(old(out)@), x@, skill_key()),
{
    let ghost ov = skill_views(out@);
    let mut pos: usize = 0;
    while pos < out.len() && text_less(out[pos].id.as_str(), x.id.as_str())
        invariant
            pos <= out@.len(),
            ov == skill_views(out@),
            forall|j: int| 0 <= j < pos ==> crate::text::text_lt((skill_key())(#[trigger] ov[j]), x@.id),
        decreases out@.len() - pos,
    {
        assert(ov[pos as int] == out@[pos as int]@);
        pos = pos + 1;
    }
    proof {
        if pos < out@.len() {
            assert(ov[pos as int] == out@[pos as int]@);
        }
        crate::seqs::lemma_first_match(ov, |v: SkillView| !crate::text::text_lt((skill_key())(v), x@.id), pos as int);
    }
    if pos < out.len() && out[pos].id == x.id {
        assert(ov[pos as int] == out@[pos as int]@);
        let ghost s2 = lemma_keyed_step(ov, items, src, x@, pos as int, true, skill_key());
        out.set(pos, x);
        assert(skill_views(out@) =~= ov.update(pos as int, x@));
        Ghost(s2)
    } else {
        proof {
            if pos < out@.len() {
                assert(ov[pos as int] == out@[pos as int]@);
                lemma_text_lt_total(ov[pos as int].id, x@.id);
            }
        }
        let ghost s2 = lemma_keyed_step(ov, items, src, x@, pos as int, false, skill_key());
        out.insert(pos, x);
        assert(skill_views(out@) =~= ov.insert(pos as int, x@));
        Ghost(s2)
    }
}

fn insert_keyed_installed(out: &mut Vec<InstalledSkill>, x: InstalledSkill, Ghost(items): Ghost<Seq<InstalledView>>, Ghost(src): Ghost<Seq<int>>) -> (src2: Ghost<Seq<int>>)
    requires
        keyed_witness(installed_views(old(out)@), items, src, installed_key()),
    ensures
        keyed_witness(installed_views(final(out)@), items.push(x@), src2@, installed_key()),
        installed_views(final(out)@) == keyed_insert(installed_views(old(out)@), x@, installed_key()),
{
    let ghost ov = installed_views(out@);
    let mut pos: usize = 0;
    while pos < out.len() && text_less(out[pos].instance_id.as_str(), x.instance_id.as_str())
        invariant
            pos <= out@.len(),
            ov == installed_views(out@),
            forall|j: int| 0 <= j < pos ==> crate::text::text_lt((installed_key())(#[trigger] ov[j]), x@.instance_id),
        decreases out@.len() - pos,
    {
        assert(ov[pos as int] == out@[pos as int]@);
        pos = pos + 1;
    }
    proof {
        if pos < out@.len() {
            assert(ov[pos as int] == out@[pos as int]@);
        }
        crate::seqs::lemma_first_match(ov, |v: InstalledView| !crate::text::text_lt((installed_key())(v), x@.instance_id), pos as int);
    }
    if pos < out.len() && out[pos].instance_id == x.instance_id {
        assert(ov[pos as int] == out@[pos as int]@);
        let ghost s2 = lemma_keyed_step(ov, items, src, x@, pos as int, true, installed_key());
        out.set(pos, x);
        assert(installed_views(out@) =~= ov.update(pos as int, x@));
        Ghost(s2)
    } else {
        proof {
            if pos < out@.len() {
                assert(ov[pos as int] == out@[pos as int]@);
                lemma_text_lt_total(ov[pos as int].instance_id, x@.instance_id);
            }
        }
        let ghost s2 = lemma_keyed_step(ov, items, src, x@, pos as int, false, installed_key());
        out.insert(pos, x);
        assert(installed_views(out@) =~= ov.insert(pos as int, x@));
        Ghost(s2)
    }
}

fn new_warning(code: &str, message: String) -> (r: SkillDoctorIssue)
    ensures
        r@ == warning(code@, message@),
{
    SkillDoctorIssue { code: String::from_str(code), level: String::from_str("warn"), message }
}


fn append_issues(issues: &mut Vec<SkillDoctorIssue>, more: &Vec<SkillDoctorIssue>)
    ensures
        issue_views(final(issues)@) == issue_views(old(issues)@) + issue_views(more@),
{
    let ghost start = issue_views(issues@);
    let mut i: usize = 0;
    while i < more.len()
        invariant
            i <= more@.len(),
            issue_views(issues@) == start + issue_views(more@).take(i as int),
        decreases more@.len() - i,
    {
        let ghost before = issue_views(issues@);
        let c = more[i].clone();
        assert(c@ == issue_views(more@)[i as int]);
        issues.push(c);
        assert(issue_views(issues@) =~= before.push(issue_views(more@)[i as int]));
        assert(issue_views(more@).take(i + 1) =~= issue_views(more@).take(i as int).push(issue_views(more@)[i as int]));
        i = i + 1;
        assert(issue_views(issues@) =~= start + issue_views(more@).take(i as int));
    }
    assert(issue_views(more@).take(more@.len() as int) =~= issue_views(more@));
}

fn count_added(installed: &Vec<InstalledSkill>, previous: &[InstalledSkill]) -> (n: usize)
    ensures
        n == installed_views(installed@).filter(|x: InstalledView| is_added(installed_views(previous@), x)).len(),
{
    let ghost iv = installed_views(installed@);
    let ghost pv = installed_views(previous@);
    let ghost pred = |x: InstalledView| is_added(pv, x);
    let mut n: usize = 0;
    let mut i: usize = 0;
    while i < installed.len()
        invariant
            i <= installed@.len(),
            iv == installed_views(installed@),
            pv == installed_views(previous@),
            pred == (|x: InstalledView| is_added(pv, x)),
            n == iv.take(i as int).filter(pred).len(),
            n <= i,
        decreases installed@.len() - i,
    {
        let mut k: usize = 0;
        while k < previous.len() && !(previous[k].instance_id == installed[i].instance_id)
            invariant
                i < installed@.len(),
                k <= previous@.len(),
                pv == installed_views(previous@),
                iv == installed_views(installed@),
                forall|j: int| 0 <= j < k ==> pv[j].instance_id != iv[i as int].instance_id,
            decreases previous@.len() - k,
        {
            assert(pv[k as int] == previous@[k as int]@);
            k = k + 1;
        }
        proof {
            assert(iv[i as int] == installed@[i as int]@);
            lemma_first_match(pv, |p: InstalledView| p.instance_id == iv[i as int].instance_id, k as int);
            assert(iv.take(i + 1) =~= iv.take(i as int).push(iv[i as int]));
            iv.take(i as int).lemma_filter_push(iv[i as int], pred);
        }
        if k >= previous.len() {
            n = n + 1;
        }
        i = i + 1;
    }
    assert(iv.take(installed@.len() as int) =~= iv);
    n
}

fn count_updated(installed: &Vec<InstalledSkill>, previous: &[InstalledSkill]) -> (n: usize)
    ensures
        n == installed_views(installed@).filter(|x: InstalledView| is_updated(installed_views(previous@), x)).len(),
{
    let ghost iv = installed_views(installed@);
    let ghost pv = installed_views(previous@);
    let ghost pred = |x: InstalledView| is_updated(pv, x);
    let mut n: usize = 0;
    let mut i: usize = 0;
    while i < installed.len()
        invariant
            i <= installed@.len(),
            iv == installed_views(installed@),
            pv == installed_views(previous@),
            pred == (|x: InstalledView| is_updated(pv, x)),
            n == iv.take(i as int).filter(pred).len(),
            n <= i,
        decreases installed@.len() - i,
    {
        let x = &installed[i];
        assert(iv[i as int] == installed@[i as int]@);
        let mut found = false;
        let mut k: usize = 0;
        while k < previous.len()
            invariant
                i < installed@.len(),
                k <= previous@.len(),
                pv == installed_views(previous@),
                iv == installed_views(installed@),
                x@ == iv[i as int],
                found <==> exists|j: int| 0 <= j < k && #[trigger] pv[j].instance_id == x@.instance_id && (
                    pv[j].dir_name != x@.dir_name || pv[j].install_path != x@.install_path
                        || pv[j].skill_id != x@.skill_id || pv[j].source != x@.source),
            decreases previous@.len() - k,
        {
            let p = &previous[k];
            assert(pv[k as int] == p@);
            let hit = p.instance_id == x.instance_id && (!(p.dir_name == x.dir_name) || !(p.install_path == x.install_path)
                || !(p.skill_id == x.skill_id) || !(p.source == x.source));
            assert(hit == (pv[k as int].instance_id == x@.instance_id && (
                    pv[k as int].dir_name != x@.dir_name || pv[k as int].install_path != x@.install_path
                        || pv[k as int].skill_id != x@.skill_id || pv[k as int].source != x@.source)));
            if hit {
                found = true;
            }
            k = k + 1;
        }
        proof {
            assert(iv.take(i + 1) =~= iv.take(i as int).push(iv[i as int]));
            iv.take(i as int).lemma_filter_push(iv[i as int], pred);
        }
        if found {
            n = n + 1;
        }
        i = i + 1;
    }
    assert(iv.take(installed@.len() as int) =~= iv);
    n
}

fn count_removed(installed: &Vec<InstalledSkill>, previous: &[InstalledSkill]) -> (n: usize)
    ensures
        n == installed_views(previous@).filter(|p: InstalledView| is_removed(installed_views(installed@), p)).len(),
{
    let ghost iv = installed_views(installed@);
    let ghost pv = installed_views(previous@);
    let ghost pred = |p: InstalledView| is_removed(iv, p);
    let mut n: usize = 0;
    let mut i: usize = 0;
    while i < previous.len()
        invariant
            i <= previous@.len(),
            iv == installed_views(installed@),
            pv == installed_views(previous@),
            pred == (|p: InstalledView| is_removed(iv, p)),
            n == pv.take(i as int).filter(pred).len(),
            n <= i,
        decreases previous@.len() - i,
    {
        let mut k: usize = 0;
        while k < installed.len() && !(installed[k].instance_id == previous[i].instance_id)
            invariant
                i < previous@.len(),
                k <= installed@.len(),
                pv == installed_views(previous@),
                iv == installed_views(installed@),
                forall|j: int| 0 <= j < k ==> iv[j].instance_id != pv[i as int].instance_id,
            decreases installed@.len() - k,
        {
            assert(iv[k as int] == installed@[k as int]@);
            k = k + 1;
        }
        proof {
            assert(pv[i as int] == previous@[i as int]@);
            lemma_first_match(iv, |x: InstalledView| x.instance_id == pv[i as int].instance_id, k as int);
            assert(pv.take(i + 1) =~= pv.take(i as int).push(pv[i as int]));
            pv.take(i as int).lemma_filter_push(pv[i as int], pred);
        }
        if k >= installed.len() {
            n = n + 1;
        }
        i = i + 1;
    }
    assert(pv.take(previous@.len() as int) =~= pv);
    n
}

/// What a scan returns: its result, and the metadata to write back to each
/// directory, in the order of the directories.
#[derive(Debug)]
pub struct ScanOutcome {
    pub result: ScanResult,
    pub metadata: Vec<SkillMetadata>,
}

/// Reconciles the store with its directories (given in path order), the
/// registry of the previous scan, and for each previous record whether its
/// directory still exists.
pub fn scan_dirs(
    skills_dir: &str,
    dirs: &[SkillDirState],
    previous: &[InstalledSkill],
    present: &[bool],
    clock: &mut Clock,
) -> (out: ScanOutcome)
    requires
        present@.len() == previous@.len(),
    ensures
        scan_outcome(
            skills_dir@,
            dir_views(dirs@),
            installed_views(previous@),
            present@,
            *old(clock),
            out.result@,
            metadata_views(out.metadata@),
        ),
        *final(clock) == clock_after(*old(clock), id_offset(dir_views(dirs@), dirs@.len() as int)),
{
    let ghost c0 = *clock;
    let ghost dv = dir_views(dirs@);
    let ghost pv = installed_views(previous@);
    let ghost sd = skills_dir@;
    let n = dirs.len();
    let ghost skill_items = Seq::new(n as nat, |i: int| skill_of(reconciled(dv, i, c0)));
    let ghost inst_items = Seq::new(n as nat, |i: int| scanned_installed(sd, dv, i, pv, c0));
    let copies = detect_copies(dirs);
    let now = current_timestamp(clock);
    let mut metas: Vec<SkillMetadata> = Vec::new();
    let mut skills_out: Vec<Skill> = Vec::new();
    let mut inst_out: Vec<InstalledSkill> = Vec::new();
    let mut issues: Vec<SkillDoctorIssue> = Vec::new();
    let mut paths: Vec<String> = Vec::new();
    let ghost mut src_s: Seq<int> = Seq::empty();
    let ghost mut src_i: Seq<int> = Seq::empty();
    proof {
        lemma_witness_empty(skill_key());
        lemma_witness_empty(installed_key());
        assert(skill_items.take(0) =~= Seq::<SkillView>::empty());
        assert(inst_items.take(0) =~= Seq::<InstalledView>::empty());
        assert(skill_views(skills_out@) =~= Seq::<SkillView>::empty());
        assert(installed_views(inst_out@) =~= Seq::<InstalledView>::empty());
        lemma_counter_after_add(c0.next_id, 0, 0);
        assert(clock_after(c0, 0) == c0);
    }
    let mut i: usize = 0;
    while i < n
        invariant
            i <= n == dirs@.len(),
            copies@.len() == n,
            forall|j: int| 0 <= j < n ==> copies@[j] == is_copied(dv, j),
            dv == dir_views(dirs@),
            pv == installed_views(previous@),
            sd == skills_dir@,
            skill_items == Seq::new(n as nat, |i: int| skill_of(reconciled(dv, i, c0))),
            inst_items == Seq::new(n as nat, |i: int| scanned_installed(sd, dv, i, pv, c0)),
            now@ == timestamp(c0),
            *clock == clock_after(c0, id_offset(dv, i as int)),
            metadata_views(metas@) == Seq::new(i as nat, |j: int| reconciled(dv, j, c0)),
            keyed_witness(skill_views(skills_out@), skill_items.take(i as int), src_s, skill_key()),
            keyed_witness(installed_views(inst_out@), inst_items.take(i as int), src_i, installed_key()),
            skill_views(skills_out@) == keyed_fold(skill_items.take(i as int), skill_key()),
            installed_views(inst_out@) == keyed_fold(inst_items.take(i as int), installed_key()),
            issue_views(issues@) == issues_upto(sd, dv, i as int),
            paths@.len() == i,
            forall|j: int| 0 <= j < i ==> (#[trigger] paths@[j])@ == path_join(sd, dv[j].dir_name),
        decreases n - i,
    {
        let d = &dirs[i];
        assert(dv[i as int] == d@);
        let ghost off = id_offset(dv, i as int);
        let meta = repair_dir(d, copies[i], clock);
        proof {
            lemma_counter_after_add(c0.next_id, off, ids_taken(dv[i as int], is_copied(dv, i as int)));
            assert(meta@ == reconciled(dv, i as int, c0));
        }
        let p = path_join_text(skills_dir, d.dir_name.as_str());
        let mut local: Vec<SkillDoctorIssue> = Vec::new();
        if copies[i] {
            local.push(new_warning("copied-instance", concat("检测到复制目录，已重建实例 ID: ", p.as_str())));
        }
        if !d.has_skill_md {
            local.push(new_warning("missing-skill-md", concat("缺少 SKILL.md: ", p.as_str())));
        }
        let mut seen = false;
        let mut j: usize = 0;
        while j < paths.len()
            invariant
                j <= paths@.len() == i,
                i < n == dirs@.len(),
                dv == dir_views(dirs@),
                p@ == path_join(sd, dv[i as int].dir_name),
                forall|x: int| 0 <= x < i ==> (#[trigger] paths@[x])@ == path_join(sd, dv[x].dir_name),
                seen <==> exists|x: int| 0 <= x < j && #[trigger] path_join(sd, dv[x].dir_name) == p@,
            decreases paths@.len() - j,
        {
            assert(paths@[j as int]@ == path_join(sd, dv[j as int].dir_name));
            if paths[j] == p {
                seen = true;
            }
            j = j + 1;
        }
        if seen {
            local.push(new_warning("duplicate-install-path", concat("目录被重复引用: ", p.as_str())));
        }
        assert(issue_views(local@) =~= dir_issues(sd, dv, i as int));
        append_issues(&mut issues, &local);
        let mut k: usize = 0;
        while k < previous.len() && !(previous[k].instance_id == meta.instance_id)
            invariant
                k <= previous@.len(),
                pv == installed_views(previous@),
                forall|x: int| 0 <= x < k ==> pv[x].instance_id != meta@.instance_id,
            decreases previous@.len() - k,
        {
            assert(pv[k as int] == previous@[k as int]@);
            k = k + 1;
        }
        proof {
            lemma_first_match(pv, |q: InstalledView| q.instance_id == meta@.instance_id, k as int);
            if k < previous@.len() {
                assert(pv[k as int] == previous@[k as int]@);
            }
        }
        let enabled = if k < previous.len() { previous[k].enabled } else { true };
        let created_at = if k < previous.len() { previous[k].created_at.clone() } else { meta.created_at.clone() };
        let installed = InstalledSkill {
            instance_id: meta.instance_id.clone(),
            skill_id: meta.skill_id.clone(),
            dir_name: d.dir_name.clone(),
            install_path: p.clone(),
            enabled,
            source: meta.source.clone(),
            created_at,
            updated_at: now.clone(),
        };
        let skill = Skill {
            id: meta.skill_id.clone(),
            name: meta.name.clone(),
            description: meta.description.clone(),
            source: meta.source.clone(),
            domains: copy_texts(&meta.domains),
            modules: copy_texts(&meta.modules),
        };
        assert(installed@ == inst_items[i as int]);
        assert(skill@ == skill_items[i as int]);
        let ghost s_items = skill_items.take(i as int);
        let ghost i_items = inst_items.take(i as int);
        let g1 = insert_keyed_skill(&mut skills_out, skill, Ghost(s_items), Ghost(src_s));
        let g2 = insert_keyed_installed(&mut inst_out, installed, Ghost(i_items), Ghost(src_i));
        proof {
            src_s = g1@;
            src_i = g2@;
            assert(s_items.push(skill_items[i as int]) =~= skill_items.take(i + 1));
            assert(i_items.push(inst_items[i as int]) =~= inst_items.take(i + 1));
            assert(skill_items.take(i + 1).drop_last() =~= s_items);
            assert(inst_items.take(i + 1).drop_last() =~= i_items);
        }
        let ghost before = metadata_views(metas@);
        let ghost mv = meta@;
        metas.push(meta);
        assert(metadata_views(metas@) =~= before.push(mv));
        assert(before.push(mv) =~= Seq::new((i + 1) as nat, |j: int| reconciled(dv, j, c0)));
        paths.push(p);
        i = i + 1;
    }
    let mut k: usize = 0;
    assert(pv.take(0) =~= Seq::<InstalledView>::empty());
    assert(present@.take(0) =~= Seq::<bool>::empty());
    assert(issue_views(issues@) =~= issues_upto(sd, dv, n as int) + missing_issues(pv.take(0), present@.take(0)));
    while k < previous.len()
        invariant
            k <= previous@.len() == present@.len(),
            pv == installed_views(previous@),
            issue_views(issues@) == issues_upto(sd, dv, n as int) + missing_issues(pv.take(k as int), present@.take(k as int)),
        decreases previous@.len() - k,
    {
        proof {
            assert(pv.take(k + 1).drop_last() =~= pv.take(k as int));
            assert(present@.take(k + 1).drop_last() =~= present@.take(k as int));
            assert(pv.take(k + 1).last() == previous@[k as int]@);
        }
        if !present[k] {
            let ghost before = issue_views(issues@);
            issues.push(new_warning("missing-directory", concat("注册表存在但目录已删除: ", previous[k].install_path.as_str())));
            assert(issue_views(issues@) =~= before.push(issue_views(issues@).last()));
        }
        k = k + 1;
        assert(issue_views(issues@) =~= issues_upto(sd, dv, n as int) + missing_issues(pv.take(k as int), present@.take(k as int)));
    }
    assert(pv.take(previous@.len() as int) =~= pv);
    assert(present@.take(previous@.len() as int) =~= present@);
    assert(skill_items.take(n as int) =~= skill_items);
    assert(inst_items.take(n as int) =~= inst_items);
    proof {
        lemma_witness_keyed(skill_views(skills_out@), skill_items, src_s, skill_key());
        lemma_witness_keyed(installed_views(inst_out@), inst_items, src_i, installed_key());
    }
    let added = count_added(&inst_out, previous);
    let updated = count_updated(&inst_out, previous);
    let removed = count_removed(&inst_out, previous);
    let result = ScanResult { skills: skills_out, installed_skills: inst_out, issues, added, updated, removed };
    ScanOutcome { result, metadata: metas }
}

} // verus!
