//! The records the skill store keeps, and their mathematical views.
use vstd::prelude::*;

verus! {

/// The texts of a list of strings.
pub open spec fn texts(v: Seq<String>) -> Seq<Seq<char>> {
    v.map_values(|s: String| s@)
}

/// A copy of a list of strings.
pub fn copy_texts(v: &Vec<String>) -> (r: Vec<String>)
    ensures
        r@ == v@,
{
    let mut r: Vec<String> = Vec::new();
    let mut i: usize = 0;
    while i < v.len()
        invariant
            i <= v@.len(),
            r@ == v@.take(i as int),
        decreases v@.len() - i,
    {
        r.push(v[i].clone());
        i = i + 1;
        assert(r@ =~= v@.take(i as int));
    }
    assert(v@.take(v@.len() as int) =~= v@);
    r
}

/// A skill definition: what a skill is, shared by every installed copy of it.
#[derive(Debug)]
pub struct Skill {
    pub id: String,
    pub name: String,
    pub description: String,
    pub source: String,
    pub domains: Vec<String>,
    pub modules: Vec<String>,
}

pub struct SkillView {
    pub id: Seq<char>,
    pub name: Seq<char>,
    pub description: Seq<char>,
    pub source: Seq<char>,
    pub domains: Seq<Seq<char>>,
    pub modules: Seq<Seq<char>>,
}

impl View for Skill {
    type V = SkillView;

    open spec fn view(&self) -> SkillView {
        SkillView {
            id: self.id@,
            name: self.name@,
            description: self.description@,
            source: self.source@,
            domains: texts(self.domains@),
            modules: texts(self.modules@),
        }
    }
}

impl Clone for Skill {
    fn clone(&self) -> (r: Self)
        ensures
            r@ == self@,
    {
        Skill {
            id: self.id.clone(),
            name: self.name.clone(),
            description: self.description.clone(),
            source: self.source.clone(),
            domains: copy_texts(&self.domains),
            modules: copy_texts(&self.modules),
        }
    }
}

/// A group of skills offered together.
#[derive(Debug)]
pub struct SkillPack {
    pub id: String,
    pub name: String,
    pub description: String,
    pub skill_refs: Vec<String>,
    pub domains: Vec<String>,
    pub modules: Vec<String>,
}

/// One installed copy of a skill: a directory under the skill store.
#[derive(Debug)]
pub struct InstalledSkill {
    pub instance_id: String,
    pub skill_id: String,
    pub dir_name: String,
    pub install_path: String,
    pub enabled: bool,
    pub source: String,
    pub created_at: String,
    pub updated_at: String,
}

pub struct InstalledView {
    pub instance_id: Seq<char>,
    pub skill_id: Seq<char>,
    pub dir_name: Seq<char>,
    pub install_path: Seq<char>,
    pub enabled: bool,
    pub source: Seq<char>,
    pub created_at: Seq<char>,
    pub updated_at: Seq<char>,
}

impl View for InstalledSkill {
    type V = InstalledView;

    open spec fn view(&self) -> InstalledView {
        InstalledView {
            instance_id: self.instance_id@,
            skill_id: self.skill_id@,
            dir_name: self.dir_name@,
            install_path: self.install_path@,
            enabled: self.enabled,
            source: self.source@,
            created_at: self.created_at@,
            updated_at: self.updated_at@,
        }
    }
}

impl Clone for InstalledSkill {
    fn clone(&self) -> (r: Self)
        ensures
            r@ == self@,
    {
        InstalledSkill {
            instance_id: self.instance_id.clone(),
            skill_id: self.skill_id.clone(),
            dir_name: self.dir_name.clone(),
            install_path: self.install_path.clone(),
            enabled: self.enabled,
            source: self.source.clone(),
            created_at: self.created_at.clone(),
            updated_at: self.updated_at.clone(),
        }
    }
}

/// The metadata file a skill directory carries (`byi-skill.toml`).
#[derive(Debug)]
pub struct SkillMetadata {
    pub instance_id: String,
    pub skill_id: String,
    pub name: String,
    pub description: String,
    pub source: String,
    pub created_at: String,
    pub updated_at: String,
    pub domains: Vec<String>,
    pub modules: Vec<String>,
}

pub struct MetadataView {
    pub instance_id: Seq<char>,
    pub skill_id: Seq<char>,
    pub name: Seq<char>,
    pub description: Seq<char>,
    pub source: Seq<char>,
    pub created_at: Seq<char>,
    pub updated_at: Seq<char>,
    pub domains: Seq<Seq<char>>,
    pub modules: Seq<Seq<char>>,
}

impl View for SkillMetadata {
    type V = MetadataView;

    open spec fn view(&self) -> MetadataView {
        MetadataView {
            instance_id: self.instance_id@,
            skill_id: self.skill_id@,
            name: self.name@,
            description: self.description@,
            source: self.source@,
            created_at: self.created_at@,
            updated_at: self.updated_at@,
            domains: texts(self.domains@),
            modules: texts(self.modules@),
        }
    }
}

impl Clone for SkillMetadata {
    fn clone(&self) -> (r: Self)
        ensures
            r@ == self@,
    {
        SkillMetadata {
            instance_id: self.instance_id.clone(),
            skill_id: self.skill_id.clone(),
            name: self.name.clone(),
            description: self.description.clone(),
            source: self.source.clone(),
            created_at: self.created_at.clone(),
            updated_at: self.updated_at.clone(),
            domains: copy_texts(&self.domains),
            modules: copy_texts(&self.modules),
        }
    }
}

/// A skill definition together with one installed copy of it.
#[derive(Debug)]
pub struct SkillEntry {
    pub skill: Skill,
    pub installed: InstalledSkill,
}

pub struct EntryView {
    pub skill: SkillView,
    pub installed: InstalledView,
}

impl View for SkillEntry {
    type V = EntryView;

    open spec fn view(&self) -> EntryView {
        EntryView { skill: self.skill@, installed: self.installed@ }
    }
}

impl Clone for SkillEntry {
    fn clone(&self) -> (r: Self)
        ensures
            r@ == self@,
    {
        SkillEntry { skill: self.skill.clone(), installed: self.installed.clone() }
    }
}

/// Something a scan found wrong with the store.
#[derive(Debug)]
pub struct SkillDoctorIssue {
    pub code: String,
    pub level: String,
    pub message: String,
}

pub struct IssueView {
    pub code: Seq<char>,
    pub level: Seq<char>,
    pub message: Seq<char>,
}

impl View for SkillDoctorIssue {
    type V = IssueView;

    open spec fn view(&self) -> IssueView {
        IssueView { code: self.code@, level: self.level@, message: self.message@ }
    }
}

impl Clone for SkillDoctorIssue {
    fn clone(&self) -> (r: Self)
        ensures
            r@ == self@,
    {
        SkillDoctorIssue {
            code: self.code.clone(),
            level: self.level.clone(),
            message: self.message.clone(),
        }
    }
}

/// What a scan of the store found and changed.
#[derive(Debug)]
pub struct ScanResult {
    pub skills: Vec<Skill>,
    pub installed_skills: Vec<InstalledSkill>,
    pub issues: Vec<SkillDoctorIssue>,
    pub added: usize,
    pub updated: usize,
    pub removed: usize,
}

pub struct ScanView {
    pub skills: Seq<SkillView>,
    pub installed_skills: Seq<InstalledView>,
    pub issues: Seq<IssueView>,
    pub added: nat,
    pub updated: nat,
    pub removed: nat,
}

impl View for ScanResult {
    type V = ScanView;

    open spec fn view(&self) -> ScanView {
        ScanView {
            skills: self.skills@.map_values(|s: Skill| s@),
            installed_skills: self.installed_skills@.map_values(|s: InstalledSkill| s@),
            issues: self.issues@.map_values(|s: SkillDoctorIssue| s@),
            added: self.added as nat,
            updated: self.updated as nat,
            removed: self.removed as nat,
        }
    }
}

} // verus!
