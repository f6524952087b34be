use std::collections::BTreeMap;

use byi::skill::clock::Clock;
use byi::skill::format::edit_message;
use byi::skill::manager::{
    RegistryRecord, SkillAddCommand, SkillCommand, SkillEditCommand, SkillEffect, SkillFormatCommand,
    SkillInstanceCommand, SkillInstancesCommand, SkillListCommand, SkillManager, SkillOutput, SkillViewCommand,
    SkillWorkspace, StagedSkill,
};
use byi::skill::model::{InstalledSkill, ScanResult, Skill, SkillMetadata};
use byi::skill::scan::SkillDirState;
use byi::sync::{plan_sync_push, remote_manifest_file};

/// The files of one skill directory that the library reads: the metadata
/// file (parsed, or `None` when missing or unreadable) and `SKILL.md`.
#[derive(Clone, Debug)]
struct DirFiles {
    metadata: Option<SkillMetadata>,
    skill_md: Option<String>,
}

/// A store kept in memory: the directories under `skills/`, the two
/// registries, the clock, and source directories outside the store.
struct Store {
    manager: SkillManager,
    dirs: BTreeMap<String, DirFiles>,
    skills: Option<Vec<Skill>>,
    installed: Option<Vec<InstalledSkill>>,
    clock: Clock,
    sources: BTreeMap<String, DirFiles>,
}

fn sample_md(name: &str, description: &str) -> String {
    format!("# {name}\n\n{description}\n")
}

impl Store {
    fn new() -> Store {
        Store {
            manager: SkillManager::new("/data/byi".to_string()),
            dirs: BTreeMap::new(),
            skills: None,
            installed: None,
            clock: Clock { secs: 1_700_000_000, millis: 1_700_000_000_123, next_id: 0 },
            sources: BTreeMap::new(),
        }
    }

    fn dir_path(&self, name: &str) -> String {
        format!("{}/{}", self.manager.skills_dir(), name)
    }

    fn dir_name_of(&self, path: &str) -> String {
        let prefix = format!("{}/", self.manager.skills_dir());
        path.strip_prefix(&prefix).expect("路径应该在 skills 目录下").to_string()
    }

    fn create_source(&mut self, path: &str, files: DirFiles) {
        self.sources.insert(path.to_string(), files);
    }

    fn staged_for(&self, command: &SkillCommand) -> (StagedSkill, Option<DirFiles>) {
        if let SkillCommand::Add(SkillAddCommand { path: Some(p), github: None, .. }) = command {
            if let Some(files) = self.sources.get(p) {
                let staged = StagedSkill {
                    found: true,
                    metadata: files.metadata.clone(),
                    has_skill_md: files.skill_md.is_some(),
                    skill_md: files.skill_md.clone(),
                };
                return (staged, Some(files.clone()));
            }
        }
        (StagedSkill { found: false, metadata: None, has_skill_md: false, skill_md: None }, None)
    }

    fn workspace(&self, staged: StagedSkill) -> SkillWorkspace {
        let dirs = self
            .dirs
            .iter()
            .map(|(name, f)| SkillDirState {
                dir_name: name.clone(),
                metadata: f.metadata.clone(),
                has_skill_md: f.skill_md.is_some(),
                skill_md: f.skill_md.clone(),
            })
            .collect();
        let previous = self
            .installed
            .clone()
            .unwrap_or_default()
            .into_iter()
            .map(|i| {
                let dir_exists = self.dirs.keys().any(|n| self.dir_path(n) == i.install_path);
                RegistryRecord { installed: i, dir_exists }
            })
            .collect();
        SkillWorkspace {
            dirs,
            entry_names: self.dirs.keys().cloned().collect(),
            previous,
            home: Some("/home/tester".to_string()),
            staged,
        }
    }

    fn apply(&mut self, effects: Vec<SkillEffect>, staged: Option<DirFiles>) {
        for effect in effects {
            match effect {
                SkillEffect::CopyStaged(target) => {
                    let name = self.dir_name_of(&target);
                    self.dirs.insert(name, staged.clone().expect("复制需要已暂存的来源"));
                }
                SkillEffect::WriteMetadata { dir, metadata } => {
                    let name = self.dir_name_of(&dir);
                    self.dirs.get_mut(&name).expect("元数据写入已有目录").metadata = Some(metadata);
                }
                SkillEffect::WriteSkillRegistry(v) => self.skills = Some(v),
                SkillEffect::WriteInstalledRegistry(v) => self.installed = Some(v),
                SkillEffect::RemoveDir(path) => {
                    let name = self.dir_name_of(&path);
                    self.dirs.remove(&name);
                }
            }
        }
    }

    fn run(&mut self, command: SkillCommand) -> Result<SkillOutput, String> {
        let (staged, files) = self.staged_for(&command);
        let ws = self.workspace(staged);
        let response = self.manager.run_command(Some(command), &ws, &mut self.clock);
        self.apply(response.effects, files);
        response.result
    }

    fn run_text(&mut self, command: SkillCommand) -> Result<String, String> {
        self.run(command).map(|o| match o {
            SkillOutput::Text(t) => t,
            SkillOutput::EditTarget(p) => edit_message(&p, false),
            other => panic!("应该输出文本: {other:?}"),
        })
    }

    fn scan(&mut self) -> ScanResult {
        let ws = self.workspace(StagedSkill { found: false, metadata: None, has_skill_md: false, skill_md: None });
        let (result, effects) = self.manager.scan_and_reconcile_skills(&ws, &mut self.clock);
        self.apply(effects, None);
        result
    }

    fn add_local(&mut self, path: &str) -> String {
        self.run_text(add_path(path)).expect("添加本地 skill 应该成功")
    }

    fn copy_dir(&mut self, from: &str, to: &str) {
        let files = self.dirs.get(from).expect("复制来源应该存在").clone();
        self.dirs.insert(to.to_string(), files);
    }

    fn rename_dir(&mut self, from: &str, to: &str) {
        let files = self.dirs.remove(from).expect("重命名来源应该存在");
        self.dirs.insert(to.to_string(), files);
    }

    /// The files a push reads: relative to `skills/` and to `registry/`.
    fn sync_files(&self) -> (Vec<String>, Vec<String>) {
        let mut skills = Vec::new();
        for (name, f) in &self.dirs {
            if f.skill_md.is_some() {
                skills.push(format!("{name}/SKILL.md"));
            }
            if f.metadata.is_some() {
                skills.push(format!("{name}/byi-skill.toml"));
            }
        }
        let mut registry = Vec::new();
        if self.installed.is_some() {
            registry.push("installed.toml".to_string());
        }
        if self.skills.is_some() {
            registry.push("skills.toml".to_string());
        }
        (skills, registry)
    }
}

/// A remote kept in memory, with the manifest's file list beside the files.
struct Remote {
    files: BTreeMap<String, Vec<u8>>,
    manifest: Option<Vec<String>>,
}

fn push(store: &mut Store, remote: &mut Remote) {
    store.scan();
    let (skills, registry) = store.sync_files();
    let plan = plan_sync_push(&skills, &registry, &remote.manifest);
    for f in &plan.uploads {
        remote.files.insert(f.clone(), f.as_bytes().to_vec());
    }
    for f in &plan.deletes {
        remote.files.remove(f);
    }
    remote.files.insert(remote_manifest_file().to_string(), Vec::new());
    remote.manifest = Some(plan.uploads.clone());
}

fn add_path(path: &str) -> SkillCommand {
    SkillCommand::Add(SkillAddCommand { path: Some(path.to_string()), github: None, git_ref: None, subdir: None })
}

fn list(enabled: bool, disabled: bool) -> SkillCommand {
    SkillCommand::List(SkillListCommand { format: SkillFormatCommand::default(), enabled, disabled })
}

fn sample_source(store: &mut Store, path: &str, name: &str, description: &str) {
    store.create_source(path, DirFiles { metadata: None, skill_md: Some(sample_md(name, description)) });
}

fn metadata(instance_id: &str, skill_id: &str, name: &str, description: &str, source: &str) -> SkillMetadata {
    SkillMetadata {
        instance_id: instance_id.to_string(),
        skill_id: skill_id.to_string(),
        name: name.to_string(),
        description: description.to_string(),
        source: source.to_string(),
        created_at: "2024-01-01T00:00:00Z".to_string(),
        updated_at: "2024-01-01T00:00:00Z".to_string(),
        domains: vec![],
        modules: vec![],
    }
}

// ========================================================================
// add
// ========================================================================

#[test]
fn add_local_skill_creates_instance_and_registry() {
    let mut store = Store::new();
    sample_source(&mut store, "/src/one", "python-review", "Python review skill");

    let output = store.add_local("/src/one");

    assert!(output.contains("已添加 skill"));
    let list = store.run_text(list(false, false)).expect("skill list 应该成功");
    assert!(list.contains("python-review"));
    assert!(store.dirs.contains_key("python-review"));
    assert!(store.skills.is_some());
    assert!(store.installed.is_some());
}

#[test]
fn add_rejects_both_path_and_github() {
    let mut store = Store::new();
    let err = store
        .run(SkillCommand::Add(SkillAddCommand {
            path: Some("/tmp/fake".to_string()),
            github: Some("owner/repo".to_string()),
            git_ref: None,
            subdir: None,
        }))
        .expect_err("同时指定 path 和 github 应该失败");
    assert!(err.contains("不能同时指定"));
}

#[test]
fn add_rejects_neither_path_nor_github() {
    let mut store = Store::new();
    let err = store
        .run(SkillCommand::Add(SkillAddCommand { path: None, github: None, git_ref: None, subdir: None }))
        .expect_err("不指定 path 和 github 应该失败");
    assert!(err.contains("需要本地路径或 --github"));
}

#[test]
fn add_rejects_nonexistent_path() {
    let mut store = Store::new();
    let err = store.run(add_path("/nonexistent/path/to/skill")).expect_err("不存在的路径应该失败");
    assert!(err.contains("不存在"));
}

#[test]
fn add_rejects_malformed_github_repo() {
    let mut store = Store::new();
    let err = store
        .run(SkillCommand::Add(SkillAddCommand {
            path: None,
            github: Some("not-a-repo".to_string()),
            git_ref: None,
            subdir: None,
        }))
        .expect_err("错误的仓库格式应该失败");
    assert_eq!(err, "GitHub repo must use owner/repo format.");
}

#[test]
fn add_resolves_name_collision_with_suffix() {
    let mut store = Store::new();
    sample_source(&mut store, "/src/first", "review", "First review");
    sample_source(&mut store, "/src/second", "review", "Second review");

    store.add_local("/src/first");
    store.add_local("/src/second");

    assert!(store.dirs.contains_key("review"));
    assert!(store.dirs.contains_key("review~2"));
}

#[test]
fn add_preserves_existing_metadata() {
    let mut store = Store::new();
    store.create_source(
        "/src/custom",
        DirFiles {
            metadata: Some(metadata(
                "inst_custom_123",
                "skill:custom/my-skill",
                "my-skill",
                "From metadata",
                "local:~/my-skill",
            )),
            skill_md: Some(sample_md("custom", "Custom skill")),
        },
    );

    store.add_local("/src/custom");

    let scan = store.scan();
    let skill = scan.skills.iter().find(|s| s.name == "my-skill").expect("应该保留元数据中的名称");
    assert_eq!(skill.description, "From metadata");
    assert_eq!(skill.id, "skill:local/my-skill");
}

// ========================================================================
// remove
// ========================================================================

#[test]
fn remove_deletes_instance_and_updates_registry() {
    let mut store = Store::new();
    sample_source(&mut store, "/src/del", "to-delete", "Will be removed");
    store.add_local("/src/del");

    let scan = store.scan();
    let instance_id = scan.installed_skills[0].instance_id.clone();

    let output = store
        .run_text(SkillCommand::Remove(SkillInstanceCommand { instance_id: instance_id.clone() }))
        .expect("remove 应该成功");

    assert!(output.contains("已删除实例"));
    assert!(!store.dirs.contains_key("to-delete"));

    let rescan = store.scan();
    assert!(rescan.installed_skills.is_empty());
}

#[test]
fn remove_rejects_unknown_instance_id() {
    let mut store = Store::new();
    let err = store
        .run(SkillCommand::Remove(SkillInstanceCommand { instance_id: "inst_nonexistent".to_string() }))
        .expect_err("删除不存在的实例应该失败");
    assert!(err.contains("未找到实例"));
}

// ========================================================================
// view
// ========================================================================

fn view(reference: &str) -> SkillCommand {
    SkillCommand::View(SkillViewCommand { reference: reference.to_string(), format: SkillFormatCommand::default() })
}

#[test]
fn view_by_instance_id() {
    let mut store = Store::new();
    sample_source(&mut store, "/src/inspect", "inspect", "Inspect skill");
    store.add_local("/src/inspect");

    let scan = store.scan();
    let instance_id = scan.installed_skills[0].instance_id.clone();

    let output = store.run_text(view(&instance_id)).expect("view 应该成功");
    assert!(output.contains("inspect"));
}

#[test]
fn view_by_dir_name() {
    let mut store = Store::new();
    sample_source(&mut store, "/src/inspect", "inspect", "Inspect skill");
    store.add_local("/src/inspect");

    let output = store.run_text(view("inspect")).expect("view 应该成功");
    assert!(output.contains("inspect"));
}

#[test]
fn view_by_skill_id_single_instance() {
    let mut store = Store::new();
    sample_source(&mut store, "/src/single", "single", "Single instance");
    store.add_local("/src/single");

    let scan = store.scan();
    let skill_id = scan.skills[0].id.clone();

    let output = store.run_text(view(&skill_id)).expect("view 应该成功");
    assert!(output.contains("single"));
}

#[test]
fn view_rejects_unknown_reference() {
    let mut store = Store::new();
    let err = store.run(view("no-such-skill")).expect_err("view 不存在的 skill 应该失败");
    assert!(err.contains("未找到 skill"));
}

#[test]
fn view_by_name_rejects_ambiguous_matches() {
    let mut store = Store::new();
    sample_source(&mut store, "/src/review", "review", "Review helper");
    store.add_local("/src/review");
    store.rename_dir("review", "review-a");
    store.copy_dir("review-a", "review-b");
    store
        .run(SkillCommand::Rescan(SkillFormatCommand::default()))
        .expect("rescan 应该成功");

    let error = store.run(view("review")).expect_err("同名 skill 应该提示歧义");

    assert!(error.contains("命中多个实例"));
}

#[test]
fn view_json_gives_the_entry() {
    let mut store = Store::new();
    sample_source(&mut store, "/src/inspect", "inspect", "Inspect skill");
    store.add_local("/src/inspect");

    let output = store
        .run(SkillCommand::View(SkillViewCommand {
            reference: "inspect".to_string(),
            format: SkillFormatCommand { json: true, long: false },
        }))
        .expect("view json 应该成功");
    match output {
        SkillOutput::EntryJson(e) => {
            assert_eq!(e.skill.name, "inspect");
            assert_eq!(e.skill.description, "Inspect skill");
            assert_eq!(e.installed.dir_name, "inspect");
            assert_eq!(e.installed.install_path, "/data/byi/skills/inspect");
            assert!(e.installed.enabled);
        }
        other => panic!("应该输出条目: {other:?}"),
    }
}

// ========================================================================
// list / instances / format
// ========================================================================

#[test]
fn list_outputs_json() {
    let mut store = Store::new();
    sample_source(&mut store, "/src/json", "json-skill", "For JSON test");
    store.add_local("/src/json");

    let output = store
        .run(SkillCommand::List(SkillListCommand {
            format: SkillFormatCommand { json: true, long: false },
            enabled: false,
            disabled: false,
        }))
        .expect("list json 应该成功");
    match output {
        SkillOutput::EntriesJson { entries, include_instance_fields } => {
            assert_eq!(entries.len(), 1);
            assert_eq!(entries[0].skill.name, "json-skill");
            assert!(!include_instance_fields);
        }
        other => panic!("应该输出条目列表: {other:?}"),
    }
}

#[test]
fn instances_outputs_json_with_instance_fields() {
    let mut store = Store::new();
    sample_source(&mut store, "/src/inst", "inst-test", "Instance test");
    store.add_local("/src/inst");

    let output = store
        .run(SkillCommand::Instances(SkillInstancesCommand { format: SkillFormatCommand { json: true, long: false } }))
        .expect("instances json 应该成功");
    match output {
        SkillOutput::EntriesJson { entries, include_instance_fields } => {
            assert_eq!(entries.len(), 1);
            assert!(include_instance_fields);
            assert!(entries[0].installed.instance_id.starts_with("inst_"));
            assert_eq!(entries[0].installed.dir_name, "inst-test");
        }
        other => panic!("应该输出条目列表: {other:?}"),
    }
}

#[test]
fn list_filters_disabled_only() {
    let mut store = Store::new();
    sample_source(&mut store, "/src/filter", "filter-test", "Filter test");
    store.add_local("/src/filter");

    let scan = store.scan();
    let instance_id = scan.installed_skills[0].instance_id.clone();

    store
        .run(SkillCommand::Disable(SkillInstanceCommand { instance_id: instance_id.clone() }))
        .expect("disable 应该成功");

    let enabled_list = store.run_text(list(true, false)).expect("list enabled 应该成功");
    assert!(!enabled_list.contains("filter-test"));

    let disabled_list = store.run_text(list(false, true)).expect("list disabled 应该成功");
    assert!(disabled_list.contains("filter-test"));
}

#[test]
fn list_long_of_empty_store_has_fuller_header() {
    let mut store = Store::new();
    let output = store
        .run_text(SkillCommand::List(SkillListCommand {
            format: SkillFormatCommand { json: false, long: true },
            enabled: false,
            disabled: false,
        }))
        .unwrap();
    assert_eq!(output, "NAME  DIR_NAME  INSTANCE_ID  ENABLED  SOURCE  PATH  SKILL_ID  CREATED_AT  UPDATED_AT");
}

#[test]
fn list_long_prints_more_fields_than_list() {
    let mut store = Store::new();
    sample_source(&mut store, "/src/long", "long-skill", "Long listing");
    store.add_local("/src/long");
    let scan = store.scan();
    let skill_id = scan.installed_skills[0].skill_id.clone();
    let created_at = scan.installed_skills[0].created_at.clone();

    let short = store.run_text(list(false, false)).expect("list 应该成功");
    let long = store
        .run_text(SkillCommand::List(SkillListCommand {
            format: SkillFormatCommand { json: false, long: true },
            enabled: false,
            disabled: false,
        }))
        .expect("list --long 应该成功");
    assert_ne!(short, long);
    assert!(!short.contains("SKILL_ID"));
    let header: Vec<&str> = long.lines().next().unwrap().split_whitespace().collect();
    assert_eq!(header, vec!["NAME", "DIR_NAME", "INSTANCE_ID", "ENABLED", "SOURCE", "PATH", "SKILL_ID", "CREATED_AT", "UPDATED_AT"]);
    assert_eq!(short.lines().next().unwrap().split_whitespace().count(), 6);
    assert!(long.contains(&skill_id));
    assert!(long.contains(&created_at));
    assert!(long.contains("long-skill"));
}

#[test]
fn instances_text_has_fuller_columns() {
    let mut store = Store::new();
    let output = store
        .run_text(SkillCommand::Instances(SkillInstancesCommand { format: SkillFormatCommand { json: false, long: false } }))
        .unwrap();
    assert_eq!(output, "NAME  DIR_NAME  INSTANCE_ID  ENABLED  SOURCE  PATH  SKILL_ID  CREATED_AT  UPDATED_AT");
}

#[test]
fn list_of_empty_store_is_header_only() {
    let mut store = Store::new();
    let output = store.run_text(list(false, false)).unwrap();
    assert_eq!(output, "NAME  DIR_NAME  INSTANCE_ID  ENABLED  SOURCE  PATH");
}

// ========================================================================
// doctor
// ========================================================================

#[test]
fn doctor_reports_no_issues_when_empty() {
    let mut store = Store::new();
    let output = store
        .run_text(SkillCommand::Doctor(SkillFormatCommand::default()))
        .expect("doctor 应该成功");
    assert!(output.contains("正常"));
}

#[test]
fn doctor_reports_missing_skill_md() {
    let mut store = Store::new();
    store.create_source(
        "/src/no-md",
        DirFiles {
            metadata: Some(metadata("inst_no_md", "skill:local/no-md", "no-md", "Missing SKILL.md", "local")),
            skill_md: None,
        },
    );
    store.add_local("/src/no-md");

    let output = store
        .run_text(SkillCommand::Doctor(SkillFormatCommand::default()))
        .expect("doctor 应该成功");
    assert!(output.contains("missing-skill-md"));
}

#[test]
fn doctor_reports_missing_directory() {
    let mut store = Store::new();
    sample_source(&mut store, "/src/ghost", "ghost", "Ghost skill");
    store.add_local("/src/ghost");

    let scan = store.scan();
    let install_path = scan.installed_skills[0].install_path.clone();
    let name = store.dir_name_of(&install_path);
    store.dirs.remove(&name);

    let output = store
        .run_text(SkillCommand::Doctor(SkillFormatCommand::default()))
        .expect("doctor 应该成功");
    assert!(output.contains("missing-directory"));
}

#[test]
fn doctor_reports_copied_directory_duplicate_id() {
    let mut store = Store::new();
    sample_source(&mut store, "/src/dup", "dup", "Duplicate test");
    store.add_local("/src/dup");

    store.copy_dir("dup", "dup-copy");

    let output = store
        .run_text(SkillCommand::Doctor(SkillFormatCommand::default()))
        .expect("doctor 应该成功");
    assert!(output.contains("copied-instance"));
}

#[test]
fn doctor_outputs_json() {
    let mut store = Store::new();
    sample_source(&mut store, "/src/doc", "doc-json", "Doctor JSON");
    store.add_local("/src/doc");
    store.dirs.remove("doc-json");

    let output = store
        .run(SkillCommand::Doctor(SkillFormatCommand { json: true, long: false }))
        .expect("doctor json 应该成功");
    match output {
        SkillOutput::IssuesJson(issues) => {
            assert!(!issues.is_empty());
            assert_eq!(issues[0].code, "missing-directory");
            assert_eq!(issues[0].level, "warn");
        }
        other => panic!("应该输出问题列表: {other:?}"),
    }
}

// ========================================================================
// rescan
// ========================================================================

#[test]
fn rescan_repairs_copied_directory_and_rename() {
    let mut store = Store::new();
    sample_source(&mut store, "/src/review", "review", "Review helper");
    store.add_local("/src/review");

    store.rename_dir("review", "review-renamed");
    store.copy_dir("review-renamed", "review-copy");

    let output = store
        .run_text(SkillCommand::Rescan(SkillFormatCommand::default()))
        .expect("rescan 应该成功");

    assert!(output.contains("rescan 完成"));
    let instances = store
        .run_text(SkillCommand::Instances(SkillInstancesCommand { format: SkillFormatCommand::default() }))
        .expect("instances 应该成功");
    assert!(instances.contains("review-renamed"));
    assert!(instances.contains("review-copy"));

    let scan = store.scan();
    assert_eq!(scan.installed_skills.len(), 2);
    assert_ne!(scan.installed_skills[0].instance_id, scan.installed_skills[1].instance_id);
}

#[test]
fn rescan_outputs_json() {
    let mut store = Store::new();
    let output = store
        .run(SkillCommand::Rescan(SkillFormatCommand { json: true, long: false }))
        .expect("rescan json 应该成功");
    match output {
        SkillOutput::RescanJson { added, updated, removed, issues } => {
            assert_eq!((added, updated, removed), (0, 0, 0));
            assert!(issues.is_empty());
        }
        other => panic!("应该输出扫描结果: {other:?}"),
    }
}

#[test]
fn rescan_counts_added_and_removed_copies() {
    let mut store = Store::new();
    sample_source(&mut store, "/src/one", "one", "One");
    store.add_local("/src/one");
    store.copy_dir("one", "two");
    store.dirs.remove("one");

    let output = store
        .run_text(SkillCommand::Rescan(SkillFormatCommand::default()))
        .expect("rescan 应该成功");
    assert_eq!(output, "rescan 完成。\n新增: 0\n更新: 1\n移除: 0\n问题: 1");
}

// ========================================================================
// enable / disable
// ========================================================================

#[test]
fn disable_and_enable_toggle_registry_state() {
    let mut store = Store::new();
    sample_source(&mut store, "/src/helper", "helper", "helper skill");
    store.add_local("/src/helper");

    let scan = store.scan();
    let instance_id = scan.installed_skills[0].instance_id.clone();
    store
        .run(SkillCommand::Disable(SkillInstanceCommand { instance_id: instance_id.clone() }))
        .expect("disable 应该成功");
    let list1 = store.run_text(list(false, true)).expect("list disabled 应该成功");
    assert!(list1.contains(&instance_id));

    store
        .run(SkillCommand::Enable(SkillInstanceCommand { instance_id }))
        .expect("enable 应该成功");
    let list2 = store.run_text(list(true, false)).expect("list enabled 应该成功");
    assert!(list2.contains("yes"));
}

#[test]
fn toggle_keeps_the_directory_and_reports_state() {
    let mut store = Store::new();
    sample_source(&mut store, "/src/helper", "helper", "helper skill");
    store.add_local("/src/helper");
    let id = store.scan().installed_skills[0].instance_id.clone();

    let output = store
        .run_text(SkillCommand::Disable(SkillInstanceCommand { instance_id: id.clone() }))
        .unwrap();
    assert_eq!(output, format!("实例 {id} 已停用。"));
    assert!(store.dirs.contains_key("helper"));
    assert!(!store.installed.as_ref().unwrap()[0].enabled);
    let err = store
        .run(SkillCommand::Enable(SkillInstanceCommand { instance_id: "inst_none".to_string() }))
        .unwrap_err();
    assert_eq!(err, "未找到实例: inst_none");
}

// ========================================================================
// list triggers rescan
// ========================================================================

#[test]
fn list_triggers_rescan_for_manually_copied_directory() {
    let mut store = Store::new();
    sample_source(&mut store, "/src/review", "review", "Review helper");
    store.add_local("/src/review");

    store.copy_dir("review", "review-copy");

    let list = store.run_text(list(false, false)).expect("list 应该成功");

    assert!(list.contains("review-copy"));
}

// ========================================================================
// edit
// ========================================================================

#[test]
fn edit_returns_path_when_no_editor_set() {
    let mut store = Store::new();
    sample_source(&mut store, "/src/editable", "editable", "Editable skill");
    store.add_local("/src/editable");
    let output = store
        .run_text(SkillCommand::Edit(SkillEditCommand { reference: "editable".to_string() }))
        .expect("edit 应该成功");
    assert!(output.contains("请编辑文件"));
    assert!(output.contains("byi-skill.toml"));
    assert_eq!(output, "请编辑文件: /data/byi/skills/editable/byi-skill.toml");
}

#[test]
fn missing_subcommand_is_refused() {
    let store = Store::new();
    let ws = store.workspace(StagedSkill { found: false, metadata: None, has_skill_md: false, skill_md: None });
    let mut clock = store.clock;
    let response = store.manager.run_command(None, &ws, &mut clock);
    assert_eq!(response.result.unwrap_err(), "缺少 skill 子命令。运行 `byi skill --help` 查看用法。");
    assert!(response.effects.is_empty());
}

// ========================================================================
// sync
// ========================================================================

#[test]
fn sync_push_creates_manifest_and_uploads_files() {
    let mut store = Store::new();
    sample_source(&mut store, "/src/sync", "syncable", "Sync test");
    store.add_local("/src/sync");

    let mut remote = Remote { files: BTreeMap::new(), manifest: None };
    push(&mut store, &mut remote);

    let files: Vec<String> = remote.files.keys().cloned().collect();
    assert!(files.iter().any(|f| f.starts_with("skills/")), "应该上传 skill 文件");
    assert!(files.iter().any(|f| f.starts_with("registry/")), "应该上传 registry 文件");
    assert!(files.iter().any(|f| f == ".byi-sync-manifest.toml"), "应该创建 manifest");
}

#[test]
fn sync_push_deletes_orphaned_remote_files() {
    let mut store = Store::new();
    sample_source(&mut store, "/src/orphan", "orphan-test", "Orphan test");
    store.add_local("/src/orphan");

    let mut remote = Remote { files: BTreeMap::new(), manifest: None };
    push(&mut store, &mut remote);

    let scan = store.scan();
    let instance_id = scan.installed_skills[0].instance_id.clone();
    store
        .run(SkillCommand::Remove(SkillInstanceCommand { instance_id }))
        .expect("remove 应该成功");

    push(&mut store, &mut remote);

    let files: Vec<String> = remote.files.keys().cloned().collect();
    assert!(!files.iter().any(|f| f.contains("orphan-test")), "孤立 skill 文件应该被删除");
}

// ========================================================================
// scan
// ========================================================================

#[test]
fn scan_repairs_corrupt_metadata() {
    let mut store = Store::new();
    sample_source(&mut store, "/src/corrupt", "corrupt", "Corrupt skill");
    store.add_local("/src/corrupt");

    store.dirs.get_mut("corrupt").unwrap().metadata = None;

    let scan = store.scan();
    let skill = scan.skills.iter().find(|s| s.name == "corrupt").expect("应该能修复 corrupt skill");
    assert_eq!(skill.description, "Corrupt skill");
    assert!(store.dirs["corrupt"].metadata.is_some());
}

#[test]
fn scan_handles_empty_skills_dir() {
    let mut store = Store::new();

    let scan = store.scan();
    assert!(scan.skills.is_empty());
    assert!(scan.installed_skills.is_empty());
    assert!(scan.issues.is_empty());
    assert_eq!(scan.added, 0);
    assert_eq!(scan.updated, 0);
    assert_eq!(scan.removed, 0);
}

#[test]
fn scan_fills_metadata_of_a_bare_directory() {
    let mut store = Store::new();
    store.dirs.insert("Hand Made~3".to_string(), DirFiles { metadata: None, skill_md: None });

    let scan = store.scan();
    assert_eq!(scan.added, 1);
    assert_eq!(scan.skills[0].name, "Hand Made");
    assert_eq!(scan.skills[0].id, "skill:local/hand-made");
    assert_eq!(scan.skills[0].source, "local");
    assert_eq!(scan.installed_skills[0].install_path, "/data/byi/skills/Hand Made~3");
    let codes: Vec<String> = scan.issues.iter().map(|i| i.code.clone()).collect();
    assert_eq!(codes, vec!["missing-skill-md".to_string()]);

    let again = store.scan();
    assert_eq!((again.added, again.updated, again.removed), (0, 0, 0));
}

#[test]
fn second_scan_changes_nothing() {
    let mut store = Store::new();
    sample_source(&mut store, "/src/one", "one", "First");
    store.add_local("/src/one");
    store.copy_dir("one", "one-copy");
    store.dirs.insert("bare".to_string(), DirFiles { metadata: None, skill_md: Some(sample_md("bare", "Bare")) });

    let first = store.scan();
    let metadata_after_first: Vec<Option<SkillMetadata>> = store.dirs.values().map(|d| d.metadata.clone()).collect();
    let second = store.scan();

    assert_eq!((second.added, second.updated, second.removed), (0, 0, 0));
    let ids = |s: &ScanResult| s.installed_skills.iter().map(|i| i.instance_id.clone()).collect::<Vec<_>>();
    assert_eq!(ids(&first), ids(&second));
    let names = |s: &ScanResult| s.skills.iter().map(|k| (k.id.clone(), k.name.clone(), k.description.clone())).collect::<Vec<_>>();
    assert_eq!(names(&first), names(&second));
    let metadata_after_second: Vec<Option<SkillMetadata>> = store.dirs.values().map(|d| d.metadata.clone()).collect();
    for (a, b) in metadata_after_first.iter().zip(metadata_after_second.iter()) {
        let (a, b) = (a.as_ref().unwrap(), b.as_ref().unwrap());
        assert_eq!((&a.instance_id, &a.skill_id, &a.name, &a.created_at), (&b.instance_id, &b.skill_id, &b.name, &b.created_at));
    }
    let copies = |s: &ScanResult| {
        s.installed_skills
            .iter()
            .map(|i| (i.instance_id.clone(), i.skill_id.clone(), i.dir_name.clone(), i.install_path.clone(), i.enabled, i.source.clone(), i.created_at.clone()))
            .collect::<Vec<_>>()
    };
    assert_eq!(copies(&first), copies(&second));
    assert!(second.issues.is_empty());
}

#[test]
fn second_scan_reports_only_missing_skill_md() {
    let mut store = Store::new();
    sample_source(&mut store, "/src/one", "one", "First");
    store.add_local("/src/one");
    store.copy_dir("one", "one-copy");
    store.dirs.insert("no-md".to_string(), DirFiles { metadata: None, skill_md: None });

    let first = store.scan();
    assert!(first.issues.iter().any(|i| i.code == "copied-instance"));
    let second = store.scan();
    assert!(!second.issues.is_empty());
    assert!(second.issues.iter().all(|i| i.code == "missing-skill-md"));
}

#[test]
fn scan_holds_one_copy_per_directory() {
    let mut store = Store::new();
    sample_source(&mut store, "/src/one", "one", "First");
    store.add_local("/src/one");
    store.copy_dir("one", "one-copy");
    store.dirs.insert("bare".to_string(), DirFiles { metadata: None, skill_md: Some(sample_md("bare", "Bare")) });

    let scan = store.scan();
    assert_eq!(scan.installed_skills.len(), store.dirs.len());
    let mut paths: Vec<String> = scan.installed_skills.iter().map(|i| i.install_path.clone()).collect();
    paths.sort();
    paths.dedup();
    assert_eq!(paths.len(), store.dirs.len());
    for name in store.dirs.keys() {
        assert!(scan.installed_skills.iter().any(|i| &i.dir_name == name && i.install_path.ends_with(&format!("/{name}"))));
    }
}
