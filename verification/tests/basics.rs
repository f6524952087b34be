use byi::greeting::hello_message;
use byi::skill::add::expand_tilde;
use byi::skill::lookup::resolve_skill_reference;
use byi::skill::model::{InstalledSkill, Skill};
use byi::skill::names::{new_skill_id, normalize_display_name, sanitize_name, source_namespace, validate_repo};
use byi::utils::normalize_line_endings;

fn sample_skill() -> Skill {
    Skill {
        id: "skill:local/test".to_string(),
        name: "test".to_string(),
        description: "desc".to_string(),
        source: "local".to_string(),
        domains: vec![],
        modules: vec![],
    }
}

fn sample_installed(instance_id: &str, dir_name: &str, install_path: &str) -> InstalledSkill {
    InstalledSkill {
        instance_id: instance_id.to_string(),
        skill_id: "skill:local/test".to_string(),
        dir_name: dir_name.to_string(),
        install_path: install_path.to_string(),
        enabled: true,
        source: "local".to_string(),
        created_at: "2024-01-01".to_string(),
        updated_at: "2024-01-01".to_string(),
    }
}

#[test]
fn hello_message_is_stable() {
    assert_eq!(hello_message(), "byi is installed and ready.");
}

#[test]
fn normalize_line_endings_converts_windows_and_old_mac_endings() {
    let input = "a\r\nb\rc\n";

    assert_eq!(normalize_line_endings(input), "a\nb\nc\n");
}

#[test]
fn normalize_line_endings_twice_changes_nothing() {
    let once = normalize_line_endings("x\r\r\ny\r");
    assert_eq!(once, "x\n\ny\n");
    assert_eq!(normalize_line_endings(&once), once);
    assert_eq!(normalize_line_endings(""), "");
}

#[test]
fn resolve_skill_reference_by_dir_name() {
    let skill = sample_skill();
    let installed = sample_installed("inst_abc", "test-dir", "/tmp/test");

    let entry = resolve_skill_reference(&[skill.clone()], &[installed.clone()], "test-dir")
        .expect("dir_name 引用应该成功");
    assert_eq!(entry.installed.dir_name, "test-dir");
}

#[test]
fn resolve_skill_reference_by_skill_id_ambiguous() {
    let skill = sample_skill();
    let installed_a = sample_installed("inst_a", "test-a", "/tmp/test-a");
    let installed_b = sample_installed("inst_b", "test-b", "/tmp/test-b");

    let err = resolve_skill_reference(&[skill], &[installed_a, installed_b], "skill:local/test")
        .expect_err("多个实例的 skill_id 引用应该歧义");
    assert!(err.contains("对应 2 个实例"));
}

#[test]
fn resolve_skill_reference_by_instance_id_and_name() {
    let skill = sample_skill();
    let installed = sample_installed("inst_abc", "test-dir", "/tmp/test");

    let by_id = resolve_skill_reference(&[skill.clone()], &[installed.clone()], "inst_abc").unwrap();
    assert_eq!(by_id.installed.instance_id, "inst_abc");
    assert_eq!(by_id.skill.id, "skill:local/test");
    let by_name = resolve_skill_reference(&[skill.clone()], &[installed.clone()], "test").unwrap();
    assert_eq!(by_name.installed.dir_name, "test-dir");
}

#[test]
fn resolve_skill_reference_reports_unknown_and_ambiguous_names() {
    let skill = sample_skill();
    let a = sample_installed("inst_a", "test-a", "/tmp/test-a");
    let b = sample_installed("inst_b", "test-b", "/tmp/test-b");

    let unknown = resolve_skill_reference(&[skill.clone()], &[a.clone()], "nothing").unwrap_err();
    assert_eq!(unknown, "未找到 skill: nothing");
    let ambiguous = resolve_skill_reference(&[skill.clone()], &[a.clone(), b.clone()], "test").unwrap_err();
    assert!(ambiguous.contains("命中多个实例"));
}

#[test]
fn resolve_skill_reference_reports_missing_definition() {
    let installed = sample_installed("inst_abc", "test-dir", "/tmp/test");
    let err = resolve_skill_reference(&[], &[installed], "inst_abc").unwrap_err();
    assert!(err.contains("skill:local/test"));
}

#[test]
fn normalize_display_name_strips_suffix() {
    assert_eq!(normalize_display_name("python-review"), "python-review");
    assert_eq!(normalize_display_name("python-review~2"), "python-review");
    assert_eq!(normalize_display_name("review~10"), "review");
}

#[test]
fn normalize_display_name_is_idempotent_and_trims() {
    let once = normalize_display_name("  spaced name ~3");
    assert_eq!(once, "spaced name");
    assert_eq!(normalize_display_name(&once), once);
    assert_eq!(normalize_display_name("~5"), "");
}

#[test]
fn sanitize_name_replaces_invalid_chars() {
    assert_eq!(sanitize_name("hello world"), "hello-world");
    assert_eq!(sanitize_name("a/b\\c"), "a-b-c");
    assert_eq!(sanitize_name("foo:bar"), "foo-bar");
}

#[test]
fn sanitize_name_lowercases_collapses_and_is_idempotent() {
    let once = sanitize_name("  My  Skill!! -- v1.0_beta ");
    assert_eq!(once, "my-skill-v1.0_beta");
    assert_eq!(sanitize_name(&once), once);
    assert_eq!(sanitize_name("---"), "");
    assert_eq!(sanitize_name("技能"), "");
}

#[test]
fn new_skill_id_and_namespace_round_trip() {
    let id = new_skill_id("GitHub Owner", "Review Helper");
    assert_eq!(id, "skill:github-owner/review-helper");
    assert_eq!(source_namespace(&id), "github-owner");
    assert_eq!(source_namespace("local:~/x"), "local");
    assert_eq!(source_namespace("plain"), "plain");
}

#[test]
fn expand_tilde_resolves_home() {
    let home = dirs::home_dir().expect("应该有 home 目录").display().to_string();
    let expected = std::path::Path::new(&home).join("test").display().to_string();
    assert_eq!(expand_tilde("~/test", &Some(home.clone())).unwrap(), expected);
    assert_eq!(expand_tilde("/absolute/path", &Some(home)).unwrap(), "/absolute/path");
}

#[test]
fn expand_tilde_without_home_is_refused() {
    assert!(expand_tilde("~/test", &None).is_err());
    assert_eq!(expand_tilde("relative/x", &None).unwrap(), "relative/x");
}

#[test]
fn validate_repo_accepts_valid_format() {
    assert!(validate_repo("owner/repo").is_ok());
}

#[test]
fn validate_repo_rejects_invalid_format() {
    assert!(validate_repo("invalid").is_err());
    assert!(validate_repo("too/many/parts").is_err());
    assert!(validate_repo("").is_err());
}

#[test]
fn validate_repo_rejects_blank_halves() {
    assert_eq!(validate_repo(" /repo").unwrap_err(), "GitHub repo must use owner/repo format.");
    assert!(validate_repo("owner/ ").is_err());
}
