use byi::cli::{menu_choice, optional_username, remote_type_choice, webdav_preset_choice, MenuStep, RemoteChoice};
use byi::github::GitHubDirectoryEntry;
use byi::screen::{
    connected_text, detail_text, divider_dashes, empty_card, home_counts, popup_lines, skill_rows, skills_title,
    sparkle, spinner, sync_fields, CardPart,
};
use byi::skill::clock::{new_instance_id, Clock};
use byi::skill::download::{plan_listing, DownloadStep};
use byi::skill::model::{InstalledSkill, Skill, SkillEntry};
use byi::storage::{GitHubRemoteConfig, RemoteConfig};
use byi::tui::{Key, Tab, TuiState};
use byi::skill::model::SkillDoctorIssue;
use byi::utils::{collect_files_recursive, path_less};
use byi::webdav::WebDavRemoteConfig;

fn entry(name: &str, source: &str, enabled: bool) -> SkillEntry {
    SkillEntry {
        skill: Skill {
            id: format!("skill:local/{name}"),
            name: name.to_string(),
            description: String::new(),
            source: source.to_string(),
            domains: vec!["dev".to_string()],
            modules: vec![],
        },
        installed: InstalledSkill {
            instance_id: format!("inst_{name}"),
            skill_id: format!("skill:local/{name}"),
            dir_name: name.to_string(),
            install_path: format!("/data/skills/{name}"),
            enabled,
            source: source.to_string(),
            created_at: "1".to_string(),
            updated_at: "2".to_string(),
        },
    }
}

#[test]
fn collect_files_recursive_returns_relative_paths() {
    let files = collect_files_recursive(vec!["nested/b.txt".to_string(), "a.txt".to_string()]);

    assert_eq!(files, vec!["a.txt".to_string(), "nested/b.txt".to_string()]);
}

#[test]
fn paths_sort_component_by_component() {
    let files = collect_files_recursive(vec!["a-b".to_string(), "a/b".to_string(), "a".to_string(), "B".to_string()]);
    assert_eq!(files, vec!["B".to_string(), "a".to_string(), "a/b".to_string(), "a-b".to_string()]);
    assert!(path_less("a/z", "a-b"));
    assert!(!path_less("a", "a"));
}

#[test]
fn table_rows_number_and_badge_entries() {
    let rows = skill_rows(&vec![entry("one", "local", true), entry("two", "github:o/r", false)]);
    assert_eq!(rows.len(), 2);
    assert_eq!(rows[0].number, "1");
    assert_eq!(rows[0].status, "启用");
    assert_eq!(rows[0].source, " local ");
    assert!(!rows[0].from_github);
    assert_eq!(rows[1].number, "2");
    assert_eq!(rows[1].status, "停用");
    assert_eq!(rows[1].source, " ⎇ o/r ");
    assert!(rows[1].from_github);
    assert_eq!(skills_title(2), " ⚡ Skills (2) ");
}

#[test]
fn home_counts_never_divide_by_zero() {
    let empty = home_counts(&vec![]);
    assert_eq!((empty.enabled, empty.github, empty.total), (0, 0, 1));
    let c = home_counts(&vec![entry("a", "github:x/y", true), entry("b", "local", false), entry("c", "github:z", false)]);
    assert_eq!((c.enabled, c.github, c.total), (1, 2, 3));
}

#[test]
fn detail_lists_the_fields_in_order() {
    let d = detail_text(&entry("one", "github:o/r", false));
    assert_eq!(d.state_label, "○ INACTIVE");
    let labels: Vec<&str> = d.fields.iter().map(|f| f.0.as_str()).collect();
    assert_eq!(labels, vec!["ID", "目录", "路径", "来源", "状态", "创建", "更新"]);
    assert_eq!(d.fields[3].1, " ⎇ o/r ");
    assert_eq!(d.fields[4].1, "已停用");
    assert!(d.description.is_none());
    assert_eq!(d.domains, vec![" dev ".to_string()]);
    assert!(d.modules.is_empty());
}

#[test]
fn sync_panel_fields() {
    let gh = sync_fields(&RemoteConfig::GitHub(GitHubRemoteConfig {
        repo: "o/r".to_string(),
        branch: "main".to_string(),
        base_path: ".byi".to_string(),
        auth: "github-cli".to_string(),
    }));
    assert_eq!(gh[0], ("类型".to_string(), "GitHub".to_string()));
    assert_eq!(gh[1].1, "o/r");
    let dav = sync_fields(&RemoteConfig::WebDav(WebDavRemoteConfig::jianguoyun(None, ".byi".to_string())));
    assert_eq!(dav[2], ("预设".to_string(), "坚果云".to_string()));
    assert_eq!(dav[4], ("用户名".to_string(), String::new()));
    assert_eq!(connected_text(0), "已连接");
    assert_eq!(connected_text(7), "已连接..");
}

#[test]
fn animated_marks_cycle() {
    assert_eq!(sparkle(0), "✦");
    assert_eq!(sparkle(9), "✧");
    assert_eq!(spinner(10), "⠋");
    assert_eq!(divider_dashes(10), "───");
    assert_eq!(divider_dashes(3), "");
}

#[test]
fn popup_body_splits_into_lines() {
    assert_eq!(popup_lines("a\r\nb\n\nc"), vec!["a".to_string(), "b".to_string(), String::new(), "c".to_string()]);
    assert!(popup_lines("").is_empty());
}

#[test]
fn empty_card_is_centred() {
    let card = empty_card(12, 50, 0);
    assert_eq!(card.len(), 12);
    assert_eq!(card[2].part, CardPart::Top);
    assert_eq!(card[2].pad, " ".repeat(5));
    assert_eq!(card[2].text, format!("╭{}╮", "─".repeat(40)));
    assert_eq!(card[3].text, format!("│ {} │", "░".repeat(36)));
    assert_eq!(card[4].part, CardPart::Message);
    assert_eq!(card[4].text, format!("{}  还没有任何 Skill", " ".repeat(8)));
    assert_eq!(card[5].part, CardPart::Hint);
    assert_eq!(card[6].part, CardPart::Bottom);
    assert_eq!(card[7].part, CardPart::Faint);
    let small = empty_card(1, 3, 4);
    assert_eq!(small[0].part, CardPart::Top);
    assert_eq!(small[0].text, "╭╮");
}

#[test]
fn github_listing_plans_the_copy() {
    let e = |k: &str, p: &str| GitHubDirectoryEntry { kind: k.to_string(), path: p.to_string() };
    assert_eq!(plan_listing("skills/x", &vec![]).unwrap_err(), "GitHub 目录不存在或为空: skills/x");
    let steps = plan_listing("d", &vec![e("file", "d/SKILL.md"), e("symlink", "d/l"), e("dir", "d/sub")]).unwrap();
    assert_eq!(steps.len(), 2);
    match &steps[0] {
        DownloadStep::Fetch { remote_path, local_name } => {
            assert_eq!((remote_path.as_str(), local_name.as_str()), ("d/SKILL.md", "SKILL.md"));
        }
        other => panic!("应该下载文件: {other:?}"),
    }
    match &steps[1] {
        DownloadStep::Descend { local_name, .. } => assert_eq!(local_name, "sub"),
        other => panic!("应该进入目录: {other:?}"),
    }
    let stopped = plan_listing("d", &vec![e("file", ".."), e("file", "d/x")]).unwrap();
    assert_eq!(stopped.len(), 1);
    assert!(matches!(&stopped[0], DownloadStep::Fail(m) if m == "无效 GitHub 文件路径: .."));
}

#[test]
fn menu_choices() {
    assert_eq!(menu_choice(true, Some(1)).unwrap(), MenuStep::TestRemote);
    assert_eq!(menu_choice(false, Some(1)).unwrap(), MenuStep::Exit);
    assert_eq!(menu_choice(true, None).unwrap(), MenuStep::Exit);
    assert_eq!(menu_choice(false, Some(0)).unwrap(), MenuStep::ChooseRemoteType);
    assert_eq!(menu_choice(false, Some(5)).unwrap_err(), "未知选项: 5");
    assert_eq!(remote_type_choice(Some(1)).unwrap(), RemoteChoice::WebDav);
    assert_eq!(remote_type_choice(Some(2)).unwrap_err(), "不支持的远端类型: 2");
    assert_eq!(webdav_preset_choice(Some(0)).unwrap(), Some("jianguoyun".to_string()));
    assert_eq!(webdav_preset_choice(None).unwrap(), None);
    assert_eq!(webdav_preset_choice(Some(3)).unwrap_err(), "不支持的 WebDAV 配置方式: 3");
    assert_eq!(optional_username("  ".to_string()), None);
    assert_eq!(optional_username(" me ".to_string()), Some(" me ".to_string()));
}

#[test]
fn tabs_step_back_and_forth() {
    for t in [Tab::Home, Tab::Skills, Tab::Sync] {
        assert_eq!(t.next().prev(), t);
        assert_eq!(t.prev().next(), t);
    }
    assert_eq!(Tab::Sync.next(), Tab::Home);
}

#[test]
fn instance_ids_from_one_clock_differ() {
    let mut clock = Clock { secs: 1, millis: 255, next_id: 15 };
    let a = new_instance_id(&mut clock);
    let b = new_instance_id(&mut clock);
    assert_eq!(a, "inst_fff");
    assert_eq!(b, "inst_ff10");
    assert_ne!(a, b);
    assert_eq!(clock.next_id, 17);
}

#[test]
fn instance_ids_of_a_later_command_differ() {
    let mut first = Clock { secs: 1, millis: 0x1, next_id: 0x2 };
    let a = new_instance_id(&mut first);
    let mut later = Clock { secs: 1, millis: 0x1, next_id: first.next_id };
    let b = new_instance_id(&mut later);
    assert_eq!(a, "inst_12");
    assert_eq!(b, "inst_13");
    assert_ne!(a, b);
    let mut much_later = Clock { secs: 2, millis: 0x12, next_id: 4 };
    let c = new_instance_id(&mut much_later);
    assert_eq!(c, "inst_124");
    assert_ne!(a, c);
    assert!(c.starts_with("inst_") && c[5..].chars().all(|ch| ch.is_ascii_hexdigit() && !ch.is_ascii_uppercase()));
}

#[test]
fn tui_keeps_greeting_and_scan_issues() {
    let issue = SkillDoctorIssue { code: "missing-skill-md".to_string(), level: "warn".to_string(), message: "m".to_string() };
    let mut state = TuiState::new("hello".to_string(), vec![entry("a", "local", true)], vec![issue], false);
    state.handle_key(Key::Char('2'), false);
    state.handle_key(Key::Down, false);
    state.handle_key(Key::Tab, false);
    assert_eq!(state.hello_message, "hello");
    assert_eq!(state.skill_scan_issues.len(), 1);
    assert_eq!(state.skill_scan_issues[0].code, "missing-skill-md");
    state.skills_refreshed(Err("boom".to_string()));
    assert_eq!(state.skill_scan_issues.len(), 1);
    state.skills_refreshed(Ok((vec![], vec![])));
    assert!(state.skill_scan_issues.is_empty());
    assert_eq!(state.hello_message, "hello");
}
