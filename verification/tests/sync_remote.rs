use byi::cli::{
    config_menu, default_prompt_label, is_clap_display_message, plan_remote_init, remote_initialized_message,
    validate_relative_path, value_or_default, RemoteInitOptions,
};
use byi::github::{finish_command, parse_listing, GhNext, GhReply, GhSession, GhStage, GitHubCli, GitHubRemote};
use byi::server::{configure_github, configure_webdav, status_response, RemoteSummary};
use byi::storage::{collection_prefixes, format_remote_status, join_remote_path, GitHubRemoteConfig, GitHubStorage, RemoteConfig};
use byi::sync::{plan_sync_push, sort_texts};
use byi::webdav::{
    format_webdav_preset, parse_preset, response_outcome, validate_endpoint_url, WebDavMethod, WebDavPreset,
    WebDavRemoteConfig,
};

fn strings(v: &[&str]) -> Vec<String> {
    v.iter().map(|s| s.to_string()).collect()
}

// ========================================================================
// sync init / status / config
// ========================================================================

#[test]
fn sync_status_without_config_says_remote_is_not_initialized() {
    let status = status_response(None);

    assert_eq!(status.message, "Sync remote is not initialized.");
    assert!(!status.configured);
    assert!(status.remote.is_none());
}

#[test]
fn sync_init_with_arguments_writes_local_remote_config() {
    let remote = plan_remote_init(RemoteInitOptions::github(
        "owner/repo".to_string(),
        "dev".to_string(),
        ".agent-config".to_string(),
    ))
    .expect("remote init 应该成功");
    let output = remote_initialized_message(&remote);

    assert!(output.contains("Sync remote initialized."));
    assert!(output.contains("GitHub remote: owner/repo"));
    let RemoteConfig::GitHub(remote) = remote else {
        panic!("应该写入 GitHub remote 配置");
    };
    assert_eq!(remote.repo, "owner/repo");
    assert_eq!(remote.branch, "dev");
    assert_eq!(remote.base_path, ".agent-config");
    assert_eq!(remote.auth, "github-cli");
}

#[test]
fn sync_init_with_jianguoyun_webdav_writes_webdav_config() {
    let remote = plan_remote_init(RemoteInitOptions::webdav(
        "jianguoyun".to_string(),
        None,
        Some("name@example.com".to_string()),
        ".byi".to_string(),
    ))
    .expect("webdav init 应该成功");
    let output = remote_initialized_message(&remote);

    assert!(output.contains("Sync remote initialized."));
    assert!(output.contains("WebDAV remote: https://dav.jianguoyun.com/dav/"));
    assert!(output.contains("Preset: jianguoyun"));

    let RemoteConfig::WebDav(remote) = remote else {
        panic!("应该写入 WebDAV remote 配置");
    };
    assert_eq!(remote.preset, WebDavPreset::Jianguoyun);
    assert_eq!(remote.endpoint_url, "https://dav.jianguoyun.com/dav/");
    assert_eq!(remote.username.as_deref(), Some("name@example.com"));
    assert_eq!(remote.base_path, ".byi");
}

#[test]
fn sync_init_with_custom_webdav_requires_url_and_writes_config() {
    let missing_url = plan_remote_init(RemoteInitOptions::webdav("custom".to_string(), None, None, ".byi".to_string()))
        .expect_err("自定义 WebDAV 缺少 URL 应该失败");
    assert!(missing_url.contains("自定义 WebDAV 需要 --url"));

    let remote = plan_remote_init(RemoteInitOptions::webdav(
        "custom".to_string(),
        Some("https://example.com/dav/".to_string()),
        Some("name".to_string()),
        ".custom".to_string(),
    ))
    .expect("自定义 WebDAV init 应该成功");
    let output = remote_initialized_message(&remote);

    assert!(output.contains("WebDAV remote: https://example.com/dav/"));
    assert!(output.contains("Preset: custom"));

    let RemoteConfig::WebDav(remote) = remote else {
        panic!("应该写入 WebDAV remote 配置");
    };
    assert_eq!(remote.preset, WebDavPreset::Custom);
    assert_eq!(remote.endpoint_url, "https://example.com/dav/");
    assert_eq!(remote.username.as_deref(), Some("name"));
    assert_eq!(remote.base_path, ".custom");
}

#[test]
fn sync_init_refuses_bad_options() {
    let no_repo = RemoteInitOptions {
        provider: byi::cli::RemoteProvider::GitHub,
        repo: None,
        branch: "main".to_string(),
        base_path: ".byi".to_string(),
        preset: None,
        url: None,
        username: None,
    };
    assert_eq!(plan_remote_init(no_repo).unwrap_err(), "GitHub remote init 需要 --repo owner/repo。");
    let bad_repo = plan_remote_init(RemoteInitOptions::github("a/b/c".to_string(), "main".to_string(), ".byi".to_string()));
    assert_eq!(bad_repo.unwrap_err(), "GitHub repo 必须使用 owner/repo 格式。");
    let escape = plan_remote_init(RemoteInitOptions::github("a/b".to_string(), "main".to_string(), "../up".to_string()));
    assert!(escape.is_err());
    let bad_preset = plan_remote_init(RemoteInitOptions::webdav("nas".to_string(), None, None, ".byi".to_string()));
    assert_eq!(bad_preset.unwrap_err(), "不支持的 WebDAV 配置方式: nas");
    let bad_url = plan_remote_init(RemoteInitOptions::webdav(
        "自定义".to_string(),
        Some("ftp://x".to_string()),
        None,
        ".byi".to_string(),
    ));
    assert_eq!(bad_url.unwrap_err(), "WebDAV URL 必须以 http:// 或 https:// 开头。");
}

#[test]
fn sync_config_without_remote_shows_initialize_menu() {
    let output = config_menu(&None);

    assert!(output.contains("Sync remote is not initialized."));
    assert!(output.contains("a. 初始化同步配置"));
    assert!(output.contains("b. 退出"));
    assert!(output.contains("github仓库"));
    assert!(output.contains("webdav"));
}

#[test]
fn sync_config_with_remote_shows_manage_menu() {
    let output = config_menu(&Some(RemoteConfig::GitHub(GitHubRemoteConfig {
        repo: "owner/repo".to_string(),
        branch: "main".to_string(),
        base_path: ".byi".to_string(),
        auth: "github-cli".to_string(),
    })));

    assert!(output.contains("GitHub remote: owner/repo"));
    assert!(output.contains("a. 更改同步配置"));
    assert!(output.contains("b. 测试同步配置"));
    assert!(output.contains("c. 退出"));
}

#[test]
fn remote_status_lists_every_field() {
    let webdav = RemoteConfig::WebDav(WebDavRemoteConfig::jianguoyun(None, ".byi".to_string()));
    assert_eq!(
        format_remote_status(&webdav),
        "WebDAV remote: https://dav.jianguoyun.com/dav/\nPreset: jianguoyun\nBase path: .byi\nUsername: (not set)"
    );
}

#[test]
fn relative_paths_must_stay_inside() {
    assert!(validate_relative_path(".byi/data").is_ok());
    assert!(validate_relative_path("").is_ok());
    assert!(validate_relative_path("/abs").is_err());
    assert!(validate_relative_path("a/../../b").is_err());
}

#[test]
fn prompts_and_clap_messages() {
    assert_eq!(value_or_default("  ".to_string(), "main"), "main");
    assert_eq!(value_or_default(" dev ".to_string(), "main"), " dev ");
    assert_eq!(default_prompt_label("Branch", "main"), "Branch [main]: ");
    assert!(is_clap_display_message("Usage: byi [COMMAND]"));
    assert!(!is_clap_display_message("error: unexpected argument"));
}

// ========================================================================
// web API
// ========================================================================

#[test]
fn github_config_from_the_api_is_saved_with_defaults() {
    let remote = configure_github("owner/repo".to_string(), None, None).unwrap();
    let status = status_response(Some(remote));
    assert!(status.configured);
    match status.remote {
        Some(RemoteSummary::GitHub { repo, branch, base_path, auth }) => {
            assert_eq!((repo.as_str(), branch.as_str(), base_path.as_str(), auth.as_str()), ("owner/repo", "main", ".byi", "github-cli"));
        }
        other => panic!("应该是 GitHub 配置: {other:?}"),
    }
    assert!(configure_github("bad".to_string(), None, None).is_err());
}

#[test]
fn webdav_config_from_the_api_needs_a_valid_url_for_custom() {
    let ok = configure_webdav(Some("jianguoyun".to_string()), None, Some("u".to_string()), None).unwrap();
    match ok {
        RemoteConfig::WebDav(w) => {
            assert_eq!(w.endpoint_url, "https://dav.jianguoyun.com/dav/");
            assert_eq!(w.base_path, ".byi");
        }
        other => panic!("应该是 WebDAV 配置: {other:?}"),
    }
    assert!(configure_webdav(Some("custom".to_string()), None, None, None).is_err());
}

// ========================================================================
// storage and WebDAV
// ========================================================================

#[test]
fn remote_paths_join_without_extra_slashes() {
    assert_eq!(join_remote_path("/.byi/", "/skills/a.md"), ".byi/skills/a.md");
    assert_eq!(join_remote_path("", "a.md"), "a.md");
    assert_eq!(join_remote_path("base", "/"), "base");
    let storage = GitHubStorage::new(GitHubRemoteConfig {
        repo: "o/r".to_string(),
        branch: "main".to_string(),
        base_path: ".byi".to_string(),
        auth: "github-cli".to_string(),
    });
    assert_eq!(storage.remote_path("x/y"), ".byi/x/y");
    assert_eq!(storage.github_remote().repo, "o/r");
}

#[test]
fn webdav_urls_and_collections() {
    let config = WebDavRemoteConfig::custom("https://h/dav///".to_string(), None, "/base/".to_string());
    assert_eq!(config.endpoint_for("skills/a/SKILL.md"), "https://h/dav/base/skills/a/SKILL.md");
    assert_eq!(config.test_url(), "https://h/dav");
    assert_eq!(collection_prefixes("base/skills/a/SKILL.md"), strings(&["base", "base/skills", "base/skills/a"]));
    assert_eq!(collection_prefixes("//a/./b//c"), strings(&["a", "a/b"]));
    assert!(collection_prefixes("top.md").is_empty());
}

#[test]
fn webdav_responses_are_judged_per_method() {
    assert!(response_outcome(WebDavMethod::Delete, 404, "404 Not Found", "").is_ok());
    assert!(response_outcome(WebDavMethod::Mkcol, 405, "405", "").is_ok());
    assert!(response_outcome(WebDavMethod::Propfind, 207, "207", "").is_ok());
    assert_eq!(
        response_outcome(WebDavMethod::Get, 500, "500 Internal Server Error", "boom").unwrap_err(),
        "WebDAV GET 失败，状态码: 500 Internal Server Error"
    );
    assert_eq!(
        response_outcome(WebDavMethod::Put, 403, "403 Forbidden", "no").unwrap_err(),
        "WebDAV PUT 失败，状态码 403 Forbidden: no"
    );
    assert!(response_outcome(WebDavMethod::Mkcol, 200, "200 OK", "").is_err());
}

#[test]
fn webdav_presets_round_trip() {
    for p in [WebDavPreset::Jianguoyun, WebDavPreset::Custom] {
        assert_eq!(parse_preset(format_webdav_preset(&p)).unwrap(), p);
    }
    assert_eq!(parse_preset("坚果云").unwrap(), WebDavPreset::Jianguoyun);
    assert_eq!(parse_preset("x").unwrap_err(), "不支持的 WebDAV 配置方式: x");
    assert!(validate_endpoint_url("http://a").is_ok());
    assert!(validate_endpoint_url("a").is_err());
}

// ========================================================================
// sync push plan
// ========================================================================

#[test]
fn push_plan_uploads_in_order_and_deletes_stale_files() {
    let plan = plan_sync_push(
        &strings(&["b/SKILL.md", "a/SKILL.md"]),
        &strings(&["skills.toml"]),
        &Some(strings(&["skills/old/SKILL.md", "skills/a/SKILL.md"])),
    );
    assert_eq!(plan.uploads, strings(&["registry/skills.toml", "skills/a/SKILL.md", "skills/b/SKILL.md"]));
    assert_eq!(plan.deletes, strings(&["skills/old/SKILL.md"]));
    let fresh = plan_sync_push(&vec![], &vec![], &None);
    assert!(fresh.uploads.is_empty() && fresh.deletes.is_empty());
}

#[test]
fn texts_sort_by_character_order() {
    assert_eq!(sort_texts(strings(&["b", "a-b", "a/b", "a", "ä"])), strings(&["a", "a-b", "a/b", "b", "ä"]));
}

// ========================================================================
// GitHub CLI
// ========================================================================

fn remote() -> GitHubRemote {
    GitHubRemote { repo: "o/r".to_string(), branch: "main".to_string(), base_path: ".byi".to_string() }
}

fn finish(next: GhNext) -> Result<GhReply, String> {
    match next {
        GhNext::Finish(r) => r,
        GhNext::Run(args) => panic!("应该结束，却要运行 {args:?}"),
    }
}

#[test]
fn get_file_decodes_base64_content() {
    let (session, args) = GitHubCli::get_file(&remote(), ".byi/a.txt");
    assert_eq!(args, strings(&["api", "repos/o/r/contents/.byi/a.txt?ref=main", "--jq", ".content"]));
    let (_, next) = session.resume(Ok("aGVs\nbG8=\n".to_string()));
    match finish(next) {
        Ok(GhReply::Text(t)) => assert_eq!(t, "hello"),
        other => panic!("应该得到文本: {other:?}"),
    }
}

#[test]
fn get_file_reports_bad_content() {
    let (session, _) = GitHubCli::get_file(&remote(), "a");
    let (_, next) = session.resume(Ok("!!!".to_string()));
    assert!(finish(next).unwrap_err().starts_with("解码 GitHub 文件内容失败: "));
    let (session, _) = GitHubCli::get_file(&remote(), "a");
    let (_, next) = session.resume(Ok("/w==".to_string()));
    assert!(finish(next).unwrap_err().starts_with("GitHub 文件不是有效 UTF-8: "));
    let (session, _) = GitHubCli::get_file_bytes(&remote(), "a");
    let (_, next) = session.resume(Ok("/w==".to_string()));
    match finish(next) {
        Ok(GhReply::Bytes(b)) => assert_eq!(b, vec![0xffu8]),
        other => panic!("应该得到字节: {other:?}"),
    }
}

#[test]
fn put_file_sends_base64_and_the_old_sha() {
    let (session, args) = GitHubCli::put_file(&remote(), "p.txt", "hi");
    assert_eq!(args, strings(&["api", "repos/o/r/contents/p.txt?ref=main", "--jq", ".sha"]));
    let (session, next) = session.resume(Ok(" abc \n".to_string()));
    assert_eq!(session.stage, GhStage::Put);
    match next {
        GhNext::Run(args) => assert_eq!(
            args,
            strings(&[
                "api", "--method", "PUT", "repos/o/r/contents/p.txt", "-f", "message=Update byi data at p.txt", "-f",
                "content=aGk=", "-f", "branch=main", "-f", "sha=abc",
            ])
        ),
        other => panic!("应该运行 PUT: {other:?}"),
    }
    let (session, _) = GitHubCli::put_file(&remote(), "p.txt", "hi");
    let (_, next) = session.resume(Err("404".to_string()));
    match next {
        GhNext::Run(args) => assert_eq!(args.len(), 10),
        other => panic!("应该运行 PUT: {other:?}"),
    }
}

#[test]
fn delete_file_needs_the_sha() {
    let (session, _) = GitHubCli::delete_file(&remote(), "d.txt");
    let (session, next) = session.resume(Ok("s1".to_string()));
    match next {
        GhNext::Run(args) => assert_eq!(args[5], "message=Delete byi data at d.txt"),
        other => panic!("应该运行 DELETE: {other:?}"),
    }
    let (_, next) = session.resume(Ok(String::new()));
    assert!(matches!(finish(next), Ok(GhReply::Done)));
    let (session, _) = GitHubCli::delete_file(&remote(), "d.txt");
    let (_, next) = session.resume(Err("gone".to_string()));
    assert_eq!(finish(next).unwrap_err(), "gone");
}

#[test]
fn login_flow_checks_install_then_auth_then_repo() {
    let (session, args) = GitHubCli::ensure_repo_access("o/r");
    assert_eq!(args, strings(&["--version"]));
    let (session, next) = session.resume(Ok("gh 2".to_string()));
    assert!(matches!(next, GhNext::Run(ref a) if a[0] == "auth" && a[1] == "status"));
    let (session, next) = session.resume(Err("not logged in".to_string()));
    assert!(matches!(next, GhNext::Run(ref a) if a[1] == "login"));
    let (session, next) = session.resume(Ok(String::new()));
    assert!(matches!(next, GhNext::Run(ref a) if a[0] == "repo" && a[2] == "o/r"));
    let (_, next) = session.resume(Ok(String::new()));
    assert!(matches!(finish(next), Ok(GhReply::Done)));

    let (session, _) = GitHubCli::ensure_installed();
    let (_, next) = session.resume(Err("not found".to_string()));
    assert_eq!(finish(next).unwrap_err(), GitHubCli::install_help());
}

#[test]
fn listing_lines_become_entries() {
    let entries = parse_listing("file\ta.md\n\n dir \t sub \nbroken\n");
    assert_eq!(entries.len(), 2);
    assert_eq!((entries[0].kind.as_str(), entries[0].path.as_str()), ("file", "a.md"));
    assert_eq!((entries[1].kind.as_str(), entries[1].path.as_str()), ("dir", "sub"));
    let (session, args) = GitHubCli::list_directory(&remote(), "/");
    assert_eq!(args[1], "repos/o/r/contents?ref=main");
    let (_, next) = session.resume(Ok("file\tx\n".to_string()));
    match finish(next) {
        Ok(GhReply::Entries(e)) => assert_eq!(e[0].path, "x"),
        other => panic!("应该得到目录项: {other:?}"),
    }
}

#[test]
fn finished_commands_report_their_output() {
    let args = strings(&["api", "x"]);
    assert_eq!(finish_command(&args, true, " out \n", "").unwrap(), "out");
    assert_eq!(finish_command(&args, false, "o", " e ").unwrap_err(), "`gh api x` 失败: e");
    assert_eq!(finish_command(&args, false, " o ", "  ").unwrap_err(), "`gh api x` 失败: o");
}
