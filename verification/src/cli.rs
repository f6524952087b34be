//! The command line's own rules: checking its arguments, building the
//! remote configuration `sync init` writes, and the texts it answers with.
use vstd::prelude::*;
use crate::text::{has_prefix, text_starts_with, concat, chars_of, string_of, split_on, split_text, is_blank, is_blank_text, decimal, decimal_text};
use crate::skill::names::{repo_is_valid, repo_well_formed};
use crate::storage::{RemoteConfig, GitHubRemoteConfig, remote_status_text, format_remote_status};
use crate::webdav::{
    WebDavPreset, WebDavRemoteConfig, preset_named, parse_preset, endpoint_url_is_valid, validate_endpoint_url,
    jianguoyun_url,
};

verus! {

/// The kinds of sync remote.
#[derive(Clone, Copy, Debug, PartialEq, Eq, Structural)]
pub enum RemoteProvider {
    GitHub,
    WebDav,
}

/// The options of `sync init`.
#[derive(Clone, Debug)]
pub struct RemoteInitOptions {
    pub provider: RemoteProvider,
    pub repo: Option<String>,
    pub branch: String,
    pub base_path: String,
    pub preset: Option<String>,
    pub url: Option<String>,
    pub username: Option<String>,
}

impl RemoteInitOptions {
    /// The options for a GitHub remote.
    pub fn github(repo: String, branch: String, base_path: String) -> (o: Self)
        ensures
            o.provider == RemoteProvider::GitHub,
            o.repo == Some(repo),
            o.branch == branch,
            o.base_path == base_path,
            o.preset is None && o.url is None && o.username is None,
    {
        RemoteInitOptions { provider: RemoteProvider::GitHub, repo: Some(repo), branch, base_path, preset: None, url: None, username: None }
    }

    /// The options for a WebDAV remote; the branch stays `main`.
    pub fn webdav(preset: String, url: Option<String>, username: Option<String>, base_path: String) -> (o: Self)
        ensures
            o.provider == RemoteProvider::WebDav,
            o.repo is None,
            o.branch@ == "main"@,
            o.base_path == base_path,
            o.preset == Some(preset),
            o.url == url,
            o.username == username,
    {
        RemoteInitOptions {
            provider: RemoteProvider::WebDav,
            repo: None,
            branch: String::from_str("main"),
            base_path,
            preset: Some(preset),
            url,
            username,
        }
    }
}

/// The command line's error for a malformed repo.
pub open spec fn cli_repo_error() -> Seq<char> {
    "GitHub repo 必须使用 owner/repo 格式。"@
}

/// Accepts `owner/repo`.
pub fn validate_repo(repo: &str) -> (r: Result<(), String>)
    ensures
        r is Ok <==> repo_is_valid(repo@),
        r matches Err(e) ==> e@ == cli_repo_error(),
{
    if repo_well_formed(repo) {
        Ok(())
    } else {
        Err(String::from_str("GitHub repo 必须使用 owner/repo 格式。"))
    }
}

/// A path stays inside the remote's tree: it is not absolute and no
/// component of it is `..`.
pub open spec fn is_relative_inside(path: Seq<char>) -> bool {
    !has_prefix(path, "/"@) && !split_on(path, '/').contains(".."@)
}

/// Tells whether a path is relative and free of `..`.
pub fn relative_inside(path: &str) -> (b: bool)
    ensures
        b == is_relative_inside(path@),
{
    if text_starts_with(path, "/") {
        return false;
    }
    let parts = split_text(path, '/');
    let ghost pv = parts@.map_values(|p: String| p@);
    let dots = String::from_str("..");
    let mut i: usize = 0;
    while i < parts.len()
        invariant
            i <= parts@.len(),
            pv == parts@.map_values(|p: String| p@),
            pv == split_on(path@, '/'),
            !has_prefix(path@, "/"@),
            dots@ == ".."@,
            forall|j: int| 0 <= j < i ==> pv[j] != ".."@,
        decreases parts@.len() - i,
    {
        assert(pv[i as int] == parts@[i as int]@);
        if parts[i] == dots {
            assert(pv.contains(".."@));
            return false;
        }
        i = i + 1;
    }
    true
}

/// The command line's error for a base path outside the remote's tree.
pub open spec fn base_path_error() -> Seq<char> {
    "--base-path 必须是仓库内相对路径，不能包含 ..。"@
}

/// Accepts a relative path without `..`.
pub fn validate_relative_path(path: &str) -> (r: Result<(), String>)
    ensures
        r is Ok <==> is_relative_inside(path@),
        r matches Err(e) ==> e@ == base_path_error(),
{
    if relative_inside(path) {
        Ok(())
    } else {
        Err(String::from_str("--base-path 必须是仓库内相对路径，不能包含 ..。"))
    }
}

pub open spec fn opt_text(o: Option<String>) -> Option<Seq<char>> {
    match o {
        Some(s) => Some(s@),
        None => None,
    }
}

/// The remote `sync init` configures, or why it refuses: a GitHub remote
/// needs a well-formed repo and base path; a WebDAV remote needs a base
/// path, a known preset (Jianguoyun when none is named), and for a custom
/// preset an `http(s)://` URL.
pub open spec fn init_outcome(o: RemoteInitOptions) -> Result<(), Seq<char>> {
    match o.provider {
        RemoteProvider::GitHub => match o.repo {
            None => Err("GitHub remote init 需要 --repo owner/repo。"@),
            Some(r) => if !repo_is_valid(r@) {
                Err(cli_repo_error())
            } else if !is_relative_inside(o.base_path@) {
                Err(base_path_error())
            } else {
                Ok(())
            },
        },
        RemoteProvider::WebDav => if !is_relative_inside(o.base_path@) {
            Err(base_path_error())
        } else {
            match o.preset {
                Some(p) => match preset_named(p@) {
                    None => Err("不支持的 WebDAV 配置方式: "@ + p@),
                    Some(WebDavPreset::Jianguoyun) => Ok(()),
                    Some(WebDavPreset::Custom) => match o.url {
                        None => Err("自定义 WebDAV 需要 --url。"@),
                        Some(u) => if endpoint_url_is_valid(u@) {
                            Ok(())
                        } else {
                            Err("WebDAV URL 必须以 http:// 或 https:// 开头。"@)
                        },
                    },
                },
                None => Ok(()),
            }
        },
    }
}

/// The remote configuration `sync init` writes when it accepts the options.
pub open spec fn init_config(o: RemoteInitOptions, c: RemoteConfig) -> bool {
    match o.provider {
        RemoteProvider::GitHub => c matches RemoteConfig::GitHub(g) && Some(g.repo) == o.repo && g.branch == o.branch
            && g.base_path == o.base_path && g.auth@ == "github-cli"@,
        RemoteProvider::WebDav => c matches RemoteConfig::WebDav(w) && w.username == o.username && w.base_path == o.base_path
            && match o.preset {
                Some(p) if preset_named(p@) == Some(WebDavPreset::Custom) => w.preset == WebDavPreset::Custom
                    && Some(w.endpoint_url) == o.url,
                _ => w.preset == WebDavPreset::Jianguoyun && w.endpoint_url@ == jianguoyun_url(),
            },
    }
}

/// Checks the options of `sync init` and builds the remote configuration.
pub fn plan_remote_init(options: RemoteInitOptions) -> (r: Result<RemoteConfig, String>)
    ensures
        r is Ok <==> init_outcome(options) is Ok,
        r matches Ok(c) ==> init_config(options, c),
        r matches Err(e) ==> init_outcome(options) == Err::<(), Seq<char>>(e@),
{
    match options.provider {
        RemoteProvider::GitHub => {
            let repo = match options.repo {
                None => {
                    return Err(String::from_str("GitHub remote init 需要 --repo owner/repo。"));
                },
                Some(r) => r,
            };
            match validate_repo(repo.as_str()) {
                Err(e) => {
                    return Err(e);
                },
                Ok(()) => {},
            }
            match validate_relative_path(options.base_path.as_str()) {
                Err(e) => {
                    return Err(e);
                },
                Ok(()) => {},
            }
            Ok(RemoteConfig::GitHub(GitHubRemoteConfig {
                repo,
                branch: options.branch,
                base_path: options.base_path,
                auth: String::from_str("github-cli"),
            }))
        },
        RemoteProvider::WebDav => {
            match validate_relative_path(options.base_path.as_str()) {
                Err(e) => {
                    return Err(e);
                },
                Ok(()) => {},
            }
            let preset = match &options.preset {
                Some(p) => match parse_preset(p.as_str()) {
                    Err(e) => {
                        return Err(e);
                    },
                    Ok(x) => x,
                },
                None => WebDavPreset::Jianguoyun,
            };
            match preset {
                WebDavPreset::Jianguoyun => Ok(RemoteConfig::WebDav(WebDavRemoteConfig::jianguoyun(options.username, options.base_path))),
                WebDavPreset::Custom => {
                    let url = match options.url {
                        None => {
                            return Err(String::from_str("自定义 WebDAV 需要 --url。"));
                        },
                        Some(u) => u,
                    };
                    match validate_endpoint_url(url.as_str()) {
                        Err(e) => {
                            return Err(e);
                        },
                        Ok(()) => {},
                    }
                    Ok(RemoteConfig::WebDav(WebDavRemoteConfig::custom(url, options.username, options.base_path)))
                },
            }
        },
    }
}

/// What `sync init` prints once the configuration is saved.
pub fn remote_initialized_message(remote: &RemoteConfig) -> (s: String)
    ensures
        s@ == "Sync remote initialized.\n"@ + remote_status_text(*remote),
{
    let status = format_remote_status(remote);
    concat("Sync remote initialized.\n", status.as_str())
}

/// The menu `sync config` shows when it does not run interactively.
pub open spec fn config_menu_text(remote: Option<RemoteConfig>) -> Seq<char> {
    match remote {
        Some(r) => remote_status_text(r) + "\n\n操作选项:\na. 更改同步配置\nb. 测试同步配置\nc. 退出\n\n远端类型:\n1. github仓库\n2. webdav\n\n下一步:\n  更改 GitHub 同步配置: byi sync init --provider github --repo owner/repo --branch main --base-path .byi\n  配置坚果云 WebDAV: byi sync init --provider webdav --preset jianguoyun --username name@example.com --base-path .byi\n  配置自定义 WebDAV: byi sync init --provider webdav --preset custom --url https://example.com/dav/ --username name --base-path .byi\n  测试同步配置: byi sync test"@,
        None => "Sync remote is not initialized.\n\n操作选项:\na. 初始化同步配置\nb. 退出\n\n远端类型:\n1. github仓库\n2. webdav\n\n下一步:\n  初始化 GitHub 同步配置: byi sync init --provider github --repo owner/repo --branch main --base-path .byi\n  初始化坚果云 WebDAV: byi sync init --provider webdav --preset jianguoyun --username name@example.com --base-path .byi\n  初始化自定义 WebDAV: byi sync init --provider webdav --preset custom --url https://example.com/dav/ --username name --base-path .byi"@,
    }
}

/// The menu `sync config` shows when it does not run interactively.
pub fn config_menu(remote: &Option<RemoteConfig>) -> (s: String)
    ensures
        s@ == config_menu_text(*remote),
{
    match remote {
        Some(r) => {
            let status = format_remote_status(r);
            concat(status.as_str(), "\n\n操作选项:\na. 更改同步配置\nb. 测试同步配置\nc. 退出\n\n远端类型:\n1. github仓库\n2. webdav\n\n下一步:\n  更改 GitHub 同步配置: byi sync init --provider github --repo owner/repo --branch main --base-path .byi\n  配置坚果云 WebDAV: byi sync init --provider webdav --preset jianguoyun --username name@example.com --base-path .byi\n  配置自定义 WebDAV: byi sync init --provider webdav --preset custom --url https://example.com/dav/ --username name --base-path .byi\n  测试同步配置: byi sync test")
        },
        None => String::from_str("Sync remote is not initialized.\n\n操作选项:\na. 初始化同步配置\nb. 退出\n\n远端类型:\n1. github仓库\n2. webdav\n\n下一步:\n  初始化 GitHub 同步配置: byi sync init --provider github --repo owner/repo --branch main --base-path .byi\n  初始化坚果云 WebDAV: byi sync init --provider webdav --preset jianguoyun --username name@example.com --base-path .byi\n  初始化自定义 WebDAV: byi sync init --provider webdav --preset custom --url https://example.com/dav/ --username name --base-path .byi"),
    }
}

/// `p` occurs in `s`.
pub open spec fn contains_text(s: Seq<char>, p: Seq<char>) -> bool {
    exists|i: int| 0 <= i && i + p.len() <= s.len() && #[trigger] s.subrange(i, i + p.len()) == p
}

fn contains_chars(s: &Vec<char>, p: &Vec<char>) -> (b: bool)
    ensures
        b == contains_text(s@, p@),
{
    if p.len() > s.len() {
        assert(!contains_text(s@, p@));
        return false;
    }
    let mut i: usize = 0;
    while i <= s.len() - p.len()
        invariant
            p@.len() <= s@.len(),
            i <= s@.len() - p@.len() + 1,
            forall|k: int| 0 <= k < i ==> #[trigger] s@.subrange(k, k + p@.len()) != p@,
        decreases s@.len() - i,
    {
        let mut j: usize = 0;
        while j < p.len()
            invariant
                i + p@.len() <= s@.len(),
                i + p.len() <= s.len(),
                p@.len() <= s@.len(),
                j <= p@.len(),
                forall|x: int| 0 <= x < j ==> s@[i + x] == p@[x],
            ensures
                j <= p@.len(),
                forall|x: int| 0 <= x < j ==> s@[i + x] == p@[x],
                j < p@.len() ==> s@[i + j] != p@[j as int],
            decreases p@.len() - j,
        {
            let k: usize = i + j;
            if s[k] != p[j] {
                break;
            }
            j = j + 1;
        }
        if j == p.len() {
            assert(s@.subrange(i as int, i + p@.len()) =~= p@);
            return true;
        }
        if j < p.len() {
            assert(s@.subrange(i as int, i + p@.len())[j as int] != p@[j as int]);
        }
        i = i + 1;
    }
    false
}

/// The parser's answer is a help or version text to print, not an error.
pub open spec fn is_display_text(message: Seq<char>) -> bool {
    !has_prefix(message, "error:"@) && (has_prefix(message, "Usage:"@) || has_prefix(message, "byi "@)
        || contains_text(message, "\nUsage:"@))
}

/// Tells a help or version text apart from a parse error.
pub fn is_clap_display_message(message: &str) -> (b: bool)
    ensures
        b == is_display_text(message@),
{
    if text_starts_with(message, "error:") {
        return false;
    }
    if text_starts_with(message, "Usage:") || text_starts_with(message, "byi ") {
        return true;
    }
    contains_chars(&chars_of(message), &chars_of("\nUsage:"))
}

/// What a prompt with a default gives: the default when nothing was typed.
pub open spec fn answer_or_default(value: Seq<char>, default: Seq<char>) -> Seq<char> {
    if is_blank(value) { default } else { value }
}

/// The default when the typed value is blank, else the value.
pub fn value_or_default(value: String, default: &str) -> (r: String)
    ensures
        r@ == answer_or_default(value@, default@),
{
    if is_blank_text(value.as_str()) { String::from_str(default) } else { value }
}

/// The label of a prompt with a default: `label [default]: `.
pub fn default_prompt_label(label: &str, default: &str) -> (s: String)
    ensures
        s@ == label@ + " ["@ + default@ + "]: "@,
{
    let mut s = concat(label, " [");
    s.append(default);
    s.append("]: ");
    s
}

/// Where a choice in the `sync config` menu leads.
#[derive(Clone, Copy, Debug, PartialEq, Eq, Structural)]
pub enum MenuStep {
    /// Choose a remote type and configure it.
    ChooseRemoteType,
    /// Test the configured remote.
    TestRemote,
    Exit,
}

/// The menu offers, with a remote configured, to change it, to test it or
/// to leave; without one, to configure one or to leave. No choice leaves.
pub open spec fn menu_outcome(configured: bool, choice: Option<usize>) -> Result<MenuStep, Seq<char>> {
    match choice {
        None => Ok(MenuStep::Exit),
        Some(k) => if k == 0 {
            Ok(MenuStep::ChooseRemoteType)
        } else if configured && k == 1 {
            Ok(MenuStep::TestRemote)
        } else if (configured && k == 2) || (!configured && k == 1) {
            Ok(MenuStep::Exit)
        } else {
            Err("未知选项: "@ + decimal(k as nat))
        },
    }
}

/// Reads a choice in the `sync config` menu.
pub fn menu_choice(configured: bool, choice: Option<usize>) -> (r: Result<MenuStep, String>)
    ensures
        match r {
            Ok(s) => menu_outcome(configured, choice) == Ok::<MenuStep, Seq<char>>(s),
            Err(e) => menu_outcome(configured, choice) == Err::<MenuStep, Seq<char>>(e@),
        },
{
    match choice {
        None => Ok(MenuStep::Exit),
        Some(k) => if k == 0 {
            Ok(MenuStep::ChooseRemoteType)
        } else if configured && k == 1 {
            Ok(MenuStep::TestRemote)
        } else if (configured && k == 2) || (!configured && k == 1) {
            Ok(MenuStep::Exit)
        } else {
            Err(concat("未知选项: ", decimal_text(k as u64).as_str()))
        },
    }
}

/// The kind of remote chosen in the menu.
#[derive(Clone, Copy, Debug, PartialEq, Eq, Structural)]
pub enum RemoteChoice {
    GitHub,
    WebDav,
    Exit,
}

/// The remote types offered are a GitHub repository and WebDAV; no choice leaves.
pub open spec fn remote_choice_outcome(choice: Option<usize>) -> Result<RemoteChoice, Seq<char>> {
    match choice {
        None => Ok(RemoteChoice::Exit),
        Some(k) => if k == 0 {
            Ok(RemoteChoice::GitHub)
        } else if k == 1 {
            Ok(RemoteChoice::WebDav)
        } else {
            Err("不支持的远端类型: "@ + decimal(k as nat))
        },
    }
}

/// Reads the choice of a remote type.
pub fn remote_type_choice(choice: Option<usize>) -> (r: Result<RemoteChoice, String>)
    ensures
        match r {
            Ok(c) => remote_choice_outcome(choice) == Ok::<RemoteChoice, Seq<char>>(c),
            Err(e) => remote_choice_outcome(choice) == Err::<RemoteChoice, Seq<char>>(e@),
        },
{
    match choice {
        None => Ok(RemoteChoice::Exit),
        Some(k) => if k == 0 {
            Ok(RemoteChoice::GitHub)
        } else if k == 1 {
            Ok(RemoteChoice::WebDav)
        } else {
            Err(concat("不支持的远端类型: ", decimal_text(k as u64).as_str()))
        },
    }
}

/// The WebDAV presets offered are Jianguoyun and a custom URL, by their
/// written names; no choice leaves (`None`).
pub open spec fn preset_choice_outcome(choice: Option<usize>) -> Result<Option<Seq<char>>, Seq<char>> {
    match choice {
        None => Ok(None),
        Some(k) => if k == 0 {
            Ok(Some("jianguoyun"@))
        } else if k == 1 {
            Ok(Some("custom"@))
        } else {
            Err("不支持的 WebDAV 配置方式: "@ + decimal(k as nat))
        },
    }
}

/// Reads the choice of a WebDAV preset.
pub fn webdav_preset_choice(choice: Option<usize>) -> (r: Result<Option<String>, String>)
    ensures
        match r {
            Ok(p) => preset_choice_outcome(choice) == Ok::<Option<Seq<char>>, Seq<char>>(opt_text(p)),
            Err(e) => preset_choice_outcome(choice) == Err::<Option<Seq<char>>, Seq<char>>(e@),
        },
{
    match choice {
        None => Ok(None),
        Some(k) => if k == 0 {
            Ok(Some(String::from_str("jianguoyun")))
        } else if k == 1 {
            Ok(Some(String::from_str("custom")))
        } else {
            Err(concat("不支持的 WebDAV 配置方式: ", decimal_text(k as u64).as_str()))
        },
    }
}

/// A typed username, or none when only white space was typed.
pub fn optional_username(typed: String) -> (r: Option<String>)
    ensures
        r is None <==> is_blank(typed@),
        r matches Some(u) ==> u == typed,
{
    if is_blank_text(typed.as_str()) { None } else { Some(typed) }
}

} // verus!
