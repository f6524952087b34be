//! The web API's sync endpoints: the status they report and the remote
//! configurations they accept.
use vstd::prelude::*;
use crate::text::{concat, decimal, decimal_text, chars_of, trim_text, trim};
use crate::cli::{is_relative_inside, relative_inside};
use crate::skill::names::{repo_is_valid, repo_well_formed};
use crate::storage::{RemoteConfig, GitHubRemoteConfig, remote_status_text, format_remote_status};
use crate::webdav::{
    WebDavPreset, WebDavRemoteConfig, preset_named, parse_preset, endpoint_url_is_valid,
    validate_endpoint_url, preset_name, format_webdav_preset, jianguoyun_url,
};

verus! {

/// Where the web server listens and what it serves.
#[derive(Clone, Debug)]
pub struct WebServerOptions {
    pub host: String,
    pub port: u16,
    pub frontend_dir: String,
    pub config_dir: String,
}

impl WebServerOptions {
    /// The address to bind, `host:port`.
    pub fn bind_text(&self) -> (s: String)
        ensures
            s@ == self.host@ + seq![':'] + decimal(self.port as nat),
    {
        proof { reveal_strlit(":"); }
        let a = concat(self.host.as_str(), ":");
        concat(a.as_str(), decimal_text(self.port as u64).as_str())
    }
}

/// The remote, as the status endpoint describes it.
#[derive(Clone, Debug)]
pub enum RemoteSummary {
    GitHub { repo: String, branch: String, base_path: String, auth: String },
    WebDav { preset: String, endpoint_url: String, username: Option<String>, base_path: String },
}

/// What the status endpoint answers.
#[derive(Clone, Debug)]
pub struct SyncStatusResponse {
    pub configured: bool,
    pub message: String,
    pub remote: Option<RemoteSummary>,
}

/// The summary of a remote: its fields, the preset by name.
pub open spec fn summary_of(remote: RemoteConfig, s: RemoteSummary) -> bool {
    match remote {
        RemoteConfig::GitHub(g) => s == RemoteSummary::GitHub {
            repo: g.repo,
            branch: g.branch,
            base_path: g.base_path,
            auth: g.auth,
        },
        RemoteConfig::WebDav(w) => s matches RemoteSummary::WebDav { preset, endpoint_url, username, base_path }
            && preset@ == preset_name(w.preset) && endpoint_url == w.endpoint_url && username == w.username
            && base_path == w.base_path,
    }
}

/// The summary of a remote.
pub fn remote_summary(remote: RemoteConfig) -> (s: RemoteSummary)
    ensures
        summary_of(remote, s),
{
    match remote {
        RemoteConfig::GitHub(g) => RemoteSummary::GitHub {
            repo: g.repo,
            branch: g.branch,
            base_path: g.base_path,
            auth: g.auth,
        },
        RemoteConfig::WebDav(w) => RemoteSummary::WebDav {
            preset: String::from_str(format_webdav_preset(&w.preset)),
            endpoint_url: w.endpoint_url,
            username: w.username,
            base_path: w.base_path,
        },
    }
}

/// The status for the configured remote, if any.
pub fn status_response(remote: Option<RemoteConfig>) -> (r: SyncStatusResponse)
    ensures
        match remote {
            None => !r.configured && r.message@ == "Sync remote is not initialized."@ && r.remote is None,
            Some(c) => r.configured && r.message@ == remote_status_text(c) && (r.remote matches Some(s)
                && summary_of(c, s)),
        },
{
    match remote {
        None => SyncStatusResponse {
            configured: false,
            message: String::from_str("Sync remote is not initialized."),
            remote: None,
        },
        Some(c) => {
            let message = format_remote_status(&c);
            SyncStatusResponse { configured: true, message, remote: Some(remote_summary(c)) }
        },
    }
}

/// The API's error for a base path outside the remote's tree.
pub open spec fn api_base_path_error() -> Seq<char> {
    "Base path must be relative and cannot contain `..`."@
}

/// Accepts a relative path without `..`.
pub fn validate_relative_path(path: &str) -> (r: Result<(), String>)
    ensures
        r is Ok <==> is_relative_inside(path@),
        r matches Err(e) ==> e@ == api_base_path_error(),
{
    if relative_inside(path) {
        Ok(())
    } else {
        Err(String::from_str("Base path must be relative and cannot contain `..`."))
    }
}

/// Accepts `owner/repo`.
pub fn validate_repo(repo: &str) -> (r: Result<(), String>)
    ensures
        r is Ok <==> repo_is_valid(repo@),
        r matches Err(e) ==> e@ == "GitHub repo must use owner/repo format."@,
{
    if repo_well_formed(repo) {
        Ok(())
    } else {
        Err(String::from_str("GitHub repo must use owner/repo format."))
    }
}

/// The base path a request names, `.byi` when it names none.
pub open spec fn requested_base_path(base_path: Option<String>) -> Seq<char> {
    match base_path {
        Some(b) => b@,
        None => ".byi"@,
    }
}

/// A GitHub remote from a configuration request: the repo checked, the
/// branch `main` and base path `.byi` unless given, the base path checked.
pub fn configure_github(repo: String, branch: Option<String>, base_path: Option<String>) -> (r: Result<RemoteConfig, String>)
    ensures
        r is Ok <==> repo_is_valid(repo@) && is_relative_inside(requested_base_path(base_path)),
        r matches Ok(c) ==> c matches RemoteConfig::GitHub(g) && g.repo == repo
            && g.branch@ == (match branch { Some(b) => b@, None => "main"@ })
            && g.base_path@ == requested_base_path(base_path) && g.auth@ == "github-cli"@,
        r matches Err(e) ==> e@ == if !repo_is_valid(repo@) {
            "GitHub repo must use owner/repo format."@
        } else {
            api_base_path_error()
        },
{
    match validate_repo(repo.as_str()) {
        Err(e) => { return Err(e); },
        Ok(()) => {},
    }
    let branch = match branch {
        Some(b) => b,
        None => String::from_str("main"),
    };
    let base_path = match base_path {
        Some(b) => b,
        None => String::from_str(".byi"),
    };
    match validate_relative_path(base_path.as_str()) {
        Err(e) => { return Err(e); },
        Ok(()) => {},
    }
    Ok(RemoteConfig::GitHub(GitHubRemoteConfig { repo, branch, base_path, auth: String::from_str("github-cli") }))
}

/// The username a request gives, trimmed; none when blank.
pub open spec fn requested_username(username: Option<String>) -> Option<Seq<char>> {
    match username {
        Some(u) => if trim(u@).len() == 0 { None } else { Some(trim(u@)) },
        None => None,
    }
}

/// Why a WebDAV configuration request is refused, in the order checked.
pub open spec fn webdav_request_error(
    preset: Option<String>,
    url: Option<String>,
    base_path: Option<String>,
) -> Option<Seq<char>> {
    match preset {
        Some(p) if preset_named(p@) is None => Some("不支持的 WebDAV 配置方式: "@ + p@),
        _ => if !is_relative_inside(requested_base_path(base_path)) {
            Some(api_base_path_error())
        } else {
            match preset {
                Some(p) if preset_named(p@) == Some(WebDavPreset::Custom) => match url {
                    None => Some("Custom WebDAV requires a url."@),
                    Some(u) => if endpoint_url_is_valid(u@) {
                        None
                    } else {
                        Some("WebDAV URL 必须以 http:// 或 https:// 开头。"@)
                    },
                },
                _ => None,
            }
        },
    }
}

/// A WebDAV remote from a configuration request.
pub fn configure_webdav(
    preset: Option<String>,
    url: Option<String>,
    username: Option<String>,
    base_path: Option<String>,
) -> (r: Result<RemoteConfig, String>)
    ensures
        r is Ok <==> webdav_request_error(preset, url, base_path) is None,
        r matches Err(e) ==> webdav_request_error(preset, url, base_path) == Some(e@),
        r matches Ok(c) ==> c matches RemoteConfig::WebDav(w)
            && w.base_path@ == requested_base_path(base_path)
            && (match w.username { Some(u) => Some(u@), None => None }) == requested_username(username)
            && match preset {
                Some(p) if preset_named(p@) == Some(WebDavPreset::Custom) => w.preset == WebDavPreset::Custom
                    && Some(w.endpoint_url) == url,
                _ => w.preset == WebDavPreset::Jianguoyun && w.endpoint_url@ == jianguoyun_url(),
            },
{
    let kind = match &preset {
        Some(p) => match parse_preset(p.as_str()) {
            Err(e) => { return Err(e); },
            Ok(k) => k,
        },
        None => WebDavPreset::Jianguoyun,
    };
    let base_path = match base_path {
        Some(b) => b,
        None => String::from_str(".byi"),
    };
    match validate_relative_path(base_path.as_str()) {
        Err(e) => { return Err(e); },
        Ok(()) => {},
    }
    let username = match username {
        Some(u) => {
            let t = trim_text(u.as_str());
            if chars_of(t.as_str()).len() == 0 { None } else { Some(t) }
        },
        None => None,
    };
    match kind {
        WebDavPreset::Jianguoyun => Ok(RemoteConfig::WebDav(WebDavRemoteConfig::jianguoyun(username, base_path))),
        WebDavPreset::Custom => {
            let u = match url {
                None => { return Err(String::from_str("Custom WebDAV requires a url.")); },
                Some(u) => u,
            };
            match validate_endpoint_url(u.as_str()) {
                Err(e) => { return Err(e); },
                Ok(()) => {},
            }
            Ok(RemoteConfig::WebDav(WebDavRemoteConfig::custom(u, username, base_path)))
        },
    }
}

} // verus!
