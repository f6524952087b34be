//! The GitHub remote, reached through the GitHub CLI (`gh`): which commands
//! each operation runs, in which order, and what their output means.
use vstd::prelude::*;
use vstd::utf8::{valid_utf8, decode_utf8};
use base64::Engine;
use crate::text::{
    char_index, lemma_char_index_bounds, trim, trim_char, is_blank, is_space, chars_of, string_of,
    string_of_range, trim_text, is_blank_text, char_is_space, concat, find_char,
};
use crate::skill::markdown::{text_lines, split_lines};
use crate::skill::names::trim_char_chars;

verus! {

/// A repository, branch and base path that `gh` reads and writes.
#[derive(Debug)]
pub struct GitHubRemote {
    pub repo: String,
    pub branch: String,
    pub base_path: String,
}

impl Clone for GitHubRemote {
    fn clone(&self) -> (r: Self)
        ensures
            r == *self,
    {
        GitHubRemote { repo: self.repo.clone(), branch: self.branch.clone(), base_path: self.base_path.clone() }
    }
}

/// An entry of a repository directory: its type (`file`, `dir`, ...) and path.
#[derive(Clone, Debug, PartialEq, Eq)]
pub struct GitHubDirectoryEntry {
    pub kind: String,
    pub path: String,
}

/// The GitHub CLI, as the sync remote and the skill downloader use it.
pub struct GitHubCli;

/// The text shown when `gh` is missing.
pub open spec fn install_help_text() -> Seq<char> {
    "未检测到 GitHub CLI: gh\n\n安装方式:\n  macOS: brew install gh\n  Windows: winget install --id GitHub.cli\n  Linux: 参考 https://github.com/cli/cli/blob/trunk/docs/install_linux.md\n\n安装后运行:\n  gh auth login --web -h github.com --scopes repo"@
}

/// The result of `base64`'s standard engine decoding a text: the bytes, or
/// the message of the error it reports.
pub uninterp spec fn base64_decoding(text: Seq<char>) -> Result<Seq<u8>, Seq<char>>;

/// The character of the standard base64 alphabet for a six-bit value:
/// `A`–`Z`, `a`–`z`, `0`–`9`, `+`, `/`.
pub open spec fn base64_char(v: int) -> char {
    if v < 26 {
        (65 + v) as char
    } else if v < 52 {
        (97 + v - 26) as char
    } else if v < 62 {
        (48 + v - 52) as char
    } else if v == 62 {
        '+'
    } else {
        '/'
    }
}

/// Standard, padded base64 of `bytes`: each group of three bytes becomes four
/// characters of six bits each; a last group of one or two bytes becomes two
/// or three characters, filled up with `=` to four.
pub open spec fn base64_encoding(bytes: Seq<u8>) -> Seq<char>
    decreases bytes.len(),
{
    if bytes.len() == 0 {
        Seq::empty()
    } else if bytes.len() == 1 {
        let a = bytes[0] as int;
        seq![base64_char(a / 4), base64_char((a % 4) * 16), '=', '=']
    } else if bytes.len() == 2 {
        let a = bytes[0] as int;
        let b = bytes[1] as int;
        seq![base64_char(a / 4), base64_char((a % 4) * 16 + b / 16), base64_char((b % 16) * 4), '=']
    } else {
        let a = bytes[0] as int;
        let b = bytes[1] as int;
        let c = bytes[2] as int;
        seq![base64_char(a / 4), base64_char((a % 4) * 16 + b / 16), base64_char((b % 16) * 4 + c / 64), base64_char(c % 64)]
            + base64_encoding(bytes.skip(3))
    }
}

/// The message `String::from_utf8` gives for bytes that are not UTF-8.
pub uninterp spec fn utf8_error_text(bytes: Seq<u8>) -> Seq<char>;

/// `base64::engine::general_purpose::STANDARD.decode`: decodes standard,
/// padded base64; the error is given by its message.
#[verifier::external_body]
fn base64_decode(text: &str) -> (r: Result<Vec<u8>, String>)
    ensures
        match r {
            Ok(v) => base64_decoding(text@) == Ok::<Seq<u8>, Seq<char>>(v@),
            Err(m) => base64_decoding(text@) == Err::<Seq<u8>, Seq<char>>(m@),
        },
{
    base64::engine::general_purpose::STANDARD.decode(text).map_err(|err| format!("{err}"))
}

/// `base64::engine::general_purpose::STANDARD.encode`: standard, padded
/// base64 (RFC 4648 alphabet, `=` padding), as `base64_encoding` states it;
/// it panics when the encoded length overflows `usize`, which the bound on
/// the input rules out.
#[verifier::external_body]
fn base64_encode(bytes: &[u8]) -> (r: String)
    requires
        bytes@.len() <= usize::MAX / 2,
    ensures
        r@ == base64_encoding(bytes@),
{
    base64::engine::general_purpose::STANDARD.encode(bytes)
}

/// `String::from_utf8`: the text the bytes encode when they are valid UTF-8,
/// else the error's message.
#[verifier::external_body]
fn string_from_utf8(bytes: Vec<u8>) -> (r: Result<String, String>)
    ensures
        match r {
            Ok(s) => valid_utf8(bytes@) && s@ == decode_utf8(bytes@),
            Err(m) => !valid_utf8(bytes@) && m@ == utf8_error_text(bytes@),
        },
{
    String::from_utf8(bytes).map_err(|err| format!("{err}"))
}

impl GitHubCli {
    /// The text shown when `gh` is missing.
    pub fn install_help() -> (s: &'static str)
        ensures
            s@ == install_help_text(),
    {
        "未检测到 GitHub CLI: gh\n\n安装方式:\n  macOS: brew install gh\n  Windows: winget install --id GitHub.cli\n  Linux: 参考 https://github.com/cli/cli/blob/trunk/docs/install_linux.md\n\n安装后运行:\n  gh auth login --web -h github.com --scopes repo"
    }
}

/// `key=value`, a field of `gh api -f`.
pub open spec fn field(key: Seq<char>, value: Seq<char>) -> Seq<char> {
    key + seq!['='] + value
}

/// A field argument of `gh api -f`.
pub fn field_arg(key: &str, value: &str) -> (s: String)
    ensures
        s@ == field(key@, value@),
{
    proof { reveal_strlit("="); }
    let a = concat(key, "=");
    concat(a.as_str(), value)
}

/// The contents API path of a file.
pub open spec fn contents_endpoint(repo: Seq<char>, path: Seq<char>) -> Seq<char> {
    "repos/"@ + repo + "/contents/"@ + path
}

/// The contents API path of a file at the remote's branch.
pub open spec fn ref_endpoint(repo: Seq<char>, branch: Seq<char>, path: Seq<char>) -> Seq<char> {
    contents_endpoint(repo, path) + "?ref="@ + branch
}

/// The contents API path of a directory at the remote's branch; the root
/// when the path is empty once its `/`s are trimmed.
pub open spec fn listing_endpoint(repo: Seq<char>, branch: Seq<char>, path: Seq<char>) -> Seq<char> {
    let t = trim_char(path, '/');
    if t.len() == 0 {
        "repos/"@ + repo + "/contents?ref="@ + branch
    } else {
        ref_endpoint(repo, branch, t)
    }
}

/// The text of a command's output with every white-space character removed.
pub open spec fn compact(text: Seq<char>) -> Seq<char> {
    text.filter(|c: char| !is_space(c))
}

/// One line of a directory listing: type and path separated by a tab, both
/// trimmed; a line without a path is skipped.
pub open spec fn parse_listing_line(line: Seq<char>) -> Option<(Seq<char>, Seq<char>)> {
    let k = char_index(line, '\t');
    let kind = trim(line.take(k));
    let path = if k < line.len() { trim(line.skip(k + 1)) } else { Seq::empty() };
    if path.len() == 0 { None } else { Some((kind, path)) }
}

/// The entries of the lines of a directory listing, blank lines skipped.
pub open spec fn listing_entries(lines: Seq<Seq<char>>) -> Seq<(Seq<char>, Seq<char>)>
    decreases lines.len(),
{
    if lines.len() == 0 {
        Seq::empty()
    } else {
        let rest = listing_entries(lines.drop_last());
        if is_blank(lines.last()) {
            rest
        } else {
            match parse_listing_line(lines.last()) {
                Some(e) => rest.push(e),
                None => rest,
            }
        }
    }
}

pub open spec fn entry_pairs(v: Seq<GitHubDirectoryEntry>) -> Seq<(Seq<char>, Seq<char>)> {
    v.map_values(|e: GitHubDirectoryEntry| (e.kind@, e.path@))
}

/// Reads the output of a directory listing.
pub fn parse_listing(output: &str) -> (r: Vec<GitHubDirectoryEntry>)
    ensures
        entry_pairs(r@) == listing_entries(text_lines(output@)),
{
    let lines = split_lines(output);
    let ghost lv = lines@.map_values(|l: Vec<char>| l@);
    let mut out: Vec<GitHubDirectoryEntry> = Vec::new();
    let mut i: usize = 0;
    while i < lines.len()
        invariant
            i <= lines@.len(),
            lv == lines@.map_values(|l: Vec<char>| l@),
            lv == text_lines(output@),
            entry_pairs(out@) == listing_entries(lv.take(i as int)),
        decreases lines@.len() - i,
    {
        let line = &lines[i];
        assert(lv[i as int] == line@);
        assert(lv.take(i + 1).drop_last() =~= lv.take(i as int));
        assert(lv.take(i + 1).last() == line@);
        let whole = string_of(line);
        if !is_blank_text(whole.as_str()) {
            let k = find_char(line, '\t');
            proof { lemma_char_index_bounds(line@, '\t'); }
            let head = string_of_range(line, 0, k);
            let kind = trim_text(head.as_str());
            let path = if k < line.len() {
                let tail = string_of_range(line, k + 1, line.len());
                assert(tail@ =~= line@.skip(k + 1));
                trim_text(tail.as_str())
            } else {
                String::new()
            };
            assert(head@ =~= line@.take(k as int));
            if chars_of(path.as_str()).len() > 0 {
                let ghost before = entry_pairs(out@);
                out.push(GitHubDirectoryEntry { kind, path });
                assert(entry_pairs(out@) =~= before.push((out@.last().kind@, out@.last().path@)));
            }
        }
        i = i + 1;
    }
    assert(lv.take(lines@.len() as int) =~= lv);
    out
}

/// `s` with white space removed everywhere.
fn compact_text(s: &str) -> (r: String)
    ensures
        r@ == compact(s@),
{
    let v = chars_of(s);
    let mut out: Vec<char> = Vec::new();
    let mut i: usize = 0;
    while i < v.len()
        invariant
            i <= v@.len(),
            v@ == s@,
            out@ == compact(v@.take(i as int)),
        decreases v@.len() - i,
    {
        proof {
            assert(v@.take(i + 1) =~= v@.take(i as int).push(v@[i as int]));
            v@.take(i as int).lemma_filter_push(v@[i as int], |c: char| !is_space(c));
        }
        if !char_is_space(v[i]) {
            out.push(v[i]);
        }
        i = i + 1;
    }
    assert(v@.take(v@.len() as int) =~= v@);
    string_of(&out)
}

/// What a run of `gh` gave: its trimmed standard output, or an error message.
pub type CommandOutcome = Result<String, String>;

/// A command line joined by spaces.
pub open spec fn joined_args(args: Seq<Seq<char>>) -> Seq<char>
    decreases args.len(),
{
    if args.len() == 0 {
        Seq::empty()
    } else if args.len() == 1 {
        args[0]
    } else {
        joined_args(args.drop_last()) + seq![' '] + args.last()
    }
}

/// The outcome of a finished `gh` run: the trimmed output on success; else
/// the trimmed error output (or, when that is empty, the trimmed standard
/// output) after the command line.
pub open spec fn run_outcome(args: Seq<Seq<char>>, success: bool, stdout: Seq<char>, stderr: Seq<char>) -> Result<Seq<char>, Seq<char>> {
    if success {
        Ok(trim(stdout))
    } else {
        let detail = if trim(stderr).len() == 0 { trim(stdout) } else { trim(stderr) };
        Err("`gh "@ + joined_args(args) + "` 失败: "@ + detail)
    }
}

/// Judges a finished run of `gh` with these arguments.
pub fn finish_command(args: &Vec<String>, success: bool, stdout: &str, stderr: &str) -> (r: CommandOutcome)
    ensures
        match r {
            Ok(o) => run_outcome(args@.map_values(|a: String| a@), success, stdout@, stderr@) == Ok::<Seq<char>, Seq<char>>(o@),
            Err(e) => run_outcome(args@.map_values(|a: String| a@), success, stdout@, stderr@) == Err::<Seq<char>, Seq<char>>(e@),
        },
{
    if success {
        return Ok(trim_text(stdout));
    }
    let err_text = trim_text(stderr);
    let detail = if chars_of(err_text.as_str()).len() == 0 { trim_text(stdout) } else { err_text };
    let ghost av = args@.map_values(|a: String| a@);
    let mut line = String::new();
    let mut i: usize = 0;
    while i < args.len()
        invariant
            i <= args@.len(),
            av == args@.map_values(|a: String| a@),
            line@ == joined_args(av.take(i as int)),
        decreases args@.len() - i,
    {
        proof { reveal_strlit(" "); }
        assert(av.take(i + 1).drop_last() =~= av.take(i as int));
        if i > 0 {
            line.append(" ");
        }
        line.append(args[i].as_str());
        i = i + 1;
        assert(line@ =~= joined_args(av.take(i as int)));
    }
    assert(av.take(args@.len() as int) =~= av);
    let mut msg = concat("`gh ", line.as_str());
    msg.append("` 失败: ");
    msg.append(detail.as_str());
    Err(msg)
}

/// The error when `gh` could not be started.
pub fn launch_failure(error: &str) -> (s: String)
    ensures
        s@ == "执行 `gh` 失败: "@ + error@,
{
    concat("执行 `gh` 失败: ", error)
}

} // verus!

verus! {

/// An operation of the GitHub CLI.
#[derive(Debug)]
pub enum GhRequest {
    EnsureInstalled,
    EnsureAuthenticated,
    EnsureRepoAccess { repo: String },
    GetFile { remote: GitHubRemote, path: String },
    GetFileBytes { remote: GitHubRemote, path: String },
    PutFileBytes { remote: GitHubRemote, path: String, contents: Vec<u8> },
    DeleteFile { remote: GitHubRemote, path: String },
    ListDirectory { remote: GitHubRemote, path: String },
}

/// Which `gh` command an operation waits on.
#[derive(Clone, Copy, Debug, PartialEq, Eq, Structural)]
pub enum GhStage {
    Version,
    AuthStatus,
    AuthLogin,
    RepoView,
    Fetch,
    PutSha,
    Put,
    DeleteSha,
    Delete,
    List,
}

/// What a finished operation gives.
#[derive(Debug)]
pub enum GhReply {
    Done,
    Bytes(Vec<u8>),
    Text(String),
    Entries(Vec<GitHubDirectoryEntry>),
}

/// What to do next: run `gh` with these arguments, or stop with this result.
#[derive(Debug)]
pub enum GhNext {
    Run(Vec<String>),
    Finish(Result<GhReply, String>),
}

/// An operation under way.
#[derive(Debug)]
pub struct GhSession {
    pub request: GhRequest,
    pub stage: GhStage,
}

pub enum ReplyView {
    Done,
    Bytes(Seq<u8>),
    Text(Seq<char>),
    Entries(Seq<(Seq<char>, Seq<char>)>),
}

pub enum NextView {
    Run(Seq<Seq<char>>),
    Finish(Result<ReplyView, Seq<char>>),
}

impl View for GhNext {
    type V = NextView;

    open spec fn view(&self) -> NextView {
        match self {
            GhNext::Run(a) => NextView::Run(a@.map_values(|x: String| x@)),
            GhNext::Finish(Ok(GhReply::Done)) => NextView::Finish(Ok(ReplyView::Done)),
            GhNext::Finish(Ok(GhReply::Bytes(b))) => NextView::Finish(Ok(ReplyView::Bytes(b@))),
            GhNext::Finish(Ok(GhReply::Text(t))) => NextView::Finish(Ok(ReplyView::Text(t@))),
            GhNext::Finish(Ok(GhReply::Entries(e))) => NextView::Finish(Ok(ReplyView::Entries(entry_pairs(e@)))),
            GhNext::Finish(Err(m)) => NextView::Finish(Err(m@)),
        }
    }
}

pub open spec fn version_args() -> Seq<Seq<char>> {
    seq!["--version"@]
}

pub open spec fn auth_status_args() -> Seq<Seq<char>> {
    seq!["auth"@, "status"@, "-h"@, "github.com"@]
}

pub open spec fn auth_login_args() -> Seq<Seq<char>> {
    seq!["auth"@, "login"@, "--web"@, "-h"@, "github.com"@, "--scopes"@, "repo"@]
}

pub open spec fn repo_view_args(repo: Seq<char>) -> Seq<Seq<char>> {
    seq!["repo"@, "view"@, repo, "--json"@, "nameWithOwner"@]
}

pub open spec fn api_jq_args(endpoint: Seq<char>, jq: Seq<char>) -> Seq<Seq<char>> {
    seq!["api"@, endpoint, "--jq"@, jq]
}

pub open spec fn listing_jq() -> Seq<char> {
    ".[] | [.type, .path] | @tsv"@
}

/// The command that writes a file, with the blob hash of the version it
/// replaces when there is one.
pub open spec fn put_args(repo: Seq<char>, branch: Seq<char>, path: Seq<char>, contents: Seq<u8>, sha: Option<Seq<char>>) -> Seq<Seq<char>> {
    let base = seq![
        "api"@,
        "--method"@,
        "PUT"@,
        contents_endpoint(repo, path),
        "-f"@,
        field("message"@, "Update byi data at "@ + path),
        "-f"@,
        field("content"@, base64_encoding(contents)),
        "-f"@,
        field("branch"@, branch),
    ];
    match sha {
        Some(s) => base + seq!["-f"@, field("sha"@, trim(s))],
        None => base,
    }
}

/// The command that deletes a file, given its blob hash.
pub open spec fn delete_args(repo: Seq<char>, branch: Seq<char>, path: Seq<char>, sha: Seq<char>) -> Seq<Seq<char>> {
    seq![
        "api"@,
        "--method"@,
        "DELETE"@,
        contents_endpoint(repo, path),
        "-f"@,
        field("message"@, "Delete byi data at "@ + path),
        "-f"@,
        field("sha"@, trim(sha)),
        "-f"@,
        field("branch"@, branch),
    ]
}

/// The stage an operation starts in, and the command it runs first.
pub open spec fn first_step(request: GhRequest) -> (GhStage, Seq<Seq<char>>) {
    match request {
        GhRequest::EnsureInstalled => (GhStage::Version, version_args()),
        GhRequest::EnsureAuthenticated => (GhStage::Version, version_args()),
        GhRequest::EnsureRepoAccess { .. } => (GhStage::Version, version_args()),
        GhRequest::GetFile { remote, path } => (GhStage::Fetch, api_jq_args(ref_endpoint(remote.repo@, remote.branch@, path@), ".content"@)),
        GhRequest::GetFileBytes { remote, path } => (GhStage::Fetch, api_jq_args(ref_endpoint(remote.repo@, remote.branch@, path@), ".content"@)),
        GhRequest::PutFileBytes { remote, path, .. } => (GhStage::PutSha, api_jq_args(ref_endpoint(remote.repo@, remote.branch@, path@), ".sha"@)),
        GhRequest::DeleteFile { remote, path } => (GhStage::DeleteSha, api_jq_args(ref_endpoint(remote.repo@, remote.branch@, path@), ".sha"@)),
        GhRequest::ListDirectory { remote, path } => (GhStage::List, api_jq_args(listing_endpoint(remote.repo@, remote.branch@, path@), listing_jq())),
    }
}

/// Once `gh` is logged in: done, or on to the repository check.
pub open spec fn after_login(request: GhRequest) -> (GhStage, NextView) {
    match request {
        GhRequest::EnsureRepoAccess { repo } => (GhStage::RepoView, NextView::Run(repo_view_args(repo@))),
        _ => (GhStage::AuthLogin, NextView::Finish(Ok(ReplyView::Done))),
    }
}

/// The file's decoded contents, as bytes or, for `GetFile`, as text.
pub open spec fn fetched(request: GhRequest, output: Seq<char>) -> NextView {
    match base64_decoding(compact(output)) {
        Err(m) => NextView::Finish(Err("解码 GitHub 文件内容失败: "@ + m)),
        Ok(bytes) => match request {
            GhRequest::GetFile { .. } => if valid_utf8(bytes) {
                NextView::Finish(Ok(ReplyView::Text(decode_utf8(bytes))))
            } else {
                NextView::Finish(Err("GitHub 文件不是有效 UTF-8: "@ + utf8_error_text(bytes)))
            },
            _ => NextView::Finish(Ok(ReplyView::Bytes(bytes))),
        },
    }
}

/// The next stage and step of an operation, once the command of `stage`
/// gave `outcome`.
pub open spec fn next_step(request: GhRequest, stage: GhStage, outcome: Result<Seq<char>, Seq<char>>) -> (GhStage, NextView) {
    match stage {
        GhStage::Version => match outcome {
            Err(_) => (stage, NextView::Finish(Err(install_help_text()))),
            Ok(_) => match request {
                GhRequest::EnsureInstalled => (stage, NextView::Finish(Ok(ReplyView::Done))),
                _ => (GhStage::AuthStatus, NextView::Run(auth_status_args())),
            },
        },
        GhStage::AuthStatus => match outcome {
            Err(_) => (GhStage::AuthLogin, NextView::Run(auth_login_args())),
            Ok(_) => after_login(request),
        },
        GhStage::AuthLogin => match outcome {
            Err(e) => (stage, NextView::Finish(Err(e))),
            Ok(_) => after_login(request),
        },
        GhStage::RepoView => match outcome {
            Err(e) => (stage, NextView::Finish(Err(e))),
            Ok(_) => (stage, NextView::Finish(Ok(ReplyView::Done))),
        },
        GhStage::Fetch => match outcome {
            Err(e) => (stage, NextView::Finish(Err(e))),
            Ok(out) => (stage, fetched(request, out)),
        },
        GhStage::PutSha => match request {
            GhRequest::PutFileBytes { remote, path, contents } => (
                GhStage::Put,
                NextView::Run(put_args(remote.repo@, remote.branch@, path@, contents@, match outcome {
                    Ok(s) => Some(s),
                    Err(_) => None,
                })),
            ),
            _ => (stage, NextView::Finish(Ok(ReplyView::Done))),
        },
        GhStage::Put => match outcome {
            Err(e) => (stage, NextView::Finish(Err(e))),
            Ok(_) => (stage, NextView::Finish(Ok(ReplyView::Done))),
        },
        GhStage::DeleteSha => match outcome {
            Err(e) => (stage, NextView::Finish(Err(e))),
            Ok(sha) => match request {
                GhRequest::DeleteFile { remote, path } => (GhStage::Delete, NextView::Run(delete_args(remote.repo@, remote.branch@, path@, sha))),
                _ => (stage, NextView::Finish(Ok(ReplyView::Done))),
            },
        },
        GhStage::Delete => match outcome {
            Err(e) => (stage, NextView::Finish(Err(e))),
            Ok(_) => (stage, NextView::Finish(Ok(ReplyView::Done))),
        },
        GhStage::List => match outcome {
            Err(e) => (stage, NextView::Finish(Err(e))),
            Ok(out) => (stage, NextView::Finish(Ok(ReplyView::Entries(listing_entries(text_lines(out)))))),
        },
    }
}

pub open spec fn outcome_view(o: CommandOutcome) -> Result<Seq<char>, Seq<char>> {
    match o {
        Ok(s) => Ok(s@),
        Err(e) => Err(e@),
    }
}

/// `request` can be carried out: the contents of a write are small enough
/// to encode.
pub open spec fn request_ok(request: GhRequest) -> bool {
    match request {
        GhRequest::PutFileBytes { contents, .. } => contents@.len() <= usize::MAX / 2,
        _ => true,
    }
}

pub open spec fn args_view(v: Vec<String>) -> Seq<Seq<char>> {
    v@.map_values(|x: String| x@)
}

fn version_cmd() -> (r: Vec<String>)
    ensures
        args_view(r) == version_args(),
{
    let mut v: Vec<String> = Vec::new();
    v.push(String::from_str("--version"));
    assert(args_view(v) =~= version_args());
    v
}

fn auth_status_cmd() -> (r: Vec<String>)
    ensures
        args_view(r) == auth_status_args(),
{
    let mut v: Vec<String> = Vec::new();
    v.push(String::from_str("auth"));
    v.push(String::from_str("status"));
    v.push(String::from_str("-h"));
    v.push(String::from_str("github.com"));
    assert(args_view(v) =~= auth_status_args());
    v
}

fn auth_login_cmd() -> (r: Vec<String>)
    ensures
        args_view(r) == auth_login_args(),
{
    let mut v: Vec<String> = Vec::new();
    v.push(String::from_str("auth"));
    v.push(String::from_str("login"));
    v.push(String::from_str("--web"));
    v.push(String::from_str("-h"));
    v.push(String::from_str("github.com"));
    v.push(String::from_str("--scopes"));
    v.push(String::from_str("repo"));
    assert(args_view(v) =~= auth_login_args());
    v
}

fn repo_view_cmd(repo: &String) -> (r: Vec<String>)
    ensures
        args_view(r) == repo_view_args(repo@),
{
    let mut v: Vec<String> = Vec::new();
    v.push(String::from_str("repo"));
    v.push(String::from_str("view"));
    v.push(repo.clone());
    v.push(String::from_str("--json"));
    v.push(String::from_str("nameWithOwner"));
    assert(args_view(v) =~= repo_view_args(repo@));
    v
}

fn api_jq_cmd(endpoint: String, jq: &str) -> (r: Vec<String>)
    ensures
        args_view(r) == api_jq_args(endpoint@, jq@),
{
    let mut v: Vec<String> = Vec::new();
    v.push(String::from_str("api"));
    v.push(endpoint);
    v.push(String::from_str("--jq"));
    v.push(String::from_str(jq));
    assert(args_view(v) =~= api_jq_args(v@[1]@, jq@));
    v
}

fn contents_endpoint_text(repo: &str, path: &str) -> (r: String)
    ensures
        r@ == contents_endpoint(repo@, path@),
{
    let mut s = concat("repos/", repo);
    s.append("/contents/");
    s.append(path);
    s
}

fn ref_endpoint_text(repo: &str, branch: &str, path: &str) -> (r: String)
    ensures
        r@ == ref_endpoint(repo@, branch@, path@),
{
    let mut s = contents_endpoint_text(repo, path);
    s.append("?ref=");
    s.append(branch);
    s
}

fn listing_endpoint_text(repo: &str, branch: &str, path: &str) -> (r: String)
    ensures
        r@ == listing_endpoint(repo@, branch@, path@),
{
    let t = string_of(&trim_char_chars(&chars_of(path), '/'));
    if chars_of(t.as_str()).len() == 0 {
        let mut s = concat("repos/", repo);
        s.append("/contents?ref=");
        s.append(branch);
        s
    } else {
        ref_endpoint_text(repo, branch, t.as_str())
    }
}

fn put_cmd(remote: &GitHubRemote, path: &String, contents: &Vec<u8>, sha: Option<String>) -> (r: Vec<String>)
    requires
        contents@.len() <= usize::MAX / 2,
    ensures
        args_view(r) == put_args(remote.repo@, remote.branch@, path@, contents@, match sha {
            Some(s) => Some(s@),
            None => None,
        }),
{
    let encoded = base64_encode(contents.as_slice());
    let message = concat("Update byi data at ", path.as_str());
    let mut v: Vec<String> = Vec::new();
    v.push(String::from_str("api"));
    v.push(String::from_str("--method"));
    v.push(String::from_str("PUT"));
    v.push(contents_endpoint_text(remote.repo.as_str(), path.as_str()));
    v.push(String::from_str("-f"));
    v.push(field_arg("message", message.as_str()));
    v.push(String::from_str("-f"));
    v.push(field_arg("content", encoded.as_str()));
    v.push(String::from_str("-f"));
    v.push(field_arg("branch", remote.branch.as_str()));
    let ghost base = args_view(v);
    match sha {
        Some(s) => {
            let t = trim_text(s.as_str());
            v.push(String::from_str("-f"));
            v.push(field_arg("sha", t.as_str()));
            assert(args_view(v) =~= base + seq!["-f"@, field("sha"@, trim(s@))]);
        },
        None => {},
    }
    assert(base =~= seq![
        "api"@,
        "--method"@,
        "PUT"@,
        contents_endpoint(remote.repo@, path@),
        "-f"@,
        field("message"@, "Update byi data at "@ + path@),
        "-f"@,
        field("content"@, base64_encoding(contents@)),
        "-f"@,
        field("branch"@, remote.branch@),
    ]);
    v
}

fn delete_cmd(remote: &GitHubRemote, path: &String, sha: &String) -> (r: Vec<String>)
    ensures
        args_view(r) == delete_args(remote.repo@, remote.branch@, path@, sha@),
{
    let message = concat("Delete byi data at ", path.as_str());
    let t = trim_text(sha.as_str());
    let mut v: Vec<String> = Vec::new();
    v.push(String::from_str("api"));
    v.push(String::from_str("--method"));
    v.push(String::from_str("DELETE"));
    v.push(contents_endpoint_text(remote.repo.as_str(), path.as_str()));
    v.push(String::from_str("-f"));
    v.push(field_arg("message", message.as_str()));
    v.push(String::from_str("-f"));
    v.push(field_arg("sha", t.as_str()));
    v.push(String::from_str("-f"));
    v.push(field_arg("branch", remote.branch.as_str()));
    assert(args_view(v) =~= delete_args(remote.repo@, remote.branch@, path@, sha@));
    v
}

fn done() -> (r: GhNext)
    ensures
        r@ == NextView::Finish(Ok(ReplyView::Done)),
{
    GhNext::Finish(Ok(GhReply::Done))
}

impl GhSession {
    /// Starts an operation: its first stage and the first command to run.
    pub fn start(request: GhRequest) -> (r: (GhSession, Vec<String>))
        ensures
            r.0.request == request,
            (r.0.stage, args_view(r.1)) == first_step(request),
    {
        let (stage, args) = match &request {
            GhRequest::EnsureInstalled => (GhStage::Version, version_cmd()),
            GhRequest::EnsureAuthenticated => (GhStage::Version, version_cmd()),
            GhRequest::EnsureRepoAccess { .. } => (GhStage::Version, version_cmd()),
            GhRequest::GetFile { remote, path } => (GhStage::Fetch, api_jq_cmd(ref_endpoint_text(remote.repo.as_str(), remote.branch.as_str(), path.as_str()), ".content")),
            GhRequest::GetFileBytes { remote, path } => (GhStage::Fetch, api_jq_cmd(ref_endpoint_text(remote.repo.as_str(), remote.branch.as_str(), path.as_str()), ".content")),
            GhRequest::PutFileBytes { remote, path, .. } => (GhStage::PutSha, api_jq_cmd(ref_endpoint_text(remote.repo.as_str(), remote.branch.as_str(), path.as_str()), ".sha")),
            GhRequest::DeleteFile { remote, path } => (GhStage::DeleteSha, api_jq_cmd(ref_endpoint_text(remote.repo.as_str(), remote.branch.as_str(), path.as_str()), ".sha")),
            GhRequest::ListDirectory { remote, path } => (GhStage::List, api_jq_cmd(listing_endpoint_text(remote.repo.as_str(), remote.branch.as_str(), path.as_str()), ".[] | [.type, .path] | @tsv")),
        };
        (GhSession { request, stage }, args)
    }

    /// Moves the operation on once the command of its stage gave `outcome`.
    pub fn resume(self, outcome: CommandOutcome) -> (r: (GhSession, GhNext))
        requires
            request_ok(self.request),
        ensures
            r.0.request == self.request,
            (r.0.stage, r.1@) == next_step(self.request, self.stage, outcome_view(outcome)),
    {
        let GhSession { request, stage } = self;
        let (stage2, next) = match stage {
            GhStage::Version => match outcome {
                Err(_) => (stage, GhNext::Finish(Err(String::from_str(GitHubCli::install_help())))),
                Ok(_) => match &request {
                    GhRequest::EnsureInstalled => (stage, done()),
                    _ => (GhStage::AuthStatus, GhNext::Run(auth_status_cmd())),
                },
            },
            GhStage::AuthStatus | GhStage::AuthLogin => {
                let failed = match &outcome {
                    Err(_) => true,
                    Ok(_) => false,
                };
                if failed && stage == GhStage::AuthStatus {
                    (GhStage::AuthLogin, GhNext::Run(auth_login_cmd()))
                } else if failed {
                    match outcome {
                        Err(e) => (stage, GhNext::Finish(Err(e))),
                        Ok(_) => (stage, done()),
                    }
                } else {
                    match &request {
                        GhRequest::EnsureRepoAccess { repo } => (GhStage::RepoView, GhNext::Run(repo_view_cmd(repo))),
                        _ => (GhStage::AuthLogin, done()),
                    }
                }
            },
            GhStage::RepoView | GhStage::Put | GhStage::Delete => match outcome {
                Err(e) => (stage, GhNext::Finish(Err(e))),
                Ok(_) => (stage, done()),
            },
            GhStage::Fetch => match outcome {
                Err(e) => (stage, GhNext::Finish(Err(e))),
                Ok(out) => {
                    let c = compact_text(out.as_str());
                    let next = match base64_decode(c.as_str()) {
                        Err(m) => GhNext::Finish(Err(concat("解码 GitHub 文件内容失败: ", m.as_str()))),
                        Ok(bytes) => match &request {
                            GhRequest::GetFile { .. } => match string_from_utf8(bytes) {
                                Ok(t) => GhNext::Finish(Ok(GhReply::Text(t))),
                                Err(m) => GhNext::Finish(Err(concat("GitHub 文件不是有效 UTF-8: ", m.as_str()))),
                            },
                            _ => GhNext::Finish(Ok(GhReply::Bytes(bytes))),
                        },
                    };
                    (stage, next)
                },
            },
            GhStage::PutSha => match &request {
                GhRequest::PutFileBytes { remote, path, contents } => {
                    let sha = match outcome {
                        Ok(s) => Some(s),
                        Err(_) => None,
                    };
                    (GhStage::Put, GhNext::Run(put_cmd(remote, path, contents, sha)))
                },
                _ => (stage, done()),
            },
            GhStage::DeleteSha => match outcome {
                Err(e) => (stage, GhNext::Finish(Err(e))),
                Ok(sha) => match &request {
                    GhRequest::DeleteFile { remote, path } => (GhStage::Delete, GhNext::Run(delete_cmd(remote, path, &sha))),
                    _ => (stage, done()),
                },
            },
            GhStage::List => match outcome {
                Err(e) => (stage, GhNext::Finish(Err(e))),
                Ok(out) => (stage, GhNext::Finish(Ok(GhReply::Entries(parse_listing(out.as_str()))))),
            },
        };
        (GhSession { request, stage: stage2 }, next)
    }
}

impl GitHubCli {
    /// Checks that `gh` is installed.
    pub fn ensure_installed() -> (r: (GhSession, Vec<String>))
        ensures
            r.0.request == GhRequest::EnsureInstalled,
            (r.0.stage, args_view(r.1)) == first_step(GhRequest::EnsureInstalled),
    {
        GhSession::start(GhRequest::EnsureInstalled)
    }

    /// Checks that `gh` is installed and logged in, logging in when it is not.
    pub fn ensure_authenticated() -> (r: (GhSession, Vec<String>))
        ensures
            r.0.request == GhRequest::EnsureAuthenticated,
            (r.0.stage, args_view(r.1)) == first_step(GhRequest::EnsureAuthenticated),
    {
        GhSession::start(GhRequest::EnsureAuthenticated)
    }

    /// Checks that `gh` can see the repository.
    pub fn ensure_repo_access(repo: &str) -> (r: (GhSession, Vec<String>))
        ensures
            r.0.request == (GhRequest::EnsureRepoAccess { repo: r.0.request->repo }),
            r.0.request->repo@ == repo@,
            (r.0.stage, args_view(r.1)) == first_step(r.0.request),
    {
        GhSession::start(GhRequest::EnsureRepoAccess { repo: String::from_str(repo) })
    }

    /// Reads a file of the repository as text.
    pub fn get_file(remote: &GitHubRemote, remote_path: &str) -> (r: (GhSession, Vec<String>))
        ensures
            r.0.request is GetFile,
            r.0.request->GetFile_remote == *remote,
            r.0.request->GetFile_path@ == remote_path@,
            (r.0.stage, args_view(r.1)) == first_step(r.0.request),
    {
        GhSession::start(GhRequest::GetFile { remote: remote.clone(), path: String::from_str(remote_path) })
    }

    /// Reads a file of the repository.
    pub fn get_file_bytes(remote: &GitHubRemote, remote_path: &str) -> (r: (GhSession, Vec<String>))
        ensures
            r.0.request is GetFileBytes,
            r.0.request->GetFileBytes_remote == *remote,
            r.0.request->GetFileBytes_path@ == remote_path@,
            (r.0.stage, args_view(r.1)) == first_step(r.0.request),
    {
        GhSession::start(GhRequest::GetFileBytes { remote: remote.clone(), path: String::from_str(remote_path) })
    }

    /// Writes a file of the repository.
    pub fn put_file_bytes(remote: &GitHubRemote, remote_path: &str, contents: &[u8]) -> (r: (GhSession, Vec<String>))
        ensures
            r.0.request is PutFileBytes,
            r.0.request->PutFileBytes_remote == *remote,
            r.0.request->PutFileBytes_path@ == remote_path@,
            r.0.request->contents@ == contents@,
            (r.0.stage, args_view(r.1)) == first_step(r.0.request),
    {
        let bytes = slice_to_vec(contents);
        GhSession::start(GhRequest::PutFileBytes { remote: remote.clone(), path: String::from_str(remote_path), contents: bytes })
    }

    /// Writes a text file of the repository.
    pub fn put_file(remote: &GitHubRemote, remote_path: &str, contents: &str) -> (r: (GhSession, Vec<String>))
        ensures
            r.0.request is PutFileBytes,
            r.0.request->PutFileBytes_remote == *remote,
            r.0.request->PutFileBytes_path@ == remote_path@,
            r.0.request->contents@ == vstd::utf8::encode_utf8(contents@),
            (r.0.stage, args_view(r.1)) == first_step(r.0.request),
    {
        let bytes = contents.as_bytes();
        Self::put_file_bytes(remote, remote_path, bytes)
    }

    /// Deletes a file of the repository.
    pub fn delete_file(remote: &GitHubRemote, remote_path: &str) -> (r: (GhSession, Vec<String>))
        ensures
            r.0.request is DeleteFile,
            r.0.request->DeleteFile_remote == *remote,
            r.0.request->DeleteFile_path@ == remote_path@,
            (r.0.stage, args_view(r.1)) == first_step(r.0.request),
    {
        GhSession::start(GhRequest::DeleteFile { remote: remote.clone(), path: String::from_str(remote_path) })
    }

    /// Lists a directory of the repository.
    pub fn list_directory(remote: &GitHubRemote, remote_path: &str) -> (r: (GhSession, Vec<String>))
        ensures
            r.0.request is ListDirectory,
            r.0.request->ListDirectory_remote == *remote,
            r.0.request->ListDirectory_path@ == remote_path@,
            (r.0.stage, args_view(r.1)) == first_step(r.0.request),
    {
        GhSession::start(GhRequest::ListDirectory { remote: remote.clone(), path: String::from_str(remote_path) })
    }
}

fn slice_to_vec(s: &[u8]) -> (v: Vec<u8>)
    ensures
        v@ == s@,
{
    let mut v: Vec<u8> = Vec::new();
    let mut i: usize = 0;
    while i < s.len()
        invariant
            i <= s@.len(),
            v@ == s@.take(i as int),
        decreases s@.len() - i,
    {
        v.push(s[i]);
        i = i + 1;
        assert(v@ =~= s@.take(i as int));
    }
    assert(s@.take(s@.len() as int) =~= s@);
    v
}

} // verus!
