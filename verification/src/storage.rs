//! Remote configuration and the path arithmetic every remote shares.
use vstd::prelude::*;
use crate::text::{chars_of, string_of, trim_char, split_on, split_text, concat};
use crate::webdav::{WebDavRemoteConfig, preset_name, format_webdav_preset};
use crate::github::GitHubRemote;
use crate::skill::names::trim_char_chars;

verus! {

/// A GitHub repository used as the sync remote.
#[derive(Clone, Debug)]
pub struct GitHubRemoteConfig {
    pub repo: String,
    pub branch: String,
    pub base_path: String,
    pub auth: String,
}

/// The configured sync remote.
#[derive(Clone, Debug)]
pub enum RemoteConfig {
    GitHub(GitHubRemoteConfig),
    WebDav(WebDavRemoteConfig),
}

/// `base_path` and `file_name`, both stripped of `/` at either end, joined by
/// one `/`; an empty side leaves the other alone.
pub open spec fn joined_remote_path(base_path: Seq<char>, file_name: Seq<char>) -> Seq<char> {
    let base = trim_char(base_path, '/');
    let file = trim_char(file_name, '/');
    if base.len() == 0 {
        file
    } else if file.len() == 0 {
        base
    } else {
        base + seq!['/'] + file
    }
}

/// The path of `file_name` under `base_path` on a remote.
pub fn join_remote_path(base_path: &str, file_name: &str) -> (r: String)
    ensures
        r@ == joined_remote_path(base_path@, file_name@),
{
    let b = trim_char_chars(&chars_of(base_path), '/');
    let f = trim_char_chars(&chars_of(file_name), '/');
    if b.len() == 0 {
        string_of(&f)
    } else if f.len() == 0 {
        string_of(&b)
    } else {
        let mut v = b;
        v.push('/');
        let mut i: usize = 0;
        let ghost head = v@;
        while i < f.len()
            invariant
                i <= f@.len(),
                v@ == head + f@.take(i as int),
            decreases f@.len() - i,
        {
            v.push(f[i]);
            i = i + 1;
            assert(v@ =~= head + f@.take(i as int));
        }
        assert(f@.take(f@.len() as int) =~= f@);
        string_of(&v)
    }
}

/// Storage that keeps the synced files in a GitHub repository through the GitHub CLI.
pub struct GitHubStorage {
    pub config: GitHubRemoteConfig,
}

impl GitHubStorage {
    pub fn new(config: GitHubRemoteConfig) -> (s: Self)
        ensures
            s.config == config,
    {
        GitHubStorage { config }
    }

    /// The repository, branch and base path the GitHub CLI works on.
    pub fn github_remote(&self) -> (r: GitHubRemote)
        ensures
            r.repo@ == self.config.repo@,
            r.branch@ == self.config.branch@,
            r.base_path@ == self.config.base_path@,
    {
        GitHubRemote {
            repo: self.config.repo.clone(),
            branch: self.config.branch.clone(),
            base_path: self.config.base_path.clone(),
        }
    }

    /// Where `file_name` lives in the repository.
    pub fn remote_path(&self, file_name: &str) -> (r: String)
        ensures
            r@ == joined_remote_path(self.config.base_path@, file_name@),
    {
        join_remote_path(self.config.base_path.as_str(), file_name)
    }
}

/// Whether a piece of a path names a directory entry (not empty, `.` or `..`).
pub open spec fn is_normal_segment(p: Seq<char>) -> bool {
    p.len() > 0 && p != seq!['.'] && p != seq!['.', '.']
}

/// The named components of a relative path, in order.
pub open spec fn normal_segments(path: Seq<char>) -> Seq<Seq<char>> {
    split_on(path, '/').filter(|p: Seq<char>| is_normal_segment(p))
}

/// The segments joined with `/`.
pub open spec fn join_segments(parts: Seq<Seq<char>>) -> Seq<char>
    decreases parts.len(),
{
    if parts.len() == 0 {
        Seq::empty()
    } else if parts.len() == 1 {
        parts[0]
    } else {
        join_segments(parts.drop_last()) + seq!['/'] + parts.last()
    }
}

/// The collections a WebDAV server must hold before `file_name` can be
/// written: each proper prefix of its named components, shortest first.
pub open spec fn collection_prefixes_of(file_name: Seq<char>) -> Seq<Seq<char>> {
    let parts = normal_segments(file_name);
    Seq::new(
        if parts.len() >= 1 { (parts.len() - 1) as nat } else { 0 },
        |k: int| join_segments(parts.take(k + 1)),
    )
}

fn is_normal_segment_text(p: &String) -> (b: bool)
    ensures
        b == is_normal_segment(p@),
{
    let v = chars_of(p.as_str());
    if v.len() == 0 {
        false
    } else if v.len() == 1 && v[0] == '.' {
        assert(v@ =~= seq!['.']);
        false
    } else if v.len() == 2 && v[0] == '.' && v[1] == '.' {
        assert(v@ =~= seq!['.', '.']);
        false
    } else {
        assert(v@.len() == 1 ==> v@ != seq!['.']);
        assert(v@.len() == 2 ==> v@ != seq!['.', '.']);
        true
    }
}

/// The collections to create, one after another, before writing `file_name`
/// to a WebDAV server.
pub fn collection_prefixes(file_name: &str) -> (r: Vec<String>)
    ensures
        r@.map_values(|p: String| p@) == collection_prefixes_of(file_name@),
{
    let pieces = split_text(file_name, '/');
    let ghost all = pieces@.map_values(|p: String| p@);
    let mut parts: Vec<String> = Vec::new();
    let mut i: usize = 0;
    while i < pieces.len()
        invariant
            i <= pieces@.len(),
            all == pieces@.map_values(|p: String| p@),
            parts@.map_values(|p: String| p@) == all.take(i as int).filter(|p: Seq<char>| is_normal_segment(p)),
        decreases pieces@.len() - i,
    {
        let ghost before = parts@.map_values(|p: String| p@);
        assert(all.take(i + 1) =~= all.take(i as int).push(all[i as int]));
        proof {
            all.take(i as int).lemma_filter_push(all[i as int], |p: Seq<char>| is_normal_segment(p));
        }
        if is_normal_segment_text(&pieces[i]) {
            parts.push(pieces[i].clone());
            assert(parts@.map_values(|p: String| p@) =~= before.push(all[i as int]));
        }
        i = i + 1;
    }
    assert(all.take(pieces@.len() as int) =~= all);
    let ghost segs = parts@.map_values(|p: String| p@);
    let mut out: Vec<String> = Vec::new();
    if parts.len() < 2 {
        assert(out@.map_values(|p: String| p@) =~= collection_prefixes_of(file_name@));
        return out;
    }
    let mut prefix = parts[0].clone();
    assert(segs.take(1).drop_last() =~= Seq::<Seq<char>>::empty());
    assert(prefix@ == join_segments(segs.take(1)));
    out.push(prefix.clone());
    let mut k: usize = 1;
    while k < parts.len() - 1
        invariant
            1 <= k < parts@.len(),
            segs == parts@.map_values(|p: String| p@),
            prefix@ == join_segments(segs.take(k as int)),
            out@.map_values(|p: String| p@) =~= Seq::new(k as nat, |j: int| join_segments(segs.take(j + 1))),
        decreases parts@.len() - k,
    {
        let ghost before = out@.map_values(|p: String| p@);
        let a = concat(prefix.as_str(), "/");
        prefix = concat(a.as_str(), parts[k].as_str());
        assert(prefix@ == join_segments(segs.take(k + 1))) by {
            reveal_strlit("/");
            assert(segs.take(k + 1).drop_last() =~= segs.take(k as int));
            assert(segs.take(k + 1).last() == segs[k as int]);
        }
        out.push(prefix.clone());
        assert(out@.map_values(|p: String| p@) =~= before.push(prefix@));
        k = k + 1;
        assert(before.push(prefix@) =~= Seq::new(k as nat, |j: int| join_segments(segs.take(j + 1))));
    }
    out
}

/// The lines `byi sync status` prints for a remote.
pub open spec fn remote_status_text(remote: RemoteConfig) -> Seq<char> {
    match remote {
        RemoteConfig::GitHub(c) => "GitHub remote: "@ + c.repo@ + "\nBranch: "@ + c.branch@
            + "\nBase path: "@ + c.base_path@ + "\nAuth: GitHub CLI"@,
        RemoteConfig::WebDav(c) => "WebDAV remote: "@ + c.endpoint_url@ + "\nPreset: "@
            + preset_name(c.preset) + "\nBase path: "@ + c.base_path@ + "\nUsername: "@
            + match c.username {
                Some(u) => u@,
                None => "(not set)"@,
            },
    }
}

/// Describes a remote in the form `byi sync status` prints.
pub fn format_remote_status(remote: &RemoteConfig) -> (s: String)
    ensures
        s@ == remote_status_text(*remote),
{
    match remote {
        RemoteConfig::GitHub(c) => {
            let mut s = String::from_str("GitHub remote: ");
            s.append(c.repo.as_str());
            s.append("\nBranch: ");
            s.append(c.branch.as_str());
            s.append("\nBase path: ");
            s.append(c.base_path.as_str());
            s.append("\nAuth: GitHub CLI");
            s
        },
        RemoteConfig::WebDav(c) => {
            let mut s = String::from_str("WebDAV remote: ");
            s.append(c.endpoint_url.as_str());
            s.append("\nPreset: ");
            s.append(format_webdav_preset(&c.preset));
            s.append("\nBase path: ");
            s.append(c.base_path.as_str());
            s.append("\nUsername: ");
            match &c.username {
                Some(u) => s.append(u.as_str()),
                None => s.append("(not set)"),
            }
            s
        },
    }
}

} // verus!
