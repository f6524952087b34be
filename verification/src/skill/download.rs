//! Copying a skill out of a GitHub repository: what to do with each entry of
//! a directory listing. The listing and the downloads go through the GitHub
//! CLI; which entries are descended into, fetched or refused is decided here.
use vstd::prelude::*;
use crate::text::concat;
use crate::github::{GitHubDirectoryEntry, entry_pairs};
use crate::skill::add::{path_file_name, file_name_of};

verus! {

/// What to do with one entry of a repository directory.
#[derive(Debug)]
pub enum DownloadStep {
    /// Create the local directory `local_name` and copy the remote directory into it.
    Descend { remote_path: String, local_name: String },
    /// Fetch the remote file and write it as `local_name`.
    Fetch { remote_path: String, local_name: String },
    /// Stop with this error.
    Fail(String),
}

pub enum StepView {
    Descend(Seq<char>, Seq<char>),
    Fetch(Seq<char>, Seq<char>),
    Fail(Seq<char>),
}

impl View for DownloadStep {
    type V = StepView;

    open spec fn view(&self) -> StepView {
        match self {
            DownloadStep::Descend { remote_path, local_name } => StepView::Descend(remote_path@, local_name@),
            DownloadStep::Fetch { remote_path, local_name } => StepView::Fetch(remote_path@, local_name@),
            DownloadStep::Fail(m) => StepView::Fail(m@),
        }
    }
}

pub open spec fn step_views(v: Seq<DownloadStep>) -> Seq<StepView> {
    v.map_values(|s: DownloadStep| s@)
}

/// The step for an entry of type `kind` at `path`: a directory is copied
/// under its last path component (`dir` when it has none), a file is
/// fetched under its last component (refused when it has none), anything
/// else is skipped.
pub open spec fn step_for(kind: Seq<char>, path: Seq<char>) -> Option<StepView> {
    if kind == "dir"@ {
        Some(StepView::Descend(path, match path_file_name(path) { Some(n) => n, None => "dir"@ }))
    } else if kind == "file"@ {
        match path_file_name(path) {
            Some(n) => Some(StepView::Fetch(path, n)),
            None => Some(StepView::Fail("无效 GitHub 文件路径: "@ + path)),
        }
    } else {
        None
    }
}

/// The steps for the entries of a listing, in order, up to and including
/// the first refusal.
pub open spec fn download_steps(entries: Seq<(Seq<char>, Seq<char>)>) -> Seq<StepView>
    decreases entries.len(),
{
    if entries.len() == 0 {
        Seq::empty()
    } else {
        match step_for(entries[0].0, entries[0].1) {
            None => download_steps(entries.drop_first()),
            Some(StepView::Fail(m)) => seq![StepView::Fail(m)],
            Some(s) => seq![s] + download_steps(entries.drop_first()),
        }
    }
}

/// The error for an empty or missing repository directory.
pub open spec fn empty_listing_message(remote_dir: Seq<char>) -> Seq<char> {
    "GitHub 目录不存在或为空: "@ + remote_dir
}

/// Plans the copy of the repository directory `remote_dir` from its listing.
pub fn plan_listing(remote_dir: &str, entries: &Vec<GitHubDirectoryEntry>) -> (r: Result<Vec<DownloadStep>, String>)
    ensures
        r is Err <==> entries@.len() == 0,
        r matches Err(e) ==> e@ == empty_listing_message(remote_dir@),
        r matches Ok(steps) ==> step_views(steps@) == download_steps(entry_pairs(entries@)),
{
    if entries.len() == 0 {
        return Err(concat("GitHub 目录不存在或为空: ", remote_dir));
    }
    let ghost all = entry_pairs(entries@);
    let mut out: Vec<DownloadStep> = Vec::new();
    let mut i: usize = 0;
    assert(all.skip(0) =~= all);
    while i < entries.len()
        invariant
            i <= entries@.len(),
            all == entry_pairs(entries@),
            step_views(out@) + download_steps(all.skip(i as int)) == download_steps(all),
        decreases entries@.len() - i,
    {
        let e = &entries[i];
        let ghost rest = all.skip(i as int);
        assert(rest[0] == (e.kind@, e.path@));
        assert(rest.drop_first() =~= all.skip(i + 1));
        let is_dir = e.kind == String::from_str("dir");
        let is_file = e.kind == String::from_str("file");
        proof {
            reveal_strlit("dir");
            reveal_strlit("file");
        }
        if is_dir {
            let name = match file_name_of(e.path.as_str()) {
                Some(n) => n,
                None => String::from_str("dir"),
            };
            let step = DownloadStep::Descend { remote_path: e.path.clone(), local_name: name };
            let ghost before = out@;
            out.push(step);
            assert(step_views(out@) =~= step_views(before).push(step@));
        } else if is_file {
            match file_name_of(e.path.as_str()) {
                Some(n) => {
                    let step = DownloadStep::Fetch { remote_path: e.path.clone(), local_name: n };
                    let ghost before = out@;
                    out.push(step);
                    assert(step_views(out@) =~= step_views(before).push(step@));
                },
                None => {
                    let step = DownloadStep::Fail(concat("无效 GitHub 文件路径: ", e.path.as_str()));
                    let ghost before = out@;
                    out.push(step);
                    assert(step_views(out@) =~= step_views(before).push(step@));
                    assert(step_views(out@) + Seq::<StepView>::empty() =~= step_views(out@));
                    return Ok(out);
                },
            }
        }
        i = i + 1;
    }
    assert(all.skip(entries@.len() as int) =~= Seq::<(Seq<char>, Seq<char>)>::empty());
    assert(step_views(out@) + Seq::<StepView>::empty() =~= step_views(out@));
    Ok(out)
}

} // verus!
