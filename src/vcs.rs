//! Detection of the innermost repository and dispatch to its parser.
use vstd::prelude::*;
use crate::git::{self, git_status};
use crate::hg::{self, hg_status};
use crate::util::Status;

verus! {

/// Supported version control systems.
#[derive(Clone, Copy, PartialEq, Eq, Debug)]
pub enum VCS {
    Git,
    Hg,
    NoRepo,
}

/// The kind of repository that a directory is, from whether it holds the Git
/// marker and the Mercurial marker; Git wins when both are there.
pub open spec fn kind_of(git_marker: bool, hg_marker: bool) -> VCS {
    if git_marker {
        VCS::Git
    } else if hg_marker {
        VCS::Hg
    } else {
        VCS::NoRepo
    }
}

/// Whether a directory holds a marker of either kind.
pub open spec fn is_repo(probe: (bool, bool)) -> bool {
    probe.0 || probe.1
}

/// What was read from a repository to compute its status.
pub struct RepoData {
    /// Output of the status command.
    pub output: String,
    /// For Git: whether each of `git::operation_markers()` is present.
    pub operation_markers: Vec<bool>,
    /// For Mercurial: contents of `.hg/branch`, if it could be read.
    pub branch_file: Option<String>,
    /// For Mercurial: contents of `.hg/bookmarks.current`, if it could be read.
    pub bookmark_file: Option<String>,
}

/// The text of a file that may be missing.
pub open spec fn owned_text(f: Option<String>) -> Option<Seq<char>> {
    match f {
        Some(t) => Some(t@),
        None => None,
    }
}

fn as_text(f: &Option<String>) -> (r: Option<&str>)
    ensures
        hg::file_text(r) == owned_text(*f),
{
    match f {
        Some(t) => Some(t.as_str()),
        None => None,
    }
}

/// Determine the innermost VCS.
///
/// `probes[i]` tells whether the `i`-th directory, counting outward from the
/// working directory (`0`), holds the Git marker and the Mercurial marker. The
/// result is the kind and index of the first directory that holds either, or
/// `VCS::NoRepo` when none does; nested repositories thus resolve to the innermost.
pub fn get_vcs(probes: &Vec<(bool, bool)>) -> (r: (VCS, Option<usize>))
    ensures
        match r.1 {
            Some(i) => {
                &&& i < probes.len()
                &&& is_repo(probes[i as int])
                &&& forall|j: int| 0 <= j < i ==> !is_repo(#[trigger] probes[j])
                &&& r.0 == kind_of(probes[i as int].0, probes[i as int].1)
            },
            None => {
                &&& r.0 == VCS::NoRepo
                &&& forall|j: int| 0 <= j < probes.len() ==> !is_repo(#[trigger] probes[j])
            },
        },
{
    let mut i: usize = 0;
    while i < probes.len()
        invariant
            i <= probes.len(),
            forall|j: int| 0 <= j < i ==> !is_repo(#[trigger] probes[j]),
        decreases probes.len() - i,
    {
        let (git_marker, hg_marker) = probes[i];
        if git_marker {
            return (VCS::Git, Some(i));
        }
        if hg_marker {
            return (VCS::Hg, Some(i));
        }
        i += 1;
    }
    (VCS::NoRepo, None)
}

impl VCS {
    /// The file, relative to a directory, whose presence makes it a repository of
    /// this kind.
    pub fn marker(&self) -> (r: Option<&'static str>)
        ensures
            match *self {
                VCS::Git => r is Some && r.unwrap()@ == ".git/HEAD"@,
                VCS::Hg => r is Some && r.unwrap()@ == ".hg/00changelog.i"@,
                VCS::NoRepo => r is None,
            },
    {
        match self {
            VCS::Git => Some(".git/HEAD"),
            VCS::Hg => Some(".hg/00changelog.i"),
            VCS::NoRepo => None,
        }
    }

    /// The status of a repository of this kind from what was read from it;
    /// `None` when there is no repository.
    pub fn get_status(self, data: &RepoData) -> (r: Option<Status>)
        ensures
            match self {
                VCS::Git => r is Some && r.unwrap()@ == git_status(
                    data.output@,
                    data.operation_markers@,
                ),
                VCS::Hg => r is Some && r.unwrap()@ == hg_status(
                    data.output@,
                    owned_text(data.branch_file),
                    owned_text(data.bookmark_file),
                ),
                VCS::NoRepo => r is None,
            },
    {
        match self {
            VCS::Git => Some(git::status(data.output.as_str(), &data.operation_markers)),
            VCS::Hg => Some(
                hg::status(
                    data.output.as_str(),
                    as_text(&data.branch_file),
                    as_text(&data.bookmark_file),
                ),
            ),
            VCS::NoRepo => None,
        }
    }
}

} // verus!
