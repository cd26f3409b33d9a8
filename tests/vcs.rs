use vcprompt::vcs::{get_vcs, RepoData, VCS};

#[test]
fn innermost_repository_wins() {
    let probes = vec![(false, false), (false, true), (true, false)];
    assert_eq!(get_vcs(&probes), (VCS::Hg, Some(1)));
    let probes = vec![(true, false), (false, true)];
    assert_eq!(get_vcs(&probes), (VCS::Git, Some(0)));
}

#[test]
fn git_checked_before_hg() {
    assert_eq!(get_vcs(&vec![(false, false), (true, true)]), (VCS::Git, Some(1)));
}

#[test]
fn no_repository() {
    assert_eq!(get_vcs(&vec![(false, false), (false, false)]), (VCS::NoRepo, None));
    assert_eq!(get_vcs(&vec![]), (VCS::NoRepo, None));
}

#[test]
fn markers_of_kinds() {
    assert_eq!(VCS::Git.marker(), Some(".git/HEAD"));
    assert_eq!(VCS::Hg.marker(), Some(".hg/00changelog.i"));
    assert_eq!(VCS::NoRepo.marker(), None);
}

#[test]
fn status_dispatch() {
    let data = RepoData {
        output: "# branch.head main\n1 M. x\n".to_string(),
        operation_markers: vec![false, false, false, false, false, true],
        branch_file: None,
        bookmark_file: Some("mark".to_string()),
    };
    let g = VCS::Git.get_status(&data).unwrap();
    assert_eq!((g.name.as_str(), g.branch.as_str(), g.staged), ("git", "main", 1));
    assert_eq!(g.operations, vec!["BISECTING"]);
    let h = VCS::Hg.get_status(&data).unwrap();
    assert_eq!((h.name.as_str(), h.branch.as_str(), h.staged), ("hg", "default*mark", 0));
    assert!(VCS::NoRepo.get_status(&data).is_none());
}
