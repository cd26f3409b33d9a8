use vcprompt::hg::{get_bookmark, get_branch, parse_status, status};
use vcprompt::util::Status;

#[test]
fn hg_parse_status_full() {
    let output = "
M modified.txt
A added.txt
R removed.txt
C clean.txt
? untracked.txt
! deleted.txt
I ignored.txt
";
    let mut expected = Status::new("hg", "☿");
    expected.branch = "<unknown>".to_string();
    expected.ahead = 0;
    expected.behind = 0;
    expected.staged = 4;
    expected.changed = 0;
    expected.untracked = 1;
    expected.conflicts = 0;
    assert_eq!(parse_status(output), expected);
}

#[test]
fn hg_parse_status_clean() {
    assert_eq!(parse_status(""), Status::new("hg", "☿"));
}

#[test]
fn hg_scenario_modified_and_untracked() {
    let r = parse_status("M a.txt\n? b.txt\n");
    assert_eq!((r.staged, r.untracked), (1, 1));
    assert_eq!((r.changed, r.conflicts, r.ahead, r.behind), (0, 0, 0, 0));
}

#[test]
fn hg_branch_defaults() {
    assert_eq!(get_branch(None), "default");
    assert_eq!(get_branch(Some("  stable\n")), "stable");
    assert_eq!(get_bookmark(None), "");
    assert_eq!(get_bookmark(Some("feature-x\n")), "*feature-x");
    assert_eq!(get_bookmark(Some(" \n")), "");
}

#[test]
fn hg_status_branch_and_bookmark() {
    let r = status("M a\n", None, Some("feature-x\n"));
    assert_eq!(r.branch, "default*feature-x");
    assert!(r.branch.ends_with("*feature-x"));
    assert_eq!(r.staged, 1);
    let r = status("", Some("stable\n"), None);
    assert_eq!(r.branch, "stable");
    assert_eq!(r.name, "hg");
}
