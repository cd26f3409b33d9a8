use vcprompt::git::{get_operations, operation_markers, parse_status, status};
use vcprompt::util::Status;

#[test]
fn git_parse_status_full() {
    let output = "
# branch.oid dc716b061d9a0bc6a59f4e02d72b9952cce28927
# branch.head master
# branch.upstream origin/master
# branch.ab +1 -2
1 .M <sub> <mH> <mI> <mW> <hH> <hI> modified.txt
1 .D <sub> <mH> <mI> <mW> <hH> <hI> deleted.txt
1 M. <sub> <mH> <mI> <mW> <hH> <hI> staged.txt
1 MM <sub> <mH> <mI> <mW> <hH> <hI> staged_modified.txt
1 MD <sub> <mH> <mI> <mW> <hH> <hI> staged_deleted.txt
1 A. <sub> <mH> <mI> <mW> <hH> <hI> added.txt
1 AM <sub> <mH> <mI> <mW> <hH> <hI> added_modified.txt
1 AD <sub> <mH> <mI> <mW> <hH> <hI> added_deleted.txt
1 D. <sub> <mH> <mI> <mW> <hH> <hI> deleted.txt
1 DM <sub> <mH> <mI> <mW> <hH> <hI> deleted_modified.txt
2 R. <sub> <mH> <mI> <mW> <hH> <hI> <X><score> <path><sep><origPath>
2 RM <sub> <mH> <mI> <mW> <hH> <hI> <X><score> <path><sep><origPath>
2 RD <sub> <mH> <mI> <mW> <hH> <hI> <X><score> <path><sep><origPath>
2 C. <sub> <mH> <mI> <mW> <hH> <hI> <X><score> <path><sep><origPath>
2 CM <sub> <mH> <mI> <mW> <hH> <hI> <X><score> <path><sep><origPath>
2 CD <sub> <mH> <mI> <mW> <hH> <hI> <X><score> <path><sep><origPath>
u UU <sub> <m1> <m2> <m3> <mW> <h1> <h2> <h3> <path>
? untracked.txt
! ignored.txt
";
    let mut expected = Status::new("git", "±");
    expected.branch = "master".to_string();
    expected.ahead = 1;
    expected.behind = 2;
    expected.staged = 14;
    expected.changed = 11;
    expected.untracked = 1;
    expected.conflicts = 1;
    assert_eq!(parse_status(output), expected);
}

#[test]
fn git_parse_status_clean() {
    let output = "
# branch.oid dc716b061d9a0bc6a59f4e02d72b9952cce28927
# branch.head master
";
    let mut expected = Status::new("git", "±");
    expected.branch = "master".to_string();
    assert_eq!(parse_status(output), expected);
}

#[test]
fn parse_status_emty() {
    assert_eq!(parse_status(""), Status::new("git", "±"));
}

#[test]
fn detect_merge() {
    let mut result = Vec::<&str>::new();
    let present = vec![false, false, true, false, false, false];
    get_operations(&mut result, &present);
    assert_eq!(result, vec!["MERGING"]);
}

#[test]
fn git_fresh_record_fields() {
    let r = parse_status("");
    assert_eq!(r.name, "git");
    assert_eq!(r.symbol, "\u{b1}");
    assert_eq!(r.branch, "<unknown>");
    assert!(r.operations.is_empty());
    assert!(r.is_clean());
}

#[test]
fn header_only_names_branch() {
    for input in ["# branch.head feature", "# branch.head feature\n", "# branch.head feature\r\n"] {
        let r = parse_status(input);
        let mut expected = Status::new("git", "±");
        expected.branch = "feature".to_string();
        assert_eq!(r, expected);
    }
}

#[test]
fn header_only_with_tracking() {
    let r = parse_status("# branch.head master\n# branch.ab +1 -2\n");
    assert_eq!(r.branch, "master");
    assert_eq!((r.ahead, r.behind), (1, 2));
    assert_eq!((r.staged, r.changed, r.untracked, r.conflicts), (0, 0, 0, 0));
}

#[test]
fn mixed_changes() {
    let output = "1 .M <sub> a\n1 M. <sub> b\n? foo.txt\nu UU <sub> c\n";
    let r = parse_status(output);
    assert_eq!((r.changed, r.staged, r.untracked, r.conflicts), (1, 1, 1, 1));
}

#[test]
fn submodule_code_is_skipped() {
    let r = parse_status("1 S.M. x\n2 N... y\n");
    assert_eq!((r.staged, r.changed), (0, 0));
    let r = parse_status("1 .M x\n1 S.M. x\n");
    assert_eq!((r.staged, r.changed), (0, 1));
}

#[test]
fn short_codes_are_classified() {
    let r = parse_status("1 M x\n");
    assert_eq!((r.staged, r.changed), (1, 1));
    let r = parse_status("1 . x\n");
    assert_eq!((r.staged, r.changed), (0, 0));
    let r = parse_status("2 .MD x\n");
    assert_eq!((r.staged, r.changed), (0, 1));
}

#[test]
fn ahead_behind_are_absolute() {
    let r = parse_status("# branch.ab -3 +5\n");
    assert_eq!((r.ahead, r.behind), (3, 5));
    let r = parse_status("# branch.ab -2147483648 2147483647\n");
    assert_eq!((r.ahead, r.behind), (2147483648, 2147483647));
}

#[test]
fn malformed_tracking_is_ignored() {
    let r = parse_status("# branch.ab +1 -x\n");
    assert_eq!((r.ahead, r.behind), (0, 0));
    let r = parse_status("# branch.ab +2147483648 -1\n");
    assert_eq!((r.ahead, r.behind), (0, 0));
    let r = parse_status("# branch.ab + -1\n");
    assert_eq!((r.ahead, r.behind), (0, 0));
}

#[test]
fn short_lines_do_not_fail() {
    let r = parse_status("#\n# branch.head\n1\n2\nu\n?\n!\nzzz\n\n");
    let mut expected = Status::new("git", "±");
    expected.conflicts = 1;
    expected.untracked = 1;
    assert_eq!(r, expected);
}

#[test]
fn operations_in_priority_order() {
    let mut list = Vec::<&str>::new();
    get_operations(&mut list, &vec![true, false, true, false, false, true]);
    assert_eq!(list, vec!["REBASE", "MERGING", "BISECTING"]);
    let mut list = vec!["EARLIER"];
    get_operations(&mut list, &vec![false, true, false, true, true]);
    assert_eq!(list, vec!["EARLIER", "AM/REBASE", "CHERRY-PICKING", "REVERTING"]);
}

#[test]
fn operation_marker_names() {
    assert_eq!(
        operation_markers(),
        vec!["rebase-merge", "rebase-apply", "MERGE_HEAD", "CHERRY_PICK_HEAD", "REVERT_HEAD", "BISECT_LOG"]
    );
}

#[test]
fn git_status_combines_parse_and_operations() {
    let r = status("# branch.head dev\n? x\n", &vec![true, false, true, false, false, false]);
    assert_eq!(r.branch, "dev");
    assert_eq!(r.untracked, 1);
    assert_eq!(r.operations, vec!["REBASE", "MERGING"]);
}
