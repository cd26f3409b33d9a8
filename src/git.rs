//! Git status: parsing of `git status --porcelain=2 --branch --untracked-files`
//! output and detection of in-progress operations.
use vstd::prelude::*;
use crate::num::{abs, parse_i32, parse_magnitude};
use crate::text::{chars_of, lemma_split_nonempty, line_ranges, lines, range_eq, split, split_ranges, string_of_range};
use crate::util::{bump, fresh, increment, Status, StatusView};

verus! {

pub open spec fn git_name() -> Seq<char> {
    "git"@
}

pub open spec fn git_symbol() -> Seq<char> {
    "\u{b1}"@
}

/// Whether a change record's state code is classified: every code but the
/// four-character submodule form.
pub open spec fn is_change_code(code: Seq<char>) -> bool {
    code.len() != 4
}

/// Whether a classified code records a staged change: its first character is not `.`.
pub open spec fn code_staged(code: Seq<char>) -> bool {
    !(code.len() > 0 && code[0] == '.')
}

/// Whether a classified code records a working-tree change: its last character is not `.`.
pub open spec fn code_changed(code: Seq<char>) -> bool {
    !(code.len() > 0 && code.last() == '.')
}

/// The effect of one line of porcelain v2 output on the record; `t` are its
/// space-separated tokens.
pub open spec fn git_line(st: StatusView, line: Seq<char>) -> StatusView {
    let t = split(line, ' ');
    if t[0] == "#"@ {
        if t.len() >= 3 && t[1] == "branch.head"@ {
            StatusView { branch: t[2], ..st }
        } else if t.len() >= 4 && t[1] == "branch.ab"@ && parse_i32(t[2]) is Some && parse_i32(
            t[3],
        ) is Some {
            StatusView {
                ahead: abs(parse_i32(t[2]).unwrap()) as u32,
                behind: abs(parse_i32(t[3]).unwrap()) as u32,
                ..st
            }
        } else {
            st
        }
    } else if t[0] == "1"@ || t[0] == "2"@ {
        if t.len() >= 2 && is_change_code(t[1]) {
            StatusView {
                staged: if code_staged(t[1]) {
                    bump(st.staged)
                } else {
                    st.staged
                },
                changed: if code_changed(t[1]) {
                    bump(st.changed)
                } else {
                    st.changed
                },
                ..st
            }
        } else {
            st
        }
    } else if t[0] == "u"@ {
        StatusView { conflicts: bump(st.conflicts), ..st }
    } else if t[0] == "?"@ {
        StatusView { untracked: bump(st.untracked), ..st }
    } else {
        st
    }
}

/// The record after reading the lines `ls` in order.
pub open spec fn git_summary(ls: Seq<Seq<char>>) -> StatusView
    decreases ls.len(),
{
    if ls.len() == 0 {
        fresh(git_name(), git_symbol())
    } else {
        git_line(git_summary(ls.drop_last()), ls.last())
    }
}

/// Applies the line `chars[a..b]` to `st`.
fn apply_line(st: &mut Status, chars: &Vec<char>, a: usize, b: usize)
    requires
        a <= b <= chars.len(),
    ensures
        final(st)@ == git_line(old(st)@, chars@.subrange(a as int, b as int)),
{
    let ghost t = split(chars@.subrange(a as int, b as int), ' ');
    let toks = split_ranges(chars, a, b, ' ');
    proof {
        lemma_split_nonempty(chars@.subrange(a as int, b as int), ' ');
    }
    let n = toks.len();
    let (s0, e0) = toks[0];
    assert(chars@.subrange(s0 as int, e0 as int) == t[0]);
    if range_eq(chars, s0, e0, "#") {
        if n >= 3 {
            let (s1, e1) = toks[1];
            let (s2, e2) = toks[2];
            assert(chars@.subrange(s1 as int, e1 as int) == t[1]);
            assert(chars@.subrange(s2 as int, e2 as int) == t[2]);
            if range_eq(chars, s1, e1, "branch.head") {
                st.branch = string_of_range(chars, s2, e2);
            } else if n >= 4 && range_eq(chars, s1, e1, "branch.ab") {
                let (s3, e3) = toks[3];
                assert(chars@.subrange(s3 as int, e3 as int) == t[3]);
                let ahead = parse_magnitude(chars, s2, e2);
                let behind = parse_magnitude(chars, s3, e3);
                if let (Some(x), Some(y)) = (ahead, behind) {
                    st.ahead = x;
                    st.behind = y;
                }
            }
        }
    } else if range_eq(chars, s0, e0, "1") || range_eq(chars, s0, e0, "2") {
        if n >= 2 {
            let (s1, e1) = toks[1];
            assert(chars@.subrange(s1 as int, e1 as int) == t[1]);
            if e1 - s1 != 4 {
                if !(s1 < e1 && chars[s1] == '.') {
                    increment(&mut st.staged);
                }
                if !(s1 < e1 && chars[e1 - 1] == '.') {
                    increment(&mut st.changed);
                }
            }
        }
    } else if range_eq(chars, s0, e0, "u") {
        increment(&mut st.conflicts);
    } else if range_eq(chars, s0, e0, "?") {
        increment(&mut st.untracked);
    }
}

/// Parse the output of `git status --porcelain=2 --branch --untracked-files`.
pub fn parse_status(status: &str) -> (r: Status)
    ensures
        r@ == git_summary(lines(status@)),
{
    let ghost ls = lines(status@);
    let chars = chars_of(status);
    let ranges = line_ranges(&chars);
    let mut result = Status::new("git", "\u{b1}");
    let mut k: usize = 0;
    assert(ls.take(0) == Seq::<Seq<char>>::empty());
    while k < ranges.len()
        invariant
            0 <= k <= ranges.len() == ls.len(),
            ls == lines(chars@),
            forall|j: int|
                0 <= j < ranges.len() ==> #[trigger] ranges[j].0 <= ranges[j].1 <= chars.len()
                    && chars@.subrange(ranges[j].0 as int, ranges[j].1 as int) == ls[j],
            result@ == git_summary(ls.take(k as int)),
        decreases ranges.len() - k,
    {
        let (a, b) = ranges[k];
        apply_line(&mut result, &chars, a, b);
        assert(ls.take(k + 1).drop_last() == ls.take(k as int));
        k += 1;
    }
    assert(ls.take(k as int) == ls);
    result
}

/// Number of in-progress operations that are looked for.
pub const OPERATION_COUNT: usize = 6;

/// The file, under the `.git` directory, whose presence marks operation `i`.
pub open spec fn operation_marker(i: int) -> Seq<char> {
    if i == 0 {
        "rebase-merge"@
    } else if i == 1 {
        "rebase-apply"@
    } else if i == 2 {
        "MERGE_HEAD"@
    } else if i == 3 {
        "CHERRY_PICK_HEAD"@
    } else if i == 4 {
        "REVERT_HEAD"@
    } else {
        "BISECT_LOG"@
    }
}

/// The label reported for operation `i`.
pub open spec fn operation_label(i: int) -> Seq<char> {
    if i == 0 {
        "REBASE"@
    } else if i == 1 {
        "AM/REBASE"@
    } else if i == 2 {
        "MERGING"@
    } else if i == 3 {
        "CHERRY-PICKING"@
    } else if i == 4 {
        "REVERTING"@
    } else {
        "BISECTING"@
    }
}

/// The labels of the first `k` operations whose marker is present, in priority
/// order; `present[i]` tells whether marker `i` exists, and a missing entry
/// counts as absent.
pub open spec fn detected(present: Seq<bool>, k: int) -> Seq<Seq<char>>
    decreases k,
{
    if k <= 0 {
        Seq::empty()
    } else if k - 1 < present.len() && present[k - 1] {
        detected(present, k - 1).push(operation_label(k - 1))
    } else {
        detected(present, k - 1)
    }
}

/// The texts of a list of labels.
pub open spec fn label_texts(v: Seq<&'static str>) -> Seq<Seq<char>> {
    v.map_values(|o: &'static str| o@)
}

/// The marker files of the operations, in priority order.
pub fn operation_markers() -> (r: Vec<&'static str>)
    ensures
        r.len() == OPERATION_COUNT,
        forall|i: int| 0 <= i < r.len() ==> #[trigger] r[i]@ == operation_marker(i),
{
    vec!["rebase-merge", "rebase-apply", "MERGE_HEAD", "CHERRY_PICK_HEAD", "REVERT_HEAD", "BISECT_LOG"]
}

fn label_of(i: usize) -> (r: &'static str)
    requires
        i < OPERATION_COUNT,
    ensures
        r@ == operation_label(i as int),
{
    match i {
        0 => "REBASE",
        1 => "AM/REBASE",
        2 => "MERGING",
        3 => "CHERRY-PICKING",
        4 => "REVERTING",
        _ => "BISECTING",
    }
}

/// Appends to `list` the label of each operation whose marker file is present,
/// in priority order; `present[i]` tells whether the marker `operation_markers()[i]`
/// exists.
pub fn get_operations(list: &mut Vec<&'static str>, present: &Vec<bool>)
    ensures
        label_texts(final(list)@) == label_texts(old(list)@) + detected(
            present@,
            OPERATION_COUNT as int,
        ),
{
    let mut i: usize = 0;
    assert(label_texts(list@) == label_texts(old(list)@) + detected(present@, 0));
    while i < OPERATION_COUNT
        invariant
            i <= OPERATION_COUNT,
            label_texts(list@) == label_texts(old(list)@) + detected(present@, i as int),
        decreases OPERATION_COUNT - i,
    {
        if i < present.len() && present[i] {
            let ghost before = list@;
            list.push(label_of(i));
            assert(label_texts(list@) == label_texts(before).push(operation_label(i as int)));
        }
        i += 1;
    }
}

proof fn lemma_summary_identity(ls: Seq<Seq<char>>)
    ensures
        git_summary(ls).name == git_name(),
        git_summary(ls).symbol == git_symbol(),
        git_summary(ls).operations == Seq::<Seq<char>>::empty(),
    decreases ls.len(),
{
    if ls.len() > 0 {
        lemma_summary_identity(ls.drop_last());
    }
}

/// The record of a Git repository whose status output is `output` and whose
/// operation markers are present as `present` says.
pub open spec fn git_status(output: Seq<char>, present: Seq<bool>) -> StatusView {
    StatusView { operations: detected(present, OPERATION_COUNT as int), ..git_summary(lines(output)) }
}

/// The status of a Git repository, from the output of `git status` and from which
/// operation markers are present.
pub fn status(output: &str, present: &Vec<bool>) -> (r: Status)
    ensures
        r@ == git_status(output@, present@),
{
    let mut result = parse_status(output);
    proof {
        lemma_summary_identity(lines(output@));
    }
    get_operations(&mut result.operations, present);
    assert(result@.operations == detected(present@, OPERATION_COUNT as int));
    result
}

} // verus!
