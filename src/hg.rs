//! Mercurial status: parsing of `hg status` output and resolution of the branch
//! name from the repository's metadata files.
use vstd::prelude::*;
use crate::text::{chars_of, line_ranges, lines, push_char, range_eq, split, split_ranges, lemma_split_nonempty, trim, trimmed};
use crate::util::{bump, fresh, increment, Status, StatusView};

verus! {

pub open spec fn hg_name() -> Seq<char> {
    "hg"@
}

pub open spec fn hg_symbol() -> Seq<char> {
    "\u{263f}"@
}

/// Whether a status code reports a modification: `M`, `A`, `R` or `!`.
pub open spec fn is_modification(code: Seq<char>) -> bool {
    code == "M"@ || code == "A"@ || code == "R"@ || code == "!"@
}

/// The effect of one line of `hg status` output on the record; its code is the
/// first space-separated token.
pub open spec fn hg_line(st: StatusView, line: Seq<char>) -> StatusView {
    let code = split(line, ' ')[0];
    if is_modification(code) {
        StatusView { staged: bump(st.staged), ..st }
    } else if code == "?"@ {
        StatusView { untracked: bump(st.untracked), ..st }
    } else {
        st
    }
}

/// The record after reading the lines `ls` in order.
pub open spec fn hg_summary(ls: Seq<Seq<char>>) -> StatusView
    decreases ls.len(),
{
    if ls.len() == 0 {
        fresh(hg_name(), hg_symbol())
    } else {
        hg_line(hg_summary(ls.drop_last()), ls.last())
    }
}

fn apply_line(st: &mut Status, chars: &Vec<char>, a: usize, b: usize)
    requires
        a <= b <= chars.len(),
    ensures
        final(st)@ == hg_line(old(st)@, chars@.subrange(a as int, b as int)),
{
    let toks = split_ranges(chars, a, b, ' ');
    proof {
        lemma_split_nonempty(chars@.subrange(a as int, b as int), ' ');
    }
    let (s0, e0) = toks[0];
    if range_eq(chars, s0, e0, "M") || range_eq(chars, s0, e0, "A") || range_eq(chars, s0, e0, "R")
        || range_eq(chars, s0, e0, "!") {
        increment(&mut st.staged);
    } else if range_eq(chars, s0, e0, "?") {
        increment(&mut st.untracked);
    }
}

/// Parse the output of `hg status`.
pub fn parse_status(status: &str) -> (r: Status)
    ensures
        r@ == hg_summary(lines(status@)),
{
    let ghost ls = lines(status@);
    let chars = chars_of(status);
    let ranges = line_ranges(&chars);
    let mut result = Status::new("hg", "\u{263f}");
    let mut k: usize = 0;
    assert(ls.take(0) == Seq::<Seq<char>>::empty());
    while k < ranges.len()
        invariant
            0 <= k <= ranges.len() == ls.len(),
            ls == lines(chars@),
            forall|j: int|
                0 <= j < ranges.len() ==> #[trigger] ranges[j].0 <= ranges[j].1 <= chars.len()
                    && chars@.subrange(ranges[j].0 as int, ranges[j].1 as int) == ls[j],
            result@ == hg_summary(ls.take(k as int)),
        decreases ranges.len() - k,
    {
        let (a, b) = ranges[k];
        apply_line(&mut result, &chars, a, b);
        assert(ls.take(k + 1).drop_last() == ls.take(k as int));
        k += 1;
    }
    assert(ls.take(k as int) == ls);
    result
}

/// The text of a file that may be missing.
pub open spec fn file_text(f: Option<&str>) -> Option<Seq<char>> {
    match f {
        Some(t) => Some(t@),
        None => None,
    }
}

/// The branch name from the contents of `.hg/branch`: the trimmed text, or
/// `default` when the file is missing.
pub open spec fn branch_of(branch_file: Option<Seq<char>>) -> Seq<char> {
    match branch_file {
        Some(t) => trim(t),
        None => "default"@,
    }
}

/// The suffix from the contents of `.hg/bookmarks.current`: `*` and the trimmed
/// bookmark, or nothing when the file is missing or holds only white space.
pub open spec fn bookmark_of(bookmark_file: Option<Seq<char>>) -> Seq<char> {
    match bookmark_file {
        Some(t) => if trim(t).len() > 0 {
            seq!['*'] + trim(t)
        } else {
            Seq::empty()
        },
        None => Seq::empty(),
    }
}

/// Return the current branch, given the contents of `.hg/branch` if it could be read.
pub fn get_branch(branch_file: Option<&str>) -> (r: String)
    ensures
        r@ == branch_of(file_text(branch_file)),
{
    match branch_file {
        Some(text) => trimmed(text),
        None => "default".to_string(),
    }
}

/// Return the current bookmark prefixed with `*`, or an empty string, given the
/// contents of `.hg/bookmarks.current` if it could be read.
pub fn get_bookmark(bookmark_file: Option<&str>) -> (r: String)
    ensures
        r@ == bookmark_of(file_text(bookmark_file)),
{
    let mut r = String::new();
    if let Some(text) = bookmark_file {
        let name = trimmed(text);
        if !name.as_str().is_empty() {
            push_char(&mut r, '*');
            r.append(name.as_str());
        }
    }
    r
}

proof fn lemma_summary_identity(ls: Seq<Seq<char>>)
    ensures
        hg_summary(ls).name == hg_name(),
        hg_summary(ls).symbol == hg_symbol(),
        hg_summary(ls).operations == Seq::<Seq<char>>::empty(),
    decreases ls.len(),
{
    if ls.len() > 0 {
        lemma_summary_identity(ls.drop_last());
    }
}

/// The record of a Mercurial repository whose status output is `output`, given
/// the contents of its branch and bookmark files.
pub open spec fn hg_status(
    output: Seq<char>,
    branch_file: Option<Seq<char>>,
    bookmark_file: Option<Seq<char>>,
) -> StatusView {
    StatusView {
        branch: branch_of(branch_file) + bookmark_of(bookmark_file),
        ..hg_summary(lines(output))
    }
}

/// The status of a Mercurial repository, from the output of `hg status` and the
/// contents of `.hg/branch` and `.hg/bookmarks.current`, each if it could be read.
pub fn status(output: &str, branch_file: Option<&str>, bookmark_file: Option<&str>) -> (r: Status)
    ensures
        r@ == hg_status(output@, file_text(branch_file), file_text(bookmark_file)),
{
    let mut result = parse_status(output);
    let mut branch = get_branch(branch_file);
    let bookmark = get_bookmark(bookmark_file);
    branch.append(bookmark.as_str());
    result.branch = branch;
    result
}

} // verus!
