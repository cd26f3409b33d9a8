//! Properties that relate the parsers' results across inputs.
use vstd::prelude::*;
use crate::git::{
    code_changed, code_staged, detected, git_line, git_name, git_summary, git_symbol,
    operation_label,
};
use crate::hg::{bookmark_of, branch_of, hg_name, hg_summary, hg_symbol};
use crate::num::{abs, parse_i32};
use crate::text::{
    lemma_split_append_free, lemma_split_free, lemma_split_push_sep, lines, split, strip_cr, trim,
};
use crate::util::{bump, fresh, StatusView};

verus! {

/// The header that names the current Git branch, up to the name itself.
pub open spec fn branch_header() -> Seq<char> {
    "# branch.head "@
}

proof fn lemma_branch_header_tokens(y: Seq<char>)
    requires
        !y.contains(' '),
    ensures
        split(branch_header() + y, ' ') == seq!["#"@, "branch.head"@, y],
{
    reveal_strlit("# branch.head ");
    reveal_strlit("#");
    reveal_strlit("branch.head");
    let a = "#"@;
    let bh = "branch.head"@;
    assert(!a.contains(' ')) by {
        assert(a[0] == '#');
    }
    assert(!bh.contains(' ')) by {
        assert(forall|i: int| 0 <= i < bh.len() ==> bh[i] != ' ');
    }
    lemma_split_free(a, ' ');
    lemma_split_push_sep(a, ' ');
    let b = a.push(' ');
    lemma_split_append_free(b, bh, ' ');
    let c = b + bh;
    assert(split(c, ' ') =~= seq![a, bh]);
    lemma_split_push_sep(c, ' ');
    let d = c.push(' ');
    lemma_split_append_free(d, y, ' ');
    assert(d =~= branch_header());
    assert(split(d + y, ' ') =~= seq![a, bh, y]);
}

proof fn lemma_branch_header_line(y: Seq<char>)
    requires
        !y.contains(' '),
    ensures
        git_line(fresh(git_name(), git_symbol()), branch_header() + y) == (StatusView {
            branch: y,
            ..fresh(git_name(), git_symbol())
        }),
{
    lemma_branch_header_tokens(y);
}

/// Git output made of a single `# branch.head X` header, with or without a final
/// line break, names the branch `X` and leaves every count at zero.
pub proof fn lemma_branch_header_only(x: Seq<char>)
    requires
        !x.contains(' '),
        !x.contains('\n'),
    ensures
        git_summary(lines(branch_header() + x)) == (StatusView {
            branch: x,
            ..fresh(git_name(), git_symbol())
        }),
        git_summary(lines((branch_header() + x).push('\n'))) == (StatusView {
            branch: strip_cr(x),
            ..fresh(git_name(), git_symbol())
        }),
{
    reveal_strlit("# branch.head ");
    let h = branch_header();
    let s = h + x;
    assert(!s.contains('\n')) by {
        if s.contains('\n') {
            let i = choose|i: int| 0 <= i < s.len() && s[i] == '\n';
            if i >= h.len() {
                assert(x[i - h.len()] == '\n');
            }
        }
    }
    lemma_split_free(s, '\n');
    assert(lines(s) =~= seq![s]);
    assert(seq![s].drop_last() =~= Seq::<Seq<char>>::empty());
    lemma_branch_header_line(x);
    assert(git_summary(Seq::<Seq<char>>::empty()) == fresh(git_name(), git_symbol()));
    assert(git_summary(seq![s]) == git_line(git_summary(Seq::<Seq<char>>::empty()), s));
    lemma_split_push_sep(s, '\n');
    let y = strip_cr(x);
    assert(strip_cr(s) == h + y) by {
        if x.len() > 0 {
            assert(s.last() == x.last());
            if x.last() == '\r' {
                assert(s.drop_last() =~= h + x.drop_last());
            }
        } else {
            assert(s =~= h + y);
        }
    }
    assert(lines(s.push('\n')) =~= seq![h + y]);
    assert(seq![h + y].drop_last() =~= Seq::<Seq<char>>::empty());
    assert(!y.contains(' ')) by {
        if y.contains(' ') {
            let i = choose|i: int| 0 <= i < y.len() && y[i] == ' ';
            assert(x[i] == ' ');
        }
    }
    lemma_branch_header_line(y);
    assert(git_summary(seq![h + y]) == git_line(
        git_summary(Seq::<Seq<char>>::empty()),
        h + y,
    ));
}

/// Empty output gives either parser's fresh record: unknown branch, all counts
/// zero, no operations.
pub proof fn lemma_empty_input()
    ensures
        git_summary(lines(Seq::empty())) == fresh(git_name(), git_symbol()),
        hg_summary(lines(Seq::empty())) == fresh(hg_name(), hg_symbol()),
{
    assert(lines(Seq::<char>::empty()) =~= Seq::<Seq<char>>::empty());
}

/// A Git change record (`1` or `2`) whose state code is shorter than four
/// characters is always classified: it counts as staged unless the code starts
/// with `.`, and as changed unless it ends with `.`. One with a four-character
/// submodule code changes nothing.
pub proof fn lemma_change_code(st: StatusView, line: Seq<char>)
    requires
        split(line, ' ').len() >= 2,
        split(line, ' ')[0] == "1"@ || split(line, ' ')[0] == "2"@,
    ensures
        split(line, ' ')[1].len() < 4 ==> git_line(st, line) == (StatusView {
            staged: if code_staged(split(line, ' ')[1]) {
                bump(st.staged)
            } else {
                st.staged
            },
            changed: if code_changed(split(line, ' ')[1]) {
                bump(st.changed)
            } else {
                st.changed
            },
            ..st
        }),
        split(line, ' ')[1].len() == 4 ==> git_line(st, line) == st,
{
    reveal_strlit("1");
    reveal_strlit("2");
    reveal_strlit("#");
    assert("1"@ != "#"@ && "2"@ != "#"@) by {
        assert("1"@[0] != "#"@[0]);
        assert("2"@[0] != "#"@[0]);
    }
}

/// A `# branch.ab +A -B` header sets ahead and behind to the absolute values of
/// the two integers, whatever their signs.
pub proof fn lemma_ahead_behind_absolute(st: StatusView, line: Seq<char>, a: int, b: int)
    requires
        split(line, ' ').len() >= 4,
        split(line, ' ')[0] == "#"@,
        split(line, ' ')[1] == "branch.ab"@,
        parse_i32(split(line, ' ')[2]) == Some(a),
        parse_i32(split(line, ' ')[3]) == Some(b),
    ensures
        git_line(st, line).ahead == abs(a),
        git_line(st, line).behind == abs(b),
{
    reveal_strlit("branch.ab");
    reveal_strlit("branch.head");
    assert("branch.ab"@.len() != "branch.head"@.len());
}

/// The integers `0..k` in order.
pub open spec fn first_indices(k: nat) -> Seq<int> {
    Seq::new(k, |i: int| i)
}

/// Operation detection reports, in priority order, the label of every operation
/// whose marker is present, any number of them at once, and no other.
pub proof fn lemma_operations_in_priority_order(present: Seq<bool>, k: nat)
    ensures
        detected(present, k as int) == first_indices(k).filter(
            |i: int| i < present.len() && present[i],
        ).map_values(|i: int| operation_label(i)),
    decreases k,
{
    let pred = |i: int| i < present.len() && present[i];
    reveal(Seq::filter);
    if k > 0 {
        lemma_operations_in_priority_order(present, (k - 1) as nat);
        assert(first_indices(k).drop_last() =~= first_indices((k - 1) as nat));
        assert(first_indices(k).last() == k - 1);
        let prev = first_indices((k - 1) as nat).filter(pred);
        if pred(k - 1) {
            assert(prev.push(k - 1).map_values(|i: int| operation_label(i)) =~= prev.map_values(
                |i: int| operation_label(i),
            ).push(operation_label(k - 1)));
        }
    } else {
        assert(first_indices(0).filter(pred) =~= Seq::<int>::empty());
    }
}

/// Mercurial branch resolution: without a branch file the branch is `default`;
/// a bookmark file whose trimmed text `m` is not empty makes the branch end with
/// `*m`.
pub proof fn lemma_hg_branch(branch_file: Option<Seq<char>>, bookmark: Seq<char>)
    ensures
        branch_of(None) == "default"@,
        trim(bookmark).len() > 0 ==> ({
            let r = branch_of(branch_file) + bookmark_of(Some(bookmark));
            let m = seq!['*'] + trim(bookmark);
            r.len() >= m.len() && r.subrange(r.len() - m.len(), r.len() as int) == m
        }),
{
    if trim(bookmark).len() > 0 {
        let r = branch_of(branch_file) + bookmark_of(Some(bookmark));
        let m = seq!['*'] + trim(bookmark);
        assert(r.subrange(r.len() - m.len(), r.len() as int) =~= m);
    }
}

} // verus!
