//! Character-level helpers: splitting text on a separator and into lines.
use vstd::prelude::*;

verus! {

/// The pieces of `s` between occurrences of `sep`, in order; always at least one
/// piece, and empty pieces are kept.
pub open spec fn split(s: Seq<char>, sep: char) -> Seq<Seq<char>>
    decreases s.len(),
{
    if s.len() == 0 {
        seq![Seq::empty()]
    } else {
        let p = split(s.drop_last(), sep);
        if s.last() == sep {
            p.push(Seq::empty())
        } else {
            p.update(p.len() - 1, p.last().push(s.last()))
        }
    }
}

/// A line without the carriage return of a `\r\n` ending.
pub open spec fn strip_cr(l: Seq<char>) -> Seq<char> {
    if l.len() > 0 && l.last() == '\r' {
        l.drop_last()
    } else {
        l
    }
}

/// The lines of `s`: split at `\n`, each terminated line loses a trailing `\r`,
/// and an empty piece after the final `\n` is no line.
pub open spec fn lines(s: Seq<char>) -> Seq<Seq<char>> {
    let p = split(s, '\n');
    let body = Seq::new((p.len() - 1) as nat, |i: int| strip_cr(p[i]));
    if p.last().len() == 0 {
        body
    } else {
        body.push(p.last())
    }
}

pub proof fn lemma_split_nonempty(s: Seq<char>, sep: char)
    ensures
        split(s, sep).len() >= 1,
    decreases s.len(),
{
    if s.len() > 0 {
        lemma_split_nonempty(s.drop_last(), sep);
    }
}

pub proof fn lemma_lines(s: Seq<char>)
    ensures
        split(s, '\n').len() >= 1,
        lines(s).len() == if split(s, '\n').last().len() == 0 {
            split(s, '\n').len() - 1
        } else {
            split(s, '\n').len() as int
        },
        forall|k: int|
            0 <= k < split(s, '\n').len() - 1 ==> #[trigger] lines(s)[k] == strip_cr(
                split(s, '\n')[k],
            ),
        split(s, '\n').last().len() > 0 ==> lines(s).last() == split(s, '\n').last(),
{
    lemma_split_nonempty(s, '\n');
}

/// The characters of `s`, one per element.
pub fn chars_of(s: &str) -> (r: Vec<char>)
    ensures
        r@ == s@,
{
    let mut r: Vec<char> = Vec::new();
    for c in it: s.chars()
        invariant
            r@ == it.seq().take(it.index() as int),
    {
        r.push(c);
    }
    r
}

/// Splits `chars[a..b]` at each `sep`: one index range per piece of `split`.
pub fn split_ranges(chars: &Vec<char>, a: usize, b: usize, sep: char) -> (r: Vec<(usize, usize)>)
    requires
        a <= b <= chars.len(),
    ensures
        r.len() == split(chars@.subrange(a as int, b as int), sep).len(),
        forall|k: int|
            0 <= k < r.len() ==> a <= #[trigger] r[k].0 <= r[k].1 <= b && chars@.subrange(
                r[k].0 as int,
                r[k].1 as int,
            ) == split(chars@.subrange(a as int, b as int), sep)[k],
{
    let mut r: Vec<(usize, usize)> = Vec::new();
    let mut start: usize = a;
    let mut i: usize = a;
    while i < b
        invariant
            a <= start <= i <= b <= chars.len(),
            r.len() + 1 == split(chars@.subrange(a as int, i as int), sep).len(),
            forall|k: int|
                0 <= k < r.len() ==> a <= #[trigger] r[k].0 <= r[k].1 <= start && chars@.subrange(
                    r[k].0 as int,
                    r[k].1 as int,
                ) == split(chars@.subrange(a as int, i as int), sep)[k],
            chars@.subrange(start as int, i as int) == split(
                chars@.subrange(a as int, i as int),
                sep,
            ).last(),
        decreases b - i,
    {
        let ghost prev = chars@.subrange(a as int, i as int);
        let ghost next = chars@.subrange(a as int, i + 1);
        proof {
            assert(next.drop_last() == prev);
            lemma_split_nonempty(prev, sep);
        }
        if chars[i] == sep {
            r.push((start, i));
            start = i + 1;
            assert(chars@.subrange(start as int, i + 1) == Seq::<char>::empty());
        } else {
            assert(chars@.subrange(start as int, i + 1) == chars@.subrange(
                start as int,
                i as int,
            ).push(chars[i as int]));
        }
        i += 1;
    }
    proof {
        lemma_split_nonempty(chars@.subrange(a as int, b as int), sep);
    }
    let ghost old_r = r@;
    r.push((start, b));
    assert(forall|k: int|
        0 <= k < r.len() ==> a <= #[trigger] r[k].0 <= r[k].1 <= b && chars@.subrange(
            r[k].0 as int,
            r[k].1 as int,
        ) == split(chars@.subrange(a as int, b as int), sep)[k]) by {
        assert forall|k: int| 0 <= k < r.len() - 1 implies #[trigger] r[k] == old_r[k] by {}
    }
    r
}

pub proof fn lemma_split_push_sep(p: Seq<char>, sep: char)
    ensures
        split(p.push(sep), sep) == split(p, sep).push(Seq::empty()),
{
    assert(p.push(sep).drop_last() == p);
}

/// Appending text free of the separator extends the last piece.
pub proof fn lemma_split_append_free(p: Seq<char>, x: Seq<char>, sep: char)
    requires
        !x.contains(sep),
    ensures
        split(p + x, sep) == split(p, sep).update(
            split(p, sep).len() - 1,
            split(p, sep).last() + x,
        ),
    decreases x.len(),
{
    lemma_split_nonempty(p, sep);
    if x.len() == 0 {
        assert(p + x == p);
        assert(split(p, sep).last() + x == split(p, sep).last());
        assert(split(p, sep).update(split(p, sep).len() - 1, split(p, sep).last())
            == split(p, sep));
    } else {
        let y = x.drop_last();
        assert(!y.contains(sep)) by {
            if y.contains(sep) {
                let i = choose|i: int| 0 <= i < y.len() && y[i] == sep;
                assert(x[i] == sep);
            }
        }
        assert(x.last() != sep) by {
            assert(x[x.len() - 1] == x.last());
        }
        lemma_split_append_free(p, y, sep);
        assert((p + x).drop_last() == p + y);
        assert((p + x).last() == x.last());
        assert((split(p, sep).last() + y).push(x.last()) == split(p, sep).last() + x);
        assert(split(p + x, sep) =~= split(p, sep).update(
            split(p, sep).len() - 1,
            split(p, sep).last() + x,
        ));
    }
}

/// Text free of the separator is a single piece.
pub proof fn lemma_split_free(x: Seq<char>, sep: char)
    requires
        !x.contains(sep),
    ensures
        split(x, sep) == seq![x],
{
    lemma_split_append_free(Seq::empty(), x, sep);
    assert(Seq::<char>::empty() + x == x);
    assert(split(Seq::<char>::empty(), sep).update(0, Seq::<char>::empty() + x) =~= seq![x]);
}

/// The index ranges of the lines of `chars`, one per element of `lines`.
pub fn line_ranges(chars: &Vec<char>) -> (r: Vec<(usize, usize)>)
    ensures
        r.len() == lines(chars@).len(),
        forall|k: int|
            0 <= k < r.len() ==> #[trigger] r[k].0 <= r[k].1 <= chars.len() && chars@.subrange(
                r[k].0 as int,
                r[k].1 as int,
            ) == lines(chars@)[k],
{
    let ghost ls = lines(chars@);
    let n = chars.len();
    let pieces = split_ranges(chars, 0, n, '\n');
    let ghost p = split(chars@, '\n');
    proof {
        assert(chars@.subrange(0, n as int) == chars@);
        lemma_lines(chars@);
    }
    let mut r: Vec<(usize, usize)> = Vec::new();
    let last = pieces.len() - 1;
    let mut k: usize = 0;
    while k < last
        invariant
            0 <= k <= last,
            last + 1 == pieces.len() == p.len(),
            p == split(chars@.subrange(0, n as int), '\n'),
            ls == lines(chars@),
            n == chars.len(),
            forall|j: int|
                0 <= j < pieces.len() ==> 0 <= #[trigger] pieces[j].0 <= pieces[j].1 <= n
                    && chars@.subrange(pieces[j].0 as int, pieces[j].1 as int) == p[j],
            ls.len() >= last,
            forall|j: int| 0 <= j < last ==> #[trigger] ls[j] == strip_cr(p[j]),
            r.len() == k,
            forall|j: int|
                0 <= j < k ==> #[trigger] r[j].0 <= r[j].1 <= n && chars@.subrange(
                    r[j].0 as int,
                    r[j].1 as int,
                ) == ls[j],
        decreases last - k,
    {
        let (a, b0) = pieces[k];
        let b = if b0 > a && chars[b0 - 1] == '\r' {
            b0 - 1
        } else {
            b0
        };
        assert(chars@.subrange(a as int, b as int) == strip_cr(p[k as int]));
        r.push((a, b));
        k += 1;
    }
    let (a, b) = pieces[last];
    if a < b {
        r.push((a, b));
    }
    r
}

/// Relies on `String::push`: appends one character to the string.
#[verifier::external_body]
pub(crate) fn push_char(s: &mut String, c: char)
    ensures
        final(s)@ == old(s)@.push(c),
{
    s.push(c);
}

/// Appends `chars[a..b]` to `out`.
pub fn push_range(out: &mut String, chars: &Vec<char>, a: usize, b: usize)
    requires
        a <= b <= chars.len(),
    ensures
        final(out)@ == old(out)@ + chars@.subrange(a as int, b as int),
{
    let mut i: usize = a;
    while i < b
        invariant
            a <= i <= b <= chars.len(),
            out@ == old(out)@ + chars@.subrange(a as int, i as int),
        decreases b - i,
    {
        push_char(out, chars[i]);
        i += 1;
        assert(chars@.subrange(a as int, i as int) == chars@.subrange(a as int, i - 1).push(
            chars[i - 1],
        ));
    }
}

/// A new string holding `chars[a..b]`.
pub fn string_of_range(chars: &Vec<char>, a: usize, b: usize) -> (r: String)
    requires
        a <= b <= chars.len(),
    ensures
        r@ == chars@.subrange(a as int, b as int),
{
    let mut r = String::new();
    push_range(&mut r, chars, a, b);
    r
}

/// Whether `chars[a..b]` is exactly the text `lit`.
pub fn range_eq(chars: &Vec<char>, a: usize, b: usize, lit: &str) -> (r: bool)
    requires
        a <= b <= chars.len(),
    ensures
        r == (chars@.subrange(a as int, b as int) == lit@),
{
    let n = lit.unicode_len();
    if b - a != n {
        return false;
    }
    let mut i: usize = 0;
    while i < n
        invariant
            0 <= i <= n,
            n == lit@.len(),
            b - a == n,
            a <= b <= chars.len(),
            forall|j: int| 0 <= j < i ==> chars@[a + j] == lit@[j],
        decreases n - i,
    {
        if chars[a + i] != lit.get_char(i) {
            assert(chars@.subrange(a as int, b as int)[i as int] != lit@[i as int]);
            return false;
        }
        i += 1;
    }
    assert(chars@.subrange(a as int, b as int) =~= lit@);
    true
}

/// Characters with the Unicode `White_Space` property.
pub open spec fn is_white_space(c: char) -> bool {
    ('\u{9}' <= c <= '\u{d}') || c == ' ' || c == '\u{85}' || c == '\u{a0}' || c == '\u{1680}'
        || ('\u{2000}' <= c <= '\u{200a}') || c == '\u{2028}' || c == '\u{2029}' || c
        == '\u{202f}' || c == '\u{205f}' || c == '\u{3000}'
}

pub open spec fn trim_start(s: Seq<char>) -> Seq<char>
    decreases s.len(),
{
    if s.len() > 0 && is_white_space(s[0]) {
        trim_start(s.drop_first())
    } else {
        s
    }
}

pub open spec fn trim_end(s: Seq<char>) -> Seq<char>
    decreases s.len(),
{
    if s.len() > 0 && is_white_space(s.last()) {
        trim_end(s.drop_last())
    } else {
        s
    }
}

/// `s` without leading and trailing white space.
pub open spec fn trim(s: Seq<char>) -> Seq<char> {
    trim_end(trim_start(s))
}

fn white_space(c: char) -> (r: bool)
    ensures
        r == is_white_space(c),
{
    ('\u{9}' <= c && c <= '\u{d}') || c == ' ' || c == '\u{85}' || c == '\u{a0}' || c
        == '\u{1680}' || ('\u{2000}' <= c && c <= '\u{200a}') || c == '\u{2028}' || c
        == '\u{2029}' || c == '\u{202f}' || c == '\u{205f}' || c == '\u{3000}'
}

/// The index range of `chars` that remains after trimming white space.
pub fn trim_range(chars: &Vec<char>) -> (r: (usize, usize))
    ensures
        r.0 <= r.1 <= chars.len(),
        chars@.subrange(r.0 as int, r.1 as int) == trim(chars@),
{
    let n = chars.len();
    let mut i: usize = 0;
    assert(chars@.subrange(0, n as int) == chars@);
    while i < n && white_space(chars[i])
        invariant
            i <= n == chars.len(),
            trim_start(chars@.subrange(i as int, n as int)) == trim_start(chars@),
        decreases n - i,
    {
        assert(chars@.subrange(i as int, n as int).drop_first() == chars@.subrange(
            i + 1,
            n as int,
        ));
        i += 1;
    }
    let mut j: usize = n;
    let ghost t = chars@.subrange(i as int, n as int);
    assert(t == trim_start(chars@));
    while j > i && white_space(chars[j - 1])
        invariant
            i <= j <= n == chars.len(),
            trim_end(chars@.subrange(i as int, j as int)) == trim(chars@),
        decreases j,
    {
        assert(chars@.subrange(i as int, j as int).drop_last() == chars@.subrange(
            i as int,
            j - 1,
        ));
        j -= 1;
    }
    (i, j)
}

/// `s` without leading and trailing white space, as a new string.
pub fn trimmed(s: &str) -> (r: String)
    ensures
        r@ == trim(s@),
{
    let chars = chars_of(s);
    let (a, b) = trim_range(&chars);
    string_of_range(&chars, a, b)
}

} // verus!
