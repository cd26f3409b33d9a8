//! Rendering of a status record as a prompt string, from user-configurable
//! templates.
use vstd::prelude::*;
use crate::text::{chars_of, push_char, push_range, range_eq};
use crate::util::{clean, Status, StatusView};

verus! {

/// The text of `s` with every occurrence of `pat`, taken from left to right
/// without overlap, replaced by `to`.
pub open spec fn replace_all(s: Seq<char>, pat: Seq<char>, to: Seq<char>) -> Seq<char>
    decreases s.len(),
{
    if pat.len() == 0 || s.len() < pat.len() {
        s
    } else if s.subrange(0, pat.len() as int) == pat {
        to + replace_all(s.subrange(pat.len() as int, s.len() as int), pat, to)
    } else {
        seq![s[0]] + replace_all(s.drop_first(), pat, to)
    }
}

/// Replaces every occurrence of `pat` in `s` by `to`.
pub fn replace(s: &str, pat: &str, to: &str) -> (r: String)
    requires
        pat@.len() > 0,
    ensures
        r@ == replace_all(s@, pat@, to@),
{
    let sc = chars_of(s);
    let n = sc.len();
    let m = pat.unicode_len();
    let mut out = String::new();
    let mut i: usize = 0;
    assert(sc@.subrange(0, n as int) == s@);
    while i < n
        invariant
            i <= n == sc.len(),
            m == pat@.len() > 0,
            sc@ == s@,
            out@ + replace_all(sc@.subrange(i as int, n as int), pat@, to@) == replace_all(
                s@,
                pat@,
                to@,
            ),
        decreases n - i,
    {
        let ghost rest = sc@.subrange(i as int, n as int);
        if m <= n - i && range_eq(&sc, i, i + m, pat) {
            assert(rest.subrange(0, m as int) == sc@.subrange(i as int, i + m));
            assert(rest.subrange(m as int, rest.len() as int) == sc@.subrange(i + m, n as int));
            out.append(to);
            assert(out@ + replace_all(sc@.subrange(i + m, n as int), pat@, to@) == replace_all(
                s@,
                pat@,
                to@,
            ));
            i += m;
        } else {
            if m <= n - i {
                assert(rest.subrange(0, m as int) == sc@.subrange(i as int, i + m));
            }
            assert(rest.drop_first() == sc@.subrange(i + 1, n as int));
            push_char(&mut out, sc[i]);
            i += 1;
        }
    }
    assert(sc@.subrange(n as int, n as int) == Seq::<char>::empty());
    out
}

/// The decimal digits of `n`, without leading zeros.
pub open spec fn decimal(n: nat) -> Seq<char>
    decreases n,
{
    if n < 10 {
        seq![digit_char(n)]
    } else {
        decimal(n / 10).push(digit_char(n % 10))
    }
}

pub open spec fn digit_char(d: nat) -> char {
    (d + '0' as nat) as char
}

/// Appends the decimal digits of `n` to `out`.
pub fn push_decimal(out: &mut String, n: u32)
    ensures
        final(out)@ == old(out)@ + decimal(n as nat),
    decreases n,
{
    if n >= 10 {
        push_decimal(out, n / 10);
    }
    let d = (n % 10) as u8;
    push_char(out, (48u8 + d) as char);
    assert(digit_char((n % 10) as nat) == (48u8 + d) as char);
}

/// Available formatting styles.
#[derive(Clone, Copy, PartialEq, Eq, Debug)]
pub enum OutputStyle {
    Detailed,
    Minimal,
}

/// The templates that the output is built from. `{value}` in a template stands
/// for the value shown, `{symbol}` in `name` for the VCS symbol, and color names
/// in braces (`{red}`, `{reset}`, ...) for terminal colors.
pub struct Templates {
    pub prefix: String,
    pub suffix: String,
    pub separator: String,
    pub name: String,
    pub branch: String,
    pub operation: String,
    pub behind: String,
    pub ahead: String,
    pub staged: String,
    pub conflicts: String,
    pub changed: String,
    pub untracked: String,
    pub clean: String,
}

pub struct TemplatesView {
    pub prefix: Seq<char>,
    pub suffix: Seq<char>,
    pub separator: Seq<char>,
    pub name: Seq<char>,
    pub branch: Seq<char>,
    pub operation: Seq<char>,
    pub behind: Seq<char>,
    pub ahead: Seq<char>,
    pub staged: Seq<char>,
    pub conflicts: Seq<char>,
    pub changed: Seq<char>,
    pub untracked: Seq<char>,
    pub clean: Seq<char>,
}

impl View for Templates {
    type V = TemplatesView;

    open spec fn view(&self) -> TemplatesView {
        TemplatesView {
            prefix: self.prefix@,
            suffix: self.suffix@,
            separator: self.separator@,
            name: self.name@,
            branch: self.branch@,
            operation: self.operation@,
            behind: self.behind@,
            ahead: self.ahead@,
            staged: self.staged@,
            conflicts: self.conflicts@,
            changed: self.changed@,
            untracked: self.untracked@,
            clean: self.clean@,
        }
    }
}

impl Templates {
    /// The default templates.
    pub fn new() -> (r: Templates)
        ensures
            r@ == (TemplatesView {
                prefix: " "@,
                suffix: "{reset}"@,
                separator: "|"@,
                name: "{symbol}"@,
                branch: "{blue}{value}{reset}"@,
                operation: "{red}{value}{reset}"@,
                behind: "\u{2193}{value}"@,
                ahead: "\u{2191}{value}"@,
                staged: "{blue}\u{271a}{value}"@,
                conflicts: "{red}\u{2716}\u{fe0e}{value}"@,
                changed: "{yellow}\u{21bb}{value}"@,
                untracked: "{magenta}\u{2026}{value}"@,
                clean: "{green}\u{2714}\u{fe0e}"@,
            }),
    {
        Templates {
            prefix: " ".to_string(),
            suffix: "{reset}".to_string(),
            separator: "|".to_string(),
            name: "{symbol}".to_string(),
            branch: "{blue}{value}{reset}".to_string(),
            operation: "{red}{value}{reset}".to_string(),
            behind: "\u{2193}{value}".to_string(),
            ahead: "\u{2191}{value}".to_string(),
            staged: "{blue}\u{271a}{value}".to_string(),
            conflicts: "{red}\u{2716}\u{fe0e}{value}".to_string(),
            changed: "{yellow}\u{21bb}{value}".to_string(),
            untracked: "{magenta}\u{2026}{value}".to_string(),
            clean: "{green}\u{2714}\u{fe0e}".to_string(),
        }
    }
}

/// `template` with `{value}` replaced by `value`.
pub open spec fn fill(template: Seq<char>, value: Seq<char>) -> Seq<char> {
    replace_all(template, "{value}"@, value)
}

/// The filled template of a count, or nothing when the count is zero.
pub open spec fn count_text(n: u32, template: Seq<char>) -> Seq<char> {
    if n > 0 {
        fill(template, decimal(n as nat))
    } else {
        Seq::empty()
    }
}

/// Each operation preceded by the separator.
pub open spec fn operations_text(ops: Seq<Seq<char>>, t: TemplatesView) -> Seq<char>
    decreases ops.len(),
{
    if ops.len() == 0 {
        Seq::empty()
    } else {
        operations_text(ops.drop_last(), t) + t.separator + fill(t.operation, ops.last())
    }
}

/// The detailed rendering: name, branch, tracking, operations, then local status.
pub open spec fn full_text(s: StatusView, t: TemplatesView) -> Seq<char> {
    t.prefix + replace_all(fill(t.name, s.name), "{symbol}"@, s.symbol) + fill(t.branch, s.branch)
        + count_text(s.behind, t.behind) + count_text(s.ahead, t.ahead) + operations_text(
        s.operations,
        t,
    ) + t.separator + count_text(s.staged, t.staged) + count_text(s.conflicts, t.conflicts)
        + count_text(s.changed, t.changed) + count_text(s.untracked, t.untracked) + (if clean(s) {
        t.clean
    } else {
        Seq::empty()
    }) + t.suffix
}

/// The color of the symbol in the minimal rendering.
pub open spec fn minimal_color(s: StatusView) -> Seq<char> {
    if clean(s) {
        "{bold}{green}"@
    } else if s.staged > 0 {
        "{bold}{red}"@
    } else {
        "{bold}{yellow}"@
    }
}

/// The minimal rendering: branch, tracking, and the symbol colored by state.
pub open spec fn minimal_text(s: StatusView, t: TemplatesView) -> Seq<char> {
    t.prefix + fill(t.branch, s.branch) + count_text(s.behind, t.behind) + count_text(
        s.ahead,
        t.ahead,
    ) + minimal_color(s) + s.symbol + "{reset}"@ + t.suffix
}

proof fn lemma_value_placeholder()
    ensures
        "{value}"@.len() > 0,
        "{symbol}"@.len() > 0,
{
    reveal_strlit("{value}");
    reveal_strlit("{symbol}");
}

/// Appends `template` with `{value}` replaced by `value`.
fn push_filled(out: &mut String, template: &String, value: &str)
    ensures
        final(out)@ == old(out)@ + fill(template@, value@),
{
    proof {
        lemma_value_placeholder();
    }
    let filled = replace(template.as_str(), "{value}", value);
    out.append(filled.as_str());
}

/// Appends the filled template of a nonzero count.
fn push_count(out: &mut String, n: u32, template: &String)
    ensures
        final(out)@ == old(out)@ + count_text(n, template@),
{
    if n > 0 {
        let mut digits = String::new();
        push_decimal(&mut digits, n);
        assert(digits@ == decimal(n as nat));
        push_filled(out, template, digits.as_str());
    } else {
        assert(old(out)@ + count_text(n, template@) == old(out)@);
    }
}

/// Format `status` in detailed style
/// (`{name}{branch}{branch tracking}|{local status}`).
pub fn format_full(status: &Status, t: &Templates) -> (r: String)
    ensures
        r@ == full_text(status@, t@),
{
    proof {
        lemma_value_placeholder();
    }
    let mut out = String::new();
    out.append(t.prefix.as_str());
    let name = replace(t.name.as_str(), "{value}", status.name.as_str());
    let name = replace(name.as_str(), "{symbol}", status.symbol.as_str());
    out.append(name.as_str());
    push_filled(&mut out, &t.branch, status.branch.as_str());
    push_count(&mut out, status.behind, &t.behind);
    push_count(&mut out, status.ahead, &t.ahead);
    let ghost head = out@;
    let ghost ops = status@.operations;
    let mut k: usize = 0;
    assert(ops.take(0) == Seq::<Seq<char>>::empty());
    while k < status.operations.len()
        invariant
            k <= status.operations.len(),
            ops == status@.operations,
            out@ == head + operations_text(ops.take(k as int), t@),
        decreases status.operations.len() - k,
    {
        out.append(t.separator.as_str());
        push_filled(&mut out, &t.operation, status.operations[k]);
        assert(ops.take(k + 1).drop_last() == ops.take(k as int));
        k += 1;
    }
    assert(ops.take(k as int) == ops);
    out.append(t.separator.as_str());
    push_count(&mut out, status.staged, &t.staged);
    push_count(&mut out, status.conflicts, &t.conflicts);
    push_count(&mut out, status.changed, &t.changed);
    push_count(&mut out, status.untracked, &t.untracked);
    if status.is_clean() {
        out.append(t.clean.as_str());
    }
    out.append(t.suffix.as_str());
    out
}

/// Format `status` in minimal style
/// (`{branch}{colored_symbol}`).
pub fn format_minimal(status: &Status, t: &Templates) -> (r: String)
    ensures
        r@ == minimal_text(status@, t@),
{
    let mut out = String::new();
    out.append(t.prefix.as_str());
    push_filled(&mut out, &t.branch, status.branch.as_str());
    push_count(&mut out, status.behind, &t.behind);
    push_count(&mut out, status.ahead, &t.ahead);
    if status.is_clean() {
        out.append("{bold}{green}");
    } else if status.staged > 0 {
        out.append("{bold}{red}");
    } else {
        out.append("{bold}{yellow}");
    }
    out.append(status.symbol.as_str());
    out.append("{reset}");
    out.append(t.suffix.as_str());
    out
}

/// Number of color names that templates may use.
pub const COLOR_COUNT: usize = 10;

/// The `i`-th color name as written in templates.
pub open spec fn color_key(i: int) -> Seq<char> {
    if i == 0 {
        "{reset}"@
    } else if i == 1 {
        "{bold}"@
    } else if i == 2 {
        "{black}"@
    } else if i == 3 {
        "{red}"@
    } else if i == 4 {
        "{green}"@
    } else if i == 5 {
        "{yellow}"@
    } else if i == 6 {
        "{blue}"@
    } else if i == 7 {
        "{magenta}"@
    } else if i == 8 {
        "{cyan}"@
    } else {
        "{white}"@
    }
}

/// The terminal escape for the `i`-th color, each preceded by `\x01`.
pub open spec fn color_escape(i: int) -> Seq<char> {
    if i == 0 {
        "\u{1}\u{1b}[22;39m"@
    } else if i == 1 {
        "\u{1}\u{1b}[1m"@
    } else if i == 2 {
        "\u{1}\u{1b}[30m"@
    } else if i == 3 {
        "\u{1}\u{1b}[31m"@
    } else if i == 4 {
        "\u{1}\u{1b}[32m"@
    } else if i == 5 {
        "\u{1}\u{1b}[33m"@
    } else if i == 6 {
        "\u{1}\u{1b}[34m"@
    } else if i == 7 {
        "\u{1}\u{1b}[35m"@
    } else if i == 8 {
        "\u{1}\u{1b}[36m"@
    } else {
        "\u{1}\u{1b}[37m"@
    }
}

/// `s` with the first `k` color names replaced by their escapes, in order.
pub open spec fn colorize_upto(s: Seq<char>, k: int) -> Seq<char>
    decreases k,
{
    if k <= 0 {
        s
    } else {
        replace_all(colorize_upto(s, k - 1), color_key(k - 1), color_escape(k - 1))
    }
}

/// `s` with every color name replaced by its escape.
pub open spec fn colored(s: Seq<char>) -> Seq<char> {
    colorize_upto(s, COLOR_COUNT as int)
}

fn color(i: usize) -> (r: (&'static str, &'static str))
    requires
        i < COLOR_COUNT,
    ensures
        r.0@ == color_key(i as int),
        r.1@ == color_escape(i as int),
        r.0@.len() > 0,
{
    proof {
        reveal_strlit("{reset}");
        reveal_strlit("{bold}");
        reveal_strlit("{black}");
        reveal_strlit("{red}");
        reveal_strlit("{green}");
        reveal_strlit("{yellow}");
        reveal_strlit("{blue}");
        reveal_strlit("{magenta}");
        reveal_strlit("{cyan}");
        reveal_strlit("{white}");
    }
    match i {
        0 => ("{reset}", "\u{1}\u{1b}[22;39m"),
        1 => ("{bold}", "\u{1}\u{1b}[1m"),
        2 => ("{black}", "\u{1}\u{1b}[30m"),
        3 => ("{red}", "\u{1}\u{1b}[31m"),
        4 => ("{green}", "\u{1}\u{1b}[32m"),
        5 => ("{yellow}", "\u{1}\u{1b}[33m"),
        6 => ("{blue}", "\u{1}\u{1b}[34m"),
        7 => ("{magenta}", "\u{1}\u{1b}[35m"),
        8 => ("{cyan}", "\u{1}\u{1b}[36m"),
        _ => ("{white}", "\u{1}\u{1b}[37m"),
    }
}

/// Replaces the color names in `s` by terminal escapes.
pub fn colorize(s: &str) -> (r: String)
    ensures
        r@ == colored(s@),
{
    let mut cur = s.to_string();
    let mut i: usize = 0;
    while i < COLOR_COUNT
        invariant
            i <= COLOR_COUNT,
            cur@ == colorize_upto(s@, i as int),
        decreases COLOR_COUNT - i,
    {
        let (key, escape) = color(i);
        cur = replace(cur.as_str(), key, escape);
        i += 1;
    }
    cur
}

/// The colored prompt string for `status` in the given style.
pub fn render(status: &Status, t: &Templates, style: OutputStyle) -> (r: String)
    ensures
        r@ == colored(
            match style {
                OutputStyle::Detailed => full_text(status@, t@),
                OutputStyle::Minimal => minimal_text(status@, t@),
            },
        ),
{
    let text = match style {
        OutputStyle::Detailed => format_full(status, t),
        OutputStyle::Minimal => format_minimal(status, t),
    };
    colorize(text.as_str())
}

} // verus!
