use vcprompt::format::{colorize, format_full, format_minimal, render, replace, OutputStyle, Templates};
use vcprompt::util::Status;

fn sample() -> Status {
    let mut s = Status::new("git", "\u{b1}");
    s.branch = "master".to_string();
    s.ahead = 1;
    s.behind = 2;
    s.staged = 3;
    s.operations = vec!["MERGING"];
    s
}

#[test]
fn full_format_with_defaults() {
    let t = Templates::new();
    assert_eq!(
        format_full(&sample(), &t),
        " \u{b1}{blue}master{reset}\u{2193}2\u{2191}1|{red}MERGING{reset}|{blue}\u{271a}3{reset}"
    );
}

#[test]
fn full_format_clean() {
    let t = Templates::new();
    let s = Status::new("hg", "\u{263f}");
    assert_eq!(
        format_full(&s, &t),
        " \u{263f}{blue}<unknown>{reset}|{green}\u{2714}\u{fe0e}{reset}"
    );
}

#[test]
fn full_format_name_value() {
    let mut t = Templates::new();
    t.name = "{value}:".to_string();
    let mut s = Status::new("hg", "\u{263f}");
    s.untracked = 12;
    s.conflicts = 104;
    s.changed = 7;
    assert_eq!(
        format_full(&s, &t),
        " hg:{blue}<unknown>{reset}|{red}\u{2716}\u{fe0e}104{yellow}\u{21bb}7{magenta}\u{2026}12{reset}"
    );
}

#[test]
fn minimal_format() {
    let t = Templates::new();
    assert_eq!(
        format_minimal(&sample(), &t),
        " {blue}master{reset}\u{2193}2\u{2191}1{bold}{red}\u{b1}{reset}{reset}"
    );
    let mut s = Status::new("git", "\u{b1}");
    s.changed = 1;
    assert_eq!(
        format_minimal(&s, &t),
        " {blue}<unknown>{reset}{bold}{yellow}\u{b1}{reset}{reset}"
    );
    let s = Status::new("git", "\u{b1}");
    assert_eq!(
        format_minimal(&s, &t),
        " {blue}<unknown>{reset}{bold}{green}\u{b1}{reset}{reset}"
    );
}

#[test]
fn replace_all_occurrences() {
    assert_eq!(replace("a{value}b{value}", "{value}", "x"), "axbx");
    assert_eq!(replace("aaa", "aa", "b"), "ba");
    assert_eq!(replace("none", "{value}", "x"), "none");
}

#[test]
fn colors_become_escapes() {
    assert_eq!(colorize("{red}x{reset}"), "\u{1}\u{1b}[31mx\u{1}\u{1b}[22;39m");
    assert_eq!(colorize("{bold}{white}{nope}"), "\u{1}\u{1b}[1m\u{1}\u{1b}[37m{nope}");
}

#[test]
fn render_minimal() {
    let t = Templates::new();
    let s = Status::new("git", "\u{b1}");
    assert_eq!(
        render(&s, &t, OutputStyle::Minimal),
        " \u{1}\u{1b}[34m<unknown>\u{1}\u{1b}[22;39m\u{1}\u{1b}[1m\u{1}\u{1b}[32m\u{b1}\u{1}\u{1b}[22;39m\u{1}\u{1b}[22;39m"
    );
    assert_eq!(
        render(&s, &t, OutputStyle::Detailed),
        colorize(&format_full(&s, &t))
    );
}

#[test]
fn status_cleanliness() {
    let mut s = Status::new("git", "\u{b1}");
    assert!(s.is_clean());
    s.ahead = 5;
    s.operations = vec!["REBASE"];
    assert!(s.is_clean());
    s.untracked = 1;
    assert!(!s.is_clean());
}
