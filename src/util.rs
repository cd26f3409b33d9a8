//! The normalized status record shared by the Git and Mercurial parsers.
use vstd::prelude::*;

verus! {

/// The current version-control status.
#[derive(PartialEq, Eq, Debug)]
pub struct Status {
    /// VCS name
    pub name: String,
    /// VCS symbol
    pub symbol: String,
    /// The branch name
    pub branch: String,
    /// Number of revisions we are ahead of upstream
    pub ahead: u32,
    /// Number of revisions we are behind upstream
    pub behind: u32,
    /// Number of staged files
    pub staged: u32,
    /// Number of modified/added/removed files
    pub changed: u32,
    /// Number of untracked files
    pub untracked: u32,
    /// Number of conflicts
    pub conflicts: u32,
    /// Ongoing operations (e.g., merging)
    pub operations: Vec<&'static str>,
}

/// The mathematical content of a `Status`.
pub struct StatusView {
    pub name: Seq<char>,
    pub symbol: Seq<char>,
    pub branch: Seq<char>,
    pub ahead: u32,
    pub behind: u32,
    pub staged: u32,
    pub changed: u32,
    pub untracked: u32,
    pub conflicts: u32,
    pub operations: Seq<Seq<char>>,
}

impl View for Status {
    type V = StatusView;

    open spec fn view(&self) -> StatusView {
        StatusView {
            name: self.name@,
            symbol: self.symbol@,
            branch: self.branch@,
            ahead: self.ahead,
            behind: self.behind,
            staged: self.staged,
            changed: self.changed,
            untracked: self.untracked,
            conflicts: self.conflicts,
            operations: self.operations@.map_values(|o: &'static str| o@),
        }
    }
}

/// The branch name used when none can be determined.
pub open spec fn unknown_branch() -> Seq<char> {
    "<unknown>"@
}

/// A record with the given name and symbol, unknown branch, all counts zero and
/// no operations.
pub open spec fn fresh(name: Seq<char>, symbol: Seq<char>) -> StatusView {
    StatusView {
        name,
        symbol,
        branch: unknown_branch(),
        ahead: 0,
        behind: 0,
        staged: 0,
        changed: 0,
        untracked: 0,
        conflicts: 0,
        operations: Seq::empty(),
    }
}

/// Adds one to a counter, staying at the largest value once it is reached.
pub open spec fn bump(n: u32) -> u32 {
    if n < u32::MAX {
        (n + 1) as u32
    } else {
        n
    }
}

/// Adds one to a counter, saturating at the largest value.
pub fn increment(n: &mut u32)
    ensures
        *final(n) == bump(*old(n)),
{
    if *n < u32::MAX {
        *n = *n + 1;
    }
}

/// Whether no file is staged, changed, untracked or in conflict.
pub open spec fn clean(s: StatusView) -> bool {
    s.staged == 0 && s.conflicts == 0 && s.changed == 0 && s.untracked == 0
}

impl Status {
    /// Create a new instance with the `<unknown>` branch and all counts `0`.
    pub fn new(name: &str, symbol: &str) -> (r: Status)
        ensures
            r@ == fresh(name@, symbol@),
    {
        let r = Status {
            name: name.to_string(),
            symbol: symbol.to_string(),
            branch: "<unknown>".to_string(),
            ahead: 0,
            behind: 0,
            staged: 0,
            changed: 0,
            untracked: 0,
            conflicts: 0,
            operations: Vec::new(),
        };
        assert(r@.operations =~= Seq::<Seq<char>>::empty());
        r
    }

    pub fn is_clean(&self) -> (r: bool)
        ensures
            r == clean(self@),
    {
        self.staged == 0 && self.conflicts == 0 && self.changed == 0 && self.untracked == 0
    }
}

} // verus!
