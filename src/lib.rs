//! Version-control status for shell prompts: parsing of Git and Mercurial
//! status output into a normalized record.

pub mod format;
pub mod git;
pub mod hg;
pub mod laws;
pub mod num;
pub mod text;
pub mod util;
pub mod vcs;
