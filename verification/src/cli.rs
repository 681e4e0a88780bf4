//! The command line of a run.
use vstd::prelude::*;

verus! {

/// What the command line asks for.
pub struct Cli {
    /// The file or folder to process.
    pub target: String,
    /// The docstring format (`--format`), when one is given.
    pub fmt: Option<String>,
    /// Whether to look into subfolders (`--recursive`, `-r`).
    pub recursive: bool,
    /// Whether to rewrite existing docstrings too (`--force`).
    pub force: bool,
}

} // verus!
