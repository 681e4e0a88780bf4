//! Detects source files that lack docstrings, prepares the prompts that ask a
//! language model to write them, and decides every step of the command-line
//! workflow around them.
use vstd::prelude::*;

pub mod apply;
pub mod cli;
pub mod config;
pub mod detect;
pub mod error;
pub mod git;
pub mod llm;
pub mod paths;
pub mod process;
pub mod resolver;
pub mod run;
pub mod tailwind;
pub mod syntax;
pub mod text;

verus! {

} // verus!
