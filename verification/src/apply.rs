//! The names and checks of the git workflow that applies the new texts on a
//! branch of its own and merges it back.
use vstd::prelude::*;

use crate::error::joined;

verus! {

/// The message of the commit that holds the new texts.
pub const DOCS_COMMIT_MESSAGE: &'static str = "docs: add docstrings via docgen";

/// The name of the commits' author.
pub const SIGNATURE_NAME: &'static str = "docgen";

/// The e-mail address of the commits' author.
pub const SIGNATURE_EMAIL: &'static str = "docgen@localhost";

/// The name of the branch that takes the new texts, from the local time
/// written as `%Y%m%d-%H%M%S`.
pub fn feature_branch_name(timestamp: &str) -> (r: String)
    ensures
        r@ == "docgen/"@ + timestamp@,
{
    joined("docgen/", timestamp)
}

/// The reference of a local branch.
pub fn branch_ref(branch: &str) -> (r: String)
    ensures
        r@ == "refs/heads/"@ + branch@,
{
    joined("refs/heads/", branch)
}

/// The message of the merge commit of a branch.
pub fn merge_message(branch: &str) -> (r: String)
    ensures
        r@ == "docs: merge "@ + branch@,
{
    joined("docs: merge ", branch)
}

/// The message when HEAD is not on a named branch.
pub open spec fn detached_head_message() -> Seq<char> {
    "docgen requires a named branch (HEAD is detached)"@
}

/// The message when the merge back conflicts.
pub open spec fn conflict_message() -> Seq<char> {
    "merge conflict — manual resolution required"@
}

/// The branch to come back to: the short name of HEAD, which must be a
/// non-empty name.
pub fn original_branch(shorthand: Option<&str>) -> (r: Result<String, String>)
    ensures
        match shorthand {
            Some(s) if s@.len() > 0 => r matches Ok(b) && b@ == s@,
            _ => r matches Err(e) && e@ == detached_head_message(),
        },
{
    match shorthand {
        Some(s) => {
            if s.is_empty() {
                Err("docgen requires a named branch (HEAD is detached)".to_string())
            } else {
                Ok(s.to_string())
            }
        },
        None => Err("docgen requires a named branch (HEAD is detached)".to_string()),
    }
}

/// Whether the merge back may be committed: not when it conflicts.
pub fn merge_allowed(has_conflicts: bool) -> (r: Result<(), String>)
    ensures
        has_conflicts <==> r is Err,
        r matches Err(e) ==> e@ == conflict_message(),
{
    if has_conflicts {
        Err("merge conflict — manual resolution required".to_string())
    } else {
        Ok(())
    }
}

} // verus!
