//! What a run prints and whether it stops, after each of its steps.
use vstd::prelude::*;

use crate::error::{error_message, joined, DocgenError};
use crate::text::{decimal, decimal_string};

verus! {

/// One line of output, for the error stream or the standard one.
pub struct Line {
    pub to_stderr: bool,
    pub text: String,
}

/// What a step of a run prints, and the exit code when the run stops there.
pub struct Outcome {
    pub lines: Vec<Line>,
    pub exit_code: Option<i32>,
}

/// The line is `text` on the given stream.
pub open spec fn line_is(l: Line, to_stderr: bool, text: Seq<char>) -> bool {
    l.to_stderr == to_stderr && l.text@ == text
}

/// The outcome prints exactly the one given line.
pub open spec fn prints_one(o: Outcome, to_stderr: bool, text: Seq<char>) -> bool {
    o.lines@.len() == 1 && line_is(o.lines@[0], to_stderr, text)
}

/// A step that prints nothing and lets the run go on.
fn go_on() -> (r: Outcome)
    ensures
        r.lines@.len() == 0,
        r.exit_code is None,
{
    Outcome { lines: Vec::new(), exit_code: None }
}

/// A step that prints one line, and stops with `code` when there is one.
fn say(to_stderr: bool, text: String, code: Option<i32>) -> (r: Outcome)
    ensures
        prints_one(r, to_stderr, text@),
        r.exit_code == code,
{
    let mut lines: Vec<Line> = Vec::new();
    lines.push(Line { to_stderr, text });
    Outcome { lines, exit_code: code }
}

/// The header printed before the list of changed files.
pub open spec fn dirty_header() -> Seq<char> {
    "error: working tree has uncommitted changes. Commit or stash before running docgen:"@
}

/// After the check for uncommitted changes: with changed files, list them on
/// the error stream and stop with code 1; else go on.
pub fn dirty_tree_outcome(dirty: &Vec<String>) -> (r: Outcome)
    ensures
        dirty@.len() == 0 ==> r.lines@.len() == 0 && r.exit_code is None,
        dirty@.len() > 0 ==> {
            &&& r.exit_code == Some(1i32)
            &&& r.lines@.len() == dirty@.len() + 1
            &&& line_is(r.lines@[0], true, dirty_header())
            &&& forall|k: int|
                0 <= k < dirty@.len() ==> line_is(#[trigger] r.lines@[k + 1], true, "  "@ + dirty@[k]@)
        },
{
    if dirty.len() == 0 {
        return go_on();
    }
    let mut lines: Vec<Line> = Vec::new();
    lines.push(
        Line {
            to_stderr: true,
            text: "error: working tree has uncommitted changes. Commit or stash before running docgen:".to_string(),
        },
    );
    let mut i: usize = 0;
    while i < dirty.len()
        invariant
            i <= dirty.len(),
            lines@.len() == i + 1,
            line_is(lines@[0], true, dirty_header()),
            forall|k: int| 0 <= k < i ==> line_is(#[trigger] lines@[k + 1], true, "  "@ + dirty@[k]@),
        decreases dirty.len() - i,
    {
        lines.push(Line { to_stderr: true, text: joined("  ", dirty[i].as_str()) });
        i = i + 1;
    }
    Outcome { lines, exit_code: Some(1) }
}

/// After the reachability check: when the server does not answer, say so
/// and stop with code 1.
pub fn reachability_outcome(reachable: bool, base_url: &str) -> (r: Outcome)
    ensures
        reachable ==> r.lines@.len() == 0 && r.exit_code is None,
        !reachable ==> prints_one(r, true, "error: vLLM not reachable at "@ + base_url@)
            && r.exit_code == Some(1i32),
{
    if reachable {
        go_on()
    } else {
        say(true, joined("error: vLLM not reachable at ", base_url), Some(1))
    }
}

/// After finding the model: name it, or print the error and stop with code 1.
pub fn model_outcome(model: &Result<String, DocgenError>) -> (r: Outcome)
    ensures
        match model {
            Ok(m) => prints_one(r, false, "Model: "@ + m@) && r.exit_code is None,
            Err(e) => prints_one(r, true, "error: "@ + error_message(*e)) && r.exit_code == Some(
                1i32,
            ),
        },
{
    match model {
        Ok(m) => say(false, joined("Model: ", m.as_str()), None),
        Err(e) => {
            let msg = e.message();
            say(true, joined("error: ", msg.as_str()), Some(1))
        },
    }
}

/// After finding the files: with none, warn and stop with code 2.
pub fn files_outcome(count: usize) -> (r: Outcome)
    ensures
        count == 0 ==> prints_one(r, false, "warning: no Python or TypeScript files found."@)
            && r.exit_code == Some(2i32),
        count > 0 ==> r.lines@.len() == 0 && r.exit_code is None,
{
    if count == 0 {
        say(false, "warning: no Python or TypeScript files found.".to_string(), Some(2))
    } else {
        go_on()
    }
}

/// After picking the files that need docstrings: with none, say there is
/// nothing to do and stop with code 2; else announce the work.
pub fn pending_outcome(count: usize, batch_size: usize) -> (r: Outcome)
    ensures
        count == 0 ==> prints_one(
            r,
            false,
            "nothing to do — all files already documented."@,
        ) && r.exit_code == Some(2i32),
        count > 0 ==> prints_one(
            r,
            false,
            "Processing "@ + decimal(count as nat) + " file(s) in batches of "@ + decimal(
                batch_size as nat,
            ) + "..."@,
        ) && r.exit_code is None,
{
    if count == 0 {
        return say(false, "nothing to do — all files already documented.".to_string(), Some(2));
    }
    let mut s = "Processing ".to_string();
    let c = decimal_string(count as u64);
    s.append(c.as_str());
    s.append(" file(s) in batches of ");
    let b = decimal_string(batch_size as u64);
    s.append(b.as_str());
    s.append("...");
    say(false, s, None)
}

/// After asking the model: with no new text, warn and stop with code 1;
/// else announce the git step.
pub fn patches_outcome(count: usize) -> (r: Outcome)
    ensures
        count == 0 ==> prints_one(r, true, "warning: no files were successfully processed."@)
            && r.exit_code == Some(1i32),
        count > 0 ==> prints_one(r, false, "Applying changes via git branch..."@)
            && r.exit_code is None,
{
    if count == 0 {
        say(true, "warning: no files were successfully processed.".to_string(), Some(1))
    } else {
        say(false, "Applying changes via git branch...".to_string(), None)
    }
}

/// After the git step: report the error and stop with code 1, or report
/// success.
pub fn apply_outcome(result: &Result<(), String>) -> (r: Outcome)
    ensures
        match result {
            Ok(()) => prints_one(r, false, "Done. Docstrings applied."@) && r.exit_code is None,
            Err(e) => prints_one(r, true, "error: git error: "@ + e@) && r.exit_code == Some(1i32),
        },
{
    match result {
        Ok(()) => say(false, "Done. Docstrings applied.".to_string(), None),
        Err(e) => say(true, joined("error: git error: ", e.as_str()), Some(1)),
    }
}

} // verus!
