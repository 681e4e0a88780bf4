//! The request that asks the language model to document one file.
use vstd::prelude::*;

use crate::detect::{
    candidates_view, tsx_candidates_result, tsx_get_container_candidates,
    CandidateView, ContainerCandidate,
};
use crate::paths::{extension_is, has_extension};
use crate::text::{decimal, strings_view};

verus! {

/// The new text of one file.
pub struct PatchResult {
    pub path: String,
    pub content: String,
}

/// How `{:?}` writes one string: quoted, with its special characters
/// escaped.
pub uninterp spec fn debug_str(text: Seq<char>) -> Seq<char>;

/// Writes `text` with `format!("{:?}", text)`. The contract only names the
/// result (`debug_str`): it is std's `Debug` of `str`.
#[verifier::external_body]
fn debug_str_text(text: &str) -> (r: String)
    ensures
        r@ == debug_str(text@),
{
    format!("{:?}", text)
}

/// The items written one after the other, separated by `, `.
pub open spec fn debug_items(items: Seq<Seq<char>>) -> Seq<char>
    decreases items.len(),
{
    if items.len() == 0 {
        Seq::empty()
    } else if items.len() == 1 {
        debug_str(items[0])
    } else {
        debug_items(items.drop_last()) + ", "@ + debug_str(items.last())
    }
}

/// How `{:?}` writes a list of strings: in brackets, each written as a
/// string and separated by `, `.
pub open spec fn debug_list(items: Seq<Seq<char>>) -> Seq<char> {
    "["@ + debug_items(items) + "]"@
}

/// Writes a list of strings as `{:?}` does.
fn debug_list_text(items: &Vec<String>) -> (r: String)
    ensures
        r@ == debug_list(strings_view(items@)),
{
    let mut s = "[".to_string();
    let mut i: usize = 0;
    while i < items.len()
        invariant
            i <= items.len(),
            s@ == "["@ + debug_items(strings_view(items@).take(i as int)),
        decreases items.len() - i,
    {
        if i > 0 {
            append_str(&mut s, ", ");
        }
        let d = debug_str_text(items[i].as_str());
        append_str(&mut s, d.as_str());
        proof {
            let v = strings_view(items@);
            assert(v.take(i + 1).drop_last() =~= v.take(i as int));
            assert(v.take(i + 1).last() == items@[i as int]@);
            if i == 0 {
                assert(v.take(0) =~= Seq::<Seq<char>>::empty());
            }
        }
        i = i + 1;
    }
    append_str(&mut s, "]");
    assert(strings_view(items@).take(items.len() as int) =~= strings_view(items@));
    s
}

/// The line that describes one container candidate.
pub open spec fn candidate_line(c: CandidateView) -> Seq<char> {
    "Container returned by '"@ + c.component_name + "' at line "@ + decimal(c.return_line as nat)
        + ": <"@ + c.element_type + "> children: "@ + debug_list(c.children)
}

/// The lines of `cs`, each followed by a newline but the last.
pub open spec fn candidate_lines(cs: Seq<CandidateView>) -> Seq<char>
    decreases cs.len(),
{
    if cs.len() == 0 {
        Seq::empty()
    } else if cs.len() == 1 {
        candidate_line(cs[0])
    } else {
        candidate_lines(cs.drop_last()) + "\n"@ + candidate_line(cs.last())
    }
}

/// Appends `more` to `s`.
fn append_str(s: &mut String, more: &str)
    ensures
        final(s)@ == old(s)@ + more@,
{
    s.append(more);
}

/// The line that describes one container candidate.
pub fn describe_candidate(c: &ContainerCandidate) -> (r: String)
    ensures
        r@ == candidate_line(c@),
{
    let mut s = "Container returned by '".to_string();
    append_str(&mut s, c.component_name.as_str());
    append_str(&mut s, "' at line ");
    let n = crate::text::decimal_string(c.return_line as u64);
    append_str(&mut s, n.as_str());
    append_str(&mut s, ": <");
    append_str(&mut s, c.element_type.as_str());
    append_str(&mut s, "> children: ");
    let d = debug_list_text(&c.children);
    append_str(&mut s, d.as_str());
    s
}

/// The description of the container candidates of a file, one line each,
/// when there are any.
pub fn container_context(candidates: &Vec<ContainerCandidate>) -> (r: Option<String>)
    ensures
        match r {
            Some(s) => candidates@.len() > 0 && s@ == candidate_lines(candidates_view(candidates@)),
            None => candidates@.len() == 0,
        },
{
    if candidates.len() == 0 {
        return None;
    }
    let mut s = describe_candidate(&candidates[0]);
    let mut i: usize = 1;
    assert(candidates_view(candidates@).take(1) =~= seq![candidates@[0]@]);
    while i < candidates.len()
        invariant
            1 <= i <= candidates.len(),
            s@ == candidate_lines(candidates_view(candidates@).take(i as int)),
        decreases candidates.len() - i,
    {
        append_str(&mut s, "\n");
        let line = describe_candidate(&candidates[i]);
        append_str(&mut s, line.as_str());
        assert(candidates_view(candidates@).take(i + 1).drop_last() == candidates_view(
            candidates@,
        ).take(i as int));
        i = i + 1;
    }
    assert(candidates_view(candidates@).take(candidates.len() as int) == candidates_view(
        candidates@,
    ));
    Some(s)
}

/// What the model is asked to do.
pub open spec fn action_text(force: bool) -> Seq<char> {
    if force {
        "Replace all existing docstrings and add missing ones"@
    } else {
        "Add docstrings to all functions and classes that are missing them"@
    }
}

/// The docstring format: the one asked for, else `mkdocs` for Python files
/// and `tsdoc` for others.
pub open spec fn format_text(path: Seq<char>, fmt: Option<Seq<char>>) -> Seq<char> {
    match fmt {
        Some(f) => f,
        None => if has_extension(path, "py"@) {
            "mkdocs"@
        } else {
            "tsdoc"@
        },
    }
}

/// The language of the file.
pub open spec fn language_text(path: Seq<char>) -> Seq<char> {
    if has_extension(path, "py"@) {
        "Python"@
    } else {
        "TypeScript"@
    }
}

/// The instruction about container components, given when Tailwind is used,
/// the file is TSX, and it has container candidates.
pub open spec fn container_instruction(path: Seq<char>, source: Seq<char>, tailwind: bool) -> Seq<
    char,
> {
    if tailwind && has_extension(path, "tsx"@) && tsx_candidates_result(source).len() > 0 {
        "\n\nAlso add JSDoc /** */ comments above container JSX components that are direct returns using pattern: location-elementtype-purpose (e.g., 'top-menu-nav'). Skip atomic HTML elements like <div>, <span>, and common UI components like <Button>, <Input>."@
    } else {
        Seq::empty()
    }
}

/// The prompt that asks the model to document the file `path` with the text
/// `source`.
pub open spec fn prompt_text(
    path: Seq<char>,
    source: Seq<char>,
    fmt: Option<Seq<char>>,
    force: bool,
    tailwind: bool,
) -> Seq<char> {
    action_text(force) + " using "@ + format_text(path, fmt) + " format in the following "@
        + language_text(path)
        + " source code. Return ONLY the complete patched source code with no explanation and no markdown fences.\n\n"@
        + source + container_instruction(path, source, tailwind)
}

/// Without an asked-for format, a Python file (`.py`) is documented in
/// `mkdocs` and any other file, `.ts` and `.tsx` files among them, in
/// `tsdoc`: the prompt is the one that asks for that format. An asked-for
/// format is named as it is, and the language named is Python for a `.py`
/// file and TypeScript for any other.
pub proof fn law_prompt_format(
    path: Seq<char>,
    source: Seq<char>,
    fmt: Option<Seq<char>>,
    force: bool,
    tailwind: bool,
)
    ensures
        has_extension(path, "py"@) ==> prompt_text(path, source, None, force, tailwind)
            == prompt_text(path, source, Some("mkdocs"@), force, tailwind),
        !has_extension(path, "py"@) ==> prompt_text(path, source, None, force, tailwind)
            == prompt_text(path, source, Some("tsdoc"@), force, tailwind),
        has_extension(path, "ts"@) || has_extension(path, "tsx"@) ==> prompt_text(
            path,
            source,
            None,
            force,
            tailwind,
        ) == prompt_text(path, source, Some("tsdoc"@), force, tailwind),
        fmt matches Some(f) ==> prompt_text(path, source, fmt, force, tailwind) == action_text(
            force,
        ) + " using "@ + f + " format in the following "@ + (if has_extension(path, "py"@) {
            "Python"@
        } else {
            "TypeScript"@
        }) + " source code. Return ONLY the complete patched source code with no explanation and no markdown fences.\n\n"@
            + source + container_instruction(path, source, tailwind),
{
    reveal_strlit("py");
    reveal_strlit("ts");
    reveal_strlit("tsx");
    if has_extension(path, "ts"@) {
        assert("ts"@ != "py"@) by {
            assert("ts"@[0] != "py"@[0]);
        }
    }
    if has_extension(path, "tsx"@) {
        assert("tsx"@.len() != "py"@.len());
    }
}

/// The text of an optional string slice.
pub open spec fn opt_str(o: Option<&str>) -> Option<Seq<char>> {
    match o {
        Some(s) => Some(s@),
        None => None,
    }
}

/// The prompt that asks the model to document the file `path` with the text
/// `source`, in the format `fmt` when one is given, replacing existing
/// docstrings with `force`, and, when the project uses Tailwind, asking for
/// comments on the container components of TSX files.
pub fn build_prompt(
    path: &str,
    source: &str,
    fmt: Option<&str>,
    force: bool,
    tailwind_enabled: bool,
) -> (r: String)
    ensures
        r@ == prompt_text(path@, source@, opt_str(fmt), force, tailwind_enabled),
{
    let is_py = extension_is(path, "py");
    let is_tsx = extension_is(path, "tsx");
    let mut s = if force {
        "Replace all existing docstrings and add missing ones".to_string()
    } else {
        "Add docstrings to all functions and classes that are missing them".to_string()
    };
    append_str(&mut s, " using ");
    match fmt {
        Some(f) => append_str(&mut s, f),
        None => {
            if is_py {
                append_str(&mut s, "mkdocs");
            } else {
                append_str(&mut s, "tsdoc");
            }
        },
    }
    append_str(&mut s, " format in the following ");
    if is_py {
        append_str(&mut s, "Python");
    } else {
        append_str(&mut s, "TypeScript");
    }
    append_str(
        &mut s,
        " source code. Return ONLY the complete patched source code with no explanation and no markdown fences.\n\n",
    );
    append_str(&mut s, source);
    let context = if tailwind_enabled && is_tsx {
        let candidates = tsx_get_container_candidates(source);
        container_context(&candidates)
    } else {
        None
    };
    if context.is_some() {
        append_str(
            &mut s,
            "\n\nAlso add JSDoc /** */ comments above container JSX components that are direct returns using pattern: location-elementtype-purpose (e.g., 'top-menu-nav'). Skip atomic HTML elements like <div>, <span>, and common UI components like <Button>, <Input>.",
        );
    }
    s
}

} // verus!
