//! Finds functions and classes that lack a docstring, and TSX components
//! whose returned JSX is a container of other components.
use vstd::prelude::*;

use crate::paths::{extension, has_extension, path_extension};
use crate::syntax::{
    char_index_at_byte, char_index_exec, child_by_field, child_by_field_exec, child_step,
    first_child_of_kind, first_named_child, first_named_child_exec, index_of, kind_is, kind_node,
    node_text, node_text_exec, parse_python, parse_tsx, parse_typescript, python_syntax,
    scan_children, tsx_syntax, typescript_syntax, SyntaxNode,
};
use crate::text::{
    chars_of, ends_with, is_space, lemma_trim_end_shape, occurs_at_exec, strings_view, text_eq,
    trim_end, trim_end_len,
};

verus! {

/// A function or class definition of Python.
pub open spec fn is_python_def(n: SyntaxNode) -> bool {
    n.named && (n.kind@ == "function_definition"@ || n.kind@ == "class_definition"@)
}

/// The definition at `d` opens its body with a string statement.
pub open spec fn python_docstring(t: Seq<SyntaxNode>, d: int) -> bool {
    match child_by_field(t, d, "body"@) {
        Some(b) => match first_named_child(t, b) {
            Some(s) => t[s].kind@ == "expression_statement"@ && match first_named_child(t, s) {
                Some(e) => t[e].kind@ == "string"@,
                None => false,
            },
            None => false,
        },
        None => false,
    }
}

/// Some definition of the tree lacks a docstring, or, with `force`, the
/// tree holds any definition.
pub open spec fn python_missing(t: Seq<SyntaxNode>, force: bool) -> bool {
    exists|d: int| 0 <= d < t.len() && is_python_def(#[trigger] t[d]) && (force || !python_docstring(t, d))
}

/// What the detection gives for Python source text.
pub open spec fn python_result(source: Seq<char>, force: bool) -> bool {
    match python_syntax(source) {
        Some(t) => python_missing(t, force),
        None => false,
    }
}

/// A function, method or class declaration of TypeScript.
pub open spec fn is_ts_def(n: SyntaxNode) -> bool {
    n.named && (n.kind@ == "function_declaration"@ || n.kind@ == "method_definition"@
        || n.kind@ == "class_declaration"@)
}

/// The nearest node at index `k` or before that is shallower than the node
/// at `d`: its parent, when `k` is `d - 1`.
pub open spec fn enclosing_from(t: Seq<SyntaxNode>, d: int, k: int) -> Option<int>
    decreases k + 1,
{
    if k < 0 {
        None
    } else if t[k].depth < t[d].depth {
        Some(k)
    } else {
        enclosing_from(t, d, k - 1)
    }
}

/// The parent of the node at `d`.
pub open spec fn parent_of(t: Seq<SyntaxNode>, d: int) -> Option<int> {
    enclosing_from(t, d, d - 1)
}

/// Where the doc comment of the declaration at `d` stands: before the
/// `export` statement that holds the declaration, if there is one, else
/// before the declaration itself.
pub open spec fn comment_anchor(t: Seq<SyntaxNode>, d: int) -> int {
    match parent_of(t, d) {
        Some(p) => if t[p].kind@ == "export_statement"@ {
            p
        } else {
            d
        },
        None => d,
    }
}

/// The text before the declaration at `d` (before its `export` statement,
/// when it is exported), without its trailing whitespace, ends with `*/`. A
/// start that is not on a character boundary, where tree-sitter never places
/// a node, counts as no comment.
pub open spec fn jsdoc_before(t: Seq<SyntaxNode>, src: Seq<char>, d: int) -> bool {
    match char_index_at_byte(src, t[comment_anchor(t, d)].start_byte as int) {
        Some(i) => ends_with(trim_end(src.take(i)), "*/"@),
        None => false,
    }
}

/// A declaration counts as documented exactly when the text before it
/// (before the `export` statement that holds it, when there is one) ends
/// with `*/` followed by nothing but whitespace.
pub proof fn law_jsdoc_is_comment_then_whitespace(t: Seq<SyntaxNode>, src: Seq<char>, d: int)
    requires
        0 <= d < t.len(),
    ensures
        jsdoc_before(t, src, d) <==> match char_index_at_byte(
            src,
            t[match parent_of(t, d) {
                Some(p) => if t[p].kind@ == "export_statement"@ {
                    p
                } else {
                    d
                },
                None => d,
            }].start_byte as int,
        ) {
            Some(i) => exists|q: int|
                1 <= q < i && src[q - 1] == '*' && #[trigger] src[q] == '/' && forall|k: int|
                    q < k < i ==> is_space(#[trigger] src[k]),
            None => false,
        },
{
    reveal_strlit("*/");
    let a = comment_anchor(t, d);
    if let Some(i) = char_index_at_byte(src, t[a].start_byte as int) {
        let u = src.take(i);
        let m = lemma_trim_end_shape(u);
        let w = trim_end(u);
        if ends_with(w, "*/"@) {
            assert(w.subrange(m - 2, m) == "*/"@);
            assert(w.subrange(m - 2, m)[0] == u[m - 2]);
            assert(w.subrange(m - 2, m)[1] == u[m - 1]);
            let q = m - 1;
            assert(src[q] == u[q]);
            assert(src[q - 1] == u[q - 1]);
            assert forall|k: int| q < k < i implies is_space(#[trigger] src[k]) by {
                assert(src[k] == u[k]);
            }
        }
        if exists|q: int|
            1 <= q < i && src[q - 1] == '*' && #[trigger] src[q] == '/' && forall|k: int|
                q < k < i ==> is_space(#[trigger] src[k]) {
            let q = choose|q: int|
                1 <= q < i && src[q - 1] == '*' && #[trigger] src[q] == '/' && forall|k: int|
                    q < k < i ==> is_space(#[trigger] src[k]);
            assert(u[q] == src[q]);
            assert(!is_space('/'));
            if m < q + 1 {
                assert(is_space(u[q]));
            }
            if m > q + 1 {
                assert(u[m - 1] == src[m - 1]);
                assert(is_space(src[m - 1]));
            }
            assert(m == q + 1);
            assert(w.subrange(m - 2, m) =~= "*/"@);
        }
    }
}

/// Some declaration of the tree has no doc comment, or, with `force`, the
/// tree holds any declaration.
pub open spec fn ts_missing(t: Seq<SyntaxNode>, src: Seq<char>, force: bool) -> bool {
    exists|d: int| 0 <= d < t.len() && is_ts_def(#[trigger] t[d]) && (force || !jsdoc_before(t, src, d))
}

/// What the detection gives for TypeScript source text.
pub open spec fn ts_result(source: Seq<char>, force: bool) -> bool {
    match typescript_syntax(source) {
        Some(t) => ts_missing(t, source, force),
        None => false,
    }
}

/// What `needs_docstrings` decides for the file `file` with the text `source`.
pub open spec fn needs_docstrings_spec(file: Seq<char>, source: Seq<char>, force: bool) -> bool {
    if has_extension(file, "py"@) {
        python_result(source, force)
    } else if has_extension(file, "ts"@) || has_extension(file, "tsx"@) {
        ts_result(source, force)
    } else {
        false
    }
}

/// Python files (`.py`) are checked as Python, `.ts` and `.tsx` files as
/// TypeScript, and a file with any other extension, or none, never needs
/// docstrings.
pub proof fn law_needs_docstrings_by_extension(file: Seq<char>, source: Seq<char>, force: bool)
    ensures
        path_extension(file) == Some("py"@) ==> needs_docstrings_spec(file, source, force)
            == python_result(source, force),
        path_extension(file) == Some("ts"@) || path_extension(file) == Some("tsx"@)
            ==> needs_docstrings_spec(file, source, force) == ts_result(source, force),
        path_extension(file) != Some("py"@) && path_extension(file) != Some("ts"@)
            && path_extension(file) != Some("tsx"@) ==> !needs_docstrings_spec(file, source, force),
{
    reveal_strlit("py");
    reveal_strlit("ts");
    reveal_strlit("tsx");
    assert("ts"@ != "py"@) by {
        assert("ts"@[0] != "py"@[0]);
    }
    assert("tsx"@.len() != "py"@.len());
}

/// `force` only adds files: a file that needs docstrings without it needs
/// them with it; and with it, a Python or TypeScript file is flagged exactly
/// when it holds a definition at all.
pub proof fn law_force_flags_more(file: Seq<char>, source: Seq<char>)
    ensures
        needs_docstrings_spec(file, source, false) ==> needs_docstrings_spec(file, source, true),
        python_result(source, false) ==> python_result(source, true),
        ts_result(source, false) ==> ts_result(source, true),
        python_syntax(source) matches Some(t) ==> (python_result(source, true) <==> exists|d: int|
            0 <= d < t.len() && is_python_def(#[trigger] t[d])),
        typescript_syntax(source) matches Some(t) ==> (ts_result(source, true) <==> exists|d: int|
            0 <= d < t.len() && is_ts_def(#[trigger] t[d])),
{
}

/// Whether the definition at `d` opens its body with a docstring.
pub fn python_docstring_exec(t: &Vec<SyntaxNode>, d: usize) -> (r: bool)
    requires
        d < t.len(),
    ensures
        r == python_docstring(t@, d as int),
{
    match child_by_field_exec(t, d, "body") {
        Some(b) => match first_named_child_exec(t, b) {
            Some(s) => kind_is(t, s, "expression_statement") && match first_named_child_exec(
                t,
                s,
            ) {
                Some(e) => kind_is(t, e, "string"),
                None => false,
            },
            None => false,
        },
        None => false,
    }
}

/// Whether a node is a Python function or class definition.
fn is_python_def_exec(t: &Vec<SyntaxNode>, d: usize) -> (r: bool)
    requires
        d < t.len(),
    ensures
        r == is_python_def(t@[d as int]),
{
    t[d].named && (kind_is(t, d, "function_definition") || kind_is(t, d, "class_definition"))
}

/// Whether a Python tree holds a definition without a docstring (or, with
/// `force`, any definition).
pub fn python_tree_missing_docstrings(t: &Vec<SyntaxNode>, force: bool) -> (r: bool)
    ensures
        r == python_missing(t@, force),
{
    let mut d: usize = 0;
    while d < t.len()
        invariant
            d <= t.len(),
            forall|j: int|
                0 <= j < d ==> !(is_python_def(#[trigger] t@[j]) && (force || !python_docstring(
                    t@,
                    j,
                ))),
        decreases t.len() - d,
    {
        if is_python_def_exec(t, d) {
            if force || !python_docstring_exec(t, d) {
                return true;
            }
        }
        d = d + 1;
    }
    false
}

/// Whether Python source text has a function or class without a docstring
/// (with `force`: any function or class at all).
pub fn python_has_missing_docstrings(source: &str, force: bool) -> (r: bool)
    ensures
        r == python_result(source@, force),
{
    match parse_python(source) {
        Some(t) => python_tree_missing_docstrings(&t, force),
        None => false,
    }
}

/// A TypeScript text is flagged exactly when some function declaration,
/// method definition or class declaration, wherever it stands, has no
/// `/** ... */` comment before it (or before the `export` statement that
/// holds it); with `force`, exactly when it holds any of them.
pub proof fn law_ts_flagged_by_any_undocumented_declaration(source: Seq<char>, t: Seq<SyntaxNode>)
    requires
        typescript_syntax(source) == Some(t),
    ensures
        ts_result(source, false) <==> exists|d: int|
            0 <= d < t.len() && (#[trigger] t[d]).named && (t[d].kind@ == "function_declaration"@
                || t[d].kind@ == "method_definition"@ || t[d].kind@ == "class_declaration"@)
                && !jsdoc_before(t, source, d),
        ts_result(source, true) <==> exists|d: int|
            0 <= d < t.len() && (#[trigger] t[d]).named && (t[d].kind@ == "function_declaration"@
                || t[d].kind@ == "method_definition"@ || t[d].kind@ == "class_declaration"@),
{
    if ts_result(source, false) {
        let d = choose|d: int| 0 <= d < t.len() && is_ts_def(#[trigger] t[d]) && !jsdoc_before(t, source, d);
        assert(t[d].named);
    }
    if exists|d: int|
        0 <= d < t.len() && (#[trigger] t[d]).named && (t[d].kind@ == "function_declaration"@
            || t[d].kind@ == "method_definition"@ || t[d].kind@ == "class_declaration"@)
            && !jsdoc_before(t, source, d) {
        let d = choose|d: int|
            0 <= d < t.len() && (#[trigger] t[d]).named && (t[d].kind@ == "function_declaration"@
                || t[d].kind@ == "method_definition"@ || t[d].kind@ == "class_declaration"@)
                && !jsdoc_before(t, source, d);
        assert(is_ts_def(t[d]));
    }
    if ts_result(source, true) {
        let d = choose|d: int| 0 <= d < t.len() && is_ts_def(#[trigger] t[d]);
        assert(t[d].named);
    }
    if exists|d: int|
        0 <= d < t.len() && (#[trigger] t[d]).named && (t[d].kind@ == "function_declaration"@
            || t[d].kind@ == "method_definition"@ || t[d].kind@ == "class_declaration"@) {
        let d = choose|d: int|
            0 <= d < t.len() && (#[trigger] t[d]).named && (t[d].kind@ == "function_declaration"@
                || t[d].kind@ == "method_definition"@ || t[d].kind@ == "class_declaration"@);
        assert(is_ts_def(t[d]));
    }
}

/// A Python text is flagged exactly when some function or class
/// definition, wherever it stands, does not open its body with a string
/// statement; with `force`, exactly when it holds any definition.
pub proof fn law_python_flagged_by_any_undocumented_definition(source: Seq<char>, t: Seq<SyntaxNode>)
    requires
        python_syntax(source) == Some(t),
    ensures
        python_result(source, false) <==> exists|d: int|
            0 <= d < t.len() && (#[trigger] t[d]).named && (t[d].kind@ == "function_definition"@
                || t[d].kind@ == "class_definition"@) && !python_docstring(t, d),
        python_result(source, true) <==> exists|d: int|
            0 <= d < t.len() && (#[trigger] t[d]).named && (t[d].kind@ == "function_definition"@
                || t[d].kind@ == "class_definition"@),
{
    if python_result(source, false) {
        let d = choose|d: int| 0 <= d < t.len() && is_python_def(#[trigger] t[d]) && !python_docstring(t, d);
        assert(t[d].named);
    }
    if exists|d: int|
        0 <= d < t.len() && (#[trigger] t[d]).named && (t[d].kind@ == "function_definition"@
            || t[d].kind@ == "class_definition"@) && !python_docstring(t, d) {
        let d = choose|d: int|
            0 <= d < t.len() && (#[trigger] t[d]).named && (t[d].kind@ == "function_definition"@
                || t[d].kind@ == "class_definition"@) && !python_docstring(t, d);
        assert(is_python_def(t[d]));
    }
    if python_result(source, true) {
        let d = choose|d: int| 0 <= d < t.len() && is_python_def(#[trigger] t[d]);
        assert(t[d].named);
    }
    if exists|d: int|
        0 <= d < t.len() && (#[trigger] t[d]).named && (t[d].kind@ == "function_definition"@
            || t[d].kind@ == "class_definition"@) {
        let d = choose|d: int|
            0 <= d < t.len() && (#[trigger] t[d]).named && (t[d].kind@ == "function_definition"@
                || t[d].kind@ == "class_definition"@);
        assert(is_python_def(t[d]));
    }
}

/// Whether a node is a TypeScript function, method or class declaration.
fn is_ts_def_exec(t: &Vec<SyntaxNode>, d: usize) -> (r: bool)
    requires
        d < t.len(),
    ensures
        r == is_ts_def(t@[d as int]),
{
    t[d].named && (kind_is(t, d, "function_declaration") || kind_is(t, d, "method_definition")
        || kind_is(t, d, "class_declaration"))
}

/// The parent of the node at `d`.
fn parent_exec(t: &Vec<SyntaxNode>, d: usize) -> (r: Option<usize>)
    requires
        d < t.len(),
    ensures
        index_of(r) == parent_of(t@, d as int),
        r matches Some(p) ==> p < d,
{
    let mut j: usize = d;
    while j > 0
        invariant
            j <= d < t.len(),
            parent_of(t@, d as int) == enclosing_from(t@, d as int, j - 1),
        decreases j,
    {
        if t[j - 1].depth < t[d].depth {
            return Some(j - 1);
        }
        j = j - 1;
    }
    None
}

/// Where the doc comment of the declaration at `d` stands.
fn comment_anchor_exec(t: &Vec<SyntaxNode>, d: usize) -> (r: usize)
    requires
        d < t.len(),
    ensures
        r == comment_anchor(t@, d as int),
        r < t.len(),
{
    match parent_exec(t, d) {
        Some(p) => if kind_is(t, p, "export_statement") {
            p
        } else {
            d
        },
        None => d,
    }
}

/// Whether the text before the declaration at `d` (before its `export`
/// statement, when it is exported) ends, past whitespace, with the end of a
/// comment `close` (`*/`).
pub fn jsdoc_before_exec(t: &Vec<SyntaxNode>, src: &Vec<char>, d: usize, close: &Vec<char>) -> (r:
    bool)
    requires
        d < t.len(),
        close@ == "*/"@,
    ensures
        r == jsdoc_before(t@, src@, d as int),
{
    let a = comment_anchor_exec(t, d);
    match char_index_exec(src, t[a].start_byte) {
        Some(i) => {
            let m = trim_end_len(src, i);
            if close.len() > m {
                return false;
            }
            let r = occurs_at_exec(src, close, m - close.len());
            assert(src@.take(m as int).subrange(m - close.len(), m as int) == src@.subrange(
                m - close.len(),
                m as int,
            ));
            r
        },
        None => false,
    }
}

/// Whether a TypeScript tree of the text `src` holds a declaration without
/// a doc comment (or, with `force`, any declaration).
pub fn ts_tree_missing_docstrings(t: &Vec<SyntaxNode>, src: &Vec<char>, force: bool) -> (r: bool)
    ensures
        r == ts_missing(t@, src@, force),
{
    let close = chars_of("*/");
    let mut d: usize = 0;
    while d < t.len()
        invariant
            d <= t.len(),
            close@ == "*/"@,
            forall|j: int|
                0 <= j < d ==> !(is_ts_def(#[trigger] t@[j]) && (force || !jsdoc_before(
                    t@,
                    src@,
                    j,
                ))),
        decreases t.len() - d,
    {
        if is_ts_def_exec(t, d) {
            if force || !jsdoc_before_exec(t, src, d, &close) {
                return true;
            }
        }
        d = d + 1;
    }
    false
}

/// Whether TypeScript source text has a function, method or class without
/// a `/** ... */` comment before it, or before the `export` statement that
/// holds it (with `force`: any at all).
pub fn ts_has_missing_docstrings(source: &str, force: bool) -> (r: bool)
    ensures
        r == ts_result(source@, force),
{
    match parse_typescript(source) {
        Some(t) => {
            let src = chars_of(source);
            ts_tree_missing_docstrings(&t, &src, force)
        },
        None => false,
    }
}

/// Whether the file `file` with the text `source` needs docstrings: Python
/// files (`.py`) and TypeScript files (`.ts`, `.tsx`) are checked, any other
/// file does not.
pub fn needs_docstrings(file: &str, source: &str, force: bool) -> (r: bool)
    ensures
        r == needs_docstrings_spec(file@, source@, force),
{
    match extension(file) {
        Some(ext) => {
            if text_eq(ext.as_str(), "py") {
                python_has_missing_docstrings(source, force)
            } else if text_eq(ext.as_str(), "ts") || text_eq(ext.as_str(), "tsx") {
                ts_has_missing_docstrings(source, force)
            } else {
                false
            }
        },
        None => false,
    }
}

/// A TSX component whose returned JSX element is a container: an element
/// that is no plain HTML tag nor basic UI component, and that holds at least
/// two self-closing child components.
#[derive(Debug)]
pub struct ContainerCandidate {
    /// The name of the function or arrow-function variable.
    pub component_name: String,
    /// The one-based line on which the returned element starts.
    pub return_line: u32,
    /// The name of the returned element.
    pub element_type: String,
    /// The names of its self-closing children, in order.
    pub children: Vec<String>,
}

/// The abstract value of a `ContainerCandidate`.
pub struct CandidateView {
    pub component_name: Seq<char>,
    pub return_line: u32,
    pub element_type: Seq<char>,
    pub children: Seq<Seq<char>>,
}

impl View for ContainerCandidate {
    type V = CandidateView;

    open spec fn view(&self) -> CandidateView {
        CandidateView {
            component_name: self.component_name@,
            return_line: self.return_line,
            element_type: self.element_type@,
            children: strings_view(self.children@),
        }
    }
}

/// The abstract values of a sequence of candidates.
pub open spec fn candidates_view(v: Seq<ContainerCandidate>) -> Seq<CandidateView> {
    v.map_values(|c: ContainerCandidate| c@)
}

/// A plain HTML element name, which is never a container.
pub open spec fn is_atomic_tag(s: Seq<char>) -> bool {
    ||| s == "div"@
    ||| s == "span"@
    ||| s == "p"@
    ||| s == "a"@
    ||| s == "button"@
    ||| s == "input"@
    ||| s == "img"@
    ||| s == "br"@
    ||| s == "hr"@
    ||| s == "svg"@
    ||| s == "ul"@
    ||| s == "ol"@
    ||| s == "li"@
    ||| s == "table"@
    ||| s == "tr"@
    ||| s == "td"@
    ||| s == "th"@
    ||| s == "form"@
    ||| s == "label"@
    ||| s == "header"@
    ||| s == "footer"@
    ||| s == "nav"@
    ||| s == "section"@
    ||| s == "article"@
    ||| s == "aside"@
    ||| s == "main"@
    ||| s == "h1"@
    ||| s == "h2"@
    ||| s == "h3"@
    ||| s == "h4"@
    ||| s == "h5"@
    ||| s == "h6"@
}

/// A basic UI component name, which is never a container.
pub open spec fn is_atomic_component(s: Seq<char>) -> bool {
    ||| s == "Button"@
    ||| s == "Input"@
    ||| s == "Icon"@
    ||| s == "Image"@
    ||| s == "Link"@
    ||| s == "Text"@
    ||| s == "Span"@
    ||| s == "Badge"@
    ||| s == "Avatar"@
}

/// A JSX element or fragment.
pub open spec fn is_jsx(t: Seq<SyntaxNode>, c: int) -> bool {
    t[c].kind@ == "jsx_element"@ || t[c].kind@ == "jsx_fragment"@
}

/// Picks JSX elements and fragments.
pub open spec fn jsx_node(t: Seq<SyntaxNode>) -> spec_fn(int) -> Option<int> {
    |c: int|
        if is_jsx(t, c) {
            Some(c)
        } else {
            None
        }
}

/// Picks, among the children of a `return` statement, a JSX value or the
/// first JSX value inside a parenthesized expression.
pub open spec fn return_value_hit(t: Seq<SyntaxNode>) -> spec_fn(int) -> Option<int> {
    |c: int|
        if is_jsx(t, c) {
            Some(c)
        } else if t[c].kind@ == "parenthesized_expression"@ {
            scan_children(t, c, c + 1, jsx_node(t))
        } else {
            None
        }
}

/// Picks, among the statements of a block, a `return` statement that
/// returns JSX, and that JSX.
pub open spec fn block_return_hit(t: Seq<SyntaxNode>) -> spec_fn(int) -> Option<int> {
    |c: int|
        if t[c].kind@ == "return_statement"@ {
            scan_children(t, c, c + 1, return_value_hit(t))
        } else {
            None
        }
}

/// The JSX that the function at `f` returns directly: from the first `return`
/// statement of its body block that returns JSX, or its body when that is JSX.
pub open spec fn direct_return(t: Seq<SyntaxNode>, f: int) -> Option<int> {
    match child_by_field(t, f, "body"@) {
        None => None,
        Some(b) => {
            let found = if t[b].kind@ == "block"@ || t[b].kind@ == "statement_block"@ {
                scan_children(t, b, b + 1, block_return_hit(t))
            } else {
                None
            };
            if found is Some {
                found
            } else if is_jsx(t, b) {
                Some(b)
            } else {
                None
            }
        },
    }
}

/// What the arrow function at `a` returns: its body when that is JSX, or the
/// value of the first `return` statement when its body is a `block`.
pub open spec fn arrow_return(t: Seq<SyntaxNode>, a: int) -> Option<int> {
    match child_by_field(t, a, "body"@) {
        None => None,
        Some(b) => if is_jsx(t, b) {
            Some(b)
        } else if t[b].kind@ == "block"@ {
            match scan_children(t, b, b + 1, kind_node(t, "return_statement"@)) {
                Some(r) => child_by_field(t, r, "argument"@),
                None => None,
            }
        } else {
            None
        },
    }
}

/// Picks opening elements that have an identifier child, and that child.
pub open spec fn opening_name_hit(t: Seq<SyntaxNode>) -> spec_fn(int) -> Option<int> {
    |c: int|
        if t[c].kind@ == "jsx_opening_element"@ {
            scan_children(t, c, c + 1, kind_node(t, "identifier"@))
        } else {
            None
        }
}

/// The name of the JSX element at `n`: the text of the first identifier of
/// its first opening element that has one.
pub open spec fn element_name(t: Seq<SyntaxNode>, src: Seq<char>, n: int) -> Option<Seq<char>> {
    match scan_children(t, n, n + 1, opening_name_hit(t)) {
        Some(i) => node_text(t, src, i),
        None => None,
    }
}

/// Picks identifiers and member expressions.
pub open spec fn reference_node(t: Seq<SyntaxNode>) -> spec_fn(int) -> Option<int> {
    |c: int|
        if t[c].kind@ == "identifier"@ || t[c].kind@ == "member_expression"@ {
            Some(c)
        } else {
            None
        }
}

/// Picks opening elements that have an identifier or member-expression
/// child, and that child.
pub open spec fn opening_reference_hit(t: Seq<SyntaxNode>) -> spec_fn(int) -> Option<int> {
    |c: int|
        if t[c].kind@ == "jsx_opening_element"@ {
            scan_children(t, c, c + 1, reference_node(t))
        } else {
            None
        }
}

/// The name, possibly dotted, of the JSX element at `n`.
pub open spec fn element_reference(t: Seq<SyntaxNode>, src: Seq<char>, n: int) -> Option<
    Seq<char>,
> {
    match scan_children(t, n, n + 1, opening_reference_hit(t)) {
        Some(i) => node_text(t, src, i),
        None => None,
    }
}

/// The name of the self-closing element at `c`: the text of its first
/// identifier.
pub open spec fn self_closing_name(t: Seq<SyntaxNode>, src: Seq<char>, c: int) -> Option<
    Seq<char>,
> {
    match scan_children(t, c, c + 1, kind_node(t, "identifier"@)) {
        Some(i) => node_text(t, src, i),
        None => None,
    }
}

/// The names of the self-closing children of `n` from index `k` on.
pub open spec fn jsx_children_from(t: Seq<SyntaxNode>, src: Seq<char>, n: int, k: int) -> Seq<
    Seq<char>,
>
    decreases t.len() - k,
{
    if 0 <= n < k < t.len() && t[k].depth > t[n].depth {
        let rest = jsx_children_from(t, src, n, k + 1);
        if t[k].depth == t[n].depth + 1 && t[k].kind@ == "jsx_self_closing_element"@
            && self_closing_name(t, src, k) is Some {
            seq![self_closing_name(t, src, k)->0] + rest
        } else {
            rest
        }
    } else {
        Seq::empty()
    }
}

/// The names of the self-closing children of the element at `n`, in order.
pub open spec fn jsx_children(t: Seq<SyntaxNode>, src: Seq<char>, n: int) -> Seq<Seq<char>> {
    jsx_children_from(t, src, n, n + 1)
}

/// The one-based line number of a zero-based row: the row truncated to 32
/// bits, plus one, wrapping around.
pub open spec fn line_number(row: usize) -> u32 {
    let r = row as u32;
    if r == u32::MAX {
        0
    } else {
        (r + 1) as u32
    }
}

/// The candidate that the JSX returned at `r` by the component `name`
/// makes, when it is a container.
pub open spec fn container_at(t: Seq<SyntaxNode>, src: Seq<char>, r: int, name: Seq<char>) -> Option<
    CandidateView,
> {
    match element_name(t, src, r) {
        None => None,
        Some(tag) => if is_atomic_tag(tag) || is_atomic_component(tag) {
            None
        } else {
            let ch = jsx_children(t, src, r);
            if ch.len() < 2 {
                None
            } else {
                Some(
                    CandidateView {
                        component_name: name,
                        return_line: line_number(t[r].start_row),
                        element_type: tag,
                        children: ch,
                    },
                )
            }
        },
    }
}

/// The text of the `name` field of the declaration at `i`.
pub open spec fn declared_name(t: Seq<SyntaxNode>, src: Seq<char>, i: int) -> Option<Seq<char>> {
    match child_by_field(t, i, "name"@) {
        Some(n) => node_text(t, src, n),
        None => None,
    }
}

/// The candidate of the node at `i` when it is a function declaration.
pub open spec fn function_candidate(t: Seq<SyntaxNode>, src: Seq<char>, i: int) -> Option<
    CandidateView,
> {
    if t[i].named && t[i].kind@ == "function_declaration"@ {
        match declared_name(t, src, i) {
            None => None,
            Some(name) => match direct_return(t, i) {
                Some(r) => container_at(t, src, r, name),
                None => None,
            },
        }
    } else {
        None
    }
}

/// The candidate of the node at `i` when it declares a variable that holds
/// an arrow function.
pub open spec fn arrow_candidate(t: Seq<SyntaxNode>, src: Seq<char>, i: int) -> Option<
    CandidateView,
> {
    if t[i].named && t[i].kind@ == "variable_declarator"@ {
        match declared_name(t, src, i) {
            None => None,
            Some(name) => match child_by_field(t, i, "init"@) {
                Some(a) => if t[a].kind@ == "arrow_function"@ {
                    match arrow_return(t, a) {
                        Some(r) => container_at(t, src, r, name),
                        None => None,
                    }
                } else {
                    None
                },
                None => None,
            },
        }
    } else {
        None
    }
}

/// The candidates of the nodes from index `i` on, in document order: of
/// function declarations, or, with `arrows`, of arrow-function variables.
pub open spec fn candidates_from(t: Seq<SyntaxNode>, src: Seq<char>, i: int, arrows: bool) -> Seq<
    CandidateView,
>
    decreases t.len() - i,
{
    if 0 <= i < t.len() {
        let c = if arrows {
            arrow_candidate(t, src, i)
        } else {
            function_candidate(t, src, i)
        };
        let rest = candidates_from(t, src, i + 1, arrows);
        match c {
            Some(v) => seq![v] + rest,
            None => rest,
        }
    } else {
        Seq::empty()
    }
}

/// All container candidates of a TSX tree: those of function declarations,
/// then those of arrow-function variables, each in document order.
pub open spec fn container_candidates(t: Seq<SyntaxNode>, src: Seq<char>) -> Seq<CandidateView> {
    candidates_from(t, src, 0, false) + candidates_from(t, src, 0, true)
}

/// What `tsx_get_container_candidates` gives for TSX source text.
pub open spec fn tsx_candidates_result(source: Seq<char>) -> Seq<CandidateView> {
    match tsx_syntax(source) {
        Some(t) => container_candidates(t, source),
        None => Seq::empty(),
    }
}

/// The candidate is a container: its element is neither a plain HTML tag
/// nor a basic UI component, and it holds at least two children.
pub open spec fn is_container(c: CandidateView) -> bool {
    &&& c.children.len() >= 2
    &&& !is_atomic_tag(c.element_type)
    &&& !is_atomic_component(c.element_type)
}

proof fn lemma_candidates_from_are_containers(t: Seq<SyntaxNode>, src: Seq<char>, i: int, arrows: bool)
    ensures
        forall|k: int|
            0 <= k < candidates_from(t, src, i, arrows).len() ==> is_container(
                #[trigger] candidates_from(t, src, i, arrows)[k],
            ),
    decreases t.len() - i,
{
    if 0 <= i < t.len() {
        lemma_candidates_from_are_containers(t, src, i + 1, arrows);
        let rest = candidates_from(t, src, i + 1, arrows);
        let c = if arrows {
            arrow_candidate(t, src, i)
        } else {
            function_candidate(t, src, i)
        };
        if let Some(v) = c {
            assert(is_container(v));
            assert forall|k: int| 0 <= k < (seq![v] + rest).len() implies is_container(
                #[trigger] (seq![v] + rest)[k],
            ) by {
                if k > 0 {
                    assert((seq![v] + rest)[k] == rest[k - 1]);
                }
            }
        }
    }
}

/// Every container candidate of a TSX file is a container: an element that
/// is neither a plain HTML tag nor a basic UI component, with at least two
/// self-closing children.
pub proof fn law_candidates_are_containers(source: Seq<char>)
    ensures
        forall|k: int|
            0 <= k < tsx_candidates_result(source).len() ==> is_container(
                #[trigger] tsx_candidates_result(source)[k],
            ),
{
    if let Some(t) = tsx_syntax(source) {
        lemma_candidates_from_are_containers(t, source, 0, false);
        lemma_candidates_from_are_containers(t, source, 0, true);
        let a = candidates_from(t, source, 0, false);
        let b = candidates_from(t, source, 0, true);
        assert forall|k: int| 0 <= k < (a + b).len() implies is_container(#[trigger] (a + b)[k]) by {
            if k >= a.len() {
                assert((a + b)[k] == b[k - a.len()]);
            } else {
                assert((a + b)[k] == a[k]);
            }
        }
    }
}

/// No container candidate is a plain HTML element or a basic UI component:
/// the element of every candidate is none of `div`, `span`, `p`, `a`,
/// `button`, `input`, `img`, `br`, `hr`, `svg`, `ul`, `ol`, `li`, `table`,
/// `tr`, `td`, `th`, `form`, `label`, `header`, `footer`, `nav`, `section`,
/// `article`, `aside`, `main`, `h1` to `h6`, `Button`, `Input`, `Icon`,
/// `Image`, `Link`, `Text`, `Span`, `Badge` and `Avatar`, and it has at
/// least two children.
pub proof fn law_candidates_skip_atomic_elements(source: Seq<char>)
    ensures
        forall|k: int|
            0 <= k < tsx_candidates_result(source).len() ==> {
            let c = #[trigger] tsx_candidates_result(source)[k];
            let e = c.element_type;
            &&& c.children.len() >= 2
            &&& e != "div"@
            &&& e != "span"@
            &&& e != "p"@
            &&& e != "a"@
            &&& e != "button"@
            &&& e != "input"@
            &&& e != "img"@
            &&& e != "br"@
            &&& e != "hr"@
            &&& e != "svg"@
            &&& e != "ul"@
            &&& e != "ol"@
            &&& e != "li"@
            &&& e != "table"@
            &&& e != "tr"@
            &&& e != "td"@
            &&& e != "th"@
            &&& e != "form"@
            &&& e != "label"@
            &&& e != "header"@
            &&& e != "footer"@
            &&& e != "nav"@
            &&& e != "section"@
            &&& e != "article"@
            &&& e != "aside"@
            &&& e != "main"@
            &&& e != "h1"@
            &&& e != "h2"@
            &&& e != "h3"@
            &&& e != "h4"@
            &&& e != "h5"@
            &&& e != "h6"@
            &&& e != "Button"@
            &&& e != "Input"@
            &&& e != "Icon"@
            &&& e != "Image"@
            &&& e != "Link"@
            &&& e != "Text"@
            &&& e != "Span"@
            &&& e != "Badge"@
            &&& e != "Avatar"@
        },
{
    law_candidates_are_containers(source);
}

/// Whether a node is a JSX element or fragment.
fn is_jsx_exec(t: &Vec<SyntaxNode>, c: usize) -> (r: bool)
    requires
        c < t.len(),
    ensures
        r == is_jsx(t@, c as int),
{
    kind_is(t, c, "jsx_element") || kind_is(t, c, "jsx_fragment")
}

/// The first JSX child of the parenthesized expression at `pe`.
fn jsx_in_parens(t: &Vec<SyntaxNode>, pe: usize) -> (r: Option<usize>)
    requires
        pe < t.len(),
    ensures
        index_of(r) == scan_children(t@, pe as int, pe + 1, jsx_node(t@)),
        r matches Some(c) ==> c < t.len(),
{
    let ghost f = jsx_node(t@);
    let d = t[pe].depth;
    let mut k = pe + 1;
    while k < t.len() && t[k].depth > d
        invariant
            pe < k <= t.len(),
            d == t@[pe as int].depth,
            f == jsx_node(t@),
            scan_children(t@, pe as int, pe + 1, f) == scan_children(t@, pe as int, k as int, f),
        decreases t.len() - k,
    {
        if child_step(t, pe, k) && is_jsx_exec(t, k) {
            return Some(k);
        }
        k = k + 1;
    }
    None
}

/// The JSX that the `return` statement at `rs` returns.
fn jsx_in_return(t: &Vec<SyntaxNode>, rs: usize) -> (r: Option<usize>)
    requires
        rs < t.len(),
    ensures
        index_of(r) == scan_children(t@, rs as int, rs + 1, return_value_hit(t@)),
        r matches Some(c) ==> c < t.len(),
{
    let ghost f = return_value_hit(t@);
    let d = t[rs].depth;
    let mut k = rs + 1;
    while k < t.len() && t[k].depth > d
        invariant
            rs < k <= t.len(),
            d == t@[rs as int].depth,
            f == return_value_hit(t@),
            scan_children(t@, rs as int, rs + 1, f) == scan_children(t@, rs as int, k as int, f),
        decreases t.len() - k,
    {
        if child_step(t, rs, k) {
            if is_jsx_exec(t, k) {
                return Some(k);
            }
            if kind_is(t, k, "parenthesized_expression") {
                let inner = jsx_in_parens(t, k);
                if inner.is_some() {
                    return inner;
                }
            }
        }
        k = k + 1;
    }
    None
}

/// The JSX that the first JSX-returning `return` statement of the block at
/// `b` returns.
fn jsx_in_block(t: &Vec<SyntaxNode>, b: usize) -> (r: Option<usize>)
    requires
        b < t.len(),
    ensures
        index_of(r) == scan_children(t@, b as int, b + 1, block_return_hit(t@)),
        r matches Some(c) ==> c < t.len(),
{
    let ghost f = block_return_hit(t@);
    let d = t[b].depth;
    let mut k = b + 1;
    while k < t.len() && t[k].depth > d
        invariant
            b < k <= t.len(),
            d == t@[b as int].depth,
            f == block_return_hit(t@),
            scan_children(t@, b as int, b + 1, f) == scan_children(t@, b as int, k as int, f),
        decreases t.len() - k,
    {
        if child_step(t, b, k) && kind_is(t, k, "return_statement") {
            let inner = jsx_in_return(t, k);
            if inner.is_some() {
                return inner;
            }
        }
        k = k + 1;
    }
    None
}

/// The JSX that the function declaration at `f` returns directly.
pub fn find_direct_return(t: &Vec<SyntaxNode>, f: usize) -> (r: Option<usize>)
    requires
        f < t.len(),
    ensures
        index_of(r) == direct_return(t@, f as int),
        r matches Some(c) ==> c < t.len(),
{
    match child_by_field_exec(t, f, "body") {
        None => None,
        Some(b) => {
            if kind_is(t, b, "block") || kind_is(t, b, "statement_block") {
                let found = jsx_in_block(t, b);
                if found.is_some() {
                    return found;
                }
            }
            if is_jsx_exec(t, b) {
                Some(b)
            } else {
                None
            }
        },
    }
}

/// What the arrow function at `a` returns.
pub fn find_arrow_return(t: &Vec<SyntaxNode>, a: usize) -> (r: Option<usize>)
    requires
        a < t.len(),
    ensures
        index_of(r) == arrow_return(t@, a as int),
        r matches Some(c) ==> c < t.len(),
{
    match child_by_field_exec(t, a, "body") {
        None => None,
        Some(b) => {
            if is_jsx_exec(t, b) {
                Some(b)
            } else if kind_is(t, b, "block") {
                match first_child_of_kind(t, b, "return_statement") {
                    Some(rs) => child_by_field_exec(t, rs, "argument"),
                    None => None,
                }
            } else {
                None
            }
        },
    }
}

/// The first identifier inside the first opening element of `n` that has one.
fn opening_identifier(t: &Vec<SyntaxNode>, n: usize) -> (r: Option<usize>)
    requires
        n < t.len(),
    ensures
        index_of(r) == scan_children(t@, n as int, n + 1, opening_name_hit(t@)),
        r matches Some(c) ==> c < t.len(),
{
    let ghost f = opening_name_hit(t@);
    let d = t[n].depth;
    let mut k = n + 1;
    while k < t.len() && t[k].depth > d
        invariant
            n < k <= t.len(),
            d == t@[n as int].depth,
            f == opening_name_hit(t@),
            scan_children(t@, n as int, n + 1, f) == scan_children(t@, n as int, k as int, f),
        decreases t.len() - k,
    {
        if child_step(t, n, k) && kind_is(t, k, "jsx_opening_element") {
            let inner = first_child_of_kind(t, k, "identifier");
            if inner.is_some() {
                return inner;
            }
        }
        k = k + 1;
    }
    None
}

/// The name of the JSX element at `n`.
pub fn get_jsx_element_name(t: &Vec<SyntaxNode>, src: &Vec<char>, n: usize) -> (r: Option<String>)
    requires
        n < t.len(),
    ensures
        match r {
            Some(s) => element_name(t@, src@, n as int) == Some(s@),
            None => element_name(t@, src@, n as int) is None,
        },
{
    match opening_identifier(t, n) {
        Some(i) => node_text_exec(t, src, i),
        None => None,
    }
}

/// Whether a node is an identifier or a member expression.
fn is_reference_exec(t: &Vec<SyntaxNode>, c: usize) -> (r: bool)
    requires
        c < t.len(),
    ensures
        r == (t@[c as int].kind@ == "identifier"@ || t@[c as int].kind@ == "member_expression"@),
{
    kind_is(t, c, "identifier") || kind_is(t, c, "member_expression")
}

/// The first child of `p` that is an identifier or a member expression.
fn first_reference_child(t: &Vec<SyntaxNode>, p: usize) -> (r: Option<usize>)
    requires
        p < t.len(),
    ensures
        index_of(r) == scan_children(t@, p as int, p + 1, reference_node(t@)),
        r matches Some(c) ==> c < t.len(),
{
    let ghost g = reference_node(t@);
    let d = t[p].depth;
    let mut j = p + 1;
    while j < t.len() && t[j].depth > d
        invariant
            p < j <= t.len(),
            d == t@[p as int].depth,
            g == reference_node(t@),
            scan_children(t@, p as int, p + 1, g) == scan_children(t@, p as int, j as int, g),
        decreases t.len() - j,
    {
        if child_step(t, p, j) && is_reference_exec(t, j) {
            return Some(j);
        }
        j = j + 1;
    }
    None
}

/// The first identifier or member expression inside the first opening
/// element of `n` that has one.
fn opening_reference(t: &Vec<SyntaxNode>, n: usize) -> (r: Option<usize>)
    requires
        n < t.len(),
    ensures
        index_of(r) == scan_children(t@, n as int, n + 1, opening_reference_hit(t@)),
        r matches Some(c) ==> c < t.len(),
{
    let ghost f = opening_reference_hit(t@);
    let d = t[n].depth;
    let mut k = n + 1;
    while k < t.len() && t[k].depth > d
        invariant
            n < k <= t.len(),
            d == t@[n as int].depth,
            f == opening_reference_hit(t@),
            scan_children(t@, n as int, n + 1, f) == scan_children(t@, n as int, k as int, f),
        decreases t.len() - k,
    {
        if child_step(t, n, k) && kind_is(t, k, "jsx_opening_element") {
            let inner = first_reference_child(t, k);
            if inner.is_some() {
                return inner;
            }
        }
        k = k + 1;
    }
    None
}

/// The name, possibly dotted, of the JSX element at `n`.
pub fn get_jsx_self_closing_name(t: &Vec<SyntaxNode>, src: &Vec<char>, n: usize) -> (r: Option<
    String,
>)
    requires
        n < t.len(),
    ensures
        match r {
            Some(s) => element_reference(t@, src@, n as int) == Some(s@),
            None => element_reference(t@, src@, n as int) is None,
        },
{
    match opening_reference(t, n) {
        Some(i) => node_text_exec(t, src, i),
        None => None,
    }
}

/// The names of the self-closing children of the element at `n`.
pub fn get_jsx_children(t: &Vec<SyntaxNode>, src: &Vec<char>, n: usize) -> (r: Vec<String>)
    requires
        n < t.len(),
    ensures
        strings_view(r@) == jsx_children(t@, src@, n as int),
{
    let mut out: Vec<String> = Vec::new();
    let d = t[n].depth;
    let mut k = n + 1;
    assert(strings_view(out@) =~= Seq::<Seq<char>>::empty());
    while k < t.len() && t[k].depth > d
        invariant
            n < k <= t.len(),
            d == t@[n as int].depth,
            strings_view(out@) + jsx_children_from(t@, src@, n as int, k as int) == jsx_children(
                t@,
                src@,
                n as int,
            ),
        decreases t.len() - k,
    {
        let ghost before = strings_view(out@);
        let ghost rest = jsx_children_from(t@, src@, n as int, k + 1);
        if child_step(t, n, k) && kind_is(t, k, "jsx_self_closing_element") {
            let name = match first_child_of_kind(t, k, "identifier") {
                Some(i) => node_text_exec(t, src, i),
                None => None,
            };
            match name {
                Some(s) => {
                    out.push(s);
                    assert(strings_view(out@) =~= before.push(s@));
                    assert(before.push(s@) + rest =~= before + (seq![s@] + rest));
                },
                None => {},
            }
        }
        k = k + 1;
    }
    assert(jsx_children_from(t@, src@, n as int, k as int) =~= Seq::<Seq<char>>::empty());
    assert(strings_view(out@) + Seq::<Seq<char>>::empty() =~= strings_view(out@));
    out
}

/// Whether `tag` names a plain HTML element.
pub fn is_atomic_tag_exec(tag: &str) -> (r: bool)
    ensures
        r == is_atomic_tag(tag@),
{
    text_eq(tag, "div") || text_eq(tag, "span") || text_eq(tag, "p") || text_eq(tag, "a")
        || text_eq(tag, "button") || text_eq(tag, "input") || text_eq(tag, "img") || text_eq(
        tag,
        "br",
    ) || text_eq(tag, "hr") || text_eq(tag, "svg") || text_eq(tag, "ul") || text_eq(tag, "ol")
        || text_eq(tag, "li") || text_eq(tag, "table") || text_eq(tag, "tr") || text_eq(tag, "td")
        || text_eq(tag, "th") || text_eq(tag, "form") || text_eq(tag, "label") || text_eq(
        tag,
        "header",
    ) || text_eq(tag, "footer") || text_eq(tag, "nav") || text_eq(tag, "section") || text_eq(
        tag,
        "article",
    ) || text_eq(tag, "aside") || text_eq(tag, "main") || text_eq(tag, "h1") || text_eq(tag, "h2")
        || text_eq(tag, "h3") || text_eq(tag, "h4") || text_eq(tag, "h5") || text_eq(tag, "h6")
}

/// Whether `tag` names a basic UI component.
pub fn is_atomic_component_exec(tag: &str) -> (r: bool)
    ensures
        r == is_atomic_component(tag@),
{
    text_eq(tag, "Button") || text_eq(tag, "Input") || text_eq(tag, "Icon") || text_eq(tag, "Image")
        || text_eq(tag, "Link") || text_eq(tag, "Text") || text_eq(tag, "Span") || text_eq(
        tag,
        "Badge",
    ) || text_eq(tag, "Avatar")
}

/// The candidate that the JSX returned at `r` by the component `name`
/// makes, when it is a container.
pub fn extract_container_from_return(
    t: &Vec<SyntaxNode>,
    src: &Vec<char>,
    r: usize,
    name: &String,
) -> (res: Option<ContainerCandidate>)
    requires
        r < t.len(),
    ensures
        match res {
            Some(c) => container_at(t@, src@, r as int, name@) == Some(c@),
            None => container_at(t@, src@, r as int, name@) is None,
        },
{
    let tag = match get_jsx_element_name(t, src, r) {
        Some(tag) => tag,
        None => return None,
    };
    if is_atomic_tag_exec(tag.as_str()) {
        return None;
    }
    if is_atomic_component_exec(tag.as_str()) {
        return None;
    }
    let children = get_jsx_children(t, src, r);
    if children.len() < 2 {
        return None;
    }
    let row = t[r].start_row as u32;
    let line = if row == u32::MAX {
        0
    } else {
        row + 1
    };
    Some(
        ContainerCandidate {
            component_name: name.clone(),
            return_line: line,
            element_type: tag,
            children,
        },
    )
}

/// The text of the `name` field of the declaration at `i`.
fn declared_name_exec(t: &Vec<SyntaxNode>, src: &Vec<char>, i: usize) -> (r: Option<String>)
    requires
        i < t.len(),
    ensures
        match r {
            Some(s) => declared_name(t@, src@, i as int) == Some(s@),
            None => declared_name(t@, src@, i as int) is None,
        },
{
    match child_by_field_exec(t, i, "name") {
        Some(n) => node_text_exec(t, src, n),
        None => None,
    }
}

/// The candidate of the node at `i` when it is a function declaration.
fn function_candidate_exec(t: &Vec<SyntaxNode>, src: &Vec<char>, i: usize) -> (r: Option<
    ContainerCandidate,
>)
    requires
        i < t.len(),
    ensures
        match r {
            Some(c) => function_candidate(t@, src@, i as int) == Some(c@),
            None => function_candidate(t@, src@, i as int) is None,
        },
{
    if !(t[i].named && kind_is(t, i, "function_declaration")) {
        return None;
    }
    let name = match declared_name_exec(t, src, i) {
        Some(n) => n,
        None => return None,
    };
    match find_direct_return(t, i) {
        Some(r) => extract_container_from_return(t, src, r, &name),
        None => None,
    }
}

/// The candidate of the node at `i` when it declares an arrow-function
/// variable.
fn arrow_candidate_exec(t: &Vec<SyntaxNode>, src: &Vec<char>, i: usize) -> (r: Option<
    ContainerCandidate,
>)
    requires
        i < t.len(),
    ensures
        match r {
            Some(c) => arrow_candidate(t@, src@, i as int) == Some(c@),
            None => arrow_candidate(t@, src@, i as int) is None,
        },
{
    if !(t[i].named && kind_is(t, i, "variable_declarator")) {
        return None;
    }
    let name = match declared_name_exec(t, src, i) {
        Some(n) => n,
        None => return None,
    };
    match child_by_field_exec(t, i, "init") {
        Some(a) => {
            if kind_is(t, a, "arrow_function") {
                match find_arrow_return(t, a) {
                    Some(r) => extract_container_from_return(t, src, r, &name),
                    None => None,
                }
            } else {
                None
            }
        },
        None => None,
    }
}

/// Appends to `out` the candidates of all nodes, in document order: of
/// function declarations, or, with `arrows`, of arrow-function variables.
#[verifier::spinoff_prover]
fn push_candidates(
    t: &Vec<SyntaxNode>,
    src: &Vec<char>,
    arrows: bool,
    out: &mut Vec<ContainerCandidate>,
)
    ensures
        candidates_view(final(out)@) == candidates_view(old(out)@) + candidates_from(
            t@,
            src@,
            0,
            arrows,
        ),
{
    let ghost start = candidates_view(out@);
    let mut i: usize = 0;
    assert(start + candidates_from(t@, src@, 0, arrows) == start + candidates_from(
        t@,
        src@,
        0,
        arrows,
    ));
    while i < t.len()
        invariant
            i <= t.len(),
            candidates_view(out@) + candidates_from(t@, src@, i as int, arrows) == start
                + candidates_from(t@, src@, 0, arrows),
        decreases t.len() - i,
    {
        let ghost before = candidates_view(out@);
        let ghost rest = candidates_from(t@, src@, i + 1, arrows);
        let c = if arrows {
            arrow_candidate_exec(t, src, i)
        } else {
            function_candidate_exec(t, src, i)
        };
        match c {
            Some(v) => {
                let ghost vv = v@;
                out.push(v);
                assert(candidates_view(out@) =~= before.push(vv));
                assert(before.push(vv) + rest =~= before + (seq![vv] + rest));
            },
            None => {},
        }
        i = i + 1;
    }
    assert(candidates_from(t@, src@, i as int, arrows) =~= Seq::<CandidateView>::empty());
    assert(candidates_view(out@) + Seq::<CandidateView>::empty() =~= candidates_view(out@));
}

/// The container candidates of a TSX tree of the text `src`.
pub fn tree_container_candidates(t: &Vec<SyntaxNode>, src: &Vec<char>) -> (r: Vec<
    ContainerCandidate,
>)
    ensures
        candidates_view(r@) == container_candidates(t@, src@),
{
    let mut out: Vec<ContainerCandidate> = Vec::new();
    assert(candidates_view(out@) =~= Seq::<CandidateView>::empty());
    push_candidates(t, src, false, &mut out);
    push_candidates(t, src, true, &mut out);
    assert(Seq::<CandidateView>::empty() + candidates_from(t@, src@, 0, false) =~= candidates_from(
        t@,
        src@,
        0,
        false,
    ));
    out
}

/// The container candidates of TSX source text: components (function
/// declarations, then arrow-function variables) that directly return a JSX
/// element that is neither a plain HTML tag nor a basic UI component and
/// has at least two self-closing children.
pub fn tsx_get_container_candidates(source: &str) -> (r: Vec<ContainerCandidate>)
    ensures
        candidates_view(r@) == tsx_candidates_result(source@),
{
    match parse_tsx(source) {
        Some(t) => {
            let src = chars_of(source);
            tree_container_candidates(&t, &src)
        },
        None => {
            let r: Vec<ContainerCandidate> = Vec::new();
            assert(candidates_view(r@) =~= Seq::<CandidateView>::empty());
            r
        },
    }
}

} // verus!
