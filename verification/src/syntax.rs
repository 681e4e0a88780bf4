//! Syntax trees of source files, as tree-sitter parses them, held as a flat
//! list of nodes in document order, and the navigation the detectors use.
use vstd::prelude::*;

use crate::text::{string_of_range, text_eq};

verus! {

/// One node of a syntax tree. A tree is listed in document (pre-)order: the
/// root first, at depth 0, and every node directly before its descendants.
/// The children of the node at index `p` are the later nodes at depth
/// `depth + 1` that come before the next node at a depth of `depth` or less.
#[derive(Debug, Clone, Copy)]
pub struct SyntaxNode {
    /// The grammar's name of the node's kind (`function_definition`, `(`, ...).
    pub kind: &'static str,
    /// The name of the field under which the node stands in its parent.
    pub field: Option<&'static str>,
    /// Whether the node is named in the grammar (not a bare token).
    pub named: bool,
    /// The number of ancestors of the node.
    pub depth: usize,
    /// The offset of the node's first byte in the UTF-8 text.
    pub start_byte: usize,
    /// The offset just after the node's last byte.
    pub end_byte: usize,
    /// The zero-based line on which the node starts.
    pub start_row: usize,
}

/// The nodes of the tree that tree-sitter's Python grammar gives `source`,
/// in document order.
pub uninterp spec fn python_syntax(source: Seq<char>) -> Option<Seq<SyntaxNode>>;

/// The nodes of the tree that tree-sitter's TypeScript grammar gives
/// `source`, in document order.
pub uninterp spec fn typescript_syntax(source: Seq<char>) -> Option<Seq<SyntaxNode>>;

/// The nodes of the tree that tree-sitter's TSX grammar gives `source`, in
/// document order.
pub uninterp spec fn tsx_syntax(source: Seq<char>) -> Option<Seq<SyntaxNode>>;

/// Parses `source` with `tree_sitter::Parser` set to
/// `tree_sitter_python::LANGUAGE` and lists every node of the tree through
/// `TreeCursor::goto_descendant`, in document order. The contract only names
/// the result (`python_syntax`): the grammar is tree-sitter's own.
#[verifier::external_body]
pub(crate) fn parse_python(source: &str) -> (res: Option<Vec<SyntaxNode>>)
    ensures
        match res {
            Some(v) => python_syntax(source@) == Some(v@),
            None => python_syntax(source@) is None,
        },
{
    let mut parser = tree_sitter::Parser::new();
    parser.set_language(&tree_sitter_python::LANGUAGE.into()).ok()?;
    let tree = parser.parse(source, None)?;
    let mut c = tree.walk();
    Some((0..tree.root_node().descendant_count()).map(|i| {
        c.goto_descendant(i);
        let n = c.node();
        SyntaxNode { kind: n.kind(), field: c.field_name(), named: n.is_named(),
            depth: c.depth() as usize, start_byte: n.start_byte(), end_byte: n.end_byte(),
            start_row: n.start_position().row }
    }).collect())
}

/// As `parse_python`, with `tree_sitter_typescript::LANGUAGE_TYPESCRIPT`.
/// The contract only names the result (`typescript_syntax`).
#[verifier::external_body]
pub(crate) fn parse_typescript(source: &str) -> (res: Option<Vec<SyntaxNode>>)
    ensures
        match res {
            Some(v) => typescript_syntax(source@) == Some(v@),
            None => typescript_syntax(source@) is None,
        },
{
    let mut parser = tree_sitter::Parser::new();
    parser.set_language(&tree_sitter_typescript::LANGUAGE_TYPESCRIPT.into()).ok()?;
    let tree = parser.parse(source, None)?;
    let mut c = tree.walk();
    Some((0..tree.root_node().descendant_count()).map(|i| {
        c.goto_descendant(i);
        let n = c.node();
        SyntaxNode { kind: n.kind(), field: c.field_name(), named: n.is_named(),
            depth: c.depth() as usize, start_byte: n.start_byte(), end_byte: n.end_byte(),
            start_row: n.start_position().row }
    }).collect())
}

/// As `parse_python`, with `tree_sitter_typescript::LANGUAGE_TSX`.
/// The contract only names the result (`tsx_syntax`).
#[verifier::external_body]
pub(crate) fn parse_tsx(source: &str) -> (res: Option<Vec<SyntaxNode>>)
    ensures
        match res {
            Some(v) => tsx_syntax(source@) == Some(v@),
            None => tsx_syntax(source@) is None,
        },
{
    let mut parser = tree_sitter::Parser::new();
    parser.set_language(&tree_sitter_typescript::LANGUAGE_TSX.into()).ok()?;
    let tree = parser.parse(source, None)?;
    let mut c = tree.walk();
    Some((0..tree.root_node().descendant_count()).map(|i| {
        c.goto_descendant(i);
        let n = c.node();
        SyntaxNode { kind: n.kind(), field: c.field_name(), named: n.is_named(),
            depth: c.depth() as usize, start_byte: n.start_byte(), end_byte: n.end_byte(),
            start_row: n.start_position().row }
    }).collect())
}

/// An index as an integer, or none.
pub open spec fn index_of(r: Option<usize>) -> Option<int> {
    match r {
        Some(i) => Some(i as int),
        None => None,
    }
}

/// The first child `c` of node `p`, looking from index `k` on, for which `f(c)`
/// is some value, and that value. Children are scanned in document order.
pub open spec fn scan_children(
    t: Seq<SyntaxNode>,
    p: int,
    k: int,
    f: spec_fn(int) -> Option<int>,
) -> Option<int>
    decreases t.len() - k,
{
    if 0 <= p < k < t.len() && t[k].depth > t[p].depth {
        if t[k].depth == t[p].depth + 1 && f(k) is Some {
            f(k)
        } else {
            scan_children(t, p, k + 1, f)
        }
    } else {
        None
    }
}

/// Picks the nodes that stand under the field `name`.
pub open spec fn field_is(t: Seq<SyntaxNode>, name: Seq<char>) -> spec_fn(int) -> Option<int> {
    |c: int|
        if (t[c].field matches Some(f) && f@ == name) {
            Some(c)
        } else {
            None
        }
}

/// Picks the named nodes.
pub open spec fn named_node(t: Seq<SyntaxNode>) -> spec_fn(int) -> Option<int> {
    |c: int|
        if t[c].named {
            Some(c)
        } else {
            None
        }
}

/// Picks the nodes of the kind `kind`.
pub open spec fn kind_node(t: Seq<SyntaxNode>, kind: Seq<char>) -> spec_fn(int) -> Option<int> {
    |c: int|
        if t[c].kind@ == kind {
            Some(c)
        } else {
            None
        }
}

/// `Node::child_by_field_name`: the first child of `p` under the field `name`.
pub open spec fn child_by_field(t: Seq<SyntaxNode>, p: int, name: Seq<char>) -> Option<int> {
    scan_children(t, p, p + 1, field_is(t, name))
}

/// `Node::named_child(0)`: the first named child of `p`.
pub open spec fn first_named_child(t: Seq<SyntaxNode>, p: int) -> Option<int> {
    scan_children(t, p, p + 1, named_node(t))
}

/// The number of bytes of `c` in UTF-8 (`char::len_utf8`).
pub open spec fn utf8_width(c: char) -> nat {
    if c as u32 <= 0x7F {
        1
    } else if c as u32 <= 0x7FF {
        2
    } else if c as u32 <= 0xFFFF {
        3
    } else {
        4
    }
}

/// The number of bytes of `s` in UTF-8.
pub open spec fn byte_len(s: Seq<char>) -> nat
    decreases s.len(),
{
    if s.len() == 0 {
        0
    } else {
        byte_len(s.drop_last()) + utf8_width(s.last())
    }
}

/// The index of the character at which byte offset `b` falls in `s`, when `b`
/// is on a character boundary.
pub open spec fn char_index_at_byte(s: Seq<char>, b: int) -> Option<int> {
    if exists|i: int| 0 <= i <= s.len() && byte_len(s.take(i)) == b {
        Some(choose|i: int| 0 <= i <= s.len() && byte_len(s.take(i)) == b)
    } else {
        None
    }
}

/// `Node::utf8_text(source).ok()`: the text that node `i` spans, when its
/// byte range lies on character boundaries of `src` (an empty range is
/// always read as empty text). A range outside the text, on which tree-sitter
/// never places a node, gives nothing.
pub open spec fn node_text(t: Seq<SyntaxNode>, src: Seq<char>, i: int) -> Option<Seq<char>> {
    let s = t[i].start_byte as int;
    let e = t[i].end_byte as int;
    if s > e || e > byte_len(src) {
        None
    } else if s == e {
        Some(Seq::empty())
    } else {
        match (char_index_at_byte(src, s), char_index_at_byte(src, e)) {
            (Some(a), Some(b)) => Some(src.subrange(a, b)),
            _ => None,
        }
    }
}

/// Where a byte offset falls in a text.
pub enum BytePos {
    /// Just before the character at this index (or at the end).
    Boundary(usize),
    /// Inside the encoding of the character at this index.
    Inside(usize),
    /// After the end of the text.
    Beyond,
}

pub proof fn lemma_byte_len_step(s: Seq<char>, i: int)
    requires
        0 <= i < s.len(),
    ensures
        byte_len(s.take(i + 1)) == byte_len(s.take(i)) + utf8_width(s[i]),
{
    assert(s.take(i + 1).drop_last() == s.take(i));
}

pub proof fn lemma_byte_len_increasing(s: Seq<char>, i: int, j: int)
    requires
        0 <= i <= j <= s.len(),
    ensures
        byte_len(s.take(i)) <= byte_len(s.take(j)),
        i < j ==> byte_len(s.take(i)) < byte_len(s.take(j)),
    decreases j - i,
{
    if i < j {
        lemma_byte_len_increasing(s, i, j - 1);
        lemma_byte_len_step(s, j - 1);
    }
}

proof fn lemma_boundary_index(s: Seq<char>, b: int, i: int)
    requires
        0 <= i <= s.len(),
        byte_len(s.take(i)) == b,
    ensures
        char_index_at_byte(s, b) == Some(i),
{
    let j = choose|j: int| 0 <= j <= s.len() && byte_len(s.take(j)) == b;
    if j < i {
        lemma_byte_len_increasing(s, j, i);
    } else if i < j {
        lemma_byte_len_increasing(s, i, j);
    }
}

proof fn lemma_inside_index(s: Seq<char>, b: int, i: int)
    requires
        0 <= i < s.len(),
        byte_len(s.take(i)) < b < byte_len(s.take(i + 1)),
    ensures
        char_index_at_byte(s, b) is None,
{
    assert forall|j: int| 0 <= j <= s.len() implies byte_len(s.take(j)) != b by {
        if j <= i {
            lemma_byte_len_increasing(s, j, i);
        } else {
            lemma_byte_len_increasing(s, i + 1, j);
        }
    }
}

/// The number of bytes of `c` in UTF-8.
pub fn utf8_width_exec(c: char) -> (w: usize)
    ensures
        w == utf8_width(c),
{
    let u = c as u32;
    if u <= 0x7F {
        1
    } else if u <= 0x7FF {
        2
    } else if u <= 0xFFFF {
        3
    } else {
        4
    }
}

/// Where byte offset `b` falls in the UTF-8 encoding of `s`.
pub fn locate_byte(s: &Vec<char>, b: usize) -> (r: BytePos)
    ensures
        match r {
            BytePos::Boundary(i) => i <= s.len() && byte_len(s@.take(i as int)) == b,
            BytePos::Inside(i) => i < s.len() && byte_len(s@.take(i as int)) < b && b
                < byte_len(s@.take(i + 1)),
            BytePos::Beyond => b > byte_len(s@),
        },
{
    let mut i: usize = 0;
    let mut acc: usize = 0;
    while i < s.len()
        invariant
            i <= s.len(),
            acc == byte_len(s@.take(i as int)),
            acc <= b,
        decreases s.len() - i,
    {
        if acc == b {
            return BytePos::Boundary(i);
        }
        let w = utf8_width_exec(s[i]);
        proof {
            lemma_byte_len_step(s@, i as int);
        }
        if w > b - acc {
            return BytePos::Inside(i);
        }
        acc = acc + w;
        i = i + 1;
    }
    assert(s@.take(s.len() as int) == s@);
    if acc == b {
        BytePos::Boundary(i)
    } else {
        BytePos::Beyond
    }
}

/// The text of node `i` (`Node::utf8_text`).
pub fn node_text_exec(t: &Vec<SyntaxNode>, src: &Vec<char>, i: usize) -> (r: Option<String>)
    requires
        i < t.len(),
    ensures
        match r {
            Some(s) => node_text(t@, src@, i as int) == Some(s@),
            None => node_text(t@, src@, i as int) is None,
        },
{
    let s = t[i].start_byte;
    let e = t[i].end_byte;
    if s > e {
        return None;
    }
    let pe = locate_byte(src, e);
    match pe {
        BytePos::Beyond => {
            return None;
        },
        BytePos::Boundary(b) => {
            proof {
                lemma_byte_len_increasing(src@, b as int, src@.len() as int);
                assert(src@.take(src@.len() as int) == src@);
            }
        },
        BytePos::Inside(b) => {
            proof {
                lemma_byte_len_increasing(src@, b + 1, src@.len() as int);
                assert(src@.take(src@.len() as int) == src@);
            }
        },
    }
    if s == e {
        return Some(String::new());
    }
    let ps = locate_byte(src, s);
    match (ps, pe) {
        (BytePos::Boundary(a), BytePos::Boundary(b)) => {
            proof {
                lemma_boundary_index(src@, s as int, a as int);
                lemma_boundary_index(src@, e as int, b as int);
                if b < a {
                    lemma_byte_len_increasing(src@, b as int, a as int);
                }
            }
            Some(string_of_range(src, a, b))
        },
        (BytePos::Inside(a), _) => {
            proof {
                lemma_inside_index(src@, s as int, a as int);
            }
            None
        },
        (_, BytePos::Inside(b)) => {
            proof {
                lemma_inside_index(src@, e as int, b as int);
            }
            None
        },
        (BytePos::Beyond, _) => {
            proof {
                lemma_byte_len_increasing(src@, 0, src@.len() as int);
                assert(src@.take(src@.len() as int) == src@);
            }
            None
        },
        (_, BytePos::Beyond) => None,
    }
}

/// Whether node `c` is a child of node `p`, given that every node between
/// them lies deeper than `p`.
pub fn child_step(t: &Vec<SyntaxNode>, p: usize, c: usize) -> (r: bool)
    requires
        p < c < t.len(),
        t@[c as int].depth > t@[p as int].depth,
    ensures
        r == (t@[c as int].depth == t@[p as int].depth + 1),
{
    t[c].depth - 1 == t[p].depth
}

/// `Node::child_by_field_name`: the first child of `p` under the field `name`.
pub fn child_by_field_exec(t: &Vec<SyntaxNode>, p: usize, name: &str) -> (r: Option<usize>)
    requires
        p < t.len(),
    ensures
        index_of(r) == child_by_field(t@, p as int, name@),
        r matches Some(c) ==> p < c < t.len(),
{
    let ghost f = field_is(t@, name@);
    let d = t[p].depth;
    let mut k = p + 1;
    while k < t.len() && t[k].depth > d
        invariant
            p < k <= t.len(),
            d == t@[p as int].depth,
            f == field_is(t@, name@),
            scan_children(t@, p as int, p + 1, f) == scan_children(t@, p as int, k as int, f),
        decreases t.len() - k,
    {
        if child_step(t, p, k) {
            match t[k].field {
                Some(fname) => {
                    if text_eq(fname, name) {
                        return Some(k);
                    }
                },
                None => {},
            }
        }
        k = k + 1;
    }
    None
}

/// `Node::named_child(0)`: the first named child of `p`.
pub fn first_named_child_exec(t: &Vec<SyntaxNode>, p: usize) -> (r: Option<usize>)
    requires
        p < t.len(),
    ensures
        index_of(r) == first_named_child(t@, p as int),
        r matches Some(c) ==> p < c < t.len(),
{
    let ghost f = named_node(t@);
    let d = t[p].depth;
    let mut k = p + 1;
    while k < t.len() && t[k].depth > d
        invariant
            p < k <= t.len(),
            d == t@[p as int].depth,
            f == named_node(t@),
            scan_children(t@, p as int, p + 1, f) == scan_children(t@, p as int, k as int, f),
        decreases t.len() - k,
    {
        if child_step(t, p, k) && t[k].named {
            return Some(k);
        }
        k = k + 1;
    }
    None
}

/// The first child of `p` of the kind `kind`.
pub fn first_child_of_kind(t: &Vec<SyntaxNode>, p: usize, kind: &str) -> (r: Option<usize>)
    requires
        p < t.len(),
    ensures
        index_of(r) == scan_children(t@, p as int, p + 1, kind_node(t@, kind@)),
        r matches Some(c) ==> p < c < t.len(),
{
    let ghost f = kind_node(t@, kind@);
    let d = t[p].depth;
    let mut k = p + 1;
    while k < t.len() && t[k].depth > d
        invariant
            p < k <= t.len(),
            d == t@[p as int].depth,
            f == kind_node(t@, kind@),
            scan_children(t@, p as int, p + 1, f) == scan_children(t@, p as int, k as int, f),
        decreases t.len() - k,
    {
        if child_step(t, p, k) && kind_is(t, k, kind) {
            return Some(k);
        }
        k = k + 1;
    }
    None
}

/// The index of the character at which byte offset `b` falls in `s`, when
/// `b` is on a character boundary.
pub fn char_index_exec(s: &Vec<char>, b: usize) -> (r: Option<usize>)
    ensures
        index_of(r) == char_index_at_byte(s@, b as int),
        r matches Some(i) ==> i <= s.len(),
{
    match locate_byte(s, b) {
        BytePos::Boundary(i) => {
            proof {
                lemma_boundary_index(s@, b as int, i as int);
            }
            Some(i)
        },
        BytePos::Inside(i) => {
            proof {
                lemma_inside_index(s@, b as int, i as int);
            }
            None
        },
        BytePos::Beyond => {
            assert forall|i: int| 0 <= i <= s.len() implies byte_len(s@.take(i)) != b by {
                lemma_byte_len_increasing(s@, i, s@.len() as int);
                assert(s@.take(s@.len() as int) == s@);
            }
            None
        },
    }
}

/// Whether node `i` is of the kind `kind`.
pub fn kind_is(t: &Vec<SyntaxNode>, i: usize, kind: &str) -> (r: bool)
    requires
        i < t.len(),
    ensures
        r == (t@[i as int].kind@ == kind@),
{
    text_eq(t[i].kind, kind)
}

} // verus!
