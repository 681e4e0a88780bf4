//! File-name handling, as `std::path::Path` reads a Unix path.
use vstd::prelude::*;

use crate::text::{string_of_range, text_eq};

verus! {

/// `p` without its trailing separators.
pub open spec fn strip_trailing_slashes(p: Seq<char>) -> Seq<char>
    decreases p.len(),
{
    if p.len() > 0 && p.last() == '/' {
        strip_trailing_slashes(p.drop_last())
    } else {
        p
    }
}

/// The index of the last `c` in `p`, or -1.
pub open spec fn last_index_of(p: Seq<char>, c: char) -> int
    decreases p.len(),
{
    if p.len() == 0 {
        -1
    } else if p.last() == c {
        p.len() - 1
    } else {
        last_index_of(p.drop_last(), c)
    }
}

pub proof fn lemma_strip_trailing_slashes(p: Seq<char>)
    ensures
        strip_trailing_slashes(p).len() <= p.len(),
        strip_trailing_slashes(p) == p.take(strip_trailing_slashes(p).len() as int),
    decreases p.len(),
{
    if p.len() > 0 && p.last() == '/' {
        lemma_strip_trailing_slashes(p.drop_last());
        assert(p.drop_last().take(strip_trailing_slashes(p).len() as int) == p.take(
            strip_trailing_slashes(p).len() as int,
        ));
    } else {
        assert(p.take(p.len() as int) == p);
    }
}

pub proof fn lemma_last_index_of(p: Seq<char>, c: char)
    ensures
        -1 <= last_index_of(p, c) < p.len(),
        last_index_of(p, c) >= 0 ==> p[last_index_of(p, c)] == c,
        forall|j: int| last_index_of(p, c) < j < p.len() ==> p[j] != c,
    decreases p.len(),
{
    if p.len() > 0 && p.last() != c {
        lemma_last_index_of(p.drop_last(), c);
        assert forall|j: int| last_index_of(p, c) < j < p.len() implies p[j] != c by {
            if j < p.len() - 1 {
                assert(p.drop_last()[j] == p[j]);
            }
        }
    }
}

/// `Path::file_name`: the last component of the path when it is a name (not
/// the root, `.` or `..`). Trailing separators and `.` components are
/// passed over.
pub open spec fn file_name(p: Seq<char>) -> Option<Seq<char>>
    decreases p.len(),
{
    let q = strip_trailing_slashes(p);
    if q.len() == 0 {
        None
    } else {
        let k = last_index_of(q, '/');
        let seg = q.subrange(k + 1, q.len() as int);
        if seg == seq!['.'] {
            if k < 0 {
                None
            } else {
                proof {
                    lemma_strip_trailing_slashes(p);
                    lemma_last_index_of(q, '/');
                    assert(seg.len() == 1);
                    assert(k + 1 < q.len());
                }
                file_name(q.subrange(0, k + 1))
            }
        } else if seg == seq!['.', '.'] {
            None
        } else {
            Some(seg)
        }
    }
}

/// The extension of a file name: what follows its last `.`, unless that `.`
/// opens the name.
pub open spec fn name_extension(name: Seq<char>) -> Option<Seq<char>> {
    let k = last_index_of(name, '.');
    if k <= 0 {
        None
    } else {
        Some(name.subrange(k + 1, name.len() as int))
    }
}

/// `Path::extension` of the path `p`.
pub open spec fn path_extension(p: Seq<char>) -> Option<Seq<char>> {
    match file_name(p) {
        Some(n) => name_extension(n),
        None => None,
    }
}

/// The extension of `p` when it is the text `ext`.
pub open spec fn has_extension(p: Seq<char>, ext: Seq<char>) -> bool {
    path_extension(p) == Some(ext)
}

/// The start and end of the file name of `p[..e]`, as indices into `p`.
fn file_name_range(p: &Vec<char>) -> (r: Option<(usize, usize)>)
    ensures
        match r {
            Some((a, b)) => a <= b <= p.len() && file_name(p@) == Some(p@.subrange(
                a as int,
                b as int,
            )),
            None => file_name(p@) is None,
        },
{
    let mut e = p.len();
    assert(p@.take(e as int) == p@);
    loop
        invariant
            e <= p.len(),
            file_name(p@) == file_name(p@.take(e as int)),
        decreases e,
    {
        let ghost s = p@.take(e as int);
        let mut q = e;
        while q > 0 && p[q - 1] == '/'
            invariant
                q <= e <= p.len(),
                s == p@.take(e as int),
                strip_trailing_slashes(s) == strip_trailing_slashes(p@.take(q as int)),
            decreases q,
        {
            assert(p@.take(q as int).drop_last() == p@.take(q - 1));
            q = q - 1;
        }
        let ghost sq = p@.take(q as int);
        assert(strip_trailing_slashes(sq) == sq);
        if q == 0 {
            return None;
        }
        let mut k = q;
        while k > 0 && p[k - 1] != '/'
            invariant
                k <= q <= p.len(),
                sq == p@.take(q as int),
                last_index_of(sq, '/') == last_index_of(p@.take(k as int), '/'),
            decreases k,
        {
            assert(p@.take(k as int).drop_last() == p@.take(k - 1));
            k = k - 1;
        }
        assert(last_index_of(sq, '/') == k - 1);
        assert(sq.subrange(k as int, q as int) == p@.subrange(k as int, q as int));
        if q - k == 1 && p[k] == '.' {
            assert(p@.subrange(k as int, q as int) == seq!['.']);
            if k == 0 {
                return None;
            }
            assert(sq.subrange(0, k as int) == p@.take(k as int));
            e = k;
        } else if q - k == 2 && p[k] == '.' && p[k + 1] == '.' {
            assert(p@.subrange(k as int, q as int) == seq!['.', '.']);
            return None;
        } else {
            proof {
                if p@.subrange(k as int, q as int) == seq!['.'] {
                    assert(p@.subrange(k as int, q as int)[0] == p@[k as int]);
                }
                if p@.subrange(k as int, q as int) == seq!['.', '.'] {
                    assert(p@.subrange(k as int, q as int)[0] == p@[k as int]);
                    assert(p@.subrange(k as int, q as int)[1] == p@[k + 1]);
                }
            }
            return Some((k, q));
        }
    }
}

/// `Path::extension` of the path `path`.
pub fn extension(path: &str) -> (r: Option<String>)
    ensures
        match r {
            Some(x) => path_extension(path@) == Some(x@),
            None => path_extension(path@) is None,
        },
{
    let p = crate::text::chars_of(path);
    match file_name_range(&p) {
        None => None,
        Some((a, b)) => {
            let ghost name = p@.subrange(a as int, b as int);
            let mut j = b;
            while j > a && p[j - 1] != '.'
                invariant
                    a <= j <= b <= p.len(),
                    name == p@.subrange(a as int, b as int),
                    last_index_of(name, '.') == last_index_of(
                        p@.subrange(a as int, j as int),
                        '.',
                    ),
                decreases j,
            {
                assert(p@.subrange(a as int, j as int).drop_last() == p@.subrange(
                    a as int,
                    j - 1,
                ));
                j = j - 1;
            }
            assert(last_index_of(name, '.') == j - a - 1);
            if j - a <= 1 {
                None
            } else {
                assert(name.subrange(j - a, name.len() as int) == p@.subrange(
                    j as int,
                    b as int,
                ));
                Some(string_of_range(&p, j, b))
            }
        },
    }
}

/// Whether the extension of `path` is `ext`.
pub fn extension_is(path: &str, ext: &str) -> (r: bool)
    ensures
        r == has_extension(path@, ext@),
{
    match extension(path) {
        Some(x) => text_eq(x.as_str(), ext),
        None => false,
    }
}

/// One component of a path, as `Path::components` gives it.
pub enum Component {
    /// The root `/`.
    Root,
    /// A leading `.`.
    Cur,
    /// `..`.
    Parent,
    /// A name.
    Normal(Seq<char>),
}

/// The component that a segment between separators gives, if any (empty
/// segments and `.` give none).
pub open spec fn segment_component(seg: Seq<char>) -> Seq<Component> {
    if seg.len() == 0 || seg == seq!['.'] {
        Seq::empty()
    } else if seg == seq!['.', '.'] {
        seq![Component::Parent]
    } else {
        seq![Component::Normal(seg)]
    }
}

/// The components that the segments of `p` give, in order.
pub open spec fn segment_components(p: Seq<char>) -> Seq<Component>
    decreases p.len(),
{
    if p.len() == 0 {
        Seq::empty()
    } else {
        let k = last_index_of(p, '/');
        let seg = p.subrange(k + 1, p.len() as int);
        if k < 0 {
            segment_component(seg)
        } else {
            proof {
                lemma_last_index_of(p, '/');
            }
            segment_components(p.take(k)) + segment_component(seg)
        }
    }
}

/// The component that opens `p`: the root, or `.` when the path starts with
/// a `.` segment.
pub open spec fn leading_component(p: Seq<char>) -> Seq<Component> {
    if p.len() > 0 && p[0] == '/' {
        seq![Component::Root]
    } else if p.len() > 0 && p[0] == '.' && (p.len() == 1 || p[1] == '/') {
        seq![Component::Cur]
    } else {
        Seq::empty()
    }
}

/// `Path::components` of a Unix path.
pub open spec fn components(p: Seq<char>) -> Seq<Component> {
    leading_component(p) + segment_components(p)
}

/// Text order: by code point, a proper prefix first (the byte order of
/// UTF-8 text).
pub open spec fn chars_lt(a: Seq<char>, b: Seq<char>) -> bool
    decreases a.len(),
{
    if a.len() == 0 {
        b.len() > 0
    } else if b.len() == 0 {
        false
    } else if a[0] != b[0] {
        (a[0] as u32) < (b[0] as u32)
    } else {
        chars_lt(a.drop_first(), b.drop_first())
    }
}

/// The rank of a component's kind in the order of components.
pub open spec fn component_rank(c: Component) -> int {
    match c {
        Component::Root => 1,
        Component::Cur => 2,
        Component::Parent => 3,
        Component::Normal(_) => 4,
    }
}

/// The order of components: by kind, then names by text.
pub open spec fn component_lt(x: Component, y: Component) -> bool {
    component_rank(x) < component_rank(y) || (x matches Component::Normal(a) && y matches Component::Normal(b) && chars_lt(a, b))
}

/// The order of component sequences: the first differing component decides,
/// a proper prefix comes first.
pub open spec fn components_lt(a: Seq<Component>, b: Seq<Component>) -> bool
    decreases a.len(),
{
    if a.len() == 0 {
        b.len() > 0
    } else if b.len() == 0 {
        false
    } else if a[0] != b[0] {
        component_lt(a[0], b[0])
    } else {
        components_lt(a.drop_first(), b.drop_first())
    }
}

/// `p` sorts strictly before `q` as paths (`Ord for Path`).
pub open spec fn path_lt(p: Seq<char>, q: Seq<char>) -> bool {
    components_lt(components(p), components(q))
}

pub proof fn lemma_chars_lt_irreflexive(a: Seq<char>)
    ensures
        !chars_lt(a, a),
    decreases a.len(),
{
    if a.len() > 0 {
        lemma_chars_lt_irreflexive(a.drop_first());
    }
}

pub proof fn lemma_chars_lt_transitive(a: Seq<char>, b: Seq<char>, c: Seq<char>)
    requires
        chars_lt(a, b),
        chars_lt(b, c),
    ensures
        chars_lt(a, c),
    decreases a.len(),
{
    if a.len() > 0 && a[0] == b[0] && b[0] == c[0] {
        lemma_chars_lt_transitive(a.drop_first(), b.drop_first(), c.drop_first());
    }
}

pub proof fn lemma_chars_lt_total(a: Seq<char>, b: Seq<char>)
    ensures
        a == b || chars_lt(a, b) || chars_lt(b, a),
    decreases a.len(),
{
    if a.len() > 0 && b.len() > 0 && a[0] == b[0] {
        lemma_chars_lt_total(a.drop_first(), b.drop_first());
        if a.drop_first() == b.drop_first() {
            assert(a =~= seq![a[0]] + a.drop_first());
            assert(b =~= seq![b[0]] + b.drop_first());
        }
    } else if a.len() == 0 && b.len() == 0 {
        assert(a =~= b);
    } else if a.len() > 0 && b.len() > 0 {
        assert((a[0] as u32) != (b[0] as u32)) by {
            vstd::utf8::char_u32_cast(a[0], a[0] as u32);
            vstd::utf8::char_u32_cast(b[0], b[0] as u32);
        }
    }
}

pub proof fn lemma_component_lt_irreflexive(x: Component)
    ensures
        !component_lt(x, x),
{
    if let Component::Normal(a) = x {
        lemma_chars_lt_irreflexive(a);
    }
}

pub proof fn lemma_component_lt_transitive(x: Component, y: Component, z: Component)
    requires
        component_lt(x, y),
        component_lt(y, z),
    ensures
        component_lt(x, z),
{
    if let (Component::Normal(a), Component::Normal(b), Component::Normal(c)) = (x, y, z) {
        if chars_lt(a, b) && chars_lt(b, c) {
            lemma_chars_lt_transitive(a, b, c);
        }
    }
}

pub proof fn lemma_components_lt_irreflexive(a: Seq<Component>)
    ensures
        !components_lt(a, a),
    decreases a.len(),
{
    if a.len() > 0 {
        lemma_components_lt_irreflexive(a.drop_first());
    }
}

pub proof fn lemma_components_lt_transitive(a: Seq<Component>, b: Seq<Component>, c: Seq<Component>)
    requires
        components_lt(a, b),
        components_lt(b, c),
    ensures
        components_lt(a, c),
    decreases a.len(),
{
    if a.len() > 0 {
        if a[0] != b[0] {
            if b[0] != c[0] {
                lemma_component_lt_transitive(a[0], b[0], c[0]);
                if a[0] == c[0] {
                    lemma_component_lt_transitive(a[0], b[0], a[0]);
                    lemma_component_lt_irreflexive(a[0]);
                }
            }
        } else if b[0] == c[0] {
            lemma_components_lt_transitive(a.drop_first(), b.drop_first(), c.drop_first());
        }
    }
}

proof fn lemma_component_lt_total(x: Component, y: Component)
    ensures
        x == y || component_lt(x, y) || component_lt(y, x),
{
    if let (Component::Normal(a), Component::Normal(b)) = (x, y) {
        lemma_chars_lt_total(a, b);
    }
}

proof fn lemma_components_lt_total(a: Seq<Component>, b: Seq<Component>)
    ensures
        a == b || components_lt(a, b) || components_lt(b, a),
    decreases a.len(),
{
    if a.len() > 0 && b.len() > 0 {
        if a[0] == b[0] {
            lemma_components_lt_total(a.drop_first(), b.drop_first());
            if a.drop_first() == b.drop_first() {
                assert(a =~= seq![a[0]] + a.drop_first());
                assert(b =~= seq![b[0]] + b.drop_first());
            }
        } else {
            lemma_component_lt_total(a[0], b[0]);
        }
    } else if a.len() == 0 && b.len() == 0 {
        assert(a =~= b);
    }
}

/// The order in which a run lists its files: as paths (`Ord for Path`),
/// and, between different texts of the same path (`a/b` and `a//b`), by
/// text.
pub open spec fn listing_lt(p: Seq<char>, q: Seq<char>) -> bool {
    path_lt(p, q) || (!path_lt(q, p) && chars_lt(p, q))
}

/// The listing order is a strict total order on texts: irreflexive,
/// transitive, and any two different texts are ordered one way.
pub proof fn lemma_listing_order(p: Seq<char>, q: Seq<char>, r: Seq<char>)
    ensures
        !listing_lt(p, p),
        listing_lt(p, q) && listing_lt(q, r) ==> listing_lt(p, r),
        p == q || listing_lt(p, q) || listing_lt(q, p),
{
    lemma_path_order(p, q, r);
    lemma_path_order(q, r, p);
    lemma_path_order(r, p, q);
    lemma_path_order(q, p, r);
    lemma_path_order(p, r, q);
    lemma_path_order(r, q, p);
    lemma_chars_lt_irreflexive(p);
    lemma_chars_lt_total(p, q);
    lemma_components_lt_total(components(p), components(q));
    lemma_components_lt_total(components(q), components(r));
    if listing_lt(p, q) && listing_lt(q, r) {
        if chars_lt(p, q) && chars_lt(q, r) {
            lemma_chars_lt_transitive(p, q, r);
        }
    }
}

/// Paths are ordered strictly: no path sorts before itself, and the order is
/// transitive.
pub proof fn lemma_path_order(p: Seq<char>, q: Seq<char>, r: Seq<char>)
    ensures
        !path_lt(p, p),
        path_lt(p, q) && path_lt(q, r) ==> path_lt(p, r),
{
    lemma_components_lt_irreflexive(components(p));
    if path_lt(p, q) && path_lt(q, r) {
        lemma_components_lt_transitive(components(p), components(q), components(r));
    }
}

/// A component of a path held as its kind (1 root, 2 `.`, 3 `..`, 4 name)
/// and, for a name, the range of its characters in the path.
#[derive(Clone, Copy)]
pub struct ComponentSpan {
    pub rank: u8,
    pub start: usize,
    pub end: usize,
}

/// The component that a span of the path `p` stands for.
pub open spec fn span_component(p: Seq<char>, s: ComponentSpan) -> Component {
    if s.rank == 1 {
        Component::Root
    } else if s.rank == 2 {
        Component::Cur
    } else if s.rank == 3 {
        Component::Parent
    } else {
        Component::Normal(p.subrange(s.start as int, s.end as int))
    }
}

/// The components that spans of the path `p` stand for.
pub open spec fn spans_components(p: Seq<char>, spans: Seq<ComponentSpan>) -> Seq<Component> {
    spans.map_values(|s: ComponentSpan| span_component(p, s))
}

/// Every span lies within the path and has a known kind.
pub open spec fn spans_fit(p: Seq<char>, spans: Seq<ComponentSpan>) -> bool {
    forall|i: int|
        0 <= i < spans.len() ==> 1 <= (#[trigger] spans[i]).rank <= 4 && spans[i].start
            <= spans[i].end <= p.len()
}

pub proof fn lemma_last_index_is(s: Seq<char>, c: char, k: int)
    requires
        -1 <= k < s.len(),
        k >= 0 ==> s[k] == c,
        forall|j: int| k < j < s.len() ==> s[j] != c,
    ensures
        last_index_of(s, c) == k,
    decreases s.len(),
{
    if s.len() > 0 && k < s.len() - 1 {
        assert forall|j: int| k < j < s.drop_last().len() implies s.drop_last()[j] != c by {
            assert(s.drop_last()[j] == s[j]);
        }
        lemma_last_index_is(s.drop_last(), c, k);
    }
}

/// Adds to `out` the span of the component that the segment `p[i..j]` gives.
fn push_segment(p: &Vec<char>, i: usize, j: usize, out: &mut Vec<ComponentSpan>)
    requires
        i <= j <= p.len(),
        spans_fit(p@, old(out)@),
    ensures
        spans_fit(p@, final(out)@),
        spans_components(p@, final(out)@) == spans_components(p@, old(out)@) + segment_component(
            p@.subrange(i as int, j as int),
        ),
{
    let ghost seg = p@.subrange(i as int, j as int);
    if j == i || (j - i == 1 && p[i] == '.') {
        proof {
            if j - i == 1 && p[i as int] == '.' {
                assert(seg =~= seq!['.']);
            } else {
                assert(seg.len() == 0);
            }
            assert(segment_component(seg) =~= Seq::<Component>::empty());
        }
        assert(spans_components(p@, out@) + segment_component(seg) =~= spans_components(p@, out@));
    } else if j - i == 2 && p[i] == '.' && p[i + 1] == '.' {
        assert(seg =~= seq!['.', '.']);
        out.push(ComponentSpan { rank: 3, start: i, end: j });
        assert(spans_components(p@, out@) =~= spans_components(p@, old(out)@) + seq![
            Component::Parent,
        ]);
        assert(segment_component(seg) == seq![Component::Parent]);
    } else {
        assert(seg.len() == j - i);
        assert(seg != seq!['.']) by {
            if seg == seq!['.'] {
                assert(seg[0] == p@[i as int]);
                assert(seq!['.'][0] == '.');
            }
        }
        assert(seg != seq!['.', '.']) by {
            if seg == seq!['.', '.'] {
                assert(seg[0] == p@[i as int]);
                assert(seg[1] == p@[i + 1]);
                assert(seq!['.', '.'][0] == '.');
                assert(seq!['.', '.'][1] == '.');
            }
        }
        out.push(ComponentSpan { rank: 4, start: i, end: j });
        assert(spans_components(p@, out@) =~= spans_components(p@, old(out)@) + seq![
            Component::Normal(seg),
        ]);
        assert(segment_component(seg) == seq![Component::Normal(seg)]);
    }
}

/// The components of the path `p`, as spans of it.
pub fn path_components(p: &Vec<char>) -> (r: Vec<ComponentSpan>)
    ensures
        spans_fit(p@, r@),
        spans_components(p@, r@) == components(p@),
{
    let mut out: Vec<ComponentSpan> = Vec::new();
    let n = p.len();
    if n > 0 && p[0] == '/' {
        out.push(ComponentSpan { rank: 1, start: 0, end: 0 });
    } else if n > 0 && p[0] == '.' && (n == 1 || p[1] == '/') {
        out.push(ComponentSpan { rank: 2, start: 0, end: 0 });
    }
    let ghost lead = spans_components(p@, out@);
    assert(lead =~= leading_component(p@));
    assert(segment_components(p@.take(0)) =~= Seq::<Component>::empty());
    assert(lead + segment_components(p@.take(0)) =~= lead);
    let mut i: usize = 0;
    loop
        invariant
            n == p.len(),
            i <= n,
            i > 0 ==> p@[i - 1] == '/',
            lead == leading_component(p@),
            spans_fit(p@, out@),
            spans_components(p@, out@) == lead + segment_components(p@.take(i as int)),
        decreases n - i,
    {
        let mut j = i;
        while j < n && p[j] != '/'
            invariant
                i <= j <= n,
                n == p.len(),
                forall|k: int| i <= k < j ==> p@[k] != '/',
            decreases n - j,
        {
            j = j + 1;
        }
        let ghost before = spans_components(p@, out@);
        push_segment(p, i, j, &mut out);
        proof {
            let q = p@.take(j as int);
            if i > 0 {
                lemma_last_index_is(q, '/', i - 1);
                assert(q.take(i - 1) == p@.take(i - 1));
                assert(q.subrange(i as int, j as int) == p@.subrange(i as int, j as int));
                let qi = p@.take(i as int);
                lemma_last_index_is(qi, '/', i - 1);
                assert(qi.take(i - 1) == p@.take(i - 1));
                assert(qi.subrange(i as int, i as int) =~= Seq::<char>::empty());
                assert(segment_components(qi) =~= segment_components(p@.take(i - 1)));
            } else {
                lemma_last_index_is(q, '/', -1);
                assert(q.subrange(0, j as int) == p@.subrange(0, j as int));
                if j > 0 {
                    assert(segment_components(q) == segment_component(p@.subrange(0, j as int)));
                } else {
                    assert(p@.subrange(0, 0) =~= Seq::<char>::empty());
                }
                assert(segment_components(p@.take(0)) =~= Seq::<Component>::empty());
            }
            assert(spans_components(p@, out@) =~= lead + segment_components(q));
        }
        if j == n {
            assert(p@.take(n as int) == p@);
            return out;
        }
        proof {
            let q1 = p@.take(j + 1);
            lemma_last_index_is(q1, '/', j as int);
            assert(q1.take(j as int) == p@.take(j as int));
            assert(q1.subrange(j + 1, j + 1) =~= Seq::<char>::empty());
            assert(segment_components(q1) =~= segment_components(p@.take(j as int)));
        }
        i = j + 1;
    }
}

/// A path with its characters and components, ready to be compared.
pub struct PathKey {
    pub path: String,
    pub chars: Vec<char>,
    pub spans: Vec<ComponentSpan>,
}

/// The key holds the components of its path.
pub open spec fn key_fits(k: PathKey) -> bool {
    &&& k.chars@ == k.path@
    &&& spans_fit(k.chars@, k.spans@)
    &&& spans_components(k.chars@, k.spans@) == components(k.path@)
}

/// The comparison key of a path.
pub fn path_key(path: String) -> (k: PathKey)
    ensures
        key_fits(k),
        k.path == path,
{
    let chars = crate::text::chars_of(path.as_str());
    let spans = path_components(&chars);
    PathKey { path, chars, spans }
}

/// Whether `a[as_..ae]` sorts strictly before `b[bs..be]` as text.
fn range_lt(a: &Vec<char>, as_: usize, ae: usize, b: &Vec<char>, bs: usize, be: usize) -> (r: bool)
    requires
        as_ <= ae <= a.len(),
        bs <= be <= b.len(),
    ensures
        r == chars_lt(a@.subrange(as_ as int, ae as int), b@.subrange(bs as int, be as int)),
{
    let ghost x = a@.subrange(as_ as int, ae as int);
    let ghost y = b@.subrange(bs as int, be as int);
    assert(x.skip(0) == x);
    assert(y.skip(0) == y);
    let mut i: usize = 0;
    loop
        invariant
            as_ <= ae <= a.len(),
            bs <= be <= b.len(),
            x == a@.subrange(as_ as int, ae as int),
            y == b@.subrange(bs as int, be as int),
            i <= x.len(),
            i <= y.len(),
            x.take(i as int) == y.take(i as int),
            chars_lt(x, y) == chars_lt(x.skip(i as int), y.skip(i as int)),
            chars_lt(y, x) == chars_lt(y.skip(i as int), x.skip(i as int)),
        decreases x.len() - i,
    {
        if i == ae - as_ {
            if i < be - bs {
                return true;
            }
            assert(x =~= x.take(i as int));
            assert(y =~= y.take(i as int));
            return false;
        }
        if i == be - bs {
            return false;
        }
        let ca = a[as_ + i];
        let cb = b[bs + i];
        assert(x.skip(i as int)[0] == ca);
        assert(y.skip(i as int)[0] == cb);
        if ca != cb {
            return (ca as u32) < (cb as u32);
        }
        assert(x.skip(i as int).drop_first() == x.skip(i + 1));
        assert(y.skip(i as int).drop_first() == y.skip(i + 1));
        assert(x.take(i + 1) == x.take(i as int).push(ca));
        assert(y.take(i + 1) == y.take(i as int).push(cb));
        i = i + 1;
    }
}

/// Whether span `i` of `a` and span `j` of `b` stand for the same component,
/// and whether the first sorts before the second.
fn compare_spans(a: &PathKey, i: usize, b: &PathKey, j: usize) -> (r: (bool, bool))
    requires
        spans_fit(a.chars@, a.spans@),
        spans_fit(b.chars@, b.spans@),
        i < a.spans.len(),
        j < b.spans.len(),
    ensures
        r.0 == (span_component(a.chars@, a.spans@[i as int]) == span_component(
            b.chars@,
            b.spans@[j as int],
        )),
        r.1 == component_lt(
            span_component(a.chars@, a.spans@[i as int]),
            span_component(b.chars@, b.spans@[j as int]),
        ),
{
    let sa = a.spans[i];
    let sb = b.spans[j];
    assert(1 <= sa.rank <= 4);
    assert(1 <= sb.rank <= 4);
    if sa.rank != sb.rank {
        return (false, sa.rank < sb.rank);
    }
    if sa.rank < 4 {
        return (true, false);
    }
    let lt = range_lt(&a.chars, sa.start, sa.end, &b.chars, sb.start, sb.end);
    if lt {
        proof {
            lemma_chars_lt_irreflexive(a.chars@.subrange(sa.start as int, sa.end as int));
        }
        return (false, true);
    }
    let gt = range_lt(&b.chars, sb.start, sb.end, &a.chars, sa.start, sa.end);
    if gt {
        proof {
            lemma_chars_lt_irreflexive(a.chars@.subrange(sa.start as int, sa.end as int));
        }
        return (false, false);
    }
    proof {
        lemma_chars_lt_total(
            a.chars@.subrange(sa.start as int, sa.end as int),
            b.chars@.subrange(sb.start as int, sb.end as int),
        );
    }
    (true, false)
}

/// Whether the path of `a` sorts strictly before the path of `b`.
pub fn path_key_lt(a: &PathKey, b: &PathKey) -> (r: bool)
    requires
        key_fits(*a),
        key_fits(*b),
    ensures
        r == path_lt(a.path@, b.path@),
{
    let r = spans_lt(a, b);
    r
}

/// Whether the path of `a` comes strictly before the path of `b` in the
/// listing order.
pub fn path_key_before(a: &PathKey, b: &PathKey) -> (r: bool)
    requires
        key_fits(*a),
        key_fits(*b),
    ensures
        r == listing_lt(a.path@, b.path@),
{
    if path_key_lt(a, b) {
        return true;
    }
    if path_key_lt(b, a) {
        return false;
    }
    assert(a.chars@.subrange(0, a.chars@.len() as int) == a.chars@);
    assert(b.chars@.subrange(0, b.chars@.len() as int) == b.chars@);
    range_lt(&a.chars, 0, a.chars.len(), &b.chars, 0, b.chars.len())
}

/// Whether the components of `a` sort strictly before those of `b`.
fn spans_lt(a: &PathKey, b: &PathKey) -> (r: bool)
    requires
        spans_fit(a.chars@, a.spans@),
        spans_fit(b.chars@, b.spans@),
    ensures
        r == components_lt(spans_components(a.chars@, a.spans@), spans_components(b.chars@, b.spans@)),
{
    let ghost x = spans_components(a.chars@, a.spans@);
    let ghost y = spans_components(b.chars@, b.spans@);
    assert(x.skip(0) == x);
    assert(y.skip(0) == y);
    let mut i: usize = 0;
    loop
        invariant
            spans_fit(a.chars@, a.spans@),
            spans_fit(b.chars@, b.spans@),
            x == spans_components(a.chars@, a.spans@),
            y == spans_components(b.chars@, b.spans@),
            i <= a.spans.len(),
            i <= b.spans.len(),
            components_lt(x, y) == components_lt(x.skip(i as int), y.skip(i as int)),
        decreases a.spans.len() - i,
    {
        if i == a.spans.len() {
            return i < b.spans.len();
        }
        if i == b.spans.len() {
            return false;
        }
        let (same, lt) = compare_spans(a, i, b, i);
        assert(x.skip(i as int)[0] == x[i as int]);
        assert(y.skip(i as int)[0] == y[i as int]);
        if !same {
            return lt;
        }
        assert(x.skip(i as int).drop_first() == x.skip(i + 1));
        assert(y.skip(i as int).drop_first() == y.skip(i + 1));
        i = i + 1;
    }
}

} // verus!
