//! Which files a run looks at, and in what order.
use vstd::prelude::*;

use crate::paths::{
    extension, has_extension, key_fits, path_extension, lemma_listing_order, listing_lt, path_key, path_key_before, PathKey,
};
use crate::text::{contains, strings_view, text_contains, text_eq};

verus! {

broadcast use vstd::seq_lib::group_to_multiset_ensures;

/// A Python or TypeScript source file, by its extension.
pub open spec fn is_source_path(p: Seq<char>) -> bool {
    has_extension(p, "py"@) || has_extension(p, "ts"@) || has_extension(p, "tsx"@)
}

/// Some exclusion pattern occurs in the path.
pub open spec fn excluded(p: Seq<char>, exclude: Seq<String>) -> bool {
    exists|i: int| 0 <= i < exclude.len() && contains(p, (#[trigger] exclude[i])@)
}

/// The path is a source file that no pattern excludes.
pub open spec fn selected(p: Seq<char>, exclude: Seq<String>) -> bool {
    is_source_path(p) && !excluded(p, exclude)
}

/// No path of `s` comes, in the listing order, before one that stands
/// before it.
pub open spec fn sorted_listing(s: Seq<Seq<char>>) -> bool {
    forall|a: int, b: int| 0 <= a < b < s.len() ==> !listing_lt(s[b], s[a])
}

/// A run takes a path exactly when its extension is `py`, `ts` or `tsx` and
/// none of the exclusion patterns occurs in it.
pub proof fn law_selected_paths(p: Seq<char>, exclude: Seq<String>)
    ensures
        selected(p, exclude) <==> (path_extension(p) == Some("py"@) || path_extension(p) == Some(
            "ts"@,
        ) || path_extension(p) == Some("tsx"@)) && forall|i: int|
            0 <= i < exclude.len() ==> !contains(p, (#[trigger] exclude[i])@),
{
}

/// Without patterns nothing is excluded, and more patterns never exclude
/// fewer paths.
pub proof fn law_exclusion_monotone(p: Seq<char>, exclude: Seq<String>, more: Seq<String>)
    ensures
        !excluded(p, Seq::<String>::empty()),
        excluded(p, exclude) ==> excluded(p, exclude + more),
{
    if excluded(p, exclude) {
        let i = choose|i: int| 0 <= i < exclude.len() && contains(p, (#[trigger] exclude[i])@);
        assert((exclude + more)[i] == exclude[i]);
    }
}

/// Whether some pattern of `exclude` occurs in `path`.
pub fn is_excluded(path: &str, exclude: &[String]) -> (r: bool)
    ensures
        r == excluded(path@, exclude@),
{
    let mut i: usize = 0;
    while i < exclude.len()
        invariant
            i <= exclude.len(),
            forall|k: int| 0 <= k < i ==> !contains(path@, (#[trigger] exclude@[k])@),
        decreases exclude.len() - i,
    {
        if text_contains(path, exclude[i].as_str()) {
            return true;
        }
        i = i + 1;
    }
    false
}

/// Whether `path` is a Python or TypeScript source file by its extension.
pub fn is_source_file(path: &str) -> (r: bool)
    ensures
        r == is_source_path(path@),
{
    match extension(path) {
        Some(x) => text_eq(x.as_str(), "py") || text_eq(x.as_str(), "ts") || text_eq(
            x.as_str(),
            "tsx",
        ),
        None => false,
    }
}

/// The texts of the keys' paths.
pub open spec fn key_views(s: Seq<PathKey>) -> Seq<Seq<char>> {
    s.map_values(|k: PathKey| k.path@)
}

proof fn lemma_insert_keeps_order(s: Seq<Seq<char>>, j: int, x: Seq<char>)
    requires
        0 <= j <= s.len(),
        sorted_listing(s),
        forall|a: int| 0 <= a < j ==> !listing_lt(x, #[trigger] s[a]),
        j < s.len() ==> listing_lt(x, s[j]),
    ensures
        sorted_listing(s.insert(j, x)),
{
    let n = s.insert(j, x);
    assert forall|a: int, b: int| 0 <= a < b < n.len() implies !listing_lt(n[b], n[a]) by {
        if a == j && b > j {
            lemma_listing_order(s[b - 1], x, s[j]);
            lemma_listing_order(s[j], s[b - 1], x);
            if b - 1 > j {
                lemma_listing_order(s[b - 1], s[j], x);
            }
        }
    }
}

/// The paths of `v`, sorted in the listing order.
pub fn sort_paths(v: &Vec<String>) -> (r: Vec<String>)
    ensures
        strings_view(r@).to_multiset() == strings_view(v@).to_multiset(),
        sorted_listing(strings_view(r@)),
{
    let mut keys: Vec<PathKey> = Vec::new();
    let mut i: usize = 0;
    assert(key_views(keys@) =~= strings_view(v@.take(0)));
    while i < v.len()
        invariant
            i <= v.len(),
            forall|k: int| 0 <= k < keys.len() ==> key_fits(#[trigger] keys@[k]),
            key_views(keys@).to_multiset() == strings_view(v@.take(i as int)).to_multiset(),
            sorted_listing(key_views(keys@)),
        decreases v.len() - i,
    {
        let key = path_key(v[i].clone());
        let mut j: usize = 0;
        while j < keys.len() && !path_key_before(&key, &keys[j])
            invariant
                j <= keys.len(),
                key_fits(key),
                forall|k: int| 0 <= k < keys.len() ==> key_fits(#[trigger] keys@[k]),
                forall|a: int| 0 <= a < j ==> !listing_lt(key.path@, (#[trigger] keys@[a]).path@),
            decreases keys.len() - j,
        {
            j = j + 1;
        }
        let ghost old_views = key_views(keys@);
        let ghost kp = key.path@;
        proof {
            assert forall|a: int| 0 <= a < j implies !listing_lt(kp, #[trigger] old_views[a]) by {
                assert(old_views[a] == keys@[a].path@);
            }
            lemma_insert_keeps_order(old_views, j as int, kp);
        }
        keys.insert(j, key);
        assert(key_views(keys@) =~= old_views.insert(j as int, kp));
        assert(strings_view(v@.take(i + 1)) =~= strings_view(v@.take(i as int)).push(v@[i as int]@));
        i = i + 1;
    }
    assert(v@.take(v.len() as int) =~= v@);
    let mut out: Vec<String> = Vec::new();
    let mut k: usize = 0;
    while k < keys.len()
        invariant
            k <= keys.len(),
            strings_view(out@) == key_views(keys@).take(k as int),
        decreases keys.len() - k,
    {
        let ghost before = out@;
        out.push(keys[k].path.clone());
        assert(strings_view(out@) =~= strings_view(before).push(keys@[k as int].path@));
        assert(key_views(keys@).take(k + 1) =~= key_views(keys@).take(k as int).push(
            keys@[k as int].path@,
        ));
        k = k + 1;
    }
    assert(key_views(keys@).take(keys.len() as int) =~= key_views(keys@));
    out
}

/// A file system entry found under the target folder: its path, whether it
/// is a file, and how many folders down from the target it lies (0 for the
/// target's own entries).
pub struct WalkEntry {
    pub path: String,
    pub is_file: bool,
    pub depth: usize,
}

/// The entry is a file that the run considers: directly in the target
/// folder, or anywhere under it with `recursive`.
pub open spec fn considered(e: WalkEntry, recursive: bool) -> bool {
    e.is_file && (recursive || e.depth == 0)
}

/// The paths of the considered, selected entries, in their order.
pub open spec fn walk_selection(entries: Seq<WalkEntry>, recursive: bool, exclude: Seq<String>) -> Seq<Seq<char>>
    decreases entries.len(),
{
    if entries.len() == 0 {
        Seq::empty()
    } else {
        let rest = walk_selection(entries.drop_last(), recursive, exclude);
        let e = entries.last();
        if considered(e, recursive) && selected(e.path@, exclude) {
            rest.push(e.path@)
        } else {
            rest
        }
    }
}

/// `a` is a subsequence of `b`: `b` with some of its elements left out.
pub open spec fn subsequence_of(a: Seq<Seq<char>>, b: Seq<Seq<char>>) -> bool
    decreases b.len(),
{
    if b.len() == 0 {
        a.len() == 0
    } else if a.len() > 0 && a.last() == b.last() {
        subsequence_of(a.drop_last(), b.drop_last())
    } else {
        subsequence_of(a, b.drop_last())
    }
}

proof fn lemma_subsequence_drop_last(a: Seq<Seq<char>>, b: Seq<Seq<char>>)
    requires
        a.len() > 0,
        subsequence_of(a, b),
    ensures
        subsequence_of(a.drop_last(), b),
    decreases b.len(),
{
    if b.len() > 0 {
        if a.last() == b.last() {
            if a.drop_last().len() > 0 {
                lemma_subsequence_drop_last(a.drop_last(), b.drop_last());
            }
        } else {
            lemma_subsequence_drop_last(a, b.drop_last());
            if a.drop_last().len() > 0 {
                lemma_subsequence_drop_last(a.drop_last(), b.drop_last());
            }
        }
    }
}

proof fn lemma_subsequence_push(a: Seq<Seq<char>>, b: Seq<Seq<char>>, x: Seq<char>)
    requires
        subsequence_of(a, b),
    ensures
        subsequence_of(a, b.push(x)),
{
    assert(b.push(x).drop_last() == b);
    if a.len() > 0 && a.last() == x {
        lemma_subsequence_drop_last(a, b);
    }
}

/// Two lists sorted in the listing order, the first holding each path at
/// most as often as the second: the first is a subsequence of the second.
proof fn lemma_sorted_subset_is_subsequence(a: Seq<Seq<char>>, b: Seq<Seq<char>>)
    requires
        sorted_listing(a),
        sorted_listing(b),
        a.to_multiset().subset_of(b.to_multiset()),
    ensures
        subsequence_of(a, b),
    decreases b.len(),
{
    if a.len() > 0 {
        assert(a.contains(a[0]));
        assert(a.to_multiset().count(a[0]) > 0);
    }
    if b.len() > 0 {
        let x = b.last();
        let bd = b.drop_last();
        assert(b =~= bd.push(x));
        assert(b.to_multiset() =~= bd.to_multiset().insert(x));
        assert(sorted_listing(bd)) by {
            assert forall|i: int, j: int| 0 <= i < j < bd.len() implies !listing_lt(bd[j], bd[i]) by {
                assert(bd[i] == b[i] && bd[j] == b[j]);
            }
        }
        if a.len() > 0 && a.last() == x {
            let ad = a.drop_last();
            assert(a =~= ad.push(x));
            assert(a.to_multiset() =~= ad.to_multiset().insert(x));
            assert(sorted_listing(ad)) by {
                assert forall|i: int, j: int| 0 <= i < j < ad.len() implies !listing_lt(ad[j], ad[i]) by {
                    assert(ad[i] == a[i] && ad[j] == a[j]);
                }
            }
            assert(ad.to_multiset().subset_of(bd.to_multiset())) by {
                assert forall|v: Seq<char>| ad.to_multiset().count(v) <= bd.to_multiset().count(v) by {
                    assert(a.to_multiset().count(v) <= b.to_multiset().count(v));
                }
            }
            lemma_sorted_subset_is_subsequence(ad, bd);
        } else {
            assert(!a.contains(x)) by {
                if a.contains(x) {
                    let i = choose|i: int| 0 <= i < a.len() && a[i] == x;
                    let y = a.last();
                    assert(a.contains(y));
                    assert(a.to_multiset().count(y) > 0);
                    assert(b.to_multiset().count(y) > 0);
                    assert(b.contains(y));
                    let j = choose|j: int| 0 <= j < b.len() && b[j] == y;
                    assert(i < a.len() - 1);
                    assert(j < b.len() - 1);
                    assert(!listing_lt(y, x));
                    assert(!listing_lt(x, y));
                    lemma_listing_order(x, y, x);
                }
            }
            assert(a.to_multiset().count(x) == 0);
            assert(a.to_multiset().subset_of(bd.to_multiset())) by {
                assert forall|v: Seq<char>| a.to_multiset().count(v) <= bd.to_multiset().count(v) by {
                    assert(a.to_multiset().count(v) <= b.to_multiset().count(v));
                }
            }
            lemma_sorted_subset_is_subsequence(a, bd);
        }
    }
}

/// Every path of the selection is a Python or TypeScript source file that
/// no pattern excludes.
pub proof fn law_selection_is_selected(entries: Seq<WalkEntry>, recursive: bool, exclude: Seq<String>)
    ensures
        forall|k: int|
            0 <= k < walk_selection(entries, recursive, exclude).len() ==> selected(
                #[trigger] walk_selection(entries, recursive, exclude)[k],
                exclude,
            ),
    decreases entries.len(),
{
    if entries.len() > 0 {
        let rest = entries.drop_last();
        law_selection_is_selected(rest, recursive, exclude);
        let s0 = walk_selection(rest, recursive, exclude);
        let s = walk_selection(entries, recursive, exclude);
        assert forall|k: int| 0 <= k < s.len() implies selected(#[trigger] s[k], exclude) by {
            if k < s0.len() {
                assert(s[k] == s0[k]);
            }
        }
    }
}

/// More exclusion patterns only leave files out: the selection with the
/// patterns `exclude + more` is a subsequence of the selection with
/// `exclude`, and holds each path at most as often.
pub proof fn law_more_patterns_select_less(
    entries: Seq<WalkEntry>,
    recursive: bool,
    exclude: Seq<String>,
    more: Seq<String>,
)
    ensures
        subsequence_of(
            walk_selection(entries, recursive, exclude + more),
            walk_selection(entries, recursive, exclude),
        ),
        walk_selection(entries, recursive, exclude + more).to_multiset().subset_of(
            walk_selection(entries, recursive, exclude).to_multiset(),
        ),
    decreases entries.len(),
{
    let a = walk_selection(entries, recursive, exclude + more);
    let b = walk_selection(entries, recursive, exclude);
    if entries.len() > 0 {
        let rest = entries.drop_last();
        let e = entries.last();
        law_more_patterns_select_less(rest, recursive, exclude, more);
        law_exclusion_monotone(e.path@, exclude, more);
        let a0 = walk_selection(rest, recursive, exclude + more);
        let b0 = walk_selection(rest, recursive, exclude);
        if considered(e, recursive) && selected(e.path@, exclude + more) {
            assert(a.drop_last() == a0);
            assert(b.drop_last() == b0);
        } else if considered(e, recursive) && selected(e.path@, exclude) {
            lemma_subsequence_push(a0, b0, e.path@);
        }
    }
}

/// Looking into subfolders only adds files: the selection without
/// `recursive` is a subsequence of the selection with it, and holds each
/// path at most as often.
pub proof fn law_flat_within_recursive(entries: Seq<WalkEntry>, exclude: Seq<String>)
    ensures
        subsequence_of(walk_selection(entries, false, exclude), walk_selection(entries, true, exclude)),
        walk_selection(entries, false, exclude).to_multiset().subset_of(
            walk_selection(entries, true, exclude).to_multiset(),
        ),
    decreases entries.len(),
{
    let a = walk_selection(entries, false, exclude);
    let b = walk_selection(entries, true, exclude);
    if entries.len() > 0 {
        let rest = entries.drop_last();
        let e = entries.last();
        law_flat_within_recursive(rest, exclude);
        let a0 = walk_selection(rest, false, exclude);
        let b0 = walk_selection(rest, true, exclude);
        if considered(e, false) && selected(e.path@, exclude) {
            assert(a.drop_last() == a0);
            assert(b.drop_last() == b0);
        } else if considered(e, true) && selected(e.path@, exclude) {
            lemma_subsequence_push(a0, b0, e.path@);
        }
    }
}

/// What a run's file list is: for a target that is a file, the target alone
/// when it is selected, else nothing; for a folder, the selection of the
/// entries found under it, sorted in the listing order.
pub open spec fn resolution(
    r: Seq<Seq<char>>,
    target: Seq<char>,
    target_is_file: bool,
    entries: Seq<WalkEntry>,
    recursive: bool,
    exclude: Seq<String>,
) -> bool {
    if target_is_file {
        r == (if selected(target, exclude) {
            seq![target]
        } else {
            Seq::<Seq<char>>::empty()
        })
    } else {
        r.to_multiset() == walk_selection(entries, recursive, exclude).to_multiset()
            && sorted_listing(r)
    }
}

/// The file list of a run is fully determined by its inputs, and each of
/// its paths is a source file that no pattern excludes.
pub proof fn law_resolution_is_determined(
    r1: Seq<Seq<char>>,
    r2: Seq<Seq<char>>,
    target: Seq<char>,
    target_is_file: bool,
    entries: Seq<WalkEntry>,
    recursive: bool,
    exclude: Seq<String>,
)
    requires
        resolution(r1, target, target_is_file, entries, recursive, exclude),
        resolution(r2, target, target_is_file, entries, recursive, exclude),
    ensures
        r1 == r2,
        forall|k: int| 0 <= k < r1.len() ==> selected(#[trigger] r1[k], exclude),
{
    if !target_is_file {
        lemma_sorted_subset_is_subsequence(r1, r2);
        lemma_sorted_subset_is_subsequence(r2, r1);
        lemma_subsequence_same_len(r1, r2);
        law_selection_is_selected(entries, recursive, exclude);
        let w = walk_selection(entries, recursive, exclude);
        assert forall|k: int| 0 <= k < r1.len() implies selected(#[trigger] r1[k], exclude) by {
            assert(r1.contains(r1[k]));
            assert(r1.to_multiset().count(r1[k]) > 0);
            assert(w.to_multiset().count(r1[k]) > 0);
            assert(w.contains(r1[k]));
        }
    }
}

proof fn lemma_subsequence_len(a: Seq<Seq<char>>, b: Seq<Seq<char>>)
    requires
        subsequence_of(a, b),
    ensures
        a.len() <= b.len(),
        a.len() == b.len() ==> a == b,
    decreases b.len(),
{
    if b.len() > 0 {
        if a.len() > 0 && a.last() == b.last() {
            lemma_subsequence_len(a.drop_last(), b.drop_last());
            if a.len() == b.len() {
                assert(a =~= a.drop_last().push(a.last()));
                assert(b =~= b.drop_last().push(b.last()));
            }
        } else {
            lemma_subsequence_len(a, b.drop_last());
        }
    } else {
        assert(a =~= b);
    }
}

proof fn lemma_subsequence_same_len(a: Seq<Seq<char>>, b: Seq<Seq<char>>)
    requires
        subsequence_of(a, b),
        subsequence_of(b, a),
    ensures
        a == b,
{
    lemma_subsequence_len(a, b);
    lemma_subsequence_len(b, a);
}

proof fn lemma_file_target_subsequence(r1: Seq<Seq<char>>, r2: Seq<Seq<char>>, target: Seq<char>)
    requires
        r1 == seq![target] || r1.len() == 0,
        r2 == seq![target] || r2.len() == 0,
        r1.len() > 0 ==> r2.len() > 0,
    ensures
        subsequence_of(r1, r2),
{
    let e = Seq::<Seq<char>>::empty();
    assert(subsequence_of(e, e));
    if r2.len() > 0 {
        assert(r2.drop_last() =~= e);
        if r1.len() > 0 {
            assert(r1.drop_last() =~= e);
        } else {
            assert(r1 =~= e);
        }
    } else {
        assert(r1 =~= e);
        assert(r2 =~= e);
    }
}

/// More exclusion patterns only leave files out of a run's file list: the
/// list with `exclude + more` is a subsequence of the list with `exclude`.
pub proof fn law_more_patterns_list_less(
    r1: Seq<Seq<char>>,
    r2: Seq<Seq<char>>,
    target: Seq<char>,
    target_is_file: bool,
    entries: Seq<WalkEntry>,
    recursive: bool,
    exclude: Seq<String>,
    more: Seq<String>,
)
    requires
        resolution(r1, target, target_is_file, entries, recursive, exclude + more),
        resolution(r2, target, target_is_file, entries, recursive, exclude),
    ensures
        subsequence_of(r1, r2),
{
    law_exclusion_monotone(target, exclude, more);
    if target_is_file {
        lemma_file_target_subsequence(r1, r2, target);
    } else {
        law_more_patterns_select_less(entries, recursive, exclude, more);
        lemma_sorted_subset_is_subsequence(r1, r2);
    }
}

/// Looking into subfolders only adds files to a run's file list: the list
/// without `recursive` is a subsequence of the list with it.
pub proof fn law_flat_list_within_recursive(
    r1: Seq<Seq<char>>,
    r2: Seq<Seq<char>>,
    target: Seq<char>,
    target_is_file: bool,
    entries: Seq<WalkEntry>,
    exclude: Seq<String>,
)
    requires
        resolution(r1, target, target_is_file, entries, false, exclude),
        resolution(r2, target, target_is_file, entries, true, exclude),
    ensures
        subsequence_of(r1, r2),
{
    if target_is_file {
        lemma_file_target_subsequence(r1, r2, target);
    } else {
        law_flat_within_recursive(entries, exclude);
        lemma_sorted_subset_is_subsequence(r1, r2);
    }
}

/// The files of a run. A target that is a file is kept alone when it is a
/// Python or TypeScript source file that no pattern of `exclude` matches.
/// Otherwise the run takes, from the entries found under the target folder,
/// the files directly in it (with `recursive`: at any depth) that are such
/// source files, sorted as paths; two different texts of the same path
/// (which one walk of a folder never gives) are ordered by text.
pub fn resolve_files(
    target: &str,
    target_is_file: bool,
    entries: &Vec<WalkEntry>,
    recursive: bool,
    exclude: &[String],
) -> (r: Vec<String>)
    ensures
        resolution(strings_view(r@), target@, target_is_file, entries@, recursive, exclude@),
        forall|k: int| 0 <= k < r@.len() ==> selected(#[trigger] r@[k]@, exclude@),
{
    if target_is_file {
        let mut out: Vec<String> = Vec::new();
        if is_source_file(target) && !is_excluded(target, exclude) {
            out.push(target.to_string());
            assert(strings_view(out@) =~= seq![target@]);
        } else {
            assert(strings_view(out@) =~= Seq::<Seq<char>>::empty());
        }
        return out;
    }
    let mut kept: Vec<String> = Vec::new();
    let mut i: usize = 0;
    while i < entries.len()
        invariant
            i <= entries.len(),
            strings_view(kept@) == walk_selection(entries@.take(i as int), recursive, exclude@),
        decreases entries.len() - i,
    {
        assert(entries@.take(i + 1).drop_last() == entries@.take(i as int));
        assert(entries@.take(i + 1).last() == entries@[i as int]);
        let e = &entries[i];
        if e.is_file && (recursive || e.depth == 0) && is_source_file(e.path.as_str())
            && !is_excluded(e.path.as_str(), exclude) {
            let ghost before = kept@;
            kept.push(e.path.clone());
            assert(strings_view(kept@) =~= strings_view(before).push(e.path@));
        }
        i = i + 1;
    }
    assert(entries@.take(entries.len() as int) == entries@);
    let r = sort_paths(&kept);
    proof {
        law_resolution_is_determined(
            strings_view(r@),
            strings_view(r@),
            target@,
            target_is_file,
            entries@,
            recursive,
            exclude@,
        );
        assert forall|k: int| 0 <= k < r@.len() implies selected(#[trigger] r@[k]@, exclude@) by {
            assert(strings_view(r@)[k] == r@[k]@);
        }
    }
    r
}

} // verus!
