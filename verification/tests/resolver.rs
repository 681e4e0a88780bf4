use docgen::resolver::{is_excluded, is_source_file, resolve_files, sort_paths, WalkEntry};

fn file(path: &str, depth: usize) -> WalkEntry {
    WalkEntry { path: path.to_string(), is_file: true, depth }
}

fn dir(path: &str, depth: usize) -> WalkEntry {
    WalkEntry { path: path.to_string(), is_file: false, depth }
}

#[test]
fn resolves_single_py_file() {
    let f = "/tmp/x/foo.py";
    assert_eq!(resolve_files(f, true, &vec![], false, &[]), vec![f.to_string()]);
}

#[test]
fn skips_non_source_extensions() {
    let entries = vec![file("/tmp/x/README.md", 0)];
    assert!(resolve_files("/tmp/x", false, &entries, false, &[]).is_empty());
}

#[test]
fn flat_does_not_recurse() {
    let entries = vec![file("/tmp/x/a.py", 0), dir("/tmp/x/sub", 0), file("/tmp/x/sub/b.py", 1)];
    let files = resolve_files("/tmp/x", false, &entries, false, &[]);
    assert_eq!(files.len(), 1);
    assert!(files[0].ends_with("a.py"));
}

#[test]
fn recursive_finds_nested() {
    let entries = vec![file("/tmp/x/a.py", 0), dir("/tmp/x/sub", 0), file("/tmp/x/sub/b.ts", 1)];
    assert_eq!(resolve_files("/tmp/x", false, &entries, true, &[]).len(), 2);
}

#[test]
fn excludes_pattern_match() {
    let entries = vec![dir("/tmp/x/tests", 0), file("/tmp/x/tests/test_foo.py", 1), file("/tmp/x/main.py", 0)];
    let files = resolve_files("/tmp/x", false, &entries, true, &["tests/".to_string()]);
    assert_eq!(files.len(), 1);
    assert!(files[0].ends_with("main.py"));
}

#[test]
fn excluded_single_file_is_dropped() {
    assert!(resolve_files("vendor/a.py", true, &vec![], false, &["vendor".to_string()]).is_empty());
    assert!(resolve_files("notes.txt", true, &vec![], false, &[]).is_empty());
}

#[test]
fn sorts_by_components() {
    let v = vec!["a-b.py".to_string(), "a/b.py".to_string(), "a.py".to_string(), "B.py".to_string()];
    let s = sort_paths(&v);
    assert_eq!(s, vec!["B.py", "a/b.py", "a-b.py", "a.py"]);
}

#[test]
fn sorts_result_of_walk() {
    let entries = vec![file("d/z.ts", 0), file("d/a.tsx", 0), file("d/m.py", 0)];
    assert_eq!(resolve_files("d", false, &entries, false, &[]), vec!["d/a.tsx", "d/m.py", "d/z.ts"]);
}

#[test]
fn exclusion_is_substring() {
    assert!(is_excluded("src/vendor/x.py", &["vendor/".to_string()]));
    assert!(!is_excluded("src/x.py", &["vendor/".to_string()]));
    assert!(!is_excluded("src/x.py", &[]));
    assert!(is_excluded("src/x.py", &[String::new()]));
}

#[test]
fn source_file_extensions() {
    assert!(is_source_file("a.py"));
    assert!(is_source_file("a.ts"));
    assert!(is_source_file("dir/a.tsx"));
    assert!(!is_source_file("a.js"));
    assert!(!is_source_file(".py"));
    assert!(!is_source_file("py"));
}

fn is_subsequence(a: &[String], b: &[String]) -> bool {
    let mut it = b.iter();
    a.iter().all(|x| it.any(|y| y == x))
}

#[test]
fn more_patterns_and_flat_walks_select_less() {
    let entries = vec![
        file("/p/a.py", 0),
        file("/p/gen_x.ts", 0),
        dir("/p/tests", 0),
        file("/p/tests/t.py", 1),
        file("/p/src/deep/b.tsx", 2),
        file("/p/notes.md", 0),
    ];
    let one = vec!["tests/".to_string()];
    let two = vec!["tests/".to_string(), "gen_".to_string()];
    for recursive in [false, true] {
        let wide = resolve_files("/p", false, &entries, recursive, &one);
        let narrow = resolve_files("/p", false, &entries, recursive, &two);
        assert!(is_subsequence(&narrow, &wide));
        assert!(narrow.iter().all(|f| !two.iter().any(|p| f.contains(p.as_str()))));
    }
    let flat = resolve_files("/p", false, &entries, false, &one);
    let deep = resolve_files("/p", false, &entries, true, &one);
    assert_eq!(flat, vec!["/p/a.py".to_string(), "/p/gen_x.ts".to_string()]);
    assert_eq!(deep, vec!["/p/a.py".to_string(), "/p/gen_x.ts".to_string(), "/p/src/deep/b.tsx".to_string()]);
    assert!(is_subsequence(&flat, &deep));
}

#[test]
fn same_path_in_two_spellings_is_ordered_by_text() {
    let v = vec!["a/b.py".to_string(), "a//b.py".to_string(), "a/./b.py".to_string(), "a.py".to_string()];
    assert_eq!(
        sort_paths(&v),
        vec!["a/./b.py".to_string(), "a//b.py".to_string(), "a/b.py".to_string(), "a.py".to_string()]
    );
}

#[test]
fn file_list_does_not_depend_on_walk_order() {
    let mut entries = vec![
        file("/p/z.py", 0),
        file("/p/a/b.ts", 1),
        file("/p/m.tsx", 0),
        file("/p/a.py", 0),
    ];
    let first = resolve_files("/p", false, &entries, true, &[]);
    entries.reverse();
    assert_eq!(resolve_files("/p", false, &entries, true, &[]), first);
    assert_eq!(
        first,
        vec!["/p/a/b.ts".to_string(), "/p/a.py".to_string(), "/p/m.tsx".to_string(), "/p/z.py".to_string()]
    );
}
