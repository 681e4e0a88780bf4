use docgen::paths::{extension, extension_is, path_key, path_key_lt};
use docgen::text::{decimal_string, parse_u64, parse_usize, text_contains, text_eq};

#[test]
fn parses_unsigned_numbers_like_std() {
    assert_eq!(parse_u64("0"), Some(0));
    assert_eq!(parse_u64("007"), Some(7));
    assert_eq!(parse_u64("+42"), Some(42));
    assert_eq!(parse_u64("18446744073709551615"), Some(u64::MAX));
    assert_eq!(parse_u64("18446744073709551616"), None);
    assert_eq!(parse_u64(""), None);
    assert_eq!(parse_u64("+"), None);
    assert_eq!(parse_u64("-1"), None);
    assert_eq!(parse_u64("1 "), None);
    assert_eq!(parse_u64("١"), None);
    for s in ["0", "9", "+12", "0012", "99999", "x", "", "+-1"] {
        assert_eq!(parse_u64(s), s.parse::<u64>().ok());
        assert_eq!(parse_usize(s), s.parse::<usize>().ok());
    }
}

#[test]
fn decimal_round_trip() {
    for n in [0u64, 1, 9, 10, 99, 100, 4096, 1234567890, u64::MAX] {
        let s = decimal_string(n);
        assert_eq!(s, n.to_string());
        assert_eq!(parse_u64(&s), Some(n));
    }
}

#[test]
fn text_helpers() {
    assert!(text_eq("abc", "abc"));
    assert!(!text_eq("abc", "abd"));
    assert!(text_contains("hello world", "o w"));
    assert!(text_contains("x", ""));
    assert!(!text_contains("", "x"));
}

#[test]
fn extensions_like_std_path() {
    for p in [
        "a.py", "a.tar.gz", ".bashrc", "..py", "foo.", "dir/a.ts", "dir.py/", "dir/.", "a/..", "/",
        "", ".", "./", "a.py/./", "x/.hidden.tsx", "a//b.css",
    ] {
        let expected = std::path::Path::new(p)
            .extension()
            .and_then(|e| e.to_str())
            .map(String::from);
        assert_eq!(extension(p), expected, "path {p:?}");
    }
    assert!(extension_is("x.tsx", "tsx"));
    assert!(!extension_is("x.tsx", "ts"));
}

#[test]
fn path_order_like_std() {
    let paths = ["a-b.py", "a/b.py", "a.py", "B.py", "./a.py", "/a.py", "a/./b.py", "a//c.py", "../x.py", "a/..", "é.py", "z.py"];
    for p in paths {
        for q in paths {
            let expected = std::path::Path::new(p) < std::path::Path::new(q);
            assert_eq!(path_key_lt(&path_key(p.to_string()), &path_key(q.to_string())), expected, "{p:?} < {q:?}");
        }
    }
}
