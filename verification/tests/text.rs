use uv_nix::nixgen::sorted_set_of;
use uv_nix::text::{
    contains, decimal_string, ends_with, join_path, join_strings, lines, split_char, split_first,
    split_last, starts_with, str_lt, trim_string,
};

fn strings(items: &[&str]) -> Vec<String> {
    items.iter().map(|s| s.to_string()).collect()
}

#[test]
fn split_then_join_gives_back_the_text() {
    for s in ["", "a", "a:b", ":a::b:", "::"] {
        let parts = split_char(s, ':');
        assert_eq!(join_strings(&parts, ':'), s);
    }
    assert_eq!(split_char("a:b", ':'), vec!["a", "b"]);
    assert_eq!(split_char("abc", ':'), vec!["abc"]);
}

#[test]
fn sorted_sets_ignore_order_and_repeats() {
    let a = sorted_set_of(strings(&["zlib", "openssl", "zlib", "libffi"]));
    let b = sorted_set_of(strings(&["libffi", "zlib", "openssl"]));
    assert_eq!(a, b);
    assert_eq!(a, vec!["libffi", "openssl", "zlib"]);
}

#[test]
fn text_helpers() {
    assert_eq!(trim_string("  x y \n"), "x y");
    assert_eq!(lines("a\r\nb\n\nc"), vec!["a", "b", "", "c"]);
    assert_eq!(lines("a\n"), vec!["a"]);
    assert_eq!(decimal_string(0), "0");
    assert_eq!(decimal_string(1203), "1203");
    assert!(starts_with("python3.12", "python3"));
    assert!(ends_with("libz.so", ".so"));
    assert!(contains("/nix/store/x", "/store/"));
    assert!(str_lt("abc", "abd"));
    assert!(!str_lt("b", "abc"));
    assert_eq!(join_path("/a", "b"), "/a/b");
    assert_eq!(split_first("x (compatibility y)", " (compatibility"), "x");
    assert_eq!(split_last("/usr/lib/libz.dylib", '/'), "libz.dylib");
}
