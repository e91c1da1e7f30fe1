use codeatlas_core::paths::{package_dir_of, parent_or_empty, relative_or_self};
use codeatlas_core::text::{
    concat3, contains_text, decimal_string, ends_with, hex16, join_strings, same_text, starts_with,
    substring, trim,
};

#[test]
fn trim_removes_surrounding_whitespace_only() {
    assert_eq!(trim("  a b \t\n"), "a b");
    assert_eq!(trim("\u{3000}x\u{3000}"), "x");
    assert_eq!(trim("   "), "");
}

#[test]
fn prefix_suffix_and_infix() {
    assert!(starts_with("crate::x", "crate"));
    assert!(!starts_with("cr", "crate"));
    assert!(ends_with("lib.rs", ".rs"));
    assert!(!ends_with("lib.ts", ".rs"));
    assert!(contains_text("a/b/c", "b/"));
    assert!(!contains_text("a/b/c", "d"));
    assert!(same_text("x", "x"));
    assert!(!same_text("x", "y"));
}

#[test]
fn building_text() {
    assert_eq!(concat3("a", "-", "b"), "a-b");
    assert_eq!(substring("abcdef", 1, 4), "bcd");
    assert_eq!(join_strings(&vec!["a".to_string(), "b".to_string(), "c".to_string()], "/"), "a/b/c");
    assert_eq!(join_strings(&Vec::new(), "/"), "");
}

#[test]
fn number_formatting() {
    assert_eq!(decimal_string(0), "0");
    assert_eq!(decimal_string(1234), "1234");
    assert_eq!(hex16(0), "0000000000000000");
    assert_eq!(hex16(0xdead_beef), "00000000deadbeef");
    assert_eq!(hex16(u64::MAX), "ffffffffffffffff");
}

#[test]
fn path_helpers() {
    assert_eq!(parent_or_empty("a/b/c.rs"), "a/b");
    assert_eq!(parent_or_empty("c.rs"), "");
    assert_eq!(relative_or_self("/repo/apps/web", "/repo"), "apps/web");
    assert_eq!(relative_or_self("/other/x", "/repo"), "/other/x");
    assert_eq!(package_dir_of("/repo/crates/a/Cargo.toml", "/repo"), "crates/a");
    assert_eq!(package_dir_of("/repo/Cargo.toml", "/repo"), "");
}
