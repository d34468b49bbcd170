use lox::project::format_os_name;
use lox::text::{contains_sub, ends_with, find_char, match_at, quoted_value, remove_occurrences,
    replace_char, split_lines, split_once_char, split_whitespace_vec, starts_with, str_eq,
    strip_prefix_all, to_lowercase_ascii, trim, trim_quotes};

#[test]
fn string_equality() {
    assert!(str_eq("abc", "abc"));
    assert!(!str_eq("abc", "abd"));
    assert!(!str_eq("abc", "ab"));
    assert!(str_eq("", ""));
}

#[test]
fn prefix_and_suffix_checks() {
    assert!(starts_with("name = \"x\"", "name = "));
    assert!(!starts_with("names", "name = "));
    assert!(starts_with("abc", ""));
    assert!(ends_with("lox.toml", ".toml"));
    assert!(!ends_with("lox.tom", ".toml"));
}

#[test]
fn char_search() {
    assert_eq!(find_char("a=b=c", '=', 0), Some(1));
    assert_eq!(find_char("a=b=c", '=', 2), Some(3));
    assert_eq!(find_char("abc", '=', 0), None);
    assert!(match_at("hello", "ell", 1));
    assert!(!match_at("hello", "ell", 2));
}

#[test]
fn trimming() {
    assert_eq!(trim("  x y \t"), "x y");
    assert_eq!(trim("x"), "x");
    assert_eq!(trim("   "), "");
    assert_eq!(trim(""), "");
    assert_eq!(trim_quotes("\"quoted\""), "quoted");
    assert_eq!(trim_quotes("\"\"\"a\"\""), "a");
    assert_eq!(trim_quotes("plain"), "plain");
}

#[test]
fn lowercasing_is_ascii_only() {
    assert_eq!(to_lowercase_ascii("Program MAIN"), "program main");
    assert_eq!(to_lowercase_ascii("abc123"), "abc123");
}

#[test]
fn replacement_and_removal() {
    assert_eq!(replace_char("my-crate-x", '-', '_'), "my_crate_x");
    assert_eq!(remove_occurrences("a.f90.f90", ".f90"), "a");
    assert_eq!(remove_occurrences("b.f", ".f"), "b");
    assert_eq!(remove_occurrences("plain", ".f90"), "plain");
}

#[test]
fn line_splitting_handles_crlf_and_trailing_newline() {
    assert_eq!(split_lines("a\nb"), vec!["a", "b"]);
    assert_eq!(split_lines("a\r\nb\r\n"), vec!["a", "b"]);
    assert_eq!(split_lines("a\n"), vec!["a"]);
    assert_eq!(split_lines("\n"), vec![""]);
    assert_eq!(split_lines(""), Vec::<&str>::new());
}

#[test]
fn whitespace_tokens() {
    assert_eq!(split_whitespace_vec("  use   alpha  "), vec!["use", "alpha"]);
    assert_eq!(split_whitespace_vec(""), Vec::<&str>::new());
    assert_eq!(split_whitespace_vec("one"), vec!["one"]);
}

#[test]
fn substring_search() {
    assert!(contains_sub("library(lib)", "library"));
    assert!(contains_sub("app(bin)", "app"));
    assert!(!contains_sub("uv", "library"));
    assert!(contains_sub("anything", ""));
}

#[test]
fn quoted_values() {
    assert_eq!(quoted_value("name = \"foo\" # tail"), Some("foo"));
    assert_eq!(quoted_value("name = \"\""), Some(""));
    assert_eq!(quoted_value("name = foo"), None);
    assert_eq!(quoted_value("name = \"open"), None);
}

#[test]
fn split_once_at_first_occurrence() {
    assert_eq!(split_once_char("key = value = x", '='), Some(("key ", " value = x")));
    assert_eq!(split_once_char("novalue", '='), None);
}

#[test]
fn repeated_prefix_stripping() {
    assert_eq!(strip_prefix_all("ababx", "ab"), "x");
    assert_eq!(strip_prefix_all("x", "ab"), "x");
    assert_eq!(strip_prefix_all("abab", "ab"), "");
}

#[test]
fn os_names_formatted() {
    assert_eq!(format_os_name("macos"), "macOS");
    assert_eq!(format_os_name("linux"), "Linux");
    assert_eq!(format_os_name("windows"), "Windows");
    assert_eq!(format_os_name("freebsd"), "freebsd");
}
