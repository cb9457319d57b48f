use aterm::scan::{
    contains_sub, find_sub, lines_of, parse_i32_or_zero, parse_i64_or_zero, split_char, split_str,
    split_ws, starts_with, strip_prefix_of,
};
use aterm::text::{str_eq, trim, trim_char_both, trim_end_char, u64_to_dec};

#[test]
fn decimal_formatting() {
    assert_eq!(u64_to_dec(0), "0");
    assert_eq!(u64_to_dec(7), "7");
    assert_eq!(u64_to_dec(120), "120");
    assert_eq!(u64_to_dec(18446744073709551615), "18446744073709551615");
}

#[test]
fn string_equality() {
    assert!(str_eq("", ""));
    assert!(str_eq("abc", "abc"));
    assert!(!str_eq("abc", "abd"));
    assert!(!str_eq("abc", "ab"));
}

#[test]
fn trimming() {
    assert_eq!(trim(" \t x \r\n"), "x");
    assert_eq!(trim("plain"), "plain");
    assert_eq!(trim("  \n "), "");
    assert_eq!(trim(""), "");
    assert_eq!(trim_end_char("path///", '/'), "path");
    assert_eq!(trim_char_both("--a-b--", '-'), "a-b");
    assert_eq!(trim_char_both("----", '-'), "");
}

#[test]
fn char_splitting() {
    assert_eq!(split_char("a|b||c", '|'), vec!["a", "b", "", "c"]);
    assert_eq!(split_char("", '|'), vec![""]);
    assert_eq!(split_char("abc", '|'), vec!["abc"]);
}

#[test]
fn line_splitting() {
    assert_eq!(lines_of("a\nb\n"), vec!["a", "b"]);
    assert_eq!(lines_of("a\r\nb"), vec!["a", "b"]);
    assert_eq!(lines_of(""), Vec::<String>::new());
    assert_eq!(lines_of("a\n\nb"), vec!["a", "", "b"]);
}

#[test]
fn whitespace_splitting() {
    assert_eq!(split_ws("  1\t2 "), vec!["1", "2"]);
    assert_eq!(split_ws(""), Vec::<String>::new());
    assert_eq!(split_ws(" \t\n"), Vec::<String>::new());
    assert_eq!(split_ws("solo"), vec!["solo"]);
}

#[test]
fn substring_search() {
    assert_eq!(find_sub("old -> new", " -> "), Some(3));
    assert_eq!(find_sub("plain", " -> "), None);
    assert!(contains_sub("3 insertions(+)", "insertion"));
    assert!(!contains_sub("3 deletions(-)", "insertion"));
    assert_eq!(split_str("a -> b -> c", " -> "), vec!["a", "b", "c"]);
    assert_eq!(split_str("a", " -> "), vec!["a"]);
}

#[test]
fn prefix_checks() {
    assert!(starts_with(".env.local", ".env"));
    assert!(!starts_with("env", ".env"));
    assert_eq!(
        strip_prefix_of("worktree /p", "worktree "),
        Some("/p".to_string())
    );
    assert_eq!(strip_prefix_of("branch x", "worktree "), None);
}

#[test]
fn reading_decimal_integers() {
    assert_eq!(parse_i32_or_zero("42"), 42);
    assert_eq!(parse_i32_or_zero("-7"), -7);
    assert_eq!(parse_i32_or_zero("+9"), 9);
    assert_eq!(parse_i32_or_zero(""), 0);
    assert_eq!(parse_i32_or_zero("abc"), 0);
    assert_eq!(parse_i32_or_zero("12x"), 0);
    assert_eq!(parse_i32_or_zero("2147483647"), 2147483647);
    assert_eq!(parse_i32_or_zero("2147483648"), 0);
    assert_eq!(parse_i32_or_zero("-2147483648"), -2147483648);
    assert_eq!(parse_i32_or_zero("-2147483649"), 0);
    assert_eq!(parse_i64_or_zero("1700000000"), 1700000000);
    assert_eq!(parse_i64_or_zero("9223372036854775807"), 9223372036854775807);
    assert_eq!(parse_i64_or_zero("9223372036854775808"), 0);
    assert_eq!(parse_i64_or_zero("-1"), -1);
}
