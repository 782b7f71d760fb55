use rustisaur_stdlib::string::functions::{
    capitalize, contains, ends_with, is_empty, join, len, lower, pad_left, pad_right, repeat,
    replace, replace_all, reverse, slice, split, starts_with, trim, trim_left, trim_right, upper,
};

#[test]
fn test_upper() {
    assert_eq!(upper("hello"), "HELLO");
}

#[test]
fn test_lower() {
    assert_eq!(lower("WORLD"), "world");
}

#[test]
fn test_trim() {
    assert_eq!(trim("  hello  "), "hello");
}

#[test]
fn test_split() {
    let parts = split("a,b,c", ",");
    assert_eq!(parts, vec!["a", "b", "c"]);
}

#[test]
fn test_capitalize() {
    assert_eq!(capitalize("hello"), "Hello");
}

#[test]
fn test_reverse() {
    assert_eq!(reverse("hello"), "olleh");
}

#[test]
fn upper_and_lower_go_beyond_ascii() {
    assert_eq!(upper("straße"), "STRASSE");
    assert_eq!(lower("ÀÉÎ"), "àéî");
    assert_eq!(upper(""), "");
}

#[test]
fn trim_left_and_right_keep_the_other_side() {
    assert_eq!(trim_left("\t x y \n"), "x y \n");
    assert_eq!(trim_right("\t x y \n"), "\t x y");
    assert_eq!(trim("\u{3000}wide\u{2003}"), "wide");
    assert_eq!(trim("   "), "");
}

#[test]
fn trim_twice_is_trim_once() {
    for s in ["  a b  ", "", "   ", "x", "\n\tq\r"] {
        assert_eq!(trim(&trim(s)), trim(s));
    }
}

#[test]
fn split_edge_cases() {
    assert_eq!(split("", ","), vec![""]);
    assert_eq!(split("a,,b,", ","), vec!["a", "", "b", ""]);
    assert_eq!(split("abc", ""), vec!["", "a", "b", "c", ""]);
    assert_eq!(split("a--b--c", "--"), vec!["a", "b", "c"]);
    assert_eq!(split("aaa", "aa"), vec!["", "a"]);
}

#[test]
fn split_then_join_rebuilds_the_text() {
    let parts = split("a,b,c", ",");
    assert_eq!(join(&parts, "-"), "a-b-c");
    for (s, d) in [("a,b,c", ","), ("", ";"), ("x;;y;", ";"), ("abab", "ab")] {
        assert_eq!(join(&split(s, d), d), s);
    }
}

#[test]
fn join_edge_cases() {
    let none: Vec<String> = Vec::new();
    assert_eq!(join(&none, ", "), "");
    assert_eq!(join(&["one".to_string()], ", "), "one");
}

#[test]
fn replace_first_and_all() {
    assert_eq!(replace("a.b.c", ".", "/"), "a/b.c");
    assert_eq!(replace_all("a.b.c", ".", "/"), "a/b/c");
    assert_eq!(replace("abc", "x", "y"), "abc");
    assert_eq!(replace_all("aaaa", "aa", "b"), "bb");
    assert_eq!(replace_all("ab", "", "-"), "-a-b-");
    assert_eq!(replace("ab", "", "-"), "-ab");
}

#[test]
fn replace_all_of_an_absent_pattern_changes_nothing() {
    assert_eq!(replace_all("hello world", "xyz", "!"), "hello world");
}

#[test]
fn prefix_suffix_and_substring_checks() {
    assert!(starts_with("hello", "hel"));
    assert!(!starts_with("he", "hel"));
    assert!(ends_with("hello", "llo"));
    assert!(!ends_with("hello", "hel"));
    assert!(contains("world", "orl"));
    assert!(!contains("world", "xyz"));
    assert!(contains("world", ""));
}

#[test]
fn capitalize_lowers_the_rest() {
    assert_eq!(capitalize("hELLO wORLD"), "Hello world");
    assert_eq!(capitalize(""), "");
    assert_eq!(capitalize("ß"), "SS");
}

#[test]
fn repeat_and_slice() {
    assert_eq!(repeat("ab", 3), "ababab");
    assert_eq!(repeat("ab", 0), "");
    assert_eq!(slice("hello", 1, 3), "el");
    assert_eq!(slice("hello", 3, 10), "lo");
    assert_eq!(slice("héllo", 0, 2), "hé");
    assert_eq!(slice("hello", 7, 9), "");
}

#[test]
fn reverse_twice_is_identity() {
    assert_eq!(reverse("rust"), "tsur");
    for s in ["", "a", "héllo wörld", "ab"] {
        assert_eq!(reverse(&reverse(s)), s);
    }
}

#[test]
fn padding_fills_to_the_width() {
    assert_eq!(pad_left("ab", 5, '*'), "***ab");
    assert_eq!(pad_right("ab", 5, '*'), "ab***");
    assert_eq!(pad_left("abcdef", 3, '*'), "abcdef");
    assert_eq!(pad_left("a b", 5, '_'), "__a b");
    assert_eq!(pad_left("a b", 5, '*'), "**a b");
    assert_eq!(pad_right("a b", 5, '*'), "a b**");
    assert_eq!(pad_left("abc", 2, '*'), "abc");
    assert_eq!(pad_left("7", 3, '0').chars().count(), 3);
}

#[test]
fn length_counts_characters() {
    assert_eq!(len("héllo"), 5);
    assert_eq!(len(""), 0);
}

#[test]
fn blank_strings_are_empty() {
    assert!(is_empty(""));
    assert!(is_empty(" \t\n"));
    assert!(!is_empty(" x "));
}
