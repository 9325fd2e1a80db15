use agent_core::strutil::{contains_sub, find_char, replace_all, split_lines, str_eq, u64_to_string};

#[test]
fn string_equality_compares_characters() {
    assert!(str_eq("", ""));
    assert!(str_eq("abc", "abc"));
    assert!(!str_eq("abc", "abd"));
    assert!(!str_eq("abc", "ab"));
    assert!(str_eq("naïve", "naïve"));
}

#[test]
fn decimal_rendering_matches_expected_digits() {
    assert_eq!(u64_to_string(0), "0");
    assert_eq!(u64_to_string(7), "7");
    assert_eq!(u64_to_string(42), "42");
    assert_eq!(u64_to_string(1000), "1000");
    assert_eq!(u64_to_string(u64::MAX), "18446744073709551615");
}

#[test]
fn first_character_search_finds_the_least_index() {
    assert_eq!(find_char("hello world", ' '), Some(5));
    assert_eq!(find_char("  x", ' '), Some(0));
    assert_eq!(find_char("abc", ' '), None);
    assert_eq!(find_char("", 'x'), None);
}

#[test]
fn substring_search_finds_patterns_anywhere() {
    assert!(contains_sub("hello world", "lo w"));
    assert!(contains_sub("hello", "hello"));
    assert!(contains_sub("hello", ""));
    assert!(!contains_sub("hello", "world"));
    assert!(!contains_sub("ab", "abc"));
}

#[test]
fn replacement_scans_left_to_right() {
    assert_eq!(replace_all("a {x} and {x}", "{x}", "value"), "a value and value");
    assert_eq!(replace_all("aaa", "aa", "b"), "ba");
    assert_eq!(replace_all("none here", "{x}", "v"), "none here");
    assert_eq!(replace_all("", "{x}", "v"), "");
}

#[test]
fn line_splitting_matches_line_semantics() {
    assert_eq!(split_lines(""), Vec::<String>::new());
    assert_eq!(split_lines("a"), vec!["a"]);
    assert_eq!(split_lines("a\nb"), vec!["a", "b"]);
    assert_eq!(split_lines("a\n"), vec!["a"]);
    assert_eq!(split_lines("\n"), vec![""]);
    assert_eq!(split_lines("a\n\nb\n"), vec!["a", "", "b"]);
}
