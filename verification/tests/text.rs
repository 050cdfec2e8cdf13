use zotero_mcp::text::{
    add_text, check_shorten, comes_before, decimal_text, has_character, has_text, join, parse_size, same_text, shorten, signed_decimal_text, strip_prefix, strip_suffix,
};

#[test]
fn decimal_numbers() {
    assert_eq!(decimal_text(0), "0");
    assert_eq!(decimal_text(10), "10");
    assert_eq!(decimal_text(9876543210), "9876543210");
    assert_eq!(decimal_text(u64::MAX), "18446744073709551615");
    assert_eq!(signed_decimal_text(412), "412");
    assert_eq!(signed_decimal_text(-7), "-7");
    assert_eq!(signed_decimal_text(i64::MIN), "-9223372036854775808");
    assert_eq!(parse_size("007"), Some(7));
    assert_eq!(parse_size("٣"), None);
}

#[test]
fn texts_are_ordered_as_strings_are() {
    let words = ["", "A", "B", "a", "ab", "b", "é", "日", "😀", "\u{ffff}"];
    for a in words {
        for b in words {
            assert_eq!(comes_before(a, b), a < b, "{a} {b}");
            assert_eq!(same_text(a, b), a == b);
        }
    }
}

#[test]
fn a_sorted_set_of_texts() {
    let mut v: Vec<String> = vec![];
    for t in ["b", "a", "é", "b", "Z", "a"] {
        add_text(&mut v, t);
    }
    assert_eq!(v, vec!["Z", "a", "b", "é"]);
    assert!(has_text(&v, "é"));
    assert!(!has_text(&v, "z"));
}

#[test]
fn parts_of_texts() {
    assert_eq!(strip_prefix("abc", "ab").as_deref(), Some("c"));
    assert_eq!(strip_prefix("abc", "b"), None);
    assert_eq!(strip_prefix("a", "ab"), None);
    assert_eq!(strip_suffix("abc", "bc").as_deref(), Some("a"));
    assert_eq!(strip_suffix("éé", "é").as_deref(), Some("é"));
    assert_eq!(strip_suffix("abc", "ab"), None);
    assert!(has_character("a/b", '/'));
    assert!(!has_character("ab", '/'));
    assert_eq!(join(&vec!["a".to_string(), "b".to_string(), "c".to_string()], ", "), "a, b, c");
    assert_eq!(join(&vec!["a".to_string()], ", "), "a");
    assert_eq!(join(&vec![], ", "), "");
}

#[test]
fn long_texts_are_cut() {
    let sixty = "x".repeat(60);
    assert_eq!(shorten(&sixty), sixty);
    let more = "x".repeat(61);
    assert_eq!(shorten(&more), format!("{}...", "x".repeat(57)));
    let wide = "é".repeat(30);
    assert_eq!(shorten(&wide), wide);
}

#[test]
fn a_cut_within_a_character_is_no_cut() {
    assert!(!check_shorten(&"é".repeat(31)));
    assert!(check_shorten(&"é".repeat(30)));
    assert!(check_shorten(&format!("x{}", "é".repeat(30))));
    assert_eq!(shorten(&format!("x{}", "é".repeat(30))), format!("x{}...", "é".repeat(28)));
    assert!(check_shorten(&"日".repeat(21)));
    assert_eq!(shorten(&"日".repeat(21)), format!("{}...", "日".repeat(19)));
}
