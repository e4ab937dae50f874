use quick_look::text::{
    chars_of, ends_with, i64_to_decimal, join_text, remove_all, same_text, slice_text,
    starts_with, u64_to_decimal,
};

#[test]
fn text_is_compared_character_by_character() {
    assert!(same_text("", ""));
    assert!(same_text("héllo", "héllo"));
    assert!(!same_text("hello", "hellO"));
    assert!(!same_text("hello", "hell"));
    assert_eq!(chars_of("añb"), vec!['a', 'ñ', 'b']);
}

#[test]
fn beginnings_and_ends() {
    assert!(starts_with("page-1.png", "page-"));
    assert!(!starts_with("xpage-1.png", "page-"));
    assert!(starts_with("abc", ""));
    assert!(!starts_with("ab", "abc"));
    assert!(ends_with("a.tar.xz", "tar.xz"));
    assert!(ends_with("tar.xz", "tar.xz"));
    assert!(!ends_with("ar.xz", "tar.xz"));
    assert!(ends_with("abc", ""));
    assert!(ends_with("日本語", "語"));
}

#[test]
fn slices_count_characters() {
    assert_eq!(slice_text("héllo", 1, 3), "él");
    assert_eq!(slice_text("héllo", 0, 5), "héllo");
    assert_eq!(slice_text("héllo", 2, 2), "");
    assert_eq!(join_text("ab", "cd"), "abcd");
}

#[test]
fn numbers_are_written_in_base_ten() {
    for n in [0u64, 1, 9, 10, 11, 99, 100, 101, 12345, u64::MAX] {
        assert_eq!(u64_to_decimal(n), n.to_string());
    }
    for n in [0i64, 1, -1, 10, -10, 99, -100, i64::MAX, i64::MIN, i64::MIN + 1] {
        assert_eq!(i64_to_decimal(n), n.to_string());
    }
}

#[test]
fn occurrences_are_taken_out_from_the_front() {
    for (text, pat) in [
        ("a.bz2", ".bz2"),
        ("a.bz2.b.bz2", ".bz2"),
        (".bz2.bz2", ".bz2"),
        ("abc", ".bz2"),
        ("", ".bz2"),
        ("bz2", ".bz2"),
        ("aaaa", "aa"),
        ("aaa", "aa"),
        ("ababab", "aba"),
        ("xaxbx", "x"),
        ("ü.bz2ü", ".bz2"),
        ("abc", ""),
    ] {
        let expected = if pat.is_empty() { text.to_string() } else { text.replace(pat, "") };
        assert_eq!(remove_all(text, pat), expected, "{:?} without {:?}", text, pat);
    }
}
