use flowwisper::dirs_compat::data_dir;
use flowwisper::text;

#[test]
fn test_basic_math() {
    assert_eq!(2 + 2, 4);
    assert_eq!(text::decimal(2 + 2), "4");
}

#[test]
fn test_string_operations() {
    let mut s = String::from("Hello");
    text::append_text(&mut s, ", world!");
    assert_eq!(s, "Hello, world!");
}

#[test]
fn numbers_are_written_out() {
    assert_eq!(text::decimal(0), "0");
    assert_eq!(text::decimal(u64::MAX), u64::MAX.to_string());
    assert_eq!(text::decimal_wide(u128::MAX), u128::MAX.to_string());
    assert_eq!(text::signed_decimal(i32::MIN), i32::MIN.to_string());
    assert_eq!(text::hex(0xbeef), format!("{:X}", 0xbeef));
}

#[test]
fn text_is_trimmed_and_compared_as_std_does() {
    let samples = ["  a b\u{3000}", "\t\n", "", "x", "\u{85}é\u{a0}"];
    for s in samples {
        assert_eq!(text::trimmed_string(s), s.trim());
        assert_eq!(text::is_blank(s), s.trim().is_empty());
    }
    assert!(text::same_ignoring_case("Ctrl+É", "ctrl+É"));
    assert!(!text::same_ignoring_case("Ctrl+É", "ctrl+é"));
}

#[test]
fn parts_of_texts_are_found() {
    assert!(text::contains_str("abcabd", "abd"));
    assert!(text::contains_str("abc", ""));
    assert!(!text::contains_str("ab", "abc"));
    assert!(!text::contains_str("abcab", "bd"));
}

#[test]
fn the_named_data_directory_wins() {
    let named = data_dir(Some("/data".into()), Some("/home/u".into())).expect("named");
    assert_eq!(named.base, "/data");
    assert!(named.below.is_empty());
    let home = data_dir(Some(String::new()), Some("/home/u".into())).expect("home");
    assert_eq!(home.base, "/home/u");
    assert_eq!(home.below, vec![".local", "share"]);
    assert!(data_dir(None, None).is_none());
}
