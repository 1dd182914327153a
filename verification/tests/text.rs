use pyoxidizer::text::{chars_of, has_char, i32_text, same_text, u32_text};

#[test]
fn texts_are_compared() {
    assert!(same_text("", ""));
    assert!(same_text("naïve", "naïve"));
    assert!(!same_text("naïve", "naive"));
    assert!(!same_text("a", "ab"));
    assert!(!same_text("ab", "a"));
}

#[test]
fn texts_fall_into_characters() {
    assert_eq!(chars_of("aß"), vec!['a', 'ß']);
    assert!(has_char("aß", 'ß'));
    assert!(!has_char("aß", 's'));
}

#[test]
fn numbers_are_written() {
    assert_eq!(u32_text(0), "0");
    assert_eq!(u32_text(10), "10");
    assert_eq!(u32_text(u32::MAX), "4294967295");
    assert_eq!(i32_text(-1), "-1");
    assert_eq!(i32_text(i32::MIN), "-2147483648");
    assert_eq!(i32_text(i32::MAX), "2147483647");
}
