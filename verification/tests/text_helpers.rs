use pf4voice::text::{
    char_is_control, char_is_white_space, decimal_text, replace_all, spaces_text, text_free_of_controls, text_is_blank,
};

#[test]
fn replace_all_replaces_every_occurrence() {
    assert_eq!(replace_all("本町（交差点）", "（交差点）", "交差点"), "本町交差点");
    assert_eq!(replace_all("aXbXc", "X", "--"), "a--b--c");
    assert_eq!(replace_all("aaa", "aa", "b"), "ba");
    assert_eq!(replace_all("", "x", "y"), "");
}

#[test]
fn replace_all_leaves_text_without_the_pattern() {
    assert_eq!(replace_all("本町", "（交差点）", "交差点"), "本町");
    assert_eq!(replace_all("市川出口", "インターチェンジの出口", "出口"), "市川出口");
}

#[test]
fn number_and_space_texts() {
    assert_eq!(decimal_text(0), "0");
    assert_eq!(decimal_text(150), "150");
    assert_eq!(decimal_text(u64::MAX), "18446744073709551615");
    assert_eq!(spaces_text(0), "");
    assert_eq!(spaces_text(4), "    ");
}

#[test]
fn control_characters() {
    assert!(char_is_control('\n'));
    assert!(char_is_control('\u{7f}'));
    assert!(char_is_control('\u{85}'));
    assert!(!char_is_control('a'));
    assert!(!char_is_control('あ'));
    assert!(text_free_of_controls("本町 交差点"));
    assert!(!text_free_of_controls("a\tb"));
}

#[test]
fn white_space_is_what_std_trims() {
    for u in 0u32..=0x10ffff {
        if let Some(c) = char::from_u32(u) {
            assert_eq!(char_is_white_space(c), c.is_whitespace(), "U+{:04X}", u);
        }
    }
    assert!(text_is_blank(""));
    assert!(text_is_blank(" \t\n\u{3000}"));
    assert!(!text_is_blank(" a "));
    assert_eq!(text_is_blank("　右"), "　右".trim().is_empty());
}
