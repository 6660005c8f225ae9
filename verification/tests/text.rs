use file_server::text::{chars_of, is_whitespace};

#[test]
fn white_space_is_what_unicode_says() {
    let mut c = '\0';
    loop {
        assert_eq!(is_whitespace(c), c.is_whitespace(), "at U+{:04X}", c as u32);
        if c == char::MAX {
            break;
        }
        c = char::from_u32(if c as u32 == 0xD7FF { 0xE000 } else { c as u32 + 1 }).unwrap();
    }
}

#[test]
fn common_characters_are_classified() {
    assert!(is_whitespace(' '));
    assert!(is_whitespace('\t'));
    assert!(is_whitespace('\r'));
    assert!(is_whitespace('\n'));
    assert!(is_whitespace('\u{3000}'));
    assert!(!is_whitespace('\0'));
    assert!(!is_whitespace('/'));
    assert!(!is_whitespace('a'));
    assert!(!is_whitespace('\u{200B}'));
}

#[test]
fn chars_of_keeps_every_character_in_order() {
    assert_eq!(chars_of(""), Vec::<char>::new());
    assert_eq!(chars_of("a/é.\u{1F600}"), vec!['a', '/', 'é', '.', '\u{1F600}']);
}
