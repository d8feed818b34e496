use beam::text::{find_char, skip_leading, skip_trailing, str_eq, to_chars, CharClass};

#[test]
fn white_space_is_what_the_standard_library_says() {
    for code in 0..=0x10FFFFu32 {
        if let Some(c) = char::from_u32(code) {
            assert_eq!(CharClass::Whitespace.contains(c), c.is_whitespace(), "U+{:04X}", code);
        }
    }
}

#[test]
fn class_of_one_character_holds_that_character_only() {
    let class = CharClass::Only('{');
    assert!(class.contains('{'));
    assert!(!class.contains('}'));
    assert!(!class.contains(' '));
}

#[test]
fn characters_of_a_text() {
    assert_eq!(to_chars("aé夏"), vec!['a', 'é', '夏']);
    assert!(to_chars("").is_empty());
}

#[test]
fn leading_run_ends_at_the_first_other_character() {
    let chars = to_chars("  \t ab  ");
    assert_eq!(skip_leading(&chars, 0, chars.len(), CharClass::Whitespace), 4);
    assert_eq!(skip_leading(&chars, 0, 2, CharClass::Whitespace), 2);
    assert_eq!(skip_leading(&chars, 4, chars.len(), CharClass::Whitespace), 4);
    assert_eq!(skip_leading(&chars, 6, chars.len(), CharClass::Whitespace), 8);
    assert_eq!(skip_leading(&chars, 3, 3, CharClass::Whitespace), 3);
}

#[test]
fn trailing_run_starts_after_the_last_other_character() {
    let chars = to_chars("}}a}b}}}");
    assert_eq!(skip_trailing(&chars, 0, chars.len(), CharClass::Only('}')), 5);
    assert_eq!(skip_trailing(&chars, 0, 2, CharClass::Only('}')), 0);
    assert_eq!(skip_trailing(&chars, 0, 3, CharClass::Only('}')), 3);
    assert_eq!(skip_trailing(&chars, 6, 6, CharClass::Only('}')), 6);
}

#[test]
fn first_occurrence_is_found_or_the_end() {
    let chars = to_chars("a=b=c");
    assert_eq!(find_char(&chars, 0, chars.len(), '='), 1);
    assert_eq!(find_char(&chars, 2, chars.len(), '='), 3);
    assert_eq!(find_char(&chars, 4, chars.len(), '='), 5);
    assert_eq!(find_char(&chars, 0, 1, '='), 1);
}

#[test]
fn texts_are_equal_by_their_characters() {
    assert!(str_eq("", ""));
    assert!(str_eq("Zürich", "Zürich"));
    assert!(!str_eq("a", "b"));
    assert!(!str_eq("a", "ab"));
    assert!(!str_eq("ab", "a"));
}
