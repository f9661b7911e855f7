use notebook_editor::text::{
    byte_offset_to_character_offset, character_offset_to_byte_offset, copy_option,
    copy_strings, is_blank, join, position_of, same_strings,
};

fn strings(texts: &[&str]) -> Vec<String> {
    texts.iter().map(|text| text.to_string()).collect()
}

#[test]
fn offsets_in_ascii_text_are_the_same() {
    assert_eq!(byte_offset_to_character_offset("print", 3), 3);
    assert_eq!(character_offset_to_byte_offset("print", 3), 3);
}

#[test]
fn wide_characters_count_once() {
    // One, two, three and four bytes.
    let text = "a\u{e9}\u{20ac}\u{1f600}z";
    assert_eq!(text.len(), 11);
    for (characters, bytes) in [(0, 0), (1, 1), (2, 3), (3, 6), (4, 10), (5, 11)] {
        assert_eq!(character_offset_to_byte_offset(text, characters), bytes);
        assert_eq!(byte_offset_to_character_offset(text, bytes), characters);
    }
}

#[test]
fn offsets_inside_a_character_are_rounded_down() {
    let text = "\u{20ac}x";
    assert_eq!(byte_offset_to_character_offset(text, 1), 0);
    assert_eq!(byte_offset_to_character_offset(text, 2), 0);
    assert_eq!(byte_offset_to_character_offset(text, 3), 1);
}

#[test]
fn offsets_past_the_end_are_the_end() {
    assert_eq!(byte_offset_to_character_offset("\u{e9}", 100), 1);
    assert_eq!(character_offset_to_byte_offset("\u{e9}", 100), 2);
    assert_eq!(byte_offset_to_character_offset("", 0), 0);
    assert_eq!(character_offset_to_byte_offset("", 0), 0);
}

#[test]
fn character_offsets_survive_bytes() {
    let text = "\u{e9}t\u{e9} = [1, 2]";
    for characters in 0..=text.chars().count() {
        let bytes = character_offset_to_byte_offset(text, characters);
        assert_eq!(byte_offset_to_character_offset(text, bytes), characters);
    }
}

#[test]
fn blank_texts_are_those_that_trim_to_nothing() {
    for text in ["", " ", "\n\t\r ", "\u{a0}\u{2003}\u{3000}\u{85}\u{2028}"] {
        assert!(is_blank(text));
        assert!(text.trim().is_empty());
    }
    for text in ["{}", " x ", "\u{200b}"] {
        assert!(!is_blank(text));
        assert!(!text.trim().is_empty());
    }
}

#[test]
fn white_space_agrees_with_the_standard_library() {
    for code in 0..0x3100u32 {
        if let Some(c) = char::from_u32(code) {
            let text = c.to_string();
            assert_eq!(is_blank(&text), c.is_whitespace());
        }
    }
}

#[test]
fn lines_are_joined_without_separators() {
    assert_eq!(join(&strings(&["a\n", "b"])), "a\nb");
    assert_eq!(join(&strings(&[])), "");
}

#[test]
fn lists_of_texts_are_compared_in_order() {
    assert!(same_strings(&strings(&["a", "b"]), &strings(&["a", "b"])));
    assert!(!same_strings(&strings(&["a", "b"]), &strings(&["b", "a"])));
    assert!(!same_strings(&strings(&["a"]), &strings(&["a", "b"])));
    assert_eq!(copy_strings(&strings(&["a", "b"])), strings(&["a", "b"]));
    assert_eq!(copy_option(&Some("a".to_string())), Some("a".to_string()));
    assert_eq!(copy_option(&None), None);
}

#[test]
fn the_first_position_is_found() {
    assert_eq!(position_of(&strings(&["a", "b", "b"]), &"b".to_string()), Some(1));
    assert_eq!(position_of(&strings(&["a"]), &"b".to_string()), None);
}
