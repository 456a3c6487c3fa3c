use imagine_gif::emoji::replace_emojis_with_text;

#[test]
fn maps_smiling_faces() {
    assert_eq!(replace_emojis_with_text("\u{1F600}\u{1F603}\u{1F604}"), ":):):)");
}

#[test]
fn maps_sad_faces() {
    assert_eq!(replace_emojis_with_text("\u{1F622}\u{1F62D}"), ":(:(");
}

#[test]
fn maps_the_rest_of_the_table() {
    assert_eq!(replace_emojis_with_text("\u{1F60E}"), "B)");
    assert_eq!(replace_emojis_with_text("\u{2764}\u{1F495}\u{1F496}"), "<3<3<3");
    assert_eq!(replace_emojis_with_text("\u{1F44D}"), "+1");
    assert_eq!(replace_emojis_with_text("\u{1F44E}"), "-1");
    assert_eq!(replace_emojis_with_text("\u{1F389}\u{1F38A}\u{2728}"), "***");
    assert_eq!(replace_emojis_with_text("\u{1F525}"), "fire");
    assert_eq!(replace_emojis_with_text("\u{1F4AF}"), "100");
    assert_eq!(replace_emojis_with_text("\u{1F44B}"), "wave");
}

#[test]
fn unmapped_pictographic_becomes_question_mark() {
    assert_eq!(replace_emojis_with_text("\u{1F300}"), "?");
    assert_eq!(replace_emojis_with_text("\u{1F32D}"), "?");
    assert_eq!(replace_emojis_with_text("\u{1F9FF}"), "?");
}

#[test]
fn ascii_text_is_unchanged() {
    assert_eq!(replace_emojis_with_text("Hello, world! 123 :-)"), "Hello, world! 123 :-)");
    assert_eq!(replace_emojis_with_text(""), "");
}

#[test]
fn non_pictographic_unicode_is_unchanged() {
    assert_eq!(replace_emojis_with_text("h\u{00E9}llo"), "h\u{00E9}llo");
}

#[test]
fn mixed_text_and_emoji() {
    assert_eq!(replace_emojis_with_text("so \u{1F525} and \u{1F600}"), "so fire and :)");
}
