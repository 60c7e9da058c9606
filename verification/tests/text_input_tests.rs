use oryx::textinput::{
    ImportMetadataField, TextInputId, TextInputShortcut, TextInputState, dispatch_text_input_command,
    strip_line_breaks, text_input_edit_effects,
};

#[test]
fn new_field_clamps_the_cursor_to_a_boundary() {
    // "é" takes two bytes: offset 1 falls inside it.
    let input = TextInputState::new("é".to_string(), 1);
    assert_eq!(input.cursor(), 0);
    let input = TextInputState::new("abc".to_string(), 10);
    assert_eq!(input.cursor(), 3);
}

#[test]
fn utf16_offsets_round_trip_on_boundaries() {
    // "a😀b": the emoji is four UTF-8 bytes and two UTF-16 units.
    let input = TextInputState::new("a😀b".to_string(), 0);
    assert_eq!(input.offset_to_utf16(1), 1);
    assert_eq!(input.offset_to_utf16(5), 3);
    assert_eq!(input.offset_from_utf16(3), 5);
    for boundary in [0usize, 1, 5, 6] {
        assert_eq!(input.offset_from_utf16(input.offset_to_utf16(boundary)), boundary);
    }
}

#[test]
fn masked_display_counts_characters() {
    let input = TextInputState::new("pé1".to_string(), 0);
    assert_eq!(input.display_offset_from_content_offset(3, true), 2);
    assert_eq!(input.content_offset_from_display_offset(2, true), 3);
    assert_eq!(input.display_offset_from_content_offset(3, false), 3);
    assert_eq!(input.display_text("placeholder", true), "***");
    assert_eq!(TextInputState::new(String::new(), 0).display_text("placeholder", true), "placeholder");
}

#[test]
fn word_movement_skips_spaces_and_words() {
    let mut input = TextInputState::new("hello big world".to_string(), 15);
    input.move_left(false, true);
    assert_eq!(input.cursor(), 10);
    input.move_left(false, true);
    assert_eq!(input.cursor(), 6);
    input.move_right(true, true);
    assert_eq!(input.cursor(), 9);
    assert_eq!(input.selection_range(), Some(6..9));
}

#[test]
fn word_moves_treat_accented_letters_as_letters() {
    let mut input = TextInputState::new("déjà vu-7".to_string(), 12);
    assert_eq!(input.cursor(), 11);
    input.move_left(false, true);
    assert_eq!(input.cursor(), 10);
    input.move_left(false, true);
    assert_eq!(input.cursor(), 9);
    input.move_left(false, true);
    assert_eq!(input.cursor(), 7);
    input.move_left(false, true);
    assert_eq!(input.cursor(), 0);
}

#[test]
fn backspace_removes_a_whole_character() {
    let mut input = TextInputState::new("aé".to_string(), 3);
    input.delete_backward();
    assert_eq!(input.content(), "a");
    assert_eq!(input.cursor(), 1);
    input.delete_backward();
    input.delete_backward();
    assert_eq!(input.content(), "");
}

#[test]
fn delete_word_backward_and_to_start() {
    let mut input = TextInputState::new("one two".to_string(), 7);
    input.delete_word_backward();
    assert_eq!(input.content(), "one ");
    input.delete_to_start();
    assert_eq!(input.content(), "");
}

#[test]
fn cut_and_paste_through_commands() {
    let mut input = TextInputState::new("hello world".to_string(), 0);
    input.select_all();
    let copied = dispatch_text_input_command(&mut input, TextInputShortcut::Copy, None);
    assert_eq!(copied.clipboard.as_deref(), Some("hello world"));
    assert!(!copied.text_changed);

    input.move_to(5);
    input.select_to(11);
    let cut = dispatch_text_input_command(&mut input, TextInputShortcut::Cut, None);
    assert_eq!(cut.clipboard.as_deref(), Some(" world"));
    assert!(cut.text_changed);
    assert_eq!(input.content(), "hello");

    let pasted = dispatch_text_input_command(&mut input, TextInputShortcut::Paste, Some("\r\n!"));
    assert!(pasted.text_changed);
    assert_eq!(input.content(), "hello!");
    assert_eq!(input.cursor(), 6);

    let moved = dispatch_text_input_command(&mut input, TextInputShortcut::MoveToStart { select: false }, None);
    assert!(moved.changed);
    assert!(!moved.text_changed);
    assert_eq!(input.cursor(), 0);
}

#[test]
fn line_breaks_are_stripped() {
    assert_eq!(strip_line_breaks("a\r\nb\nc"), "abc");
}

#[test]
fn composition_marks_the_inserted_text() {
    let mut input = TextInputState::new("ab".to_string(), 1);
    input.replace_and_mark_text_in_range_utf16(None, "xy", None);
    assert_eq!(input.content(), "axyb");
    assert_eq!(input.marked_range(), Some(1..3));
    assert_eq!(input.cursor(), 3);
    input.replace_text_in_range_utf16(None, "z");
    assert_eq!(input.content(), "azb");
    assert_eq!(input.marked_range(), None);
}

#[test]
fn text_for_range_reads_utf16_ranges() {
    let input = TextInputState::new("a😀b".to_string(), 0);
    let (text, actual) = input.text_for_range(&(1..3));
    assert_eq!(text, "😀");
    assert_eq!(actual, 1..3);
}

#[test]
fn edits_of_each_field_call_for_their_own_effects() {
    let query = text_input_edit_effects(TextInputId::Query);
    assert!(query.persist_session);
    assert!(!query.clear_open_url_error);
    let password = text_input_edit_effects(TextInputId::ProviderAuthPassword);
    assert!(password.clear_provider_auth_error);
    assert!(TextInputId::ProviderAuthPassword.is_masked());
    assert!(!TextInputId::ProviderAuthUsername.is_masked());
    let manual = text_input_edit_effects(TextInputId::ImportManual {
        source_path: "/music/a.flac".to_string(),
        field: ImportMetadataField::Title,
    });
    assert_eq!(manual.import_field, Some(("/music/a.flac".to_string(), ImportMetadataField::Title)));
}
