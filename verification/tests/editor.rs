use app_core::editor::{RichTextEditor, SuggestionType};

#[test]
fn test_new_editor() {
    let editor = RichTextEditor::new();
    assert_eq!(editor.text(), "");
    assert_eq!(editor.char_count(), 0);
    assert_eq!(editor.cursor(), 0);
    assert!(!editor.is_too_long());
}

#[test]
fn test_with_text() {
    let editor = RichTextEditor::with_text("Hello world");
    assert_eq!(editor.text(), "Hello world");
    assert_eq!(editor.char_count(), 11);
    assert_eq!(editor.cursor(), 11);
}

#[test]
fn test_insert_text() {
    let mut editor = RichTextEditor::new();
    editor.insert_text("Hello");
    assert_eq!(editor.text(), "Hello");
    assert_eq!(editor.char_count(), 5);
    assert_eq!(editor.cursor(), 5);

    editor.insert_text(" world");
    assert_eq!(editor.text(), "Hello world");
    assert_eq!(editor.char_count(), 11);
}

#[test]
fn test_delete_backward() {
    let mut editor = RichTextEditor::with_text("Hello");
    editor.delete_backward();
    assert_eq!(editor.text(), "Hell");
    assert_eq!(editor.char_count(), 4);
    assert_eq!(editor.cursor(), 4);
}

#[test]
fn test_delete_forward() {
    let mut editor = RichTextEditor::with_text("Hello");
    editor.set_cursor(0);
    editor.delete_forward();
    assert_eq!(editor.text(), "ello");
    assert_eq!(editor.char_count(), 4);
}

#[test]
fn editor_test_clear() {
    let mut editor = RichTextEditor::with_text("Hello world");
    editor.clear();
    assert_eq!(editor.text(), "");
    assert_eq!(editor.char_count(), 0);
    assert_eq!(editor.cursor(), 0);
}

#[test]
fn test_char_count_unicode() {
    let mut editor = RichTextEditor::new();
    editor.insert_text("Hello 👋 World 🌍");
    // "Hello 👋 World 🌍" = 5 + 1 + 1 + 1 + 5 + 1 + 1 = 15 graphemes
    assert_eq!(editor.char_count(), 15);
}

#[test]
fn test_chars_remaining() {
    let mut editor = RichTextEditor::new();
    editor.insert_text("Hello");
    assert_eq!(editor.chars_remaining(), 295);
}

#[test]
fn test_is_too_long() {
    let mut editor = RichTextEditor::new();
    let long_text = "a".repeat(301);
    editor.insert_text(&long_text);
    assert!(editor.is_too_long());
}

#[test]
fn test_insert_mention() {
    let mut editor = RichTextEditor::new();
    editor.insert_mention("alice.bsky.social", "did:plc:alice123");
    assert_eq!(editor.text(), "@alice.bsky.social ");
}

#[test]
fn test_insert_hashtag() {
    let mut editor = RichTextEditor::new();
    editor.insert_hashtag("rust");
    assert_eq!(editor.text(), "#rust ");
}

#[test]
fn test_insert_link() {
    let mut editor = RichTextEditor::new();
    editor.insert_link("https://example.com");
    assert_eq!(editor.text(), "https://example.com ");
}

#[test]
fn test_detect_facets() {
    let mut editor = RichTextEditor::new();
    editor.insert_text("Check out https://example.com and @alice.bsky.social #rust");
    let facets = editor.detect_facets();
    assert!(!facets.is_empty());
}

#[test]
fn test_to_rich_text() {
    let editor = RichTextEditor::with_text("Hello @alice.bsky.social!");
    let rich_text = editor.to_rich_text();
    assert_eq!(rich_text.text(), "Hello @alice.bsky.social!");
}

#[test]
fn test_selection() {
    let mut editor = RichTextEditor::with_text("Hello world");
    editor.set_selection(Some(0..5));
    assert_eq!(editor.selection(), Some(0..5));

    // Insert with selection should replace
    editor.insert_text("Hi");
    assert_eq!(editor.text(), "Hi world");
    assert_eq!(editor.selection(), None);
}

#[test]
fn test_delete_selection() {
    let mut editor = RichTextEditor::with_text("Hello world");
    editor.set_selection(Some(0..5));
    editor.delete_backward();
    assert_eq!(editor.text(), " world");
}

#[test]
fn test_detect_autocomplete_mention() {
    let editor = RichTextEditor::with_text("Hello @ali");
    let suggestion = editor.detect_autocomplete();
    assert!(suggestion.is_some());
    let suggestion = suggestion.unwrap();
    assert_eq!(suggestion.suggestion_type, SuggestionType::Mention);
    assert_eq!(suggestion.query, "ali");
}

#[test]
fn test_detect_autocomplete_hashtag() {
    let editor = RichTextEditor::with_text("Hello #rus");
    let suggestion = editor.detect_autocomplete();
    assert!(suggestion.is_some());
    let suggestion = suggestion.unwrap();
    assert_eq!(suggestion.suggestion_type, SuggestionType::Hashtag);
    assert_eq!(suggestion.query, "rus");
}

#[test]
fn test_detect_autocomplete_no_trigger() {
    let editor = RichTextEditor::with_text("Hello world");
    let suggestion = editor.detect_autocomplete();
    assert!(suggestion.is_none());
}

#[test]
fn test_detect_autocomplete_with_whitespace() {
    let editor = RichTextEditor::with_text("Hello @ alice");
    let suggestion = editor.detect_autocomplete();
    // Should not trigger because there's whitespace after @
    assert!(suggestion.is_none());
}

#[test]
fn test_apply_autocomplete_mention() {
    let mut editor = RichTextEditor::with_text("Hello @ali");
    let suggestion = editor.detect_autocomplete().unwrap();
    editor.apply_autocomplete(&suggestion, "alice.bsky.social");
    assert_eq!(editor.text(), "Hello @alice.bsky.social ");
}

#[test]
fn test_apply_autocomplete_hashtag() {
    let mut editor = RichTextEditor::with_text("Hello #rus");
    let suggestion = editor.detect_autocomplete().unwrap();
    editor.apply_autocomplete(&suggestion, "rust");
    assert_eq!(editor.text(), "Hello #rust ");
}

#[test]
fn test_cursor_positioning() {
    let mut editor = RichTextEditor::with_text("Hello");
    editor.set_cursor(2);
    assert_eq!(editor.cursor(), 2);

    editor.insert_text("XX");
    assert_eq!(editor.text(), "HeXXllo");
    assert_eq!(editor.cursor(), 4);
}

#[test]
fn test_emoji_handling() {
    let mut editor = RichTextEditor::new();
    editor.insert_text("Hello 👋");
    assert_eq!(editor.char_count(), 7);

    editor.delete_backward();
    assert_eq!(editor.text(), "Hello ");
    assert_eq!(editor.char_count(), 6);
}
