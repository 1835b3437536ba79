use tasks::keys::Key;
use tasks::line_editor::{EditOutcome, LineEditor};

#[test]
fn starts_with_the_cursor_at_the_end() {
    let editor = LineEditor::new("abc".to_string());
    assert_eq!(editor.text(), "abc");
    assert_eq!(editor.cursor(), 3);
}

#[test]
fn typing_inserts_at_the_cursor() {
    let mut editor = LineEditor::new("ac".to_string());
    assert_eq!(editor.handle_key(Key::Left), EditOutcome::Continue);
    editor.handle_key(Key::Char('b'));
    assert_eq!(editor.text(), "abc");
    assert_eq!(editor.cursor(), 2);
}

#[test]
fn backspace_removes_before_the_cursor() {
    let mut editor = LineEditor::new("abc".to_string());
    editor.handle_key(Key::Left);
    editor.handle_key(Key::Backspace);
    assert_eq!(editor.text(), "ac");
    assert_eq!(editor.cursor(), 1);
}

#[test]
fn backspace_on_empty_text_does_nothing() {
    let mut editor = LineEditor::new(String::new());
    editor.handle_key(Key::Backspace);
    assert_eq!(editor.text(), "");
    assert_eq!(editor.cursor(), 0);
}

#[test]
fn arrows_stop_at_the_ends() {
    let mut editor = LineEditor::new("ab".to_string());
    editor.handle_key(Key::Right);
    assert_eq!(editor.cursor(), 2);
    editor.handle_key(Key::Left);
    editor.handle_key(Key::Left);
    editor.handle_key(Key::Left);
    assert_eq!(editor.cursor(), 0);
}

#[test]
fn enter_and_esc_end_editing() {
    let mut editor = LineEditor::new("x".to_string());
    assert_eq!(editor.handle_key(Key::Enter), EditOutcome::Submit);
    assert_eq!(editor.handle_key(Key::Esc), EditOutcome::Cancel);
    assert_eq!(editor.handle_key(Key::Up), EditOutcome::Continue);
    assert_eq!(editor.text(), "x");
}

#[test]
fn typing_then_erasing_gives_the_text_back() {
    let mut editor = LineEditor::new("ab".to_string());
    editor.handle_key(Key::Left);
    editor.handle_key(Key::Char('\u{e9}'));
    assert_eq!(editor.text(), "a\u{e9}b");
    assert_eq!(editor.cursor(), 2);
    editor.handle_key(Key::Backspace);
    assert_eq!(editor.text(), "ab");
    assert_eq!(editor.cursor(), 1);
}

#[test]
fn the_cursor_counts_characters() {
    let mut editor = LineEditor::new("\u{e9}t\u{e9}".to_string());
    assert_eq!(editor.cursor(), 3);
    editor.handle_key(Key::Left);
    editor.handle_key(Key::Char('!'));
    assert_eq!(editor.text(), "\u{e9}t!\u{e9}");
    editor.handle_key(Key::Left);
    editor.handle_key(Key::Left);
    editor.handle_key(Key::Backspace);
    assert_eq!(editor.text(), "t!\u{e9}");
    assert_eq!(editor.cursor(), 0);
}

#[test]
fn backspace_at_the_start_deletes_nothing() {
    let mut editor = LineEditor::new("ab".to_string());
    editor.handle_key(Key::Left);
    editor.handle_key(Key::Left);
    assert!(editor.accepts(Key::Backspace));
    editor.handle_key(Key::Backspace);
    assert_eq!(editor.handle_key(Key::Enter), EditOutcome::Submit);
    assert_eq!(editor.text(), "ab");
    assert_eq!(editor.cursor(), 0);
}
