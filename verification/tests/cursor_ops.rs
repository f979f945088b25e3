//! The editable buffer: navigation, editing, and the caret split.

use cliclack::{edit_cursor, frame_height, Key, StringCursor};

fn cursor_char(c: &StringCursor) -> char {
    c.current().unwrap_or(' ')
}

fn offset(c: &StringCursor) -> usize {
    // the caret split hands back the text left of the cursor
    c.split().0.chars().count()
}

#[test]
fn test_string_cursor() {
    let mut cursor = StringCursor::new();
    cursor.extend("hello\nworld");
    assert_eq!(cursor_char(&cursor), 'h');
    assert_eq!(cursor.to_string(), "hello\nworld");
    cursor.move_right();
    assert_eq!(cursor_char(&cursor), 'e');
    cursor.move_up();
    assert_eq!(cursor_char(&cursor), 'h');
    cursor.move_up();
    assert_eq!(cursor_char(&cursor), 'h');
    cursor.move_down();
    assert_eq!(cursor_char(&cursor), 'w');
    cursor.move_down();
    assert_eq!(cursor_char(&cursor), 'w');
    cursor.move_end();
    assert_eq!(cursor_char(&cursor), ' ');
    cursor.move_up();
    assert_eq!(cursor_char(&cursor), '\n');
    for c in "\nbeautiful".chars() {
        cursor.insert(c);
    }
    assert_eq!(cursor.to_string(), "hello\nbeautiful\nworld");
    cursor.move_up();
    assert_eq!(cursor_char(&cursor), '\n');
    cursor.move_down();
    assert_eq!(cursor_char(&cursor), 'i');
    cursor.move_end();
    assert_eq!(cursor_char(&cursor), '\n');
    cursor.move_end();
    assert_eq!(cursor_char(&cursor), '\n');
    cursor.move_down();
    cursor.move_left();
    assert_eq!(cursor_char(&cursor), 'd');
    cursor.move_home();
    assert_eq!(cursor_char(&cursor), 'w');
}

#[test]
fn insert_then_delete_left_restores() {
    let mut cursor = StringCursor::new();
    cursor.extend("hello world");
    cursor.move_right();
    cursor.move_right();
    cursor.move_right();
    let before_text = cursor.to_string();
    let before_offset = offset(&cursor);
    cursor.insert('x');
    cursor.delete_left();
    assert_eq!(cursor.to_string(), before_text);
    assert_eq!(offset(&cursor), before_offset);
}

#[test]
fn word_jump_round_trip_lands_on_boundary() {
    let mut cursor = StringCursor::new();
    cursor.extend("hello brave world");
    // start inside the first word
    cursor.move_right();
    cursor.move_right();
    cursor.move_right();
    cursor.move_right_by_word();
    assert_eq!(offset(&cursor), 6);
    cursor.move_left_by_word();
    assert_eq!(offset(&cursor), 0);
    // never inside a word: the landing spot starts "hello"
    assert_eq!(cursor_char(&cursor), 'h');
}

#[test]
fn vertical_move_preserves_column() {
    let mut cursor = StringCursor::new();
    cursor.extend("hello\nworld");
    cursor.move_right();
    assert_eq!(cursor_char(&cursor), 'e');
    cursor.move_down();
    assert_eq!(cursor_char(&cursor), 'o');
    assert_eq!(offset(&cursor), 7);
    cursor.move_down();
    assert_eq!(cursor_char(&cursor), 'o');
    assert_eq!(offset(&cursor), 7);
}

#[test]
fn vertical_move_clamps_column() {
    let mut cursor = StringCursor::new();
    cursor.extend("a\nlonger line\nb");
    // move to the end of the second line
    cursor.move_down();
    cursor.move_end();
    assert_eq!(offset(&cursor), 13);
    cursor.move_down();
    // the third line is one character long: the cursor clamps onto it
    assert_eq!(offset(&cursor), 15);
    assert_eq!(cursor_char(&cursor), ' ');
}

#[test]
fn delete_word_to_the_left_cuts_to_boundary() {
    let mut cursor = StringCursor::new();
    cursor.extend("one two three");
    cursor.move_end();
    cursor.delete_word_to_the_left();
    assert_eq!(cursor.to_string(), "one two ");
    cursor.delete_word_to_the_left();
    assert_eq!(cursor.to_string(), "one ");
}

#[test]
fn deletes_at_edges_are_no_ops() {
    let mut cursor = StringCursor::new();
    cursor.delete_left();
    cursor.delete_right();
    assert!(cursor.is_empty());
    cursor.extend("ab");
    cursor.delete_left();
    assert_eq!(cursor.to_string(), "ab");
    cursor.move_end();
    cursor.delete_right();
    assert_eq!(cursor.to_string(), "ab");
}

#[test]
fn split_marks_the_caret() {
    let mut cursor = StringCursor::new();
    cursor.extend("abc");
    cursor.move_right();
    let (left, caret, right) = cursor.split();
    assert_eq!(left, "a");
    assert_eq!(caret, "b");
    assert_eq!(right, "c");
    cursor.move_end();
    let (left, caret, right) = cursor.split();
    assert_eq!(left, "abc");
    assert_eq!(caret, " ");
    assert_eq!(right, "");
}

#[test]
fn clear_empties_the_buffer() {
    let mut cursor = StringCursor::new();
    cursor.extend("abc");
    cursor.move_end();
    cursor.clear();
    assert!(cursor.is_empty());
    assert_eq!(offset(&cursor), 0);
}

#[test]
fn frame_height_counts_soft_wrapped_rows() {
    assert_eq!(frame_height("", 10), 0);
    assert_eq!(frame_height("a\n", 10), 1);
    assert_eq!(frame_height("a\nbb", 10), 2);
    assert_eq!(frame_height("hello", 2), 3);
    assert_eq!(frame_height("a\n\nb", 10), 3);
    assert_eq!(frame_height("abcd\nef", 2), 3);
}

#[test]
fn edit_cursor_dispatches_the_driver_keys() {
    let mut cursor = StringCursor::new();
    edit_cursor(&mut cursor, &Key::Char('a'), true);
    edit_cursor(&mut cursor, &Key::Char('b'), true);
    edit_cursor(&mut cursor, &Key::Char(' '), true);
    edit_cursor(&mut cursor, &Key::Char('c'), true);
    assert_eq!(cursor.to_string(), "ab c");
    // the word-erase control character cuts the word left of the cursor
    edit_cursor(&mut cursor, &Key::Char('\u{17}'), true);
    assert_eq!(cursor.to_string(), "ab ");
    // but not when word editing is disallowed
    edit_cursor(&mut cursor, &Key::Char('\u{17}'), false);
    assert_eq!(cursor.to_string(), "ab ");
    edit_cursor(&mut cursor, &Key::Home, true);
    edit_cursor(&mut cursor, &Key::Del, true);
    assert_eq!(cursor.to_string(), "b ");
    edit_cursor(&mut cursor, &Key::End, true);
    edit_cursor(&mut cursor, &Key::Backspace, true);
    assert_eq!(cursor.to_string(), "b");
    // control characters are never inserted
    edit_cursor(&mut cursor, &Key::Char('\u{1}'), true);
    assert_eq!(cursor.to_string(), "b");
}
