use git_redate::lineedit::{LineEditor, LineOp};

/// Type a string left to right into a fresh editor.
fn typed(s: &str) -> LineEditor {
    let mut e = LineEditor::default();
    for c in s.chars() {
        e.apply(LineOp::Insert(c));
    }
    e
}

#[test]
fn insert_advances_the_cursor_to_the_end() {
    let e = typed("abc");
    assert_eq!(e.text(), "abc");
    assert_eq!(e.cursor(), 3);
}

#[test]
fn backspace_and_delete() {
    let mut e = typed("abc"); // cursor at 3
    e.apply(LineOp::Backspace);
    assert_eq!((e.text(), e.cursor()), ("ab", 2));
    e.apply(LineOp::Home);
    e.apply(LineOp::Delete);
    assert_eq!((e.text(), e.cursor()), ("b", 0));
    // Backspace at the start and Delete at the end are no-ops.
    e.apply(LineOp::Backspace);
    e.apply(LineOp::End);
    e.apply(LineOp::Delete);
    assert_eq!((e.text(), e.cursor()), ("b", 1));
}

#[test]
fn char_motion_clamps_at_both_ends() {
    let mut e = typed("ab"); // cursor 2
    e.apply(LineOp::Right); // clamped
    assert_eq!(e.cursor(), 2);
    e.apply(LineOp::Left);
    e.apply(LineOp::Left);
    e.apply(LineOp::Left); // clamped at 0
    assert_eq!(e.cursor(), 0);
}

#[test]
fn word_motion_crosses_separators() {
    let mut e = typed("foo bar-baz"); // len 11, cursor 11
    e.apply(LineOp::WordLeft);
    assert_eq!(e.cursor(), 8); // start of "baz"
    e.apply(LineOp::WordLeft);
    assert_eq!(e.cursor(), 4); // start of "bar"
    e.apply(LineOp::WordLeft);
    assert_eq!(e.cursor(), 0); // start of "foo"
    e.apply(LineOp::WordRight);
    assert_eq!(e.cursor(), 3); // end of "foo"
    e.apply(LineOp::WordRight);
    assert_eq!(e.cursor(), 7); // end of "bar"
}

#[test]
fn kill_word_back_removes_trailing_space_and_word() {
    let mut e = typed("foo bar "); // cursor 8
    e.apply(LineOp::KillWordBack);
    assert_eq!((e.text(), e.cursor()), ("foo ", 4));
    e.apply(LineOp::KillWordBack);
    assert_eq!((e.text(), e.cursor()), ("", 0));
}

#[test]
fn kill_to_start_and_end() {
    let mut e = typed("hello world");
    e.apply(LineOp::Home);
    e.apply(LineOp::WordRight); // cursor 5 (after "hello")
    let mut a = e.clone();
    a.apply(LineOp::KillToStart);
    assert_eq!((a.text(), a.cursor()), (" world", 0));
    let mut b = e;
    b.apply(LineOp::KillToEnd);
    assert_eq!((b.text(), b.cursor()), ("hello", 5));
}

#[test]
fn cursor_stays_on_char_boundaries_for_non_ascii() {
    let mut e = typed("cafe\u{301}"); // "cafe" + combining acute; last char is 2 bytes
    assert_eq!(e.text().len(), 6);
    assert_eq!(e.cursor(), 6);
    e.apply(LineOp::Left); // over the 2-byte combining mark
    assert_eq!(e.cursor(), 4);
    e.apply(LineOp::End);
    e.apply(LineOp::Backspace); // deletes the 2-byte char cleanly
    assert_eq!((e.text(), e.cursor()), ("cafe", 4));
}

#[test]
fn mutates_flags_text_changing_ops_only() {
    assert!(LineOp::Insert('x').mutates());
    assert!(LineOp::Backspace.mutates());
    assert!(LineOp::KillToEnd.mutates());
    assert!(!LineOp::Left.mutates());
    assert!(!LineOp::WordRight.mutates());
    assert!(!LineOp::Home.mutates());
}

#[test]
fn insert_then_backspace_restores_the_text() {
    let mut e = typed("ab\u{e9}d");
    e.apply(LineOp::Left);
    e.apply(LineOp::Left); // before the 2-byte 'é'
    let before = (e.text().to_string(), e.cursor());
    e.apply(LineOp::Insert('\u{1F600}'));
    assert_eq!(e.cursor(), before.1 + 4);
    e.apply(LineOp::Backspace);
    assert_eq!((e.text().to_string(), e.cursor()), before);
}

#[test]
fn kills_split_the_text_at_the_cursor() {
    let mut e = typed("ab cd");
    e.apply(LineOp::Left);
    e.apply(LineOp::Left); // cursor 3
    let mut a = e.clone();
    let mut b = e.clone();
    a.apply(LineOp::KillToStart);
    b.apply(LineOp::KillToEnd);
    assert_eq!(format!("{}{}", b.text(), a.text()), "ab cd");
    assert!(typed("").is_empty());
    assert!(!a.is_empty());
}
