use ded::buffer::{Buffer, Fullscreen};
use ded::input::{Input, Key};
use ded::search::SearchError;

fn chars(s: &str) -> Vec<char> {
    s.chars().collect()
}

fn text(b: &Buffer) -> Vec<String> {
    b.lines().iter().map(|l| l.iter().collect()).collect()
}

fn buffer(contents: &str) -> Buffer {
    Buffer::new(String::from("/tmp/x.txt"), Some(chars(contents)))
}

fn key(k: Key) -> Input {
    Input::plain(k)
}

fn shift(k: Key) -> Input {
    Input { key: k, ctrl: false, alt: false, shift: true }
}

fn typed(b: &mut Buffer, s: &str) {
    for c in s.chars() {
        b.input(key(Key::Char(c)));
    }
}

#[test]
fn new_buffer_without_file_is_one_empty_line() {
    let b = Buffer::new(String::from("new.txt"), None);
    assert_eq!(text(&b), vec![String::new()]);
    assert_eq!(b.cursor(), (0, 0));
    assert!(!b.is_modified());
    assert!(b.is_empty());
    assert!(b.line_numbers());
    assert_eq!(b.fullscreen(), Fullscreen::Off);
    assert_eq!(b.path(), "new.txt");
}

#[test]
fn new_buffer_reads_lines() {
    let b = buffer("one\ntwo\n");
    assert_eq!(text(&b), vec!["one", "two"]);
    assert!(!b.is_empty());
}

#[test]
fn typing_inserts_and_marks_modified() {
    let mut b = buffer("ac");
    b.input(key(Key::Right));
    assert!(!b.is_modified());
    assert!(b.input(key(Key::Char('b'))));
    assert_eq!(text(&b), vec!["abc"]);
    assert_eq!(b.cursor(), (0, 2));
    assert!(b.is_modified());
}

#[test]
fn control_keys_do_not_edit() {
    let mut b = buffer("x");
    let changed = b.input(Input { key: Key::Char('z'), ctrl: true, alt: false, shift: false });
    assert!(!changed);
    assert_eq!(text(&b), vec!["x"]);
    assert!(!b.is_modified());
}

#[test]
fn enter_splits_line() {
    let mut b = buffer("hello");
    b.input(key(Key::Right));
    b.input(key(Key::Right));
    assert!(b.input(key(Key::Enter)));
    assert_eq!(text(&b), vec!["he", "llo"]);
    assert_eq!(b.cursor(), (1, 0));
}

#[test]
fn backspace_at_line_start_joins() {
    let mut b = buffer("ab\ncd");
    b.input(key(Key::Down));
    b.input(key(Key::Home));
    assert!(b.input(key(Key::Backspace)));
    assert_eq!(text(&b), vec!["abcd"]);
    assert_eq!(b.cursor(), (0, 2));
}

#[test]
fn backspace_at_document_start_does_nothing() {
    let mut b = buffer("ab");
    assert!(!b.input(key(Key::Backspace)));
    assert!(!b.is_modified());
}

#[test]
fn delete_removes_and_joins() {
    let mut b = buffer("ab\ncd");
    assert!(b.input(key(Key::Delete)));
    assert_eq!(text(&b), vec!["b", "cd"]);
    b.input(key(Key::End));
    assert!(b.input(key(Key::Delete)));
    assert_eq!(text(&b), vec!["bcd"]);
    b.input(key(Key::End));
    assert!(!b.input(key(Key::Delete)));
}

#[test]
fn tab_inserts_spaces_to_next_stop() {
    let mut b = buffer("ab");
    b.input(key(Key::End));
    b.input(key(Key::Tab));
    assert_eq!(text(&b), vec!["ab  "]);
    assert_eq!(b.cursor(), (0, 4));
}

#[test]
fn tab_indented_file_uses_hard_tabs() {
    let mut b = buffer("\tx\n");
    b.input(key(Key::Tab));
    assert_eq!(text(&b), vec!["\t\tx"]);
}

#[test]
fn movement_across_lines() {
    let mut b = buffer("abc\nd");
    b.input(key(Key::End));
    b.input(key(Key::Right));
    assert_eq!(b.cursor(), (1, 0));
    b.input(key(Key::Left));
    assert_eq!(b.cursor(), (0, 3));
    b.input(key(Key::Down));
    assert_eq!(b.cursor(), (1, 1));
    b.input(key(Key::Up));
    assert_eq!(b.cursor(), (0, 1));
}

#[test]
fn open_search_seeds_from_selection() {
    let mut b = buffer("hello world");
    for _ in 0..6 {
        b.input(key(Key::Right));
    }
    for _ in 0..5 {
        b.input(shift(Key::Right));
    }
    b.open_search();
    assert!(b.search().is_open());
    assert_eq!(b.search().pattern(), chars("world"));
    assert_eq!(b.search().error(), None);
}

#[test]
fn open_search_without_selection_keeps_last_pattern() {
    let mut b = buffer("hello");
    b.open_search();
    for c in "ll".chars() {
        b.edit_search(key(Key::Char(c)));
    }
    b.close_search();
    assert!(!b.search().is_open());
    b.open_search();
    assert_eq!(b.search().pattern(), chars("ll"));
}

#[test]
fn search_pattern_ignores_enter() {
    let mut b = buffer("x");
    b.open_search();
    b.edit_search(key(Key::Char('a')));
    b.edit_search(key(Key::Enter));
    assert_eq!(b.search().pattern(), chars("a"));
    assert_eq!(b.search().cursor(), 1);
}

#[test]
fn search_forward_wraps() {
    let mut b = buffer("ab\nxab\nab");
    b.open_search();
    b.edit_search(key(Key::Char('a')));
    b.edit_search(key(Key::Char('b')));
    assert!(b.search_forward(false));
    assert_eq!(b.cursor(), (1, 1));
    assert!(b.search_forward(false));
    assert_eq!(b.cursor(), (2, 0));
    assert!(b.search_forward(false));
    assert_eq!(b.cursor(), (0, 0));
    assert!(b.search_forward(true));
    assert_eq!(b.cursor(), (0, 0));
}

#[test]
fn search_back_wraps() {
    let mut b = buffer("ab\nxab\nab");
    b.open_search();
    b.edit_search(key(Key::Char('a')));
    b.edit_search(key(Key::Char('b')));
    assert!(b.search_back());
    assert_eq!(b.cursor(), (2, 0));
    assert!(b.search_back());
    assert_eq!(b.cursor(), (1, 1));
}

#[test]
fn search_without_match_keeps_cursor() {
    let mut b = buffer("abc");
    b.input(key(Key::Right));
    b.open_search();
    b.edit_search(key(Key::Char('z')));
    assert!(!b.search_forward(true));
    assert!(!b.search_back());
    assert_eq!(b.cursor(), (0, 1));
}

#[test]
fn search_with_empty_pattern_finds_nothing() {
    let mut b = buffer("abc");
    b.open_search();
    assert!(!b.search_forward(false));
}

#[test]
fn search_error_is_shown_and_cleared_by_edit() {
    let mut b = buffer("abc");
    b.open_search();
    b.set_search_error(Some(SearchError::NotFound));
    assert_eq!(b.search().error(), Some(SearchError::NotFound));
    b.edit_search(key(Key::Char('a')));
    assert_eq!(b.search().error(), None);
}

#[test]
fn search_height_follows_overlay() {
    let mut b = buffer("abc");
    assert_eq!(b.search().height(), 0);
    b.open_search();
    assert_eq!(b.search().height(), 3);
}

#[test]
fn save_unmodified_writes_nothing() {
    let mut b = buffer("hello\n");
    assert_eq!(b.save_contents(), None);
    b.mark_saved();
    assert!(!b.is_modified());
}

#[test]
fn save_modified_round_trips() {
    let mut b = buffer("hello\n");
    b.input(key(Key::End));
    typed(&mut b, "!");
    let out = b.save_contents().unwrap();
    assert_eq!(out, chars("hello!\n"));
    b.mark_saved();
    assert!(!b.is_modified());
    let again = Buffer::new(String::from("/tmp/x.txt"), Some(out));
    assert_eq!(text(&again), text(&b));
}

#[test]
fn toggles() {
    let mut b = buffer("x");
    b.toggle_line_numbers();
    assert!(!b.line_numbers());
    b.toggle_fullscreen();
    assert_eq!(b.fullscreen(), Fullscreen::Half);
    b.toggle_fullscreen();
    assert_eq!(b.fullscreen(), Fullscreen::Full);
    b.toggle_fullscreen();
    assert_eq!(b.fullscreen(), Fullscreen::Off);
}

#[test]
fn take_selection_across_lines_keeps_first_line_part() {
    let mut b = buffer("abc\ndef");
    b.input(key(Key::Right));
    b.input(shift(Key::Down));
    assert_eq!(b.take_selection(), Some(chars("bc")));
    assert_eq!(b.take_selection(), None);
}

fn ctrl(c: char) -> Input {
    Input { key: Key::Char(c), ctrl: true, alt: false, shift: false }
}

#[test]
fn undo_and_redo_edits() {
    let mut b = buffer("x");
    typed(&mut b, "ab");
    b.input(key(Key::Enter));
    assert_eq!(text(&b), vec!["ab", "x"]);
    assert!(b.input(ctrl('u')));
    assert_eq!(text(&b), vec!["abx"]);
    assert_eq!(b.cursor(), (0, 2));
    assert!(b.undo());
    assert_eq!(text(&b), vec!["ax"]);
    assert_eq!(b.cursor(), (0, 1));
    assert!(b.input(ctrl('r')));
    assert_eq!(text(&b), vec!["abx"]);
    assert_eq!(b.cursor(), (0, 2));
    assert!(b.redo());
    assert_eq!(text(&b), vec!["ab", "x"]);
    assert_eq!(b.cursor(), (1, 0));
    assert!(!b.redo());
}

#[test]
fn undo_join_restores_both_lines() {
    let mut b = buffer("ab\ncd");
    b.input(key(Key::Down));
    b.input(key(Key::Backspace));
    assert_eq!(text(&b), vec!["abcd"]);
    assert!(b.undo());
    assert_eq!(text(&b), vec!["ab", "cd"]);
    assert_eq!(b.cursor(), (1, 0));
}

#[test]
fn edit_after_undo_drops_redo() {
    let mut b = buffer("");
    typed(&mut b, "a");
    b.undo();
    typed(&mut b, "b");
    assert!(!b.redo());
    assert_eq!(text(&b), vec!["b"]);
}

#[test]
fn undo_without_history_does_nothing() {
    let mut b = buffer("abc");
    assert!(!b.input(ctrl('u')));
    assert!(!b.is_modified());
    assert_eq!(text(&b), vec!["abc"]);
}

#[test]
fn undo_marks_modified_after_save() {
    let mut b = buffer("");
    typed(&mut b, "a");
    b.mark_saved();
    b.undo();
    assert!(b.is_modified());
}

#[test]
fn history_keeps_last_hundred_edits() {
    let mut b = buffer("");
    for _ in 0..105 {
        b.input(key(Key::Char('z')));
    }
    let mut n = 0;
    while b.undo() {
        n += 1;
    }
    assert_eq!(n, 100);
    assert_eq!(text(&b), vec!["zzzzz"]);
}
