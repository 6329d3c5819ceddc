use ded::buffer::Buffer;
use ded::input::{Input, Key};
use ded::render::Renderer;

fn chars(s: &str) -> Vec<char> {
    s.chars().collect()
}

fn numbered(n: usize) -> Buffer {
    let mut s = String::new();
    for i in 0..n {
        s.push_str(&format!("line{}\n", i));
    }
    Buffer::new(String::from("f"), Some(chars(&s)))
}

#[test]
fn renders_visible_slice_with_cursor() {
    let mut b = numbered(20);
    let f = b.render(40, 5);
    assert_eq!(f.top_row, 0);
    assert_eq!(f.gutter, 2);
    assert_eq!(f.lines.len(), 5);
    assert_eq!(f.lines[0].cursor, Some(0));
    assert_eq!(f.lines[1].cursor, None);
    assert_eq!(f.lines[4].content, chars("line4"));
    assert_eq!(b.viewport().rect(), (0, 0, 40, 5));
}

#[test]
fn cursor_below_window_scrolls_minimally() {
    let mut b = numbered(20);
    for _ in 0..7 {
        b.input(Input::plain(Key::Down));
    }
    let f = b.render(40, 5);
    assert_eq!(f.top_row, 3);
    assert_eq!(f.lines[0].row, 3);
    assert_eq!(f.lines[4].cursor, Some(0));
    b.input(Input::plain(Key::Up));
    let f = b.render(40, 5);
    assert_eq!(f.top_row, 3);
}

#[test]
fn window_past_the_end_is_cut() {
    let mut b = numbered(3);
    b.input(Input::plain(Key::Down));
    let f = b.render(10, 10);
    assert_eq!(f.lines.len(), 3);
    let r = Renderer::new(&b);
    assert_eq!(r.text(2, 10).len(), 1);
    assert_eq!(r.text(7, 10).len(), 0);
}

#[test]
fn columns_follow_cursor_beside_gutter() {
    let mut b = Buffer::new(String::from("f"), Some(chars("abcdefghijkl")));
    b.input(Input::plain(Key::End));
    let f = b.render(7, 1);
    assert_eq!(f.gutter, 2);
    assert_eq!(f.top_col, 8);
    b.toggle_line_numbers();
    let f = b.render(7, 1);
    assert_eq!(f.gutter, 0);
    assert_eq!(f.top_col, 8);
}

#[test]
fn zero_sized_window_does_not_fail() {
    let mut b = numbered(3);
    let f = b.render(0, 0);
    assert_eq!(f.top_row, 0);
    assert_eq!(f.lines.len(), 0);
}

#[test]
fn placeholder_for_empty_document() {
    let mut b = Buffer::new(String::from("f"), None);
    b.set_placeholder(chars("type here"));
    let f = b.render(20, 3);
    assert_eq!(f.placeholder, Some(chars("type here")));
    assert!(f.lines.is_empty());
    b.input(Input::plain(Key::Char('x')));
    let f = b.render(20, 3);
    assert_eq!(f.placeholder, None);
    assert_eq!(f.lines.len(), 1);
}

#[test]
fn occurrences_of_open_search_are_listed() {
    let mut b = Buffer::new(String::from("f"), Some(chars("abab\nxx\naaa")));
    b.open_search();
    b.edit_search(Input::plain(Key::Char('a')));
    let f = b.render(20, 5);
    assert_eq!(f.lines[0].matches, vec![0, 2]);
    assert_eq!(f.lines[1].matches, Vec::<usize>::new());
    assert_eq!(f.lines[2].matches, vec![0, 1, 2]);
    b.edit_search(Input::plain(Key::Char('a')));
    let f = b.render(20, 5);
    assert_eq!(f.lines[2].matches, vec![0, 1]);
    b.close_search();
    let f = b.render(20, 5);
    assert_eq!(f.lines[0].matches, Vec::<usize>::new());
}

#[test]
fn page_down_and_up_scroll_and_carry_cursor() {
    let mut b = numbered(20);
    b.render(40, 5);
    b.input(Input::plain(Key::PageDown));
    assert_eq!(b.viewport().scroll_top(), (5, 0));
    assert_eq!(b.cursor(), (5, 0));
    let f = b.render(40, 5);
    assert_eq!(f.top_row, 5);
    b.input(Input::plain(Key::PageUp));
    assert_eq!(b.viewport().scroll_top(), (0, 0));
    assert_eq!(b.cursor(), (4, 0));
    b.input(Input::plain(Key::PageUp));
    assert_eq!(b.viewport().scroll_top(), (0, 0));
    assert_eq!(b.cursor(), (4, 0));
}

#[test]
fn page_down_past_the_end_keeps_cursor_in_text() {
    let mut b = numbered(3);
    b.render(40, 5);
    b.input(Input::plain(Key::PageDown));
    assert_eq!(b.cursor(), (2, 0));
    assert!(!b.is_modified());
}

#[test]
fn gutter_follows_largest_visible_number() {
    let mut s = String::new();
    for _ in 0..10 {
        s.push_str(&"x".repeat(40));
        s.push('\n');
    }
    let mut b = Buffer::new(String::from("f"), Some(chars(&s)));
    for _ in 0..37 {
        b.input(Input::plain(Key::Right));
    }
    let f = b.render(40, 5);
    assert_eq!(f.gutter, 2);
    assert_eq!(f.top_col, 0);
    for _ in 0..9 {
        b.input(Input::plain(Key::Down));
    }
    let f = b.render(40, 5);
    assert_eq!(f.top_row, 5);
    assert_eq!(f.gutter, 3);
    assert_eq!(f.top_col, 1);
}
