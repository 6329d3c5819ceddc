use ded::buffer::{Buffer, Fullscreen};
use ded::editor::{bands, command, Command, Editor, Footer, Message, StartError, Status, Step, TermEvent};
use ded::input::{Input, Key};

fn chars(s: &str) -> Vec<char> {
    s.chars().collect()
}

fn text(b: &Buffer) -> Vec<String> {
    b.lines().iter().map(|l| l.iter().collect()).collect()
}

fn key(k: Key) -> Input {
    Input::plain(k)
}

fn ctrl(c: char) -> Input {
    Input { key: Key::Char(c), ctrl: true, alt: false, shift: false }
}

fn alt(c: char) -> Input {
    Input { key: Key::Char(c), ctrl: false, alt: true, shift: false }
}

fn two_buffers() -> Editor {
    let a = Buffer::new(String::from("a.txt"), Some(chars("hello\n")));
    let b = Buffer::new(String::from("b.txt"), None);
    Editor::new(vec![a, b]).unwrap()
}

#[test]
fn no_files_is_an_error() {
    assert!(matches!(Editor::new(Vec::new()), Err(StartError::NoFiles)));
}

#[test]
fn commands_are_recognised() {
    assert_eq!(command(key(Key::F(11))), Command::ToggleFullscreen);
    assert_eq!(command(key(Key::F(12))), Command::ToggleLineNumbers);
    assert_eq!(command(ctrl('q')), Command::Quit);
    assert_eq!(command(ctrl('s')), Command::Save);
    assert_eq!(command(alt('1')), Command::Switch(0));
    assert_eq!(command(alt('9')), Command::Switch(8));
    assert_eq!(command(alt('0')), Command::NoBuffer);
    assert_eq!(command(key(Key::Char('q'))), Command::Other);
    assert_eq!(command(ctrl('f')), Command::Other);
}

#[test]
fn quit_stops() {
    let mut e = two_buffers();
    assert_eq!(e.process_input(ctrl('q')), Status::Stop);
}

#[test]
fn switch_between_buffers_keeps_each_buffer() {
    let mut e = two_buffers();
    assert_eq!(e.current(), 0);
    assert_eq!(e.process_input(alt('2')), Status::Continue);
    assert_eq!(e.current(), 1);
    assert_eq!(e.message(), Some(Message::Switched(1)));
    e.process_input(key(Key::Char('h')));
    e.process_input(key(Key::Char('i')));
    assert!(e.active().is_modified());
    assert_eq!(text(e.active()), vec!["hi"]);
    assert!(!e.buffer(0).is_modified());
    e.process_input(alt('1'));
    assert_eq!(e.current(), 0);
    assert_eq!(text(e.active()), vec!["hello"]);
    assert_eq!(ded::text::contents_of(e.active().lines()), chars("hello\n"));
    assert!(!e.active().is_modified());
    assert_eq!(e.active().save_contents(), None);
    assert!(e.buffer(1).is_modified());
}

#[test]
fn switch_out_of_range_changes_nothing() {
    let mut e = two_buffers();
    e.process_input(alt('2'));
    let before = e.message();
    e.process_input(alt('5'));
    assert_eq!(e.current(), 1);
    assert_eq!(e.message(), before);
    e.process_input(alt('0'));
    assert_eq!(e.current(), 1);
    e.process_input(alt('2'));
    assert_eq!(e.message(), before);
}

#[test]
fn switch_to_active_buffer_sets_no_message() {
    let mut e = two_buffers();
    e.process_input(alt('1'));
    assert_eq!(e.message(), None);
}

#[test]
fn save_asks_caller_to_write() {
    let mut e = two_buffers();
    e.process_input(key(Key::Char('x')));
    assert_eq!(e.process_input(ctrl('s')), Status::Save);
    assert_eq!(e.active().save_contents(), Some(chars("xhello\n")));
    e.saved();
    assert!(!e.active().is_modified());
    assert_eq!(e.take_message(), Some(Message::Saved));
    assert_eq!(e.message(), None);
}

#[test]
fn toggles_apply_to_active_buffer() {
    let mut e = two_buffers();
    e.process_input(key(Key::F(11)));
    assert_eq!(e.active().fullscreen(), Fullscreen::Half);
    e.process_input(key(Key::F(12)));
    assert!(!e.active().line_numbers());
    assert!(e.buffer(1).line_numbers());
}

#[test]
fn search_cancel_then_reopen_keeps_pattern() {
    let mut e = two_buffers();
    e.process_input(ctrl('f'));
    assert!(e.active().search().is_open());
    for c in "abc".chars() {
        e.process_input(key(Key::Char(c)));
    }
    assert_eq!(text(e.active()), vec!["hello"]);
    e.process_input(key(Key::Esc));
    assert!(!e.active().search().is_open());
    e.process_input(ctrl('f'));
    assert_eq!(e.active().search().pattern(), chars("abc"));
}

#[test]
fn search_confirm_without_match() {
    let mut e = two_buffers();
    e.process_input(key(Key::Right));
    e.process_input(ctrl('f'));
    e.process_input(key(Key::Char('z')));
    e.process_input(key(Key::Enter));
    assert_eq!(e.active().cursor(), (0, 1));
    assert!(!e.active().search().is_open());
    assert_eq!(e.message(), Some(Message::NotFound));
}

#[test]
fn search_confirm_jumps_to_match() {
    let mut e = two_buffers();
    e.process_input(ctrl('f'));
    e.process_input(key(Key::Char('l')));
    e.process_input(key(Key::Char('o')));
    e.process_input(key(Key::Enter));
    assert_eq!(e.active().cursor(), (0, 3));
    assert!(!e.active().search().is_open());
    assert_eq!(e.message(), None);
}

#[test]
fn search_next_without_match_shows_error_in_overlay() {
    let mut e = two_buffers();
    e.process_input(ctrl('f'));
    e.process_input(key(Key::Char('q')));
    e.process_input(key(Key::Down));
    assert!(e.active().search().is_open());
    assert_eq!(e.active().search().error(), Some(ded::search::SearchError::NotFound));
    e.process_input(key(Key::Up));
    assert_eq!(e.message(), None);
}

#[test]
fn search_next_and_previous() {
    let a = Buffer::new(String::from("a"), Some(chars("xx\nx")));
    let mut e = Editor::new(vec![a]).unwrap();
    e.process_input(ctrl('f'));
    e.process_input(key(Key::Char('x')));
    e.process_input(key(Key::Down));
    assert_eq!(e.active().cursor(), (0, 1));
    e.process_input(key(Key::Down));
    assert_eq!(e.active().cursor(), (1, 0));
    e.process_input(key(Key::Up));
    assert_eq!(e.active().cursor(), (0, 1));
}

#[test]
fn render_active_stores_viewport() {
    let mut e = two_buffers();
    let f = e.render_active(30, 4);
    assert_eq!(f.lines.len(), 1);
    assert_eq!(e.active().viewport().rect(), (0, 0, 30, 4));
}

#[test]
fn bands_per_fullscreen_mode() {
    assert_eq!(bands(Fullscreen::Off), (true, true));
    assert_eq!(bands(Fullscreen::Half), (true, false));
    assert_eq!(bands(Fullscreen::Full), (false, false));
}

#[test]
fn footer_shows_message_once_then_help() {
    let mut e = two_buffers();
    assert_eq!(e.take_footer(), Footer::Help);
    e.process_input(alt('2'));
    assert_eq!(e.take_footer(), Footer::Message(Message::Switched(1)));
    assert_eq!(e.take_footer(), Footer::Help);
    e.process_input(ctrl('f'));
    assert_eq!(e.take_footer(), Footer::SearchHelp);
}

#[test]
fn event_loop_steps() {
    let mut e = two_buffers();
    let s = e.handle_event(TermEvent::Resize);
    assert_eq!(s, Step { render_first: true, status: Status::Continue, render_after: false });
    let s = e.handle_event(TermEvent::Key(key(Key::Null)));
    assert_eq!(s, Step { render_first: false, status: Status::Continue, render_after: false });
    let s = e.handle_event(TermEvent::Other);
    assert!(!s.render_after);
    let s = e.handle_event(TermEvent::Key(key(Key::Char('a'))));
    assert_eq!(s, Step { render_first: false, status: Status::Continue, render_after: true });
    assert!(e.active().is_modified());
    let s = e.handle_event(TermEvent::Key(ctrl('s')));
    assert_eq!(s.status, Status::Save);
    assert!(s.render_after);
    let s = e.handle_event(TermEvent::Key(ctrl('q')));
    assert_eq!(s, Step { render_first: false, status: Status::Stop, render_after: false });
}

#[test]
fn status_line_figures() {
    let mut e = two_buffers();
    e.process_input(key(Key::Down));
    e.process_input(key(Key::Right));
    let s = e.status_line();
    assert_eq!((s.slot, s.count, s.modified, s.line, s.column), (1, 2, false, 1, 2));
    e.process_input(alt('2'));
    e.process_input(key(Key::Char('x')));
    let s = e.status_line();
    assert_eq!((s.slot, s.count, s.modified, s.line, s.column), (2, 2, true, 1, 2));
}

#[test]
fn alt_zero_changes_nothing() {
    let mut e = two_buffers();
    assert_eq!(e.process_input(alt('0')), Status::Continue);
    assert_eq!(e.current(), 0);
    assert_eq!(e.message(), None);
    assert!(!e.active().is_modified());
}
