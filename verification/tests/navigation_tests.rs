use catomic::app::App;
use catomic::buffer::{Cursor, TextBuffer};
use catomic::input::handle_key_with;
use catomic::keys::{KeyCode, KeyEvent};

fn app(text: &str, col: usize) -> App {
    let mut app = App::new(None);
    app.buffer = TextBuffer::from_text(text);
    app.buffer.set_cursor(Cursor { row: 0, col });
    app
}

fn press(app: &mut App, code: KeyCode) {
    let _ = handle_key_with(app, KeyEvent::plain(code));
}

#[test]
fn backspace_removes_a_whole_combining_sequence() {
    let mut app = app("ae\u{301}b", 3);
    press(&mut app, KeyCode::Backspace);
    assert_eq!(app.buffer.to_string(), "ab");
    assert_eq!(app.buffer.cursor(), Cursor { row: 0, col: 1 });
    assert!(app.file.dirty);
    let _ = handle_key_with(&mut app, KeyEvent::ctrl(KeyCode::Char('z')));
    assert_eq!(app.buffer.to_string(), "ae\u{301}b");
}

#[test]
fn delete_removes_a_whole_joined_emoji() {
    let mut app = app("x👩\u{200d}💻y", 1);
    press(&mut app, KeyCode::Delete);
    assert_eq!(app.buffer.to_string(), "xy");
    assert_eq!(app.buffer.cursor(), Cursor { row: 0, col: 1 });
}

#[test]
fn arrows_step_over_whole_clusters_and_across_lines() {
    let mut app = app("e\u{301}\n猫", 0);
    press(&mut app, KeyCode::Right);
    assert_eq!(app.buffer.cursor(), Cursor { row: 0, col: 2 });
    press(&mut app, KeyCode::Right);
    assert_eq!(app.buffer.cursor(), Cursor { row: 1, col: 0 });
    press(&mut app, KeyCode::Left);
    assert_eq!(app.buffer.cursor(), Cursor { row: 0, col: 2 });
    press(&mut app, KeyCode::Left);
    assert_eq!(app.buffer.cursor(), Cursor { row: 0, col: 0 });
}

#[test]
fn backspace_at_a_line_start_joins_the_lines() {
    let mut app = app("ab\ncd", 0);
    app.buffer.set_cursor(Cursor { row: 1, col: 0 });
    press(&mut app, KeyCode::Backspace);
    assert_eq!(app.buffer.to_string(), "abcd");
    assert_eq!(app.buffer.cursor(), Cursor { row: 0, col: 2 });
}

#[test]
fn home_and_end_reach_the_line_edges_and_clear_the_message() {
    let mut app = app("one\n  two", 0);
    app.buffer.set_cursor(Cursor { row: 1, col: 3 });
    app.message = Some("note".to_string());
    press(&mut app, KeyCode::End);
    assert_eq!(app.buffer.cursor(), Cursor { row: 1, col: 5 });
    assert!(app.message.is_none());
    press(&mut app, KeyCode::Home);
    assert_eq!(app.buffer.cursor(), Cursor { row: 1, col: 0 });
}

#[test]
fn shift_arrows_extend_the_selection_and_plain_arrows_end_it() {
    let mut app = app("abcd", 1);
    let shift_right = KeyEvent { code: KeyCode::Right, ctrl: false, alt: false, shift: true };
    let _ = handle_key_with(&mut app, shift_right);
    let _ = handle_key_with(&mut app, shift_right);
    assert_eq!(app.selection.anchor, Some(Cursor { row: 0, col: 1 }));
    assert_eq!(app.buffer.cursor(), Cursor { row: 0, col: 3 });
    press(&mut app, KeyCode::Char('X'));
    assert_eq!(app.buffer.to_string(), "aXd");
    press(&mut app, KeyCode::Left);
    assert!(app.selection.anchor.is_none());
}

#[test]
fn vertical_moves_land_on_the_start_of_a_cluster() {
    let mut app = app("abc\ne\u{301}x", 1);
    press(&mut app, KeyCode::Down);
    assert_eq!(app.buffer.cursor(), Cursor { row: 1, col: 0 });
    app.buffer.set_cursor(Cursor { row: 1, col: 2 });
    press(&mut app, KeyCode::Up);
    assert_eq!(app.buffer.cursor(), Cursor { row: 0, col: 2 });
}
