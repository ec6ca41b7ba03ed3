use catomic::app::App;
use catomic::buffer::{Cursor, TextBuffer};
use catomic::input::handle_key_with;
use catomic::keys::{KeyCode, KeyEvent};

fn key(app: &mut App, code: KeyCode, ctrl: bool, shift: bool) {
    let _ = handle_key_with(app, KeyEvent { code, ctrl, alt: false, shift });
}

fn type_text(app: &mut App, text: &str) {
    for ch in text.chars() {
        key(app, KeyCode::Char(ch), false, false);
    }
}

fn submit_command(app: &mut App, command: &str) {
    key(app, KeyCode::F(2), false, false);
    type_text(app, command);
    key(app, KeyCode::Enter, false, false);
}

#[test]
fn ctrl_g_moves_to_a_one_based_line_and_clamps_past_end() {
    let mut app = App::new(None);
    app.buffer = TextBuffer::from_text("zero\none\ntwo");

    key(&mut app, KeyCode::Char('g'), true, false);
    type_text(&mut app, "2");
    key(&mut app, KeyCode::Enter, false, false);
    assert_eq!(app.buffer.cursor(), Cursor { row: 1, col: 0 });

    key(&mut app, KeyCode::Char('g'), true, false);
    type_text(&mut app, "99");
    key(&mut app, KeyCode::Enter, false, false);
    assert_eq!(app.buffer.cursor(), Cursor { row: 2, col: 0 });
}

#[test]
fn command_prompt_dispatches_goto_and_does_not_bypass_dirty_quit_guard() {
    let mut app = App::new(None);
    app.buffer = TextBuffer::from_text("zero\none");

    key(&mut app, KeyCode::Char('p'), true, true);
    type_text(&mut app, "goto 2");
    key(&mut app, KeyCode::Enter, false, false);
    assert_eq!(app.buffer.cursor(), Cursor { row: 1, col: 0 });

    key(&mut app, KeyCode::Char('x'), false, false);
    submit_command(&mut app, "quit");
    assert!(!app.should_quit);
    assert!(app.pending_quit_confirm);

    submit_command(&mut app, "q");
    assert!(!app.should_quit);
    assert!(app.pending_quit_confirm);

    key(&mut app, KeyCode::Char('q'), true, false);
    assert!(app.should_quit);
}

#[test]
fn f2_opens_the_command_prompt() {
    let mut app = App::new(None);
    key(&mut app, KeyCode::F(2), false, false);
    type_text(&mut app, "help");
    assert_eq!(app.message.as_deref(), Some("Command: help"));
}

#[test]
fn unknown_command_clears_on_the_next_editor_action() {
    let mut app = App::new(None);
    submit_command(&mut app, "con fig");
    assert_eq!(app.message.as_deref(), Some("Unknown command: con fig"));
    assert_eq!(app.buffer.to_string(), "");
    assert!(!app.file.dirty);
    assert!(!app.should_quit);

    key(&mut app, KeyCode::Left, false, false);

    assert!(app.message.is_none());
    let rendered = app.render();
    assert!(!rendered.contains("Unknown command"));
}
