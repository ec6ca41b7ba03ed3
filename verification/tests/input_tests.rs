use catomic::app::{App, ExternalFileStatus, KeyOutcome, PendingFileCheck};
use catomic::help::is_viewing;
use catomic::input::{
    dispatch_action, handle_paste, PasteSurface, RawKeySurface, PASTE_PRECEDENCE, RAW_KEY_PRECEDENCE,
};
use catomic::keys::Action;

#[test]
fn unrelated_global_action_cancels_editor_confirmations() {
    let mut app = App::new(None);
    app.pending_quit_confirm = true;
    app.pending_save_conflict = Some(PendingFileCheck {
        path: "save.txt".into(),
        status: ExternalFileStatus::Modified,
    });
    app.pending_reload = Some(PendingFileCheck {
        path: "reload.txt".into(),
        status: ExternalFileStatus::Modified,
    });

    dispatch_action(&mut app, Action::Help);

    assert!(!app.pending_quit_confirm);
    assert!(app.pending_save_conflict.is_none());
    assert!(app.pending_reload.is_none());
    assert!(is_viewing(&app));
}

#[test]
fn precedence_contracts_are_named_and_locked() {
    assert_eq!(RAW_KEY_PRECEDENCE[0], RawKeySurface::Lint);
    assert_eq!(RAW_KEY_PRECEDENCE[1], RawKeySurface::Help);
    assert_eq!(RAW_KEY_PRECEDENCE[4], RawKeySurface::Replace);
    assert_eq!(RAW_KEY_PRECEDENCE[5], RawKeySurface::Search);
    assert_eq!(RAW_KEY_PRECEDENCE[6], RawKeySurface::CommandPrompt);
    assert_eq!(RAW_KEY_PRECEDENCE[8], RawKeySurface::MarkdownPreview);
    assert_eq!(PASTE_PRECEDENCE[0], PasteSurface::Help);
    assert_eq!(PASTE_PRECEDENCE[1], PasteSurface::Replace);
    assert_eq!(PASTE_PRECEDENCE[2], PasteSurface::Search);
    assert_eq!(PASTE_PRECEDENCE[3], PasteSurface::CommandPrompt);
    assert_eq!(PASTE_PRECEDENCE[6], PasteSurface::MarkdownPreview);
}

#[test]
fn save_action_hands_back_the_buffer_text() {
    let mut app = App::with_text(Some("a.txt"), "hello");
    match dispatch_action(&mut app, Action::Save) {
        KeyOutcome::Save(request) => {
            assert_eq!(request.text, "hello");
            assert_eq!(request.path, "a.txt");
        }
        _ => panic!("save must hand back a save request"),
    }
}

#[test]
fn paste_replaces_selection_and_help_is_read_only() {
    let mut app = App::with_text(None, "abc");
    handle_paste(&mut app, "xy");
    assert_eq!(app.buffer.to_string(), "xyabc");
    assert!(app.file.dirty);

    dispatch_action(&mut app, Action::Help);
    handle_paste(&mut app, "zz");
    assert_eq!(app.buffer.to_string(), "xyabc");
}

#[test]
fn undo_action_reverts_last_edit() {
    let mut app = App::with_text(None, "abc");
    handle_paste(&mut app, "x");
    dispatch_action(&mut app, Action::Undo);
    assert_eq!(app.buffer.to_string(), "abc");
    assert!(!app.file.dirty);
}

use catomic::command_prompt::CommandEffect;
use catomic::input::handle_key_with;
use catomic::keys::{Chord, KeyCode, KeyEvent, KeyName};
use catomic::mobile::{active_surface, Surface};

fn press(app: &mut App, code: KeyCode) -> KeyOutcome {
    handle_key_with(app, KeyEvent::plain(code))
}

#[test]
fn typing_goes_to_the_editor_and_marks_dirty() {
    let mut app = App::with_text(None, "");
    for c in "hi".chars() {
        press(&mut app, KeyCode::Char(c));
    }
    handle_key_with(&mut app, KeyEvent { code: KeyCode::Char('x'), ctrl: false, alt: false, shift: true });
    assert_eq!(app.buffer.to_string(), "hiX");
    assert!(app.file.dirty);
}

#[test]
fn bound_chords_run_actions_and_rebinding_moves_them() {
    let mut app = App::with_text(Some("a.txt"), "abc");
    assert!(matches!(handle_key_with(&mut app, KeyEvent::ctrl(KeyCode::Char('s'))), KeyOutcome::Save(_)));

    app.keybindings.set(Action::Save, vec![Chord { key: KeyName::F(5), ctrl: false, alt: false, shift: false }]);
    assert!(matches!(press(&mut app, KeyCode::F(5)), KeyOutcome::Save(_)));
    handle_key_with(&mut app, KeyEvent::ctrl(KeyCode::Char('s')));
    assert_eq!(app.buffer.to_string(), "abc");
}

#[test]
fn help_takes_keys_until_escape() {
    let mut app = App::with_text(None, "abc");
    press(&mut app, KeyCode::F(1));
    assert!(is_viewing(&app));
    press(&mut app, KeyCode::Char('z'));
    assert_eq!(app.buffer.to_string(), "abc");
    assert_eq!(app.message.as_deref(), Some("Shortcut help is read-only; Esc closes."));
    assert!(app.render().contains("Catomic help"));
    press(&mut app, KeyCode::Esc);
    assert!(!is_viewing(&app));
    press(&mut app, KeyCode::Char('z'));
    assert_eq!(app.buffer.to_string(), "zabc");
}

#[test]
fn goto_prompt_types_and_submits() {
    let mut app = App::with_text(None, "one\ntwo\nthree");
    handle_key_with(&mut app, KeyEvent::ctrl(KeyCode::Char('g')));
    assert!(app.command_prompt.active.is_some());
    press(&mut app, KeyCode::Char('3'));
    assert_eq!(app.message.as_deref(), Some("Goto line: 3"));
    let outcome = press(&mut app, KeyCode::Enter);
    assert!(matches!(outcome, KeyOutcome::Command(CommandEffect::Done)));
    assert_eq!(app.buffer.cursor().row, 2);
    assert_eq!(app.message.as_deref(), Some("Moved to line 3."));
    assert_eq!(app.buffer.to_string(), "one\ntwo\nthree");
}

#[test]
fn tab_indents_and_enter_keeps_indent() {
    let mut app = App::with_text(None, "");
    press(&mut app, KeyCode::Tab);
    press(&mut app, KeyCode::Char('{'));
    press(&mut app, KeyCode::Enter);
    assert_eq!(app.buffer.to_string(), "    {\n        ");
}

#[test]
fn quit_is_global_even_in_help() {
    let mut app = App::with_text(None, "abc");
    press(&mut app, KeyCode::F(1));
    handle_key_with(&mut app, KeyEvent::ctrl(KeyCode::Char('q')));
    assert!(app.should_quit);
}

#[test]
fn touch_bar_serves_the_foremost_surface() {
    let mut app = App::with_text(None, "abc");
    assert_eq!(active_surface(&app), Surface::Normal);
    dispatch_action(&mut app, Action::GotoLine);
    assert_eq!(active_surface(&app), Surface::Prompt);
    press(&mut app, KeyCode::Esc);
    assert_eq!(active_surface(&app), Surface::Message);
    dispatch_action(&mut app, Action::Help);
    assert_eq!(active_surface(&app), Surface::ReadOnly);
}
