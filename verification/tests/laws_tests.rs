use catomic::app::{App, KeyOutcome};
use catomic::autocomplete::backoff;
use catomic::buffer::{Cursor, TextBuffer};
use catomic::buffers::BufferDirection;
use catomic::command_prompt::{open_prompt, submit_prompt, CommandEffect, PromptKind};
use catomic::help::{help_markdown, is_viewing, toggle};
use catomic::input::{handle_key_with, handle_paste};
use catomic::keys::{Action, Chord, KeyBindings, KeyCode, KeyEvent, KeyName};
use catomic::lint::{visible_findings, LintFinding, LintResults};
use catomic::screen::Screen;

#[test]
fn next_then_previous_returns_to_the_same_buffer() {
    let mut app = App::with_text(Some("a.txt"), "alpha");
    app.open_buffer_with_text("b.txt", "beta");
    app.buffer.set_cursor(Cursor { row: 0, col: 2 });
    let text = app.buffer.to_string();
    let path = app.file.path.clone();

    assert!(app.switch_buffer(BufferDirection::Next));
    assert_ne!(app.file.path, path);
    assert!(app.switch_buffer(BufferDirection::Previous));

    assert_eq!(app.file.path, path);
    assert_eq!(app.buffer.to_string(), text);
    assert_eq!(app.buffer.cursor(), Cursor { row: 0, col: 2 });
}

#[test]
fn undo_then_redo_round_trips_an_edit() {
    let mut buffer = TextBuffer::from_text("abc");
    buffer.set_cursor(Cursor { row: 0, col: 1 });
    buffer.insert_char('X');
    assert_eq!(buffer.to_string(), "aXbc");
    assert!(buffer.undo());
    assert_eq!(buffer.to_string(), "abc");
    assert_eq!(buffer.cursor(), Cursor { row: 0, col: 1 });
    assert!(buffer.redo());
    assert_eq!(buffer.to_string(), "aXbc");
}

#[test]
fn undo_to_the_saved_state_makes_the_file_clean() {
    let mut app = App::with_text(None, "abc");
    handle_key_with(&mut app, KeyEvent::plain(KeyCode::Char('x')));
    assert!(app.file.dirty);
    handle_key_with(&mut app, KeyEvent::ctrl(KeyCode::Char('z')));
    assert_eq!(app.buffer.to_string(), "abc");
    assert!(!app.file.dirty);
}

#[test]
fn help_round_trip_restores_the_view() {
    let mut app = App::with_text(None, "one\ntwo\nthree");
    app.screen = Screen { width: 80, height: 3, scroll_top: 1, scroll_left: 2, wrap_col: 0 };
    let before = app.screen;
    toggle(&mut app);
    assert!(is_viewing(&app));
    assert_eq!(app.screen.scroll_top, 0);
    toggle(&mut app);
    assert!(!is_viewing(&app));
    assert_eq!(app.screen, before);
    assert_eq!(app.buffer.to_string(), "one\ntwo\nthree");
}

#[test]
fn any_content_edit_hides_lint_findings() {
    let mut app = App::with_text(Some("f.rs"), "abc");
    app.lint.results = Some(LintResults {
        source: "f.rs".to_string(),
        buffer_id: app.file.buffer_id,
        content_generation: app.file.content_generation,
        findings: vec![LintFinding { row: 0, col: 0, message: "m".to_string() }],
    });
    assert!(visible_findings(&app).is_some());
    handle_paste(&mut app, "x");
    assert!(visible_findings(&app).is_none());
}

#[test]
fn retry_pause_grows_and_stays_bounded() {
    let mut app = App::with_text(None, "x");
    let error: Vec<char> = "boom".chars().collect();
    let mut pauses = Vec::new();
    for _ in 0..8 {
        backoff(&mut app, 1_000, &error);
        pauses.push((app.autocomplete.backoff_until.unwrap() - 1_000) / 1_000);
    }
    assert_eq!(pauses, vec![1, 2, 4, 8, 16, 30, 30, 30]);
    assert_eq!(app.message.as_deref(), Some("Autocomplete error; retrying after 30s backoff: boom"));
    app.autocomplete.failures = u8::MAX;
    backoff(&mut app, u64::MAX - 5, &error);
    assert_eq!(app.autocomplete.backoff_until, Some(u64::MAX));
}

#[test]
fn bound_keys_follow_rebinding() {
    let mut bindings = KeyBindings::new();
    assert_eq!(bindings.action_for_key(KeyEvent::ctrl(KeyCode::Char('s'))), Some(Action::Save));
    assert_eq!(
        bindings.action_for_key(KeyEvent { code: KeyCode::Char('P'), ctrl: true, alt: false, shift: true }),
        Some(Action::CommandPrompt)
    );
    bindings.set(Action::Save, vec![Chord { key: KeyName::F(5), ctrl: false, alt: false, shift: false }]);
    assert_eq!(bindings.action_for_key(KeyEvent::ctrl(KeyCode::Char('s'))), None);
    assert_eq!(bindings.action_for_key(KeyEvent::plain(KeyCode::F(5))), Some(Action::Save));
    assert_eq!(bindings.action_for_key(KeyEvent::plain(KeyCode::Char('s'))), None);
}

#[test]
fn help_scrolls_within_its_page() {
    let mut app = App::with_text(None, "x");
    app.screen = Screen { width: 80, height: 5, scroll_top: 0, scroll_left: 0, wrap_col: 0 };
    toggle(&mut app);
    let lines = help_markdown(&app.keybindings).iter().filter(|c| **c == '\n').count() + 1;
    handle_key_with(&mut app, KeyEvent::plain(KeyCode::Down));
    assert_eq!(app.screen.scroll_top, 1);
    handle_key_with(&mut app, KeyEvent::plain(KeyCode::PageDown));
    assert_eq!(app.screen.scroll_top, 5);
    handle_key_with(&mut app, KeyEvent::plain(KeyCode::End));
    assert_eq!(app.screen.scroll_top, lines - 1);
    handle_key_with(&mut app, KeyEvent::plain(KeyCode::Home));
    assert_eq!(app.screen.scroll_top, 0);
    let frame = app.render();
    assert!(frame.starts_with("\u{1b}[1;1H# Catomic help"));
}

#[test]
fn save_as_and_open_prompts_hand_back_trimmed_paths() {
    let mut app = App::with_text(None, "body");
    open_prompt(&mut app, PromptKind::SaveAs);
    let prompt = app.command_prompt.active.take().unwrap();
    let prompt = catomic::command_prompt::ActivePrompt { kind: prompt.kind, text: "  out.txt ".to_string() };
    match submit_prompt(&mut app, prompt) {
        CommandEffect::SaveAs { path, text } => {
            assert_eq!(path.iter().collect::<String>(), "out.txt");
            assert_eq!(text, "body");
        }
        _ => panic!("save as must hand back a path"),
    }
    let prompt = catomic::command_prompt::ActivePrompt { kind: PromptKind::OpenFile, text: "in.txt".to_string() };
    assert!(matches!(submit_prompt(&mut app, prompt), CommandEffect::Open(p) if p.iter().collect::<String>() == "in.txt"));
}

#[test]
fn unknown_palette_command_is_reported() {
    let mut app = App::with_text(None, "body");
    handle_key_with(&mut app, KeyEvent { code: KeyCode::Char('p'), ctrl: true, alt: false, shift: true });
    for c in "con fig".chars() {
        handle_key_with(&mut app, KeyEvent::plain(KeyCode::Char(c)));
    }
    let outcome = handle_key_with(&mut app, KeyEvent::plain(KeyCode::Enter));
    assert!(matches!(outcome, KeyOutcome::Command(CommandEffect::Done)));
    assert_eq!(app.message.as_deref(), Some("Unknown command: con fig"));
}
