use catomic::app::{App, Mode};
use catomic::autocomplete::{
    begin_with_preset, confirm, current_identity, finish_result, identity_is_current, should_start, status_label,
    TaskResult,
};
use catomic::buffer::{Cursor, TextBuffer};
use catomic::config::{BackendAdapter, BackendPreset, LlmCatalog};

fn local_preset() -> BackendPreset {
    let mut catalog = LlmCatalog::new();
    let mut preset = catalog.presets.remove(0);
    preset.model = "test-writer".to_string();
    preset.adapter = BackendAdapter::OpenAiCompatible { base_url: "http://127.0.0.1:8080/v1".to_string() };
    preset
}

fn with_destination(mut preset: BackendPreset, destination: &str) -> BackendPreset {
    preset.adapter = BackendAdapter::OpenAiCompatible { base_url: destination.to_string() };
    preset
}

fn confirmation_text(app: &App) -> String {
    app.autocomplete.pending.as_ref().expect("pending confirmation").document.iter().collect()
}

fn enabled_app(text: &str, cursor: Cursor) -> App {
    let mut app = App::new(None);
    app.autocomplete.config.minimum_prefix_length = 1;
    app.buffer = TextBuffer::from_text(text);
    app.buffer.set_cursor(cursor);
    begin_with_preset(&mut app, local_preset());
    confirm(&mut app);
    app.message = None;
    assert!(app.autocomplete.running.is_none());
    app
}

#[test]
fn disabled_default_constructs_no_pending_or_running_request() {
    let app = App::new(None);
    assert!(!app.autocomplete.enabled);
    assert!(app.autocomplete.pending.is_none());
    assert!(app.autocomplete.running.is_none());
    assert_eq!(status_label(&app), "autocomplete disabled");
}

#[test]
fn first_enable_discloses_destination_scope_and_requires_enter() {
    let mut app = App::new(None);
    begin_with_preset(&mut app, local_preset());

    assert!(!app.autocomplete.enabled);
    assert!(app.autocomplete.pending.is_some());
    assert!(app.autocomplete.running.is_none());
    let document = confirmation_text(&app);
    assert!(document.contains("Preset: local"));
    assert!(document.contains("Model: test-writer"));
    assert!(document.contains("http://127.0.0.1:8080/v1"));
    assert!(document.contains("2048 Unicode scalars before and 512 after"));
    assert!(document.contains("no repository or filesystem context"));
    assert!(document.contains("No credential is read"));

    confirm(&mut app);
    assert!(app.autocomplete.enabled);
    assert!(app.autocomplete.confirmed.is_some());
    assert!(app.autocomplete.running.is_none());
}

#[test]
fn remote_endpoint_requires_separate_configuration_before_confirmation() {
    let mut app = App::new(None);
    let preset = with_destination(local_preset(), "https://models.example/v1");

    begin_with_preset(&mut app, preset);

    assert!(!app.autocomplete.enabled);
    assert!(app.autocomplete.pending.is_none());
    assert!(app.message.as_deref().unwrap().contains("allow_remote = true"));
}

#[test]
fn separately_allowed_remote_endpoint_still_requires_explicit_confirmation() {
    let mut app = App::new(None);
    app.autocomplete.config.allow_remote = true;
    let preset = with_destination(local_preset(), "https://models.example/v1");

    begin_with_preset(&mut app, preset);

    assert!(!app.autocomplete.enabled);
    assert!(app.autocomplete.pending.is_some());
    assert!(app.autocomplete.running.is_none());
    assert!(confirmation_text(&app).contains("(REMOTE HTTP)"));
}

#[test]
fn stale_response_is_discarded_for_cursor_drift() {
    let mut app = enabled_app("prefix", Cursor { row: 0, col: 6 });
    let identity = current_identity(&app, app.autocomplete.confirmed.as_ref().unwrap());
    app.buffer.set_cursor(Cursor { row: 0, col: 0 });

    finish_result(&mut app, 1_000, identity, TaskResult::Finished("late text".to_string()));

    assert!(app.autocomplete.suggestion.is_none());
    assert_eq!(app.buffer.to_string(), "prefix");
}

#[test]
fn malformed_result_enters_bounded_retry_backoff() {
    let mut app = enabled_app("prefix", Cursor { row: 0, col: 6 });
    let identity = current_identity(&app, app.autocomplete.confirmed.as_ref().unwrap());

    finish_result(&mut app, 1_000, identity, TaskResult::Finished("\u{1b}[2J".to_string()));

    assert!(app.autocomplete.suggestion.is_none());
    assert!(app.autocomplete.backoff_until.is_some());
    assert_eq!(status_label(&app), "ac error");
}

#[test]
fn identity_pins_revision_mode_generation_endpoint_and_model() {
    let app = enabled_app("prefix", Cursor { row: 0, col: 6 });
    let identity = current_identity(&app, app.autocomplete.confirmed.as_ref().unwrap());
    assert!(identity_is_current(&app, &identity));

    let mut revision_drift = enabled_app("prefix", Cursor { row: 0, col: 6 });
    revision_drift.buffer.insert_char('!');
    assert!(!identity_is_current(&revision_drift, &identity));

    let mut mode_drift = enabled_app("prefix", Cursor { row: 0, col: 6 });
    mode_drift.mode = Mode::Project;
    assert!(!identity_is_current(&mode_drift, &identity));

    let mut generation_drift = enabled_app("prefix", Cursor { row: 0, col: 6 });
    generation_drift.autocomplete.generation += 1;
    assert!(!identity_is_current(&generation_drift, &identity));

    let mut destination_drift = enabled_app("prefix", Cursor { row: 0, col: 6 });
    destination_drift.autocomplete.confirmed.as_mut().unwrap().destination = "http://localhost:9999/v1".to_string();
    assert!(!identity_is_current(&destination_drift, &identity));

    let mut model_drift = enabled_app("prefix", Cursor { row: 0, col: 6 });
    model_drift.autocomplete.confirmed.as_mut().unwrap().preset.model = "other-model".to_string();
    assert!(!identity_is_current(&model_drift, &identity));
}

#[test]
fn debounce_and_backoff_gate_request_start_without_blocking() {
    let mut app = enabled_app("prefix", Cursor { row: 0, col: 6 });
    let now: u64 = 50_000;
    app.autocomplete.last_edit = Some(now);
    assert!(!should_start(&app, now));

    app.autocomplete.last_edit = Some(now - 1_000);
    assert!(should_start(&app, now));

    app.autocomplete.backoff_until = Some(now + 1_000);
    assert!(!should_start(&app, now));
}

#[test]
fn ready_text_becomes_the_suggestion_and_backoff_doubles_to_a_cap() {
    let mut app = enabled_app("prefix", Cursor { row: 0, col: 6 });
    let identity = current_identity(&app, app.autocomplete.confirmed.as_ref().unwrap());
    finish_result(&mut app, 0, identity, TaskResult::Finished(" continuation".to_string()));
    assert_eq!(status_label(&app), "ac ready");
    assert_eq!(catomic::autocomplete::visible_text(&app).map(|s| s.as_str()), Some(" continuation"));

    let mut app = enabled_app("prefix", Cursor { row: 0, col: 6 });
    let mut waits = Vec::new();
    for _ in 0..7 {
        let identity = current_identity(&app, app.autocomplete.confirmed.as_ref().unwrap());
        finish_result(&mut app, 0, identity, TaskResult::Error("boom".to_string()));
        waits.push(app.autocomplete.backoff_until.unwrap());
    }
    assert_eq!(waits, vec![1_000, 2_000, 4_000, 8_000, 16_000, 30_000, 30_000]);
    assert_eq!(app.message.as_deref(), Some("Autocomplete error; retrying after 30s backoff: boom"));
}

#[test]
fn loopback_hosts_are_recognised() {
    assert!(catomic::autocomplete::endpoint_is_loopback("http://127.0.0.1:8080/v1"));
    assert!(catomic::autocomplete::endpoint_is_loopback("http://localhost/v1"));
    assert!(catomic::autocomplete::endpoint_is_loopback("http://[::1]:9/v1"));
    assert!(!catomic::autocomplete::endpoint_is_loopback("https://models.example/v1"));
    assert!(!catomic::autocomplete::endpoint_is_loopback("http://localhost.example/v1"));
}

fn ready(app: &mut App, text: &str) {
    let identity = current_identity(app, app.autocomplete.confirmed.as_ref().unwrap());
    finish_result(app, 0, identity, TaskResult::Finished(text.to_string()));
    assert_eq!(catomic::autocomplete::visible_text(app).map(|s| s.as_str()), Some(text));
}

fn press(app: &mut App, code: catomic::keys::KeyCode) {
    let _ = catomic::input::handle_key_with(app, catomic::keys::KeyEvent::plain(code));
}

#[test]
fn tab_accepts_ready_text_as_one_undoable_edit() {
    let mut app = enabled_app("Hello ", Cursor { row: 0, col: 6 });
    ready(&mut app, "wide 猫🙂\nnext");
    let before_revision = app.buffer.edit_history_position();

    press(&mut app, catomic::keys::KeyCode::Tab);

    assert_eq!(app.buffer.to_string(), "Hello wide 猫🙂\nnext");
    assert_ne!(app.buffer.edit_history_position(), before_revision);
    assert!(app.autocomplete.suggestion.is_none());
    app.buffer.undo();
    assert_eq!(app.buffer.to_string(), "Hello ");
}

#[test]
fn escape_dismisses_without_buffer_or_history_change() {
    let mut app = enabled_app("Hello", Cursor { row: 0, col: 5 });
    ready(&mut app, " world");
    let revision = app.buffer.edit_history_position();

    press(&mut app, catomic::keys::KeyCode::Esc);

    assert_eq!(app.buffer.to_string(), "Hello");
    assert_eq!(app.buffer.edit_history_position(), revision);
    assert!(app.autocomplete.suggestion.is_none());
}

#[test]
fn tab_keeps_normal_indentation_behavior_without_a_visible_suggestion() {
    let mut app = enabled_app("x", Cursor { row: 0, col: 1 });
    press(&mut app, catomic::keys::KeyCode::Tab);
    assert_eq!(app.buffer.to_string(), "x   ");
}

#[test]
fn tab_does_not_accept_or_consume_a_hidden_stale_suggestion() {
    let mut app = enabled_app("prefix", Cursor { row: 0, col: 6 });
    ready(&mut app, " continuation");
    app.buffer.set_cursor(Cursor { row: 0, col: 0 });

    press(&mut app, catomic::keys::KeyCode::Tab);

    assert_eq!(app.buffer.to_string(), "    prefix");
    assert!(app.autocomplete.suggestion.is_none());
}
