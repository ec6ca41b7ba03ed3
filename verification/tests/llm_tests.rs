use catomic::app::App;
use catomic::buffer::{Cursor, TextBuffer};
use catomic::hooks::before_current_llm;
use catomic::keys::{KeyCode, KeyEvent};
use catomic::llm::{
    apply_preview, begin_request, cancel_preview, confirm_request, finish_task, handle_request_key,
    parse_replacement, show_with_region_fallback, ContextScope, CurrentLlmCommand, LlmTaskResult,
    purpose, system_prompt, RegionTarget, RequestKeyOutcome, RequestPurpose,
};
use catomic::selection::move_to;
use catomic::status::StatusRole;

fn app_with(text: &str) -> App {
    let mut app = App::new(None);
    app.buffer = TextBuffer::from_text(text);
    app
}

fn target(start: Cursor, end: Cursor, original: &str) -> RegionTarget {
    RegionTarget { start, end, original: original.chars().collect() }
}

#[test]
fn plain_start_constructs_no_pending_request_task_or_client() {
    let app = App::new(None);
    assert!(app.pending_llm_request.is_none());
    assert!(app.llm_task.is_none());
    assert!(!app.caps.network_llm);
}

#[test]
fn plain_start_constructs_no_answer_view() {
    let app = App::new(None);
    assert!(app.surfaces.llm_answer.is_none());
}

#[test]
fn plain_start_has_no_preview_or_network_component() {
    let app = App::new(None);
    assert!(app.llm_preview.is_none());
    assert!(!app.caps.network_llm);
    assert!(!app.caps.repo_llm);
}

#[test]
fn meow_without_selection_uses_instruction_block_at_cursor() {
    let mut app = app_with("before\n>>> catomic\nWrite tests.\n<<<\nafter");
    app.buffer.set_cursor(Cursor { row: 2, col: 0 });

    before_current_llm(&mut app, CurrentLlmCommand::Meow, "");

    let pending = app.pending_llm_request.as_ref().unwrap();
    let instruction: String = pending.draft.instruction.iter().collect();
    assert_eq!(instruction, "Write tests.");
    assert_eq!(pending.draft.context.scope, ContextScope::InstructionBlock);
}

#[test]
fn meow_outside_a_block_is_refused_with_a_warning() {
    let mut app = app_with("plain text");
    begin_request(&mut app, CurrentLlmCommand::Meow, "");
    assert!(app.pending_llm_request.is_none());
    assert_eq!(app.message_role, StatusRole::Warning);
    assert_eq!(
        app.message.as_deref(),
        Some("Cannot prepare LLM request: no instruction block surrounds the cursor")
    );
}

#[test]
fn arbitrary_prose_is_not_treated_as_a_marked_region_replacement() {
    let mut app = app_with("one");
    let t = target(Cursor { row: 0, col: 0 }, Cursor { row: 0, col: 3 }, "one");

    show_with_region_fallback(&mut app, "Replace it with TWO.", Some(t));

    assert!(app.llm_preview.is_none());
    assert_eq!(app.buffer.to_string(), "one");
    assert!(app.message.as_deref().unwrap().contains("Invalid"));
}

#[test]
fn marked_region_replacement_previews_then_applies_as_one_undo_step() {
    let mut app = app_with("one\ntwo\nthree\n");
    let original_position = app.buffer.edit_history_position();
    let t = target(Cursor { row: 1, col: 0 }, Cursor { row: 1, col: 3 }, "two");

    show_with_region_fallback(&mut app, r#"{"catomic_replacement":"TWO"}"#, Some(t));

    let preview: String = app.llm_preview.as_ref().unwrap().preview_text.iter().collect();
    assert!(preview.contains("+TWO"));
    assert_eq!(app.buffer.to_string(), "one\ntwo\nthree\n");
    assert!(apply_preview(&mut app));
    assert_eq!(app.buffer.to_string(), "one\nTWO\nthree\n");
    app.buffer.undo();
    assert_eq!(app.buffer.to_string(), "one\ntwo\nthree\n");
    assert_eq!(app.buffer.edit_history_position(), original_position);
}

#[test]
fn drifted_buffer_refuses_to_apply_preview() {
    let mut app = app_with("one");
    let t = target(Cursor { row: 0, col: 0 }, Cursor { row: 0, col: 3 }, "one");
    show_with_region_fallback(&mut app, r#"{"catomic_replacement":"TWO"}"#, Some(t));
    app.buffer.set_cursor(Cursor { row: 0, col: 0 });
    app.buffer.insert_char('X');

    assert!(!apply_preview(&mut app));
    assert_eq!(app.buffer.to_string(), "Xone");
    assert!(app.message.as_deref().unwrap().contains("not applied"));
}

#[test]
fn escape_cancels_preview_without_editing() {
    let mut app = app_with("one");
    let t = target(Cursor { row: 0, col: 0 }, Cursor { row: 0, col: 3 }, "one");
    show_with_region_fallback(&mut app, r#"{"catomic_replacement":"TWO"}"#, Some(t));
    assert!(cancel_preview(&mut app));
    assert!(app.llm_preview.is_none());
    assert_eq!(app.buffer.to_string(), "one");
}

#[test]
fn replacement_parser_accepts_only_the_marked_object() {
    let parsed: String = parse_replacement("  {\"catomic_replacement\": \"a\\nb\\u0041\"} ").unwrap().iter().collect();
    assert_eq!(parsed, "a\nbA");
    assert!(parse_replacement("{\"other\":\"x\"}").is_none());
    assert!(parse_replacement("{\"catomic_replacement\":\"x\"} trailing").is_none());
}

#[test]
fn network_failure_sets_error_role_at_the_emission_boundary() {
    let mut app = app_with("explain me");
    begin_request(&mut app, CurrentLlmCommand::BigMeow, "explain");
    assert!(confirm_request(&mut app).is_some());

    finish_task(&mut app, LlmTaskResult::Failed("boom".to_string()));

    assert_eq!(app.message_role, StatusRole::Error);
    assert_eq!(app.message.as_deref(), Some("LLM request failed: boom"));
    assert!(app.llm_task.is_none());
}

#[test]
fn confirmed_selection_answer_enters_preview_then_applies() {
    let mut app = app_with("alpha beta");
    app.buffer.set_cursor(Cursor { row: 0, col: 0 });
    move_to(&mut app, Cursor { row: 0, col: 5 }, true);
    begin_request(&mut app, CurrentLlmCommand::Meow, "shout");
    assert!(app.pending_llm_request.is_some());
    assert!(app.llm_task.is_none());

    let outcome = handle_request_key(&mut app, KeyEvent::plain(KeyCode::Enter));
    let prompt = match outcome {
        RequestKeyOutcome::Send(p) => p,
        _ => panic!("Enter must confirm the request"),
    };
    assert!(prompt.user.starts_with("Path: untitled.txt\n"));
    assert!(prompt.user.contains("Instruction:\nshout"));
    assert!(prompt.user.ends_with("Context:\nalpha"));
    assert!(prompt.system.starts_with("You edit one current Catomic buffer."));
    assert!(app.llm_task.is_some());

    finish_task(&mut app, LlmTaskResult::Finished(r#"{"catomic_replacement":"ALPHA"}"#.to_string()));
    assert!(app.llm_preview.is_some());
    assert!(apply_preview(&mut app));
    assert_eq!(app.buffer.to_string(), "ALPHA beta");
}

#[test]
fn answer_after_an_edit_is_not_previewed() {
    let mut app = app_with("alpha beta");
    app.buffer.set_cursor(Cursor { row: 0, col: 0 });
    move_to(&mut app, Cursor { row: 0, col: 5 }, true);
    begin_request(&mut app, CurrentLlmCommand::Meow, "shout");
    confirm_request(&mut app).unwrap();
    app.buffer.insert_char('!');

    finish_task(&mut app, LlmTaskResult::Finished(r#"{"catomic_replacement":"ALPHA"}"#.to_string()));

    assert!(app.llm_preview.is_none());
    assert_eq!(app.message_role, StatusRole::Warning);
}

#[test]
fn escape_cancels_pending_request_and_other_keys_only_remind() {
    let mut app = app_with("x");
    begin_request(&mut app, CurrentLlmCommand::BigMeow, "explain");
    assert!(matches!(handle_request_key(&mut app, KeyEvent::plain(KeyCode::Char('a'))), RequestKeyOutcome::Handled));
    assert!(app.pending_llm_request.is_some());
    assert!(app.message.as_deref().unwrap().contains("send not confirmed"));
    assert!(matches!(handle_request_key(&mut app, KeyEvent::ctrl(KeyCode::Char('q'))), RequestKeyOutcome::Ignored));
    assert!(matches!(handle_request_key(&mut app, KeyEvent::plain(KeyCode::Esc)), RequestKeyOutcome::Handled));
    assert!(app.pending_llm_request.is_none());
    assert_eq!(app.buffer.to_string(), "x");
}

#[test]
fn only_an_explicit_explain_verb_selects_the_read_only_response_path() {
    use_purpose_checks();
}

fn use_purpose_checks() {
    let explain: Vec<char> = "Explain: why".chars().collect();
    let tests: Vec<char> = "write tests".chars().collect();
    let shouting: Vec<char> = "  EXPLAIN, please".chars().collect();
    let longer: Vec<char> = "explains".chars().collect();
    assert_eq!(purpose(&explain), RequestPurpose::Explain);
    assert_eq!(purpose(&tests), RequestPurpose::Edit);
    assert_eq!(purpose(&shouting), RequestPurpose::Explain);
    assert_eq!(purpose(&longer), RequestPurpose::Edit);
    assert!(system_prompt(RequestPurpose::Explain).starts_with("Explain only the supplied"));
}

#[test]
fn undo_and_redo_back_to_the_same_text_still_sends() {
    let mut app = app_with("one\ntwo\n");
    app.buffer.set_cursor(Cursor { row: 0, col: 0 });
    app.buffer.insert_char('x');
    begin_request(&mut app, CurrentLlmCommand::BigMeow, "refactor");
    app.buffer.undo();
    app.buffer.redo();
    assert!(confirm_request(&mut app).is_some());
    assert_eq!(app.message.as_deref(), Some("Sending the request to the model... Esc cancels."));
}

#[test]
fn path_change_before_confirmation_cancels_without_sending() {
    let mut app = app_with("one\ntwo\n");
    begin_request(&mut app, CurrentLlmCommand::BigMeow, "refactor");
    app.file.path = Some("saved-later.txt".to_string());
    assert!(confirm_request(&mut app).is_none());
    assert!(app.pending_llm_request.is_none());
    assert!(app.llm_task.is_none());
    assert!(app.message.as_deref().unwrap().contains("path changed before confirmation"));
    assert_eq!(app.buffer.to_string(), "one\ntwo\n");

    let mut app = app_with("one\ntwo\n");
    begin_request(&mut app, CurrentLlmCommand::BigMeow, "refactor");
    app.buffer.insert_char('!');
    assert!(confirm_request(&mut app).is_none());
    assert!(app.message.as_deref().unwrap().contains("Buffer changed before confirmation"));
}

#[test]
fn confirmed_explain_response_opens_read_only_answer_instead_of_edit_preview() {
    let mut app = app_with("fn identity(x: i32) -> i32 { x }");
    let history = app.buffer.edit_history_position();
    begin_request(&mut app, CurrentLlmCommand::BigMeow, "Explain this function.");
    assert!(confirm_request(&mut app).is_some());
    finish_task(&mut app, LlmTaskResult::Finished("This function returns its input.".to_string()));

    assert!(app.surfaces.llm_answer.is_some());
    assert!(app.llm_preview.is_none());
    assert_eq!(app.buffer.to_string(), "fn identity(x: i32) -> i32 { x }");
    let _ = catomic::input::handle_key_with(&mut app, KeyEvent::plain(KeyCode::Enter));
    assert_eq!(app.buffer.edit_history_position(), history);
}

#[test]
fn explanation_is_read_only_and_escape_restores_source_viewport() {
    let mut app = app_with("source text");
    app.buffer.set_cursor(Cursor { row: 0, col: 8 });
    app.screen.width = 4;
    app.reveal_cursor();
    let source_scroll_left = app.screen.scroll_left;
    let history = app.buffer.edit_history_position();

    catomic::llm::show_answer(&mut app, "This code returns the input.");
    assert!(app.surfaces.llm_answer.is_some());
    assert!(catomic::llm::handle_answer_key(&mut app, KeyEvent::plain(KeyCode::Enter)));
    assert_eq!(app.buffer.to_string(), "source text");
    assert_eq!(app.buffer.edit_history_position(), history);

    assert!(catomic::llm::handle_answer_key(&mut app, KeyEvent::plain(KeyCode::Esc)));
    assert!(app.surfaces.llm_answer.is_none());
    assert_eq!(app.screen.scroll_left, source_scroll_left);
    assert_eq!(app.buffer.to_string(), "source text");
}
