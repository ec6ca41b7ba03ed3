use catomic::app::App;
use catomic::buffer::TextBuffer;
use catomic::config::{CommandInput, CommandOutput, CommandSpec};
use catomic::external_command::{
    apply_preview, cancel_all, finish_error, finish_output, finish_run, handle_key, start, CommandResult,
};
use catomic::keys::{KeyCode, KeyEvent};
use catomic::status::StatusRole;

fn configure(app: &mut App, name: &str, command: &str, input: CommandInput, output: CommandOutput) {
    app.command_config.commands.push(CommandSpec {
        name: name.to_string(),
        command: command.to_string(),
        input,
        output,
        timeout_ms: 5_000,
    });
}

#[test]
fn startup_constructs_no_command_task_or_preview() {
    let app = App::new(None);

    assert!(app.external_command.running.is_none());
    assert!(app.external_command.preview.is_none());
}

#[test]
fn unknown_command_sets_error_role_at_the_emission_boundary() {
    let mut app = App::new(None);

    start(&mut app, "missing");

    assert_eq!(app.message_role, StatusRole::Error);
}

#[test]
fn subprocess_failure_sets_error_role_at_the_emission_boundary() {
    let mut app = App::new(None);

    finish_error(&mut app, "fixture", "failed: boom");

    assert_eq!(app.message_role, StatusRole::Error);
}

#[test]
fn no_input_insert_preparation_does_not_retain_a_large_source_snapshot() {
    const SOURCE_BYTES: usize = 64 * 1024 * 1024;
    let mut app = App::new(None);
    app.buffer = TextBuffer::from_text(&"a".repeat(SOURCE_BYTES));
    configure(&mut app, "insert", "printf x", CommandInput::Nothing, CommandOutput::Insert);

    start(&mut app, "insert");
    let running = app.external_command.running.as_ref().unwrap();

    assert!(running.input.is_empty(), "preparation retained {} scalars of input", running.input.len());
    assert_eq!(running.source_revision, Some(app.buffer.content_revision()));
    assert!(cancel_all(&mut app));
}

#[test]
fn insert_output_is_previewed_then_applied_as_one_undoable_edit() {
    let mut app = App::new(None);
    configure(&mut app, "word", "printf CAT", CommandInput::Nothing, CommandOutput::Insert);

    assert!(start(&mut app, "word"));
    assert_eq!(app.external_command.running.as_ref().unwrap().command, "printf CAT");
    finish_output(&mut app, "CAT", "", Some(0), false);
    assert!(catomic::external_command::is_viewing(&app));
    assert_eq!(app.buffer.to_string(), "");

    assert!(apply_preview(&mut app));
    assert_eq!(app.buffer.to_string(), "CAT");
    app.buffer.undo();
    assert_eq!(app.buffer.to_string(), "");
}

#[test]
fn stale_source_refuses_command_output() {
    let mut app = App::with_text(Some("a.txt"), "before");
    configure(&mut app, "up", "tr a-z A-Z < {file}", CommandInput::Buffer, CommandOutput::ReplaceBuffer);

    assert!(start(&mut app, "up"));
    let running = app.external_command.running.as_ref().unwrap();
    assert_eq!(running.command, "tr a-z A-Z < 'a.txt'");
    assert_eq!(running.input.iter().collect::<String>(), "before");
    app.buffer.insert_char('x');
    finish_output(&mut app, "BEFORE", "", Some(0), false);

    assert!(!apply_preview(&mut app));
    assert!(app.message.as_deref().unwrap().contains("Source changed"));
    assert_eq!(app.buffer.to_string(), "xbefore");
}

#[test]
fn file_placeholder_needs_a_saved_path() {
    let mut app = App::with_text(None, "x");
    configure(&mut app, "lint", "check {file}", CommandInput::Nothing, CommandOutput::Show);
    assert!(!start(&mut app, "lint"));
    assert_eq!(app.message_role, StatusRole::Error);
    assert!(app.external_command.running.is_none());
}

#[test]
fn failed_output_is_shown_with_its_exit_status_and_never_applied() {
    let mut app = App::new(None);
    configure(&mut app, "word", "printf CAT; exit 3", CommandInput::Nothing, CommandOutput::Insert);

    assert!(start(&mut app, "word"));
    finish_output(&mut app, "CAT", "oops", Some(3), false);
    let preview = app.external_command.preview.as_ref().unwrap();
    let shown: String = preview.shown.iter().collect();
    assert_eq!(shown, "CAT\n\n[stderr]\noops\n\n[catomic: exit=Some(3)]\n");
    assert!(preview.target.is_none());
    assert_eq!(app.message.as_deref(), Some("Command word output (read-only). Enter or Esc closes."));

    assert!(!apply_preview(&mut app));
    assert_eq!(app.buffer.to_string(), "");
    assert_eq!(app.message.as_deref(), Some("Closed command word output."));
}

#[test]
fn empty_truncated_output_names_both() {
    let mut app = App::new(None);
    configure(&mut app, "quiet", "true", CommandInput::Nothing, CommandOutput::Show);
    assert!(start(&mut app, "quiet"));
    finish_output(&mut app, "", "", None, true);
    let shown: String = app.external_command.preview.as_ref().unwrap().shown.iter().collect();
    assert_eq!(shown, "[no stdout]\n\n\n[catomic: exit=None, output truncated]\n");
}

#[test]
fn escape_cancels_preview_and_running_command() {

    let mut app = App::new(None);
    configure(&mut app, "slow", "sleep 9", CommandInput::Nothing, CommandOutput::Show);
    assert!(start(&mut app, "slow"));
    assert!(handle_key(&mut app, KeyEvent::plain(KeyCode::Esc)));
    assert!(app.external_command.running.is_none());

    assert!(start(&mut app, "slow"));
    finish_run(&mut app, CommandResult::TimedOut);
    assert_eq!(app.message.as_deref(), Some("Command slow timed out."));
    assert_eq!(app.message_role, StatusRole::Error);

    assert!(start(&mut app, "slow"));
    finish_run(
        &mut app,
        CommandResult::Finished { stdout: "done".to_string(), stderr: String::new(), code: Some(0), truncated: false },
    );
    assert!(handle_key(&mut app, KeyEvent::plain(KeyCode::Char('x'))));
    assert!(app.external_command.preview.is_some());
    assert!(handle_key(&mut app, KeyEvent::plain(KeyCode::Esc)));
    assert!(app.external_command.preview.is_none());
    assert_eq!(app.message.as_deref(), Some("Command slow output cancelled; no changes applied."));
}

#[test]
fn selected_input_can_be_replaced_after_preview() {
    let mut app = App::new(None);
    for ch in "cat".chars() {
        app.buffer.insert_char(ch);
    }
    catomic::selection::move_to(&mut app, catomic::buffer::Cursor { row: 0, col: 0 }, false);
    catomic::selection::move_to(&mut app, catomic::buffer::Cursor { row: 0, col: 3 }, true);
    configure(&mut app, "upper", "tr a-z A-Z", CommandInput::Selection, CommandOutput::ReplaceSelection);

    assert!(start(&mut app, "upper"));
    assert_eq!(app.external_command.running.as_ref().unwrap().input.iter().collect::<String>(), "cat");
    finish_output(&mut app, "CAT", "", Some(0), false);
    assert!(handle_key(&mut app, KeyEvent::plain(KeyCode::Enter)));

    assert_eq!(app.buffer.to_string(), "CAT");
    app.buffer.undo();
    assert_eq!(app.buffer.to_string(), "cat");
}

#[test]
fn failed_command_output_is_read_only_and_cannot_apply() {
    let mut app = App::new(None);
    configure(&mut app, "fail", "printf bad; exit 7", CommandInput::Nothing, CommandOutput::Insert);

    assert!(start(&mut app, "fail"));
    finish_output(&mut app, "bad", "", Some(7), false);
    assert!(app.external_command.preview.as_ref().unwrap().target.is_none());
    assert!(handle_key(&mut app, KeyEvent::plain(KeyCode::Enter)));

    assert_eq!(app.buffer.to_string(), "");
}

#[test]
fn source_edit_while_command_runs_blocks_later_apply() {
    let mut app = App::new(None);
    configure(&mut app, "slow", "sleep 0.05; printf X", CommandInput::Nothing, CommandOutput::Insert);

    assert!(start(&mut app, "slow"));
    let _ = catomic::input::handle_key_with(&mut app, KeyEvent::plain(KeyCode::Char('a')));
    finish_output(&mut app, "X", "", Some(0), false);
    assert!(handle_key(&mut app, KeyEvent::plain(KeyCode::Enter)));

    assert_eq!(app.buffer.to_string(), "a");
    assert!(app.message.as_deref().unwrap().contains("Source changed"));
}

#[test]
fn undo_redo_to_the_same_text_while_command_runs_blocks_later_apply() {
    let mut app = App::new(None);
    configure(&mut app, "slow", "sleep 0.05; printf X", CommandInput::Nothing, CommandOutput::Insert);
    let _ = catomic::input::handle_key_with(&mut app, KeyEvent::plain(KeyCode::Char('a')));

    assert!(start(&mut app, "slow"));
    app.buffer.undo();
    app.buffer.redo();
    assert_eq!(app.buffer.to_string(), "a");

    finish_output(&mut app, "X", "", Some(0), false);
    assert!(handle_key(&mut app, KeyEvent::plain(KeyCode::Enter)));

    assert_eq!(app.buffer.to_string(), "a");
    assert!(app.message.as_deref().unwrap().contains("Source changed"));
}

#[test]
fn a_configured_command_starts_with_the_quoted_path_in_place_of_its_placeholder() {
    let mut app = App::with_text(Some("it's.txt"), "x");
    configure(&mut app, "wc", "wc -c {file}", CommandInput::Buffer, CommandOutput::Show);
    assert!(start(&mut app, "wc"));
    let running = app.external_command.running.as_ref().unwrap();
    assert_eq!(running.command, "wc -c 'it'\\''s.txt'");
    assert_eq!(running.input.iter().collect::<String>(), "x");
    assert!(running.target.is_none());
    assert_eq!(app.message.as_deref(), Some("Running command wc... Esc cancels."));
}

#[test]
fn a_finished_run_previews_stdout_and_shows_stderr_after_it() {
    let mut app = App::new(None);
    configure(&mut app, "word", "printf CAT", CommandInput::Nothing, CommandOutput::Insert);
    assert!(start(&mut app, "word"));
    finish_run(
        &mut app,
        CommandResult::Finished { stdout: "out".to_string(), stderr: "err".to_string(), code: Some(0), truncated: false },
    );
    let preview = app.external_command.preview.as_ref().unwrap();
    assert_eq!(preview.proposed.iter().collect::<String>(), "out");
    assert!(preview.shown.iter().collect::<String>().contains("[stderr]\nerr"));
}
