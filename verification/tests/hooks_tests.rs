use catomic::app::App;
use catomic::config::{CommandInput, CommandOutput, CommandSpec};
use catomic::external_command::{apply_preview, finish_output, is_busy, is_viewing};
use catomic::hooks::{before_current_llm, cancel_all, is_pending, pump, trigger_open, trigger_save};
use catomic::llm::CurrentLlmCommand;
use catomic::status::StatusRole;

fn command(app: &mut App, name: &str, command: &str) {
    app.command_config.commands.push(CommandSpec {
        name: name.to_string(),
        command: command.to_string(),
        input: CommandInput::Nothing,
        output: CommandOutput::Show,
        timeout_ms: 5_000,
    });
}

/// Plays the part of the process runner: the running command prints
/// `stdout` and exits with `code`, and Enter closes its preview.
fn complete(app: &mut App, stdout: &str, code: i32) {
    assert!(app.external_command.running.is_some(), "a hook command must be running");
    finish_output(app, stdout, "", Some(code), false);
    assert!(is_viewing(app));
    apply_preview(app);
}

#[test]
fn untitled_startup_does_not_queue_open_hooks() {
    let mut app = App::new(None);
    command(&mut app, "opened", "printf opened");
    app.command_config.on_open.push("opened".to_string());

    trigger_open(&mut app);
    pump(&mut app);

    assert!(!is_pending(&app));
    assert!(!is_busy(&app));
}

#[test]
fn open_hooks_run_sequentially_in_configuration_order() {
    let mut app = App::new(Some("opened.txt"));
    command(&mut app, "first", "printf first");
    command(&mut app, "second", "printf second");
    app.command_config.on_open.push("first".to_string());
    app.command_config.on_open.push("second".to_string());

    trigger_open(&mut app);
    pump(&mut app);
    assert_eq!(app.hooks.active.as_deref(), Some("first"));
    complete(&mut app, "first", 0);

    pump(&mut app);
    assert_eq!(app.hooks.active.as_deref(), Some("second"));
    complete(&mut app, "second", 0);
    pump(&mut app);

    assert!(!is_pending(&app));
}

#[test]
fn failed_hook_stops_the_rest_of_the_chain() {
    let mut app = App::new(Some("saved.txt"));
    command(&mut app, "first", "exit 1");
    command(&mut app, "second", "printf second");
    app.command_config.on_save.push("first".to_string());
    app.command_config.on_save.push("second".to_string());

    trigger_save(&mut app);
    pump(&mut app);
    assert_eq!(app.hooks.active.as_deref(), Some("first"));
    finish_output(&mut app, "", "", Some(1), false);
    apply_preview(&mut app);

    assert!(!is_pending(&app));
    assert_eq!(app.message_role, StatusRole::Error);
    assert_eq!(
        app.message.as_deref(),
        Some("Hook command first failed or was cancelled; chain stopped.")
    );
}

#[test]
fn unknown_hook_command_stops_the_chain_with_an_error() {
    let mut app = App::new(Some("saved.txt"));
    app.command_config.on_save.push("missing".to_string());

    trigger_save(&mut app);
    pump(&mut app);

    assert!(!is_pending(&app));
    assert_eq!(app.message_role, StatusRole::Error);
}

#[test]
fn cancel_all_drops_queue_and_deferred_request() {
    let mut app = App::new(None);
    app.buffer.insert_char('x');
    command(&mut app, "guard", "printf ok");
    app.command_config.before_llm.push("guard".to_string());

    before_current_llm(&mut app, CurrentLlmCommand::BigMeow, "explain");
    assert!(is_pending(&app));
    assert!(cancel_all(&mut app));
    assert!(!is_pending(&app));
    assert!(app.hooks.deferred.is_none());
    assert!(!cancel_all(&mut app));
}

#[test]
fn failed_before_llm_hook_aborts_without_request_or_network_task() {
    let mut app = App::new(None);
    app.buffer.insert_char('x');
    command(&mut app, "guard", "printf denied; exit 7");
    app.command_config.before_llm.push("guard".to_string());

    before_current_llm(&mut app, CurrentLlmCommand::BigMeow, "explain");
    pump(&mut app);
    complete(&mut app, "denied", 7);
    pump(&mut app);

    assert!(!is_pending(&app));
    assert!(app.pending_llm_request.is_none());
    assert!(app.llm_task.is_none());
}

#[test]
fn successful_before_llm_hook_resumes_only_to_local_confirmation() {
    let mut app = App::new(None);
    app.buffer.insert_char('x');
    command(&mut app, "guard", "printf ok");
    app.command_config.before_llm.push("guard".to_string());

    before_current_llm(&mut app, CurrentLlmCommand::BigMeow, "explain");
    pump(&mut app);
    complete(&mut app, "ok", 0);
    pump(&mut app);

    assert!(!is_pending(&app));
    assert!(app.pending_llm_request.is_some());
    assert!(app.llm_task.is_none());
}
