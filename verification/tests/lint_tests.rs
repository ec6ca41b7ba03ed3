use catomic::app::App;
use catomic::buffer::Cursor;
use catomic::keys::{KeyCode, KeyEvent};
use catomic::lint::{
    finish, message_at_cursor, parse_common_output, start_with_config, visible_findings, LintFinding, LintResults,
    LinterCommand, LinterConfig, LinterResult,
};

#[test]
fn parses_common_relative_and_absolute_findings() {
    let root = "/work/project";
    let output = "src/main.rs:12:7: error: broken thing\n/tmp/other.py:3:2: warning: suspicious thing\n";

    let parsed = parse_common_output(output, root);

    assert_eq!(parsed.len(), 2);
    assert_eq!(parsed[0].file, "/work/project/src/main.rs");
    assert_eq!((parsed[0].line, parsed[0].col), (12, 7));
    assert_eq!(parsed[0].message, "error: broken thing");
    assert_eq!(parsed[1].file, "/tmp/other.py");
    assert_eq!(parsed[1].message, "warning: suspicious thing");
}

#[test]
fn skips_malformed_and_zero_coordinate_lines() {
    let output = "noise\nfile.rs:x:2: nope\nfile.rs:2:0: nope\nfile.rs:4:5: info: useful note\n";

    let parsed = parse_common_output(output, "/root");

    assert_eq!(parsed.len(), 1);
    assert_eq!(parsed[0].message, "info: useful note");
    assert_eq!(parsed[0].file, "/root/file.rs");
    assert_eq!((parsed[0].line, parsed[0].col), (4, 5));
}

fn results(app: &App, source: &str, row: usize, col: usize, message: &str) -> LintResults {
    LintResults {
        source: source.to_string(),
        buffer_id: app.file.buffer_id,
        content_generation: app.file.content_generation,
        findings: vec![LintFinding { row, col, message: message.to_string() }],
    }
}

#[test]
fn finding_renders_in_buffer_and_exposes_raw_message_at_cursor() {
    let mut app = App::with_text(Some("render.rs"), "cat\n");
    app.lint.results = Some(results(&app, "render.rs", 0, 1, "raw compiler wording"));
    app.buffer.set_cursor(Cursor { row: 0, col: 1 });

    let rendered = app.render();

    assert!(rendered.contains("\x1b[31;4ma\x1b[0m"));
    assert!(rendered.contains("Lint 1:2: raw compiler wording"));
}

#[test]
fn buffer_identity_change_hides_results_even_at_same_path_and_history() {
    let mut app = App::with_text(Some("identity.rs"), "cat\n");
    app.lint.results = Some(results(&app, "identity.rs", 0, 0, "old buffer"));
    assert!(visible_findings(&app).is_some());

    app.file.buffer_id = app.file.buffer_id.wrapping_add(1);

    assert!(visible_findings(&app).is_none());
}

#[test]
fn path_change_invalidates_results() {
    let mut app = App::with_text(Some("origin.rs"), "fn main() {}\n");
    app.lint.results = Some(results(&app, "origin.rs", 0, 0, "origin finding"));
    assert!(visible_findings(&app).is_some());

    app.file.path = Some("renamed.rs".to_string());

    assert!(visible_findings(&app).is_none());
}

#[test]
fn message_at_cursor_names_one_based_position() {
    let mut app = App::with_text(Some("sample.rs"), "zero\none\n");
    app.lint.results = Some(results(&app, "sample.rs", 1, 1, "suspicious thing"));
    app.buffer.set_cursor(Cursor { row: 1, col: 1 });
    let message: String = message_at_cursor(&app).unwrap().iter().collect();
    assert_eq!(message, "Lint 2:2: suspicious thing");
    app.buffer.set_cursor(Cursor { row: 0, col: 0 });
    assert!(message_at_cursor(&app).is_none());
}

fn config(extension: &str, template: &str) -> LinterConfig {
    LinterConfig {
        commands: vec![LinterCommand { extension: extension.to_string(), template: template.to_string() }],
    }
}

#[test]
fn dirty_buffer_does_not_spawn_linter() {
    let mut app = App::with_text(Some("/tmp/sample.rs"), "x");
    app.file.dirty = true;

    let command = start_with_config(&mut app, &config("rs", "true {file}"), "/work");

    assert!(command.is_none());
    assert!(app.lint.running.is_none());
    assert!(app.message.as_deref().unwrap_or("").contains("Save"));
}

#[test]
fn configured_linter_installs_raw_current_buffer_finding() {
    let mut app = App::with_text(Some("src/sample.rs"), "zero\none\n");
    let command = start_with_config(&mut app, &config("rs", "lint {file}"), "/work").unwrap();
    assert_eq!(command, "lint '/work/src/sample.rs'");
    assert_eq!(app.message.as_deref(), Some("Running linter for /work/src/sample.rs..."));

    finish(
        &mut app,
        LinterResult::Finished {
            output: "/work/src/sample.rs:2:2: suspicious thing\nother.rs:1:1: elsewhere\n".to_string(),
            code: Some(1),
        },
        "/work",
    );

    let findings = visible_findings(&app).unwrap();
    assert_eq!(findings.len(), 1);
    assert_eq!((findings[0].row, findings[0].col), (1, 1));
    assert_eq!(findings[0].message, "suspicious thing");
    assert_eq!(
        app.message.as_deref(),
        Some("Lint for /work/src/sample.rs finished with 2 diagnostic(s). Use :dnext or :diagnostics.")
    );
    app.buffer.set_cursor(Cursor { row: 1, col: 1 });
    let message: String = message_at_cursor(&app).unwrap().iter().collect();
    assert_eq!(message, "Lint 2:2: suspicious thing");
}

#[test]
fn clean_and_failed_runs_say_so() {
    let mut app = App::with_text(Some("/a/b.py"), "x");
    start_with_config(&mut app, &config("py", "check {file}"), "/").unwrap();
    finish(&mut app, LinterResult::Finished { output: String::new(), code: Some(0) }, "/");
    assert_eq!(app.message.as_deref(), Some("Lint clean for /a/b.py: no diagnostics."));

    start_with_config(&mut app, &config("py", "check {file}"), "/").unwrap();
    finish(&mut app, LinterResult::Finished { output: "noise".to_string(), code: Some(-2) }, "/");
    assert_eq!(
        app.message.as_deref(),
        Some("Linter for /a/b.py exited with code -2 without parseable diagnostics.")
    );

    start_with_config(&mut app, &config("py", "check {file}"), "/").unwrap();
    finish(&mut app, LinterResult::Finished { output: String::new(), code: None }, "/");
    assert_eq!(app.message.as_deref(), Some("Linter for /a/b.py exited by signal without parseable diagnostics."));
}

#[test]
fn missing_extension_or_linter_is_refused() {
    let mut app = App::with_text(Some("Makefile"), "x");
    assert!(start_with_config(&mut app, &config("rs", "x"), "/w").is_none());
    assert_eq!(app.message.as_deref(), Some("No linter is configured for a file without an extension."));

    let mut app = App::with_text(Some(".bashrc"), "x");
    assert!(start_with_config(&mut app, &config("rs", "x"), "/w").is_none());
    assert_eq!(app.message.as_deref(), Some("No linter is configured for a file without an extension."));

    let mut app = App::with_text(Some("dir.d/notes.md"), "x");
    assert!(start_with_config(&mut app, &config("rs", "x"), "/w").is_none());
    assert_eq!(app.message.as_deref(), Some("No linter configured for .md."));

    let mut app = App::with_text(None, "x");
    assert!(start_with_config(&mut app, &config("rs", "x"), "/w").is_none());
    assert_eq!(app.message.as_deref(), Some("Save the active buffer to a file before linting it."));
}

#[test]
fn content_edit_discards_late_result() {
    let mut app = App::with_text(Some("/s/stale.rs"), "version a\n");
    start_with_config(&mut app, &config("rs", "x {file}"), "/").unwrap();
    catomic::input::handle_paste(&mut app, "!");

    finish(
        &mut app,
        LinterResult::Finished { output: "/s/stale.rs:1:1: stale finding\n".to_string(), code: Some(1) },
        "/",
    );

    assert!(visible_findings(&app).is_none());
    assert!(app.lint.running.is_none());
}

#[test]
fn escape_cancels_running_linter() {
    let mut app = App::with_text(Some("/s/cancel.rs"), "fn main() {}\n");
    start_with_config(&mut app, &config("rs", "x {file}"), "/").unwrap();
    catomic::input::handle_key_with(&mut app, KeyEvent::plain(KeyCode::Esc));
    assert!(app.lint.running.is_none());
    assert!(app.message.is_none());
}

#[test]
fn rerun_replaces_previous_findings() {
    let mut app = App::with_text(Some("/s/rerun.rs"), "zero\none\n");
    start_with_config(&mut app, &config("rs", "first {file}"), "/").unwrap();
    finish(&mut app, LinterResult::Finished { output: "/s/rerun.rs:1:1: first\n".to_string(), code: Some(1) }, "/");

    start_with_config(&mut app, &config("rs", "second {file}"), "/").unwrap();
    assert!(visible_findings(&app).is_none());
    finish(&mut app, LinterResult::Finished { output: "/s/rerun.rs:2:1: second\n".to_string(), code: Some(1) }, "/");

    let findings = visible_findings(&app).unwrap();
    assert_eq!(findings.len(), 1);
    assert_eq!(findings[0].row, 1);
    assert_eq!(findings[0].message, "second");
}

#[test]
fn content_edit_clears_completed_findings() {
    let mut app = App::with_text(Some("/s/completed.rs"), "cat\n");
    start_with_config(&mut app, &config("rs", "x {file}"), "/").unwrap();
    finish(
        &mut app,
        LinterResult::Finished { output: "/s/completed.rs:1:1: completed finding\n".to_string(), code: Some(1) },
        "/",
    );
    assert!(visible_findings(&app).is_some());

    app.buffer.set_cursor(Cursor { row: 0, col: 3 });
    app.buffer.insert_char('!');
    catomic::input::finish_content_edit(&mut app);

    assert!(visible_findings(&app).is_none());
}

#[test]
fn closing_the_source_buffer_cancels_running_linter() {
    let mut app = App::with_text(Some("/s/close.rs"), "fn main() {}\n");
    start_with_config(&mut app, &config("rs", "x {file}"), "/").unwrap();
    assert!(app.lint.running.is_some());

    app.close_active_buffer(true);

    assert!(app.lint.running.is_none());
}
