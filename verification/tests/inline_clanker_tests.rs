use catomic::app::App;
use catomic::buffer::{Cursor, TextBuffer};
use catomic::config::LlmCatalog;
use catomic::inline_clanker::{
    answer_warning, begin, cancel_warning, cursor_after_text, display_page, finish_task, handle_key, handle_paste,
    is_busy, is_previewing, region_proposal, shift_cursor, sorted_lines, source_changes, start_failed,
    warning_prompt_message, CapturedRange, ChangeHistory, ChangeSet, ChangedRange, ClankerKeyOutcome, ClankerPhase,
    InlineDraft, InlineInstruction, InlineRequest, InlineScope, InlineSettings, InlineTarget, ModelReply,
    PreparedWorkflow, Sensitivity, TextEdit,
};
use catomic::keys::{KeyCode, KeyEvent};
use catomic::llm::LlmTaskResult;

fn chars(s: &str) -> Vec<char> {
    s.chars().collect()
}

fn c(row: usize, col: usize) -> Cursor {
    Cursor { row, col }
}

fn captured(start: Cursor, end: Cursor, original: &str, first: usize, last: usize) -> CapturedRange {
    CapturedRange { start, end, original: chars(original), first_line: first, last_line: last }
}

/// "fix this\nold line\nend": the instruction on line 1, the target on line 2.
fn draft(scope: InlineScope) -> InlineDraft {
    InlineDraft {
        scope,
        instruction: InlineInstruction {
            metadata: captured(c(0, 0), c(0, 8), "fix this", 0, 0),
            cleanup: captured(c(0, 0), c(1, 0), "fix this\n", 0, 0),
            display_line: 1,
            text: chars("fix this"),
        },
        delimiter_guards: Vec::new(),
        targets: vec![InlineTarget { id: 1, range: captured(c(1, 0), c(1, 8), "old line", 1, 1) }],
        requests: vec![InlineRequest { target_ids: vec![1], text: chars("old line"), line_count: 1, byte_count: 8 }],
        full_file_sentinel: None,
        full_file_lines: 3,
        full_file_bytes: 21,
        sensitivity: Vec::new(),
        mode_label: chars("single"),
    }
}

fn settings(remove: bool) -> InlineSettings {
    InlineSettings { remove_instruction_after_apply: remove, stop_on_error: true, warn_lines: 100 }
}

fn app_with(text: &str) -> App {
    let mut app = App::new(None);
    app.buffer = TextBuffer::from_text(text);
    app
}

fn preset() -> catomic::config::BackendPreset {
    LlmCatalog::new().presets[0].copy()
}

fn prepared(scope: InlineScope, remove: bool) -> PreparedWorkflow {
    PreparedWorkflow {
        draft: draft(scope),
        preset: preset(),
        inline: settings(remove),
        destination: chars("http://127.0.0.1:8080/v1"),
        path: chars("untitled.txt"),
        file_path: None,
        expected_revision: 0,
        request_index: 0,
        applied_count: 0,
        had_failure: false,
    }
}

fn key(code: KeyCode) -> KeyEvent {
    KeyEvent::plain(code)
}

#[test]
fn cursor_after_text_counts_rows_and_tail() {
    assert_eq!(cursor_after_text(c(2, 3), &chars("abc")), c(2, 6));
    assert_eq!(cursor_after_text(c(2, 3), &chars("ab\ncd\nxyz")), c(4, 3));
    assert_eq!(cursor_after_text(c(0, 5), &chars("line\n")), c(1, 0));
}

#[test]
fn shift_cursor_moves_positions_after_an_edit() {
    let e = TextEdit { start: c(1, 2), end: c(1, 4), replacement: chars("xyz\nw") };
    assert_eq!(shift_cursor(c(0, 9), &e), c(0, 9));
    assert_eq!(shift_cursor(c(1, 1), &e), c(1, 1));
    assert_eq!(shift_cursor(c(1, 6), &e), c(2, 3));
    assert_eq!(shift_cursor(c(3, 7), &e), c(4, 7));
}

#[test]
fn sorted_lines_orders_and_drops_repeats() {
    assert_eq!(sorted_lines(&vec![5, 1, 5, 3, 1]), vec![1, 3, 5]);
    assert_eq!(sorted_lines(&Vec::new()), Vec::<usize>::new());
}

#[test]
fn change_history_reads_back_what_was_recorded() {
    let mut h = ChangeHistory::new();
    let marks = ChangeSet { ranges: vec![ChangedRange { start: c(1, 0), end: c(1, 3) }], gutter_lines: vec![1] };
    h.record(true, 4, 7, marks);
    assert_eq!(h.changes_at(7).gutter_lines, vec![1]);
    assert!(h.changes_at(4).ranges.is_empty());
    assert!(h.visible(4).is_none());
    assert!(h.visible(7).is_some());
    h.reconcile(7);
    assert!(h.visible(7).is_some());
    h.reconcile(9);
    assert!(h.visible(7).is_none());
}

#[test]
fn region_proposal_names_a_missing_block() {
    let p = prepared(InlineScope::Blocks, false);
    let err = region_proposal(&p, &vec![(7, chars("x"))]).err().unwrap();
    assert_eq!(err.iter().collect::<String>(), "response names missing request-local block 7");
}

#[test]
fn region_proposal_refuses_a_reply_that_changes_nothing() {
    let p = prepared(InlineScope::Blocks, false);
    let err = region_proposal(&p, &vec![(1, chars("old line"))]).err().unwrap();
    assert_eq!(err.iter().collect::<String>(), "proposal makes no scoped change");
}

#[test]
fn region_proposal_builds_a_labelled_edit() {
    let p = prepared(InlineScope::Blocks, false);
    let (edits, marks) = region_proposal(&p, &vec![(1, chars("new\ntext"))]).ok().unwrap();
    assert_eq!(edits.len(), 1);
    assert_eq!(edits[0].label.iter().collect::<String>(), "context block 1 lines 2-2");
    assert_eq!(marks.ranges, vec![ChangedRange { start: c(1, 0), end: c(2, 4) }]);
}

#[test]
fn confirmation_then_send_then_preview_then_apply() {
    let mut app = app_with("fix this\nold line\nend");
    begin(&mut app, Ok(draft(InlineScope::Selection)), preset(), settings(false));
    assert!(is_previewing(&app));
    let page = display_page(&app).unwrap().to_string();
    assert!(page.starts_with(
        "Inline clanker send confirmation\n\nPreset: local\nModel: local-model\nAdapter: OpenAI-compatible HTTP\nDestination: http://127.0.0.1:8080/v1\nInstruction source: line 1\n"
    ));
    assert!(page.contains("Scope: selection lines 2-2 (8 bytes)\nRequest 1: 1 lines / 8 bytes\n"));
    assert!(page.contains("Sensitive content: No obvious sensitive content detected.\n"));

    let sent = match handle_key(&mut app, key(KeyCode::Enter)) {
        ClankerKeyOutcome::Send(r) => r,
        _ => panic!("expected a request"),
    };
    assert!(sent.user.contains("Confirmed target: block 1=lines 2-2 (8 bytes)\n"));
    assert!(sent.system.contains("catomic_replacement"));
    assert_eq!(
        app.message.as_deref(),
        Some("Inline clanker sending 1 lines/8 bytes to local-model at http://127.0.0.1:8080/v1. Esc cancels.")
    );
    assert!(is_busy(&app) && !is_previewing(&app));

    let next = finish_task(&mut app, LlmTaskResult::Finished(String::from("{}")), ModelReply::Single(Ok(chars("new line"))));
    assert!(next.is_none());
    assert!(is_previewing(&app));
    let preview = display_page(&app).unwrap().to_string();
    assert!(preview.contains("@@ selection lines 2-2; before 2:1-2:9 (8 bytes); after 2:1-2:9 (8 bytes) @@\n-old line\n+new line\n"));
    assert!(preview.contains("Cleanup: not included"));

    assert!(matches!(handle_key(&mut app, key(KeyCode::Enter)), ClankerKeyOutcome::Taken));
    assert_eq!(app.buffer.to_string(), "fix this\nnew line\nend");
    assert!(!is_busy(&app));
    assert!(app.message.as_deref().unwrap().starts_with("Inline clanker proposal applied without saving."));
    let marks = source_changes(&app).unwrap();
    assert_eq!(marks.ranges, vec![ChangedRange { start: c(1, 0), end: c(1, 8) }]);
    assert_eq!(marks.gutter_lines, vec![1]);
}

#[test]
fn cleanup_removes_the_instruction_with_the_last_apply() {
    let mut app = app_with("fix this\nold line\nend");
    begin(&mut app, Ok(draft(InlineScope::Selection)), preset(), settings(true));
    let _ = handle_key(&mut app, key(KeyCode::Enter));
    let _ = finish_task(&mut app, LlmTaskResult::Finished(String::new()), ModelReply::Single(Ok(chars("new line"))));
    let preview = display_page(&app).unwrap().to_string();
    assert!(preview.contains("Cleanup: included"));
    assert!(preview.contains("@@ confirmed instruction cleanup line 1;"));
    let _ = handle_key(&mut app, key(KeyCode::Enter));
    assert_eq!(app.buffer.to_string(), "new line\nend");
}

#[test]
fn esc_on_the_confirmation_sends_nothing() {
    let mut app = app_with("fix this\nold line\nend");
    begin(&mut app, Ok(draft(InlineScope::Selection)), preset(), settings(false));
    assert!(matches!(handle_key(&mut app, key(KeyCode::Esc)), ClankerKeyOutcome::Taken));
    assert!(!is_busy(&app));
    assert_eq!(
        app.message.as_deref(),
        Some("Inline clanker cancelled before sending; no client or network call was started.")
    );
}

#[test]
fn a_stale_reply_is_discarded() {
    let mut app = app_with("fix this\nold line\nend");
    begin(&mut app, Ok(draft(InlineScope::Selection)), preset(), settings(false));
    let _ = handle_key(&mut app, key(KeyCode::Enter));
    app.buffer.set_cursor(c(2, 3));
    app.buffer.insert_char('!');
    let next = finish_task(&mut app, LlmTaskResult::Finished(String::new()), ModelReply::Single(Ok(chars("x"))));
    assert!(next.is_none());
    assert!(!is_busy(&app));
    assert_eq!(
        app.message.as_deref(),
        Some("Inline clanker response discarded because the file revision changed; instruction kept.")
    );
}

#[test]
fn a_failed_request_stops_the_queue() {
    let mut app = app_with("fix this\nold line\nend");
    begin(&mut app, Ok(draft(InlineScope::Selection)), preset(), settings(false));
    let _ = handle_key(&mut app, key(KeyCode::Enter));
    assert!(start_failed(&mut app, "boom").is_none());
    assert_eq!(
        app.message.as_deref(),
        Some("Inline clanker stopped at request 1/1: boom; instruction kept and no pending work remains.")
    );
}

#[test]
fn running_request_holds_keys_and_esc_cancels_it() {
    let mut app = app_with("fix this\nold line\nend");
    begin(&mut app, Ok(draft(InlineScope::Selection)), preset(), settings(false));
    let _ = handle_key(&mut app, key(KeyCode::Enter));
    assert!(matches!(handle_key(&mut app, key(KeyCode::Char('a'))), ClankerKeyOutcome::Taken));
    assert!(handle_paste(&mut app));
    assert!(matches!(handle_key(&mut app, key(KeyCode::Esc)), ClankerKeyOutcome::CancelRequest));
    assert!(!is_busy(&app));
    assert!(!handle_paste(&mut app));
}

#[test]
fn large_full_file_asks_first() {
    let mut app = app_with("fix this\nold line\nend");
    let mut d = draft(InlineScope::FullFile);
    d.full_file_lines = 500;
    d.sensitivity = vec![Sensitivity::SecretLikeLine(2)];
    begin(&mut app, Ok(d), preset(), settings(false));
    assert!(matches!(app.inline_clanker.current(), Some(ClankerPhase::Warning(_))));
    let question = warning_prompt_message(&app, "ma").unwrap();
    assert_eq!(
        question,
        "Current file is 500 lines / 21 bytes. Send the full file to local-model at http://127.0.0.1:8080/v1? Obvious sensitive content detected: secret-like line 3. Type yes or no: ma"
    );
    assert!(!answer_warning(&mut app, " maybe "));
    assert!(app.message.as_deref().unwrap().starts_with("Please type yes or no. Current file is 500 lines"));
    assert!(answer_warning(&mut app, " NO "));
    assert!(!is_busy(&app));
}

#[test]
fn cancel_warning_ends_the_workflow() {
    let mut app = app_with("fix this\nold line\nend");
    let mut d = draft(InlineScope::FullFile);
    d.full_file_lines = 500;
    begin(&mut app, Ok(d), preset(), settings(false));
    cancel_warning(&mut app);
    assert!(!is_busy(&app));
    assert!(app.message.is_none());
}

#[test]
fn busy_or_undiscoverable_drafts_do_not_start() {
    let mut app = app_with("text");
    begin(&mut app, Err(String::from("no instruction found")), preset(), settings(false));
    assert_eq!(app.message.as_deref(), Some("Cannot prepare inline clanker: no instruction found"));
    begin(&mut app, Ok(draft(InlineScope::Selection)), preset(), settings(false));
    begin(&mut app, Ok(draft(InlineScope::Selection)), preset(), settings(false));
    assert_eq!(app.message.as_deref(), Some("Another model workflow is already pending or running."));
}

#[test]
fn palette_command_clears_applied_marks() {
    let mut app = app_with("fix this\nold line\nend");
    begin(&mut app, Ok(draft(InlineScope::Selection)), preset(), settings(false));
    let _ = handle_key(&mut app, key(KeyCode::Enter));
    let _ = finish_task(&mut app, LlmTaskResult::Finished(String::new()), ModelReply::Single(Ok(chars("new line"))));
    let _ = handle_key(&mut app, key(KeyCode::Enter));
    assert!(source_changes(&app).is_some());
    let _ = catomic::command_prompt::execute_command(&mut app, "clearclanker");
    assert!(source_changes(&app).is_none());
    assert!(app.message.is_none());
}

#[test]
fn switching_buffers_ends_the_workflow_and_restores_the_view() {
    let mut app = app_with("fix this\nold line\nend");
    app.screen.scroll_top = 1;
    app.add_inactive_buffer("other.txt", "other");
    begin(&mut app, Ok(draft(InlineScope::Selection)), preset(), settings(false));
    assert_eq!(app.screen.scroll_top, 0);
    assert!(app.switch_buffer(catomic::buffers::BufferDirection::Next));
    assert!(!is_busy(&app));
    assert!(app.switch_buffer(catomic::buffers::BufferDirection::Previous));
    assert_eq!(app.buffer.to_string(), "fix this\nold line\nend");
    assert_eq!(app.screen.scroll_top, 1);
}
