//! Routing of actions and pastes: which surface takes a paste first, what an
//! editor action clears, and the cleanup after every content edit.

use vstd::prelude::*;

use crate::app::{App, BufferOp, KeyOutcome};
use crate::buffer::{cursor_le, cursor_valid, Cursor};
use crate::buffers::BufferDirection;
use crate::external_command::busy_spec;
use crate::indentation::{newline_inserted, range_replaced, tab_handled};
use crate::keys::{bound_action, is_quit_key, upper_ascii, Action, KeyCode, KeyEvent};
use crate::status::StatusRole;

verus! {

/// Surfaces that may take a raw key before the editor, in order.
#[derive(Clone, Copy, Debug, PartialEq, Eq, Structural)]
pub enum RawKeySurface {
    Lint,
    Help,
    Recovery,
    ExternalCommand,
    Replace,
    Search,
    CommandPrompt,
    Completion,
    MarkdownPreview,
}

/// Surfaces that may take a paste before the editor, in order.
#[derive(Clone, Copy, Debug, PartialEq, Eq, Structural)]
pub enum PasteSurface {
    Help,
    Replace,
    Search,
    CommandPrompt,
    Recovery,
    ExternalCommand,
    MarkdownPreview,
}

pub const RAW_KEY_PRECEDENCE: [RawKeySurface; 9] = [
    RawKeySurface::Lint,
    RawKeySurface::Help,
    RawKeySurface::Recovery,
    RawKeySurface::ExternalCommand,
    RawKeySurface::Replace,
    RawKeySurface::Search,
    RawKeySurface::CommandPrompt,
    RawKeySurface::Completion,
    RawKeySurface::MarkdownPreview,
];

pub const PASTE_PRECEDENCE: [PasteSurface; 7] = [
    PasteSurface::Help,
    PasteSurface::Replace,
    PasteSurface::Search,
    PasteSurface::CommandPrompt,
    PasteSurface::Recovery,
    PasteSurface::ExternalCommand,
    PasteSurface::MarkdownPreview,
];

/// The next content generation.
pub open spec fn next_gen(g: u64) -> u64 {
    if g == u64::MAX {
        0
    } else {
        (g + 1) as u64
    }
}

/// What every content edit leaves: the file dirty exactly when its history
/// position differs from the saved one, the quit confirmation and the
/// message cleared, no selection, and quitting not decided.
pub open spec fn content_finished(before: &App, after: &App) -> bool {
    &&& after.file.dirty == (after.buffer.history_position() != before.file.saved_history_position)
    &&& after.file.saved_history_position == before.file.saved_history_position
    &&& after.file.path == before.file.path
    &&& !after.pending_quit_confirm
    &&& after.message is None
    &&& after.should_quit == before.should_quit
    &&& after.selection.anchor is None
}

/// After any content edit: a new content generation, no selection, exact
/// dirty state, external marks checked against the new history position,
/// confirmations and the message cleared, and the cursor revealed.
pub fn finish_content_edit(app: &mut App)
    ensures
        final(app).buffer == old(app).buffer,
        final(app).file.content_generation == next_gen(old(app).file.content_generation),
        final(app).file.dirty == (old(app).buffer.history_position() != old(app).file.saved_history_position),
        final(app).file.path == old(app).file.path,
        final(app).file.buffer_id == old(app).file.buffer_id,
        final(app).file.saved_history_position == old(app).file.saved_history_position,
        final(app).should_quit == old(app).should_quit,
        final(app).selection.anchor is None,
        !final(app).pending_quit_confirm,
        final(app).pending_save_conflict is None,
        final(app).pending_reload is None,
        final(app).message is None,
        final(app).message_role == StatusRole::Info,
        old(app).clanker_changes.at(old(app).buffer.history_position()) is Some ==> final(app).clanker_changes
            == old(app).clanker_changes,
        old(app).clanker_changes.at(old(app).buffer.history_position()) is None ==> forall|p: u64|
            final(app).clanker_changes.at(p) is None,
        final(app).inline_clanker == old(app).inline_clanker,
        final(app).screen == crate::app::revealed_screen(old(app).screen, old(app).buffer.view_cursor()),
        (old(app).external_changes.history_position is Some && old(app).external_changes.history_position != Some(
            old(app).buffer.history_position(),
        )) ==> final(app).external_changes.view() == crate::external_diff::ExternalChanges::new_view(),
        final(app).inactive_buffers == old(app).inactive_buffers,
        final(app).surfaces == old(app).surfaces,
        final(app).command_prompt == old(app).command_prompt,
        final(app).llm_preview == old(app).llm_preview,
        final(app).external_command == old(app).external_command,
        final(app).hooks == old(app).hooks,
        final(app).pending_llm_request == old(app).pending_llm_request,
        final(app).llm_task == old(app).llm_task,
        final(app).autocomplete == old(app).autocomplete,
        final(app).lint == old(app).lint,
        final(app).keybindings == old(app).keybindings,
        final(app).command_config == old(app).command_config,
        final(app).tab_width == old(app).tab_width,
{
    finish_content_edit_with_message(app, None);
}

/// After any content edit: a new content generation, no selection, exact
/// dirty state, external marks and marks of applied model output checked
/// against the new history position, confirmations cleared, `message`
/// shown, and the cursor revealed.
pub fn finish_content_edit_with_message(app: &mut App, message: Option<String>)
    ensures
        final(app).buffer == old(app).buffer,
        final(app).file.content_generation == next_gen(old(app).file.content_generation),
        final(app).file.dirty == (old(app).buffer.history_position() != old(app).file.saved_history_position),
        final(app).file.path == old(app).file.path,
        final(app).file.buffer_id == old(app).file.buffer_id,
        final(app).file.saved_history_position == old(app).file.saved_history_position,
        final(app).should_quit == old(app).should_quit,
        final(app).selection.anchor is None,
        !final(app).pending_quit_confirm,
        final(app).pending_save_conflict is None,
        final(app).pending_reload is None,
        final(app).message == message,
        final(app).message_role == StatusRole::Info,
        old(app).clanker_changes.at(old(app).buffer.history_position()) is Some ==> final(app).clanker_changes
            == old(app).clanker_changes,
        old(app).clanker_changes.at(old(app).buffer.history_position()) is None ==> forall|p: u64|
            final(app).clanker_changes.at(p) is None,
        final(app).inline_clanker == old(app).inline_clanker,
        final(app).screen == crate::app::revealed_screen(old(app).screen, old(app).buffer.view_cursor()),
        (old(app).external_changes.history_position is Some && old(app).external_changes.history_position != Some(
            old(app).buffer.history_position(),
        )) ==> final(app).external_changes.view() == crate::external_diff::ExternalChanges::new_view(),
        final(app).inactive_buffers == old(app).inactive_buffers,
        final(app).surfaces == old(app).surfaces,
        final(app).command_prompt == old(app).command_prompt,
        final(app).llm_preview == old(app).llm_preview,
        final(app).external_command == old(app).external_command,
        final(app).hooks == old(app).hooks,
        final(app).pending_llm_request == old(app).pending_llm_request,
        final(app).llm_task == old(app).llm_task,
        final(app).autocomplete == old(app).autocomplete,
        final(app).lint == old(app).lint,
        final(app).keybindings == old(app).keybindings,
        final(app).command_config == old(app).command_config,
        final(app).tab_width == old(app).tab_width,
{
    app.file.content_generation = app.file.content_generation.wrapping_add(1);
    app.selection.clear();
    app.refresh_dirty();
    let pos = app.buffer.edit_history_position();
    app.clanker_changes.reconcile(pos);
    app.external_changes.reconcile(pos);
    app.pending_quit_confirm = false;
    app.pending_save_conflict = None;
    app.pending_reload = None;
    app.message = message;
    app.message_role = StatusRole::Info;
    app.reveal_cursor();
}

/// Before an editor action: confirmations that the action does not answer
/// are dropped, and so is the message unless a confirmation stays.
pub fn prepare_editor_action(app: &mut App, action: Option<Action>)
    ensures
        ({
            let is_quit = action == Some(Action::Quit);
            let is_save = action == Some(Action::Save) || action == Some(Action::SaveAs);
            let is_reload = action == Some(Action::Reload);
            let keeps = (is_quit && old(app).pending_quit_confirm) || (is_save && old(app).pending_save_conflict is Some)
                || (is_reload && old(app).pending_reload is Some);
            &&& final(app).pending_quit_confirm == (is_quit && old(app).pending_quit_confirm)
            &&& (is_save ==> final(app).pending_save_conflict == old(app).pending_save_conflict)
            &&& (!is_save ==> final(app).pending_save_conflict is None)
            &&& (is_reload ==> final(app).pending_reload == old(app).pending_reload)
            &&& (!is_reload ==> final(app).pending_reload is None)
            &&& (keeps ==> final(app).message == old(app).message && final(app).message_role == old(app).message_role)
            &&& (!keeps ==> final(app).message is None && final(app).message_role == StatusRole::Info)
        }),
        *final(app) == (App {
            pending_quit_confirm: final(app).pending_quit_confirm,
            pending_save_conflict: final(app).pending_save_conflict,
            pending_reload: final(app).pending_reload,
            message: final(app).message,
            message_role: final(app).message_role,
            ..*old(app)
        }),
{
    let is_quit = action == Some(Action::Quit);
    let is_save = action == Some(Action::Save) || action == Some(Action::SaveAs);
    let is_reload = action == Some(Action::Reload);
    let keeps = (is_quit && app.pending_quit_confirm) || (is_save && app.pending_save_conflict.is_some()) || (is_reload
        && app.pending_reload.is_some());
    if !is_quit {
        app.pending_quit_confirm = false;
    }
    if !is_save {
        app.pending_save_conflict = None;
    }
    if !is_reload {
        app.pending_reload = None;
    }
    if !keeps {
        app.message = None;
        app.message_role = StatusRole::Info;
    }
}

/// The prompt a key opened: of `kind`, with nothing typed yet.
pub open spec fn prompt_opened(app: &App, kind: crate::command_prompt::PromptKind) -> bool {
    app.command_prompt.active matches Some(p) && p.kind == kind && p.text@.len() == 0
}

/// What a bound action did. Every action but Quit (and Interrupt, which the
/// caller handles) drops the quit confirmation; only Save and Save As keep
/// a save conflict, and only Reload keeps a pending reload.
pub open spec fn action_outcome(before: &App, after: &App, action: Action, res: KeyOutcome) -> bool {
    &&& action == Action::Interrupt ==> res is Nothing && *after == *before
    &&& action != Action::Quit && action != Action::Interrupt ==> !after.pending_quit_confirm
    &&& action != Action::Save && action != Action::SaveAs && action != Action::Interrupt ==> after.pending_save_conflict is None
    &&& action != Action::Reload && action != Action::Interrupt ==> after.pending_reload is None
    &&& action == Action::Help ==> (before.surfaces.help is Some <==> after.surfaces.help is None) && after.buffer
        == before.buffer && res is Redraw
    &&& action == Action::Quit ==> after.buffer == before.buffer && ((crate::buffers::dirty_count_spec(before) == 0
        || before.pending_quit_confirm) ==> after.should_quit) && (!(crate::buffers::dirty_count_spec(before) == 0
        || before.pending_quit_confirm) ==> after.pending_quit_confirm && !after.should_quit == !before.should_quit)
    &&& action == Action::Save ==> after.buffer == before.buffer && (res matches KeyOutcome::Save(r) && r.text@
        == before.buffer.text() && r.path@ == crate::llm::display_path_spec(before.file.path))
    &&& action == Action::SaveAs ==> after.buffer == before.buffer && prompt_opened(after, crate::command_prompt::PromptKind::SaveAs)
    &&& action == Action::Open ==> after.buffer == before.buffer && prompt_opened(after, crate::command_prompt::PromptKind::OpenFile)
    &&& action == Action::GotoLine ==> after.buffer == before.buffer && prompt_opened(after, crate::command_prompt::PromptKind::GotoLine)
    &&& action == Action::CommandPrompt ==> after.buffer == before.buffer && prompt_opened(after, crate::command_prompt::PromptKind::Command)
    &&& action == Action::Undo ==> crate::app::applied(&before.buffer, &after.buffer, BufferOp::Undo) && content_finished(
        before,
        after,
    )
    &&& action == Action::Redo ==> crate::app::applied(&before.buffer, &after.buffer, BufferOp::Redo) && content_finished(
        before,
        after,
    )
    &&& action == Action::Close ==> {
        &&& before.file.dirty ==> after.buffer == before.buffer && after.file == before.file && (after.message matches Some(m)
            && m@ == "Buffer has unsaved changes. Save it or use close! to discard."@)
        &&& !before.file.dirty ==> {
            &&& after.message matches Some(m) && m@ == "Buffer closed."@
            &&& before.inactive_buffers@.len() > 0 ==> after.buffer == before.inactive_buffers@[0].buffer && after.file
                == before.inactive_buffers@[0].file && after.inactive_buffers@ == before.inactive_buffers@.drop_first()
            &&& before.inactive_buffers@.len() == 0 ==> after.buffer.text() == Seq::<char>::empty() && after.file.path is None
                && !after.file.dirty && after.inactive_buffers@.len() == 0
            &&& after.active_buffer_index < crate::buffers::buffer_count_spec(after)
        }
    }
    &&& action == Action::NextBuffer ==> {
        &&& before.inactive_buffers@.len() > 0 ==> after.buffer == before.inactive_buffers@[0].buffer && after.file
            == before.inactive_buffers@[0].file
        &&& before.inactive_buffers@.len() == 0 ==> after.buffer == before.buffer && after.file == before.file
    }
    &&& action == Action::PreviousBuffer ==> {
        &&& before.inactive_buffers@.len() > 0 ==> after.buffer == before.inactive_buffers@.last().buffer && after.file
            == before.inactive_buffers@.last().file
        &&& before.inactive_buffers@.len() == 0 ==> after.buffer == before.buffer && after.file == before.file
    }
    &&& action == Action::New ==> after.buffer.text() == Seq::<char>::empty() && after.file.path is None
        && after.inactive_buffers@.len() == before.inactive_buffers@.len() + 1
}

/// Runs a bound editor action. Actions that need the terminal, a file or a
/// service are handed back to the caller.
pub fn dispatch_action(app: &mut App, action: Action) -> (res: KeyOutcome)
    requires
        old(app).wf(),
    ensures
        final(app).wf(),
        action_outcome(old(app), final(app), action, res),
{
    if action == Action::Interrupt {
        return KeyOutcome::Nothing;
    }
    prepare_editor_action(app, Some(action));
    match action {
        Action::Help => {
            crate::help::toggle(app);
            KeyOutcome::Redraw
        },
        Action::Quit => {
            if app.handle_quit() {
                KeyOutcome::Redraw
            } else {
                KeyOutcome::Nothing
            }
        },
        Action::Save => KeyOutcome::Save(app.save_request()),
        Action::SaveAs => {
            crate::command_prompt::open_prompt(app, crate::command_prompt::PromptKind::SaveAs);
            KeyOutcome::Redraw
        },
        Action::Open => {
            crate::command_prompt::open_prompt(app, crate::command_prompt::PromptKind::OpenFile);
            KeyOutcome::Redraw
        },
        Action::GotoLine => {
            crate::command_prompt::open_prompt(app, crate::command_prompt::PromptKind::GotoLine);
            KeyOutcome::Redraw
        },
        Action::CommandPrompt => {
            crate::command_prompt::open_prompt(app, crate::command_prompt::PromptKind::Command);
            KeyOutcome::Redraw
        },
        Action::New => {
            app.new_file_buffer();
            app.reveal_cursor();
            KeyOutcome::Redraw
        },
        Action::Close => {
            app.close_active_buffer(false);
            app.reveal_cursor();
            KeyOutcome::Redraw
        },
        Action::Undo => {
            app.buffer.undo();
            finish_content_edit(app);
            KeyOutcome::Redraw
        },
        Action::Redo => {
            app.buffer.redo();
            finish_content_edit(app);
            KeyOutcome::Redraw
        },
        Action::PreviousBuffer => {
            let ghost mid = *app;
            app.switch_buffer(BufferDirection::Previous);
            proof {
                if mid.inactive_buffers@.len() > 0 {
                    let l = crate::buffers::ring_left(&mid);
                    assert(crate::buffers::ring(app)[0] == crate::buffers::rotate_previous(l)[0]);
                    assert(l.last() == mid.inactive_buffers@.last());
                }
            }
            app.reveal_cursor();
            KeyOutcome::Redraw
        },
        Action::NextBuffer => {
            let ghost mid = *app;
            app.switch_buffer(BufferDirection::Next);
            proof {
                if mid.inactive_buffers@.len() > 0 {
                    crate::buffers::lemma_next_active(&mid, app);
                }
            }
            app.reveal_cursor();
            KeyOutcome::Redraw
        },
        _ => KeyOutcome::Redraw,
    }
}

/// A paste goes to the first surface that takes it: help is read-only, an
/// open prompt takes the text, an external command preview is read-only;
/// otherwise it replaces the selection (or inserts at the cursor) as one edit.
pub fn handle_paste(app: &mut App, text: &str)
    requires
        old(app).buffer.wf(),
    ensures
        final(app).buffer.wf(),
        old(app).surfaces.help is Some ==> final(app).buffer == old(app).buffer,
        old(app).autocomplete.pending is None && old(app).surfaces.help is None && old(app).command_prompt.active is Some ==> {
            &&& final(app).buffer == old(app).buffer
            &&& final(app).file == old(app).file
            &&& final(app).command_prompt.active matches Some(p) && p.text@ == old(app).command_prompt.active->0.text@
                + crate::command_prompt::paste_filtered(text@)
        },
{
    if app.autocomplete.pending.is_some() {
        app.message_info(String::from_str("Autocomplete confirmation is read-only. Enter enables; Esc cancels."));
        return;
    }
    crate::autocomplete::invalidate(app);
    if app.surfaces.help.is_some() {
        app.message_info(String::from_str("Help is read-only; Esc closes."));
        return;
    }
    if crate::command_prompt::handle_paste(app, text) {
        return;
    }
    if app.surfaces.llm_answer.is_some() {
        app.message_info(String::from_str("LLM explanation is read-only; Esc closes."));
        return;
    }
    if app.external_command.preview.is_some() {
        app.message_info(String::from_str("Command output is read-only. Enter applies; Esc dismisses."));
        return;
    }
    let cursor = app.buffer.cursor();
    let (start, end) = match app.selection.active(cursor) {
        Some(r) => r,
        None => (cursor, cursor),
    };
    let chars = crate::text::chars_of(text);
    match app.buffer.replace_range(start, end, chars.as_slice()) {
        Ok(_) => finish_content_edit(app),
        Err(_) => {},
    }
}

/// The scalar a key types into the buffer, if it types one: printable keys
/// without Ctrl, upper-cased while Shift is held.
pub open spec fn typed_char(key: KeyEvent) -> Option<char> {
    match key.code {
        KeyCode::Char(c) => if key.ctrl || c == '\n' || c == '\r' || crate::autocomplete::control(c) {
            None
        } else if key.shift {
            Some(upper_ascii(c))
        } else {
            Some(c)
        },
        _ => None,
    }
}

/// Enter, or a line break that arrived as a character.
pub open spec fn newline_key(key: KeyEvent) -> bool {
    key.code == KeyCode::Enter || (key.code matches KeyCode::Char(c) && !key.ctrl && (c == '\n' || c == '\r'))
}

pub open spec fn indent_key(key: KeyEvent) -> bool {
    key.code == KeyCode::Tab && !key.ctrl && !key.alt && !key.shift
}

pub open spec fn unindent_key(key: KeyEvent) -> bool {
    key.code == KeyCode::BackTab || (key.code == KeyCode::Tab && key.shift && !key.ctrl && !key.alt)
}

/// `c` moved onto the start of the cluster it falls inside.
pub open spec fn snapped(lines: Seq<Seq<char>>, c: Cursor) -> Cursor {
    Cursor { row: c.row, col: crate::navigation::snapped_col(lines[c.row as int], c.col as int) as usize }
}

/// Where an arrow key moves the cursor in the editor: left and right by one
/// user-perceived character, up and down by a line.
pub open spec fn editor_moved(lines: Seq<Seq<char>>, c: Cursor, code: KeyCode) -> Option<Cursor> {
    match code {
        KeyCode::Left => Some(crate::navigation::grapheme_left_of(lines, c)),
        KeyCode::Right => Some(crate::navigation::grapheme_right_of(lines, c)),
        KeyCode::Up => Some(snapped(lines, crate::buffer::vertical_of(lines, c, false))),
        KeyCode::Down => Some(snapped(lines, crate::buffer::vertical_of(lines, c, true))),
        KeyCode::Home => Some(Cursor { row: c.row, col: 0 }),
        KeyCode::End => Some(Cursor { row: c.row, col: lines[c.row as int].len() as usize }),
        _ => None,
    }
}

/// Where the selection is anchored after a move: Shift keeps (or starts)
/// it at the cursor the move leaves; a plain move ends it.
pub open spec fn moved_anchor(app: &App, extend: bool) -> Option<Cursor> {
    if !extend {
        None
    } else if app.selection.anchor is Some {
        app.selection.anchor
    } else {
        Some(app.buffer.view_cursor())
    }
}

fn anchor_for_move(app: &mut App, extend: bool)
    ensures
        final(app).selection.anchor == moved_anchor(old(app), extend),
        *final(app) == (App { selection: final(app).selection, ..*old(app) }),
{
    if !extend {
        app.selection.clear();
    } else if app.selection.anchor.is_none() {
        app.selection.anchor = Some(app.buffer.cursor());
    }
}

/// Backspace (or Delete) removed one user-perceived character, or joined
/// lines at a line's edge, as one undoable edit.
pub open spec fn grapheme_deleted(before: &App, after: &App, forward: bool) -> bool {
    let lines = before.buffer.lines();
    let (start, end) = crate::navigation::deleted_span(lines, before.buffer.view_cursor(), forward);
    &&& start == end ==> after.buffer.text() == before.buffer.text()
    &&& start != end ==> after.buffer.text() == crate::buffer::replaced_text(lines, start, end, Seq::empty())
    &&& start != end ==> after.buffer.view_cursor() == start
    &&& start.row == end.row && start != end ==> after.buffer.undo_states() == before.buffer.undo_states().push(
        before.buffer.state(),
    ) && after.buffer.redo_states().len() == 0
}

/// What an editor key did to the buffer.
pub open spec fn editor_outcome(before: &App, after: &App, key: KeyEvent) -> bool {
    &&& after.inactive_buffers == before.inactive_buffers
    &&& indent_key(key) ==> tab_handled(before, after, false)
    &&& unindent_key(key) ==> tab_handled(before, after, true)
    &&& newline_key(key) ==> newline_inserted(before, after) && content_finished(before, after)
    &&& (typed_char(key) matches Some(c) ==> range_replaced(before, after, seq![c]) && content_finished(before, after))
    &&& indent_key(key) && crate::external_command::app_selection(before) is None ==> content_finished(before, after)
    &&& key.code == KeyCode::Backspace ==> grapheme_deleted(before, after, false) && content_finished(before, after)
    &&& key.code == KeyCode::Delete ==> grapheme_deleted(before, after, true) && content_finished(before, after)
    &&& (editor_moved(before.buffer.lines(), before.buffer.view_cursor(), key.code) matches Some(c)
        ==> after.buffer.same_but_cursor(&before.buffer) && after.buffer.view_cursor() == c
        && after.selection.anchor == moved_anchor(before, key.shift)
        && after.message is None && !after.pending_quit_confirm && after.file == before.file)
    &&& typed_char(key) is None && !newline_key(key) && key.code is Char ==> after.buffer == before.buffer
}

/// The editor's own keys: Tab and Shift+Tab indent, Enter breaks the line
/// keeping its indent, printable keys replace the selection (or insert),
/// Backspace and Delete delete, and arrows move and end the selection.
pub fn editor_key(app: &mut App, key: KeyEvent) -> (res: KeyOutcome)
    requires
        old(app).wf(),
        old(app).tab_width > 0,
    ensures
        final(app).wf(),
        editor_outcome(old(app), final(app), key),
{
    match key.code {
        KeyCode::Tab => {
            if !key.ctrl && !key.alt {
                crate::indentation::handle_tab(app, key.shift);
                KeyOutcome::Redraw
            } else {
                KeyOutcome::Nothing
            }
        },
        KeyCode::BackTab => {
            crate::indentation::handle_tab(app, true);
            KeyOutcome::Redraw
        },
        KeyCode::Enter => {
            crate::indentation::insert_newline(app);
            KeyOutcome::Redraw
        },
        KeyCode::Char(c) => {
            if key.ctrl || crate::autocomplete::is_control(c) && c != '\n' && c != '\r' {
                app.reveal_cursor();
            } else if c == '\n' || c == '\r' {
                crate::indentation::insert_newline(app);
            } else {
                let ch = if key.shift { crate::keys::ascii_upper(c) } else { c };
                let cursor = app.buffer.cursor();
                let (start, end) = match app.selection.active(cursor) {
                    Some(r) => r,
                    None => (cursor, cursor),
                };
                let mut one: Vec<char> = Vec::new();
                one.push(ch);
                let _ = app.buffer.replace_range(start, end, one.as_slice());
                finish_content_edit(app);
            }
            KeyOutcome::Redraw
        },
        KeyCode::Backspace => {
            crate::navigation::delete_grapheme(app, false);
            finish_content_edit(app);
            KeyOutcome::Redraw
        },
        KeyCode::Delete => {
            crate::navigation::delete_grapheme(app, true);
            finish_content_edit(app);
            KeyOutcome::Redraw
        },
        KeyCode::Left => {
            prepare_editor_action(app, None);
            anchor_for_move(app, key.shift);
            crate::navigation::move_grapheme(app, false);
            app.reveal_cursor();
            KeyOutcome::Redraw
        },
        KeyCode::Right => {
            prepare_editor_action(app, None);
            anchor_for_move(app, key.shift);
            crate::navigation::move_grapheme(app, true);
            app.reveal_cursor();
            KeyOutcome::Redraw
        },
        KeyCode::Up => {
            prepare_editor_action(app, None);
            anchor_for_move(app, key.shift);
            app.buffer.move_up();
            crate::navigation::snap_to_cluster(app);
            app.reveal_cursor();
            KeyOutcome::Redraw
        },
        KeyCode::Down => {
            prepare_editor_action(app, None);
            anchor_for_move(app, key.shift);
            app.buffer.move_down();
            crate::navigation::snap_to_cluster(app);
            app.reveal_cursor();
            KeyOutcome::Redraw
        },
        KeyCode::Home | KeyCode::End => {
            prepare_editor_action(app, None);
            anchor_for_move(app, key.shift);
            let c = app.buffer.cursor();
            let col = if key.code == KeyCode::End {
                match app.buffer.line_char_count(c.row) {
                    Some(n) => n,
                    None => c.col,
                }
            } else {
                0
            };
            app.buffer.set_cursor(Cursor { row: c.row, col });
            app.reveal_cursor();
            KeyOutcome::Redraw
        },
        _ => KeyOutcome::Nothing,
    }
}

/// Help, Quit and Interrupt are bound everywhere; other actions only in the editor.
pub open spec fn global_action(a: Action) -> bool {
    a == Action::Help || a == Action::Quit || a == Action::Interrupt
}

/// No surface takes keys before the editor.
pub open spec fn editor_scope(app: &App) -> bool {
    &&& app.surfaces.help is None
    &&& app.surfaces.llm_answer is None
    &&& app.autocomplete.pending is None
    &&& !busy_spec(app)
    &&& app.command_prompt.active is None
    &&& app.pending_llm_request is None
    &&& app.llm_preview is None
}

/// Nothing at all intercepts keys: no surface, no ghost text, no running
/// request or linter.
pub open spec fn plain_editor(app: &App) -> bool {
    editor_scope(app) && app.autocomplete.suggestion is None && app.llm_task is None && app.lint.running is None
}

/// Esc while a linter runs is taken to cancel it.
pub open spec fn lint_takes(app: &App, key: KeyEvent) -> bool {
    app.lint.running is Some && key.code == KeyCode::Esc
}

/// The action a key runs: its binding, where that binding applies.
pub open spec fn routed_action(app: &App, key: KeyEvent) -> Option<Action> {
    match bound_action(app.keybindings.bindings@, key) {
        Some(a) => if editor_scope(app) || global_action(a) {
            Some(a)
        } else {
            None
        },
        None => None,
    }
}

fn in_editor_scope(app: &App) -> (res: bool)
    ensures
        res == editor_scope(app),
{
    app.surfaces.help.is_none() && app.surfaces.llm_answer.is_none() && app.autocomplete.pending.is_none()
        && !crate::external_command::is_busy(app)
        && app.command_prompt.active.is_none() && app.pending_llm_request.is_none() && app.llm_preview.is_none()
}

/// One key press. A key bound to an action runs it (in the editor, or
/// anywhere for Help, Quit and Interrupt); otherwise the foremost open
/// surface takes it (help, a model explanation, the autocomplete
/// confirmation or ghost text, a command or its output, a prompt, a model
/// request or proposal); otherwise
/// the editor does.
pub fn handle_key_with(app: &mut App, key: KeyEvent) -> (res: KeyOutcome)
    requires
        old(app).wf(),
        old(app).tab_width > 0,
    ensures
        final(app).wf(),
        routed_action(old(app), key) matches Some(a) ==> action_outcome(old(app), final(app), a, res),
        routed_action(old(app), key) is None && lint_takes(old(app), key) ==> final(app).lint.running is None
            && final(app).buffer == old(app).buffer,
        routed_action(old(app), key) is None && !lint_takes(old(app), key) && old(app).surfaces.help is Some
            && !is_quit_key(key) ==> {
            &&& final(app).buffer == old(app).buffer
            &&& (key.code == KeyCode::Esc <==> final(app).surfaces.help is None)
        },
        routed_action(old(app), key) is None && !lint_takes(old(app), key) && old(app).surfaces.help is None
            && old(app).surfaces.llm_answer is Some && !is_quit_key(key) ==> {
            &&& final(app).buffer == old(app).buffer
            &&& (key.code == KeyCode::Esc <==> final(app).surfaces.llm_answer is None)
        },
        routed_action(old(app), key) is None && !lint_takes(old(app), key) && old(app).surfaces.help is None
            && old(app).surfaces.llm_answer is None && old(app).autocomplete.pending is Some && !is_quit_key(key) ==> final(app).buffer == old(app).buffer && (key.code == KeyCode::Enter
            ==> final(app).autocomplete.enabled),
        routed_action(old(app), key) is None && !lint_takes(old(app), key) && old(app).surfaces.help is None
            && old(app).surfaces.llm_answer is None && old(app).autocomplete.pending is None && !busy_spec(old(app)) && old(app).command_prompt.active is Some && !is_quit_key(key) && key.code
            != KeyCode::Enter && old(app).autocomplete.suggestion is None ==> {
            &&& final(app).buffer == old(app).buffer
            &&& key.code == KeyCode::Esc ==> final(app).command_prompt.active is None
            &&& (key.code is Char && !key.ctrl && !crate::autocomplete::control(key.code->Char_0)) ==> (final(app).command_prompt.active matches Some(p)
                && p.text@ == old(app).command_prompt.active->0.text@.push(key.code->Char_0))
        },
        routed_action(old(app), key) is None && plain_editor(old(app)) ==> editor_outcome(old(app), final(app), key),
{
    let editor = in_editor_scope(app);
    match app.keybindings.action_for_key(key) {
        Some(a) => {
            if editor || a == Action::Help || a == Action::Quit || a == Action::Interrupt {
                return dispatch_action(app, a);
            }
        },
        None => {},
    }
    if crate::lint::handle_key(app, key) {
        return KeyOutcome::Redraw;
    }
    if crate::help::handle_key(app, key) {
        return KeyOutcome::Redraw;
    }
    if crate::llm::handle_answer_key(app, key) {
        return KeyOutcome::Redraw;
    }
    if crate::autocomplete::handle_key(app, key) {
        return KeyOutcome::Redraw;
    }
    if crate::external_command::handle_key(app, key) {
        return KeyOutcome::Redraw;
    }
    match crate::command_prompt::handle_active_key(app, key) {
        crate::command_prompt::PromptKeyOutcome::Submitted(p) => {
            return KeyOutcome::Command(crate::command_prompt::submit_prompt(app, p));
        },
        crate::command_prompt::PromptKeyOutcome::Handled => {
            return KeyOutcome::Redraw;
        },
        crate::command_prompt::PromptKeyOutcome::NotHandled => {},
    }
    match crate::llm::handle_request_key(app, key) {
        crate::llm::RequestKeyOutcome::Send(r) => {
            return KeyOutcome::Send(r);
        },
        crate::llm::RequestKeyOutcome::Handled => {
            return KeyOutcome::Redraw;
        },
        crate::llm::RequestKeyOutcome::Ignored => {},
    }
    if crate::llm::handle_preview_key(app, key) {
        return KeyOutcome::Redraw;
    }
    editor_key(app, key)
}

/// After startup the default chords route keys to editor actions: Ctrl+S
/// saves, Ctrl+Q quits (or warns first), Ctrl+Z undoes, and Ctrl+Shift+Z and
/// Ctrl+Y redo.
pub proof fn startup_routing(app: &App, path: Option<Seq<char>>)
    requires
        crate::app::fresh(app, path),
    ensures
        routed_action(app, KeyEvent { code: KeyCode::Char('s'), ctrl: true, alt: false, shift: false }) == Some(Action::Save),
        routed_action(app, KeyEvent { code: KeyCode::Char('q'), ctrl: true, alt: false, shift: false }) == Some(Action::Quit),
        routed_action(app, KeyEvent { code: KeyCode::Char('z'), ctrl: true, alt: false, shift: false }) == Some(Action::Undo),
        routed_action(app, KeyEvent { code: KeyCode::Char('z'), ctrl: true, alt: false, shift: true }) == Some(Action::Redo),
        routed_action(app, KeyEvent { code: KeyCode::Char('Z'), ctrl: true, alt: false, shift: true }) == Some(Action::Redo),
        routed_action(app, KeyEvent { code: KeyCode::Char('y'), ctrl: true, alt: false, shift: false }) == Some(Action::Redo),
{
    let bs = app.keybindings.bindings@;
    assert(editor_scope(app));
    crate::keys::lemma_default_routing(bs);
}

/// Undoing an edit made on a clean buffer gives back its text and makes the
/// file clean again.
pub proof fn undo_to_saved_state_is_clean(before: &App, edited: &App, undone: &App)
    requires
        before.file.saved_history_position == before.buffer.history_position(),
        edited.buffer.undo_states() == before.buffer.undo_states().push(before.buffer.state()),
        edited.file.saved_history_position == before.file.saved_history_position,
        undone.buffer.state() == edited.buffer.undo_states().last(),
        undone.file.dirty == (undone.buffer.history_position() != edited.file.saved_history_position),
    ensures
        undone.buffer.text() == before.buffer.text(),
        !undone.file.dirty,
{
}

/// Delete removes what follows the cursor and leaves the cursor where it
/// was, with the text before it untouched.
pub proof fn delete_keeps_the_cursor(before: &App, after: &App, key: KeyEvent)
    requires
        editor_outcome(before, after, key),
        key.code == KeyCode::Delete,
        after.buffer.text() != before.buffer.text(),
        before.buffer.wf(),
    ensures
        after.buffer.view_cursor() == before.buffer.view_cursor(),
        after.buffer.text().take(crate::buffer::cursor_offset(before.buffer.lines(), before.buffer.view_cursor()))
            == before.buffer.text().take(crate::buffer::cursor_offset(before.buffer.lines(), before.buffer.view_cursor())),
{
    let lines = before.buffer.lines();
    let c = before.buffer.view_cursor();
    let (start, end) = crate::navigation::deleted_span(lines, c, true);
    assert(start != end);
    crate::lines::lemma_offset_bound(lines, c.row as int, c.col as int);
    let t = crate::lines::join_lines(lines);
    let r = crate::buffer::replaced_text(lines, start, end, Seq::empty());
    assert(r.take(crate::buffer::cursor_offset(lines, start)) =~= t.take(crate::buffer::cursor_offset(lines, start)));
}

/// Typing a character that changes the text leaves the file dirty, unless
/// the position the new state takes is the one last saved (which only a
/// worn-out history counter could give).
pub proof fn typing_makes_dirty(before: &App, after: &App, key: KeyEvent)
    requires
        editor_outcome(before, after, key),
        typed_char(key) is Some,
        after.buffer.text() != before.buffer.text(),
        before.buffer.fresh_position() != before.file.saved_history_position,
        cursor_valid(before.buffer.lines(), crate::indentation::edit_range(before).0),
        cursor_valid(before.buffer.lines(), crate::indentation::edit_range(before).1),
        cursor_le(crate::indentation::edit_range(before).0, crate::indentation::edit_range(before).1),
    ensures
        after.file.dirty,
        after.buffer.history_position() == before.buffer.fresh_position(),
        after.should_quit == before.should_quit,
        !after.pending_quit_confirm,
        after.message is None,
{
}

/// Actions that read or edit the buffer's content, as opposed to those that
/// leave, reload, save, open, close, switch buffers or show help, which stay
/// available when the content cannot be read.
pub open spec fn needs_content(action: Action) -> bool {
    !(action == Action::Help || action == Action::Quit || action == Action::Interrupt || action == Action::Reload
        || action == Action::Save || action == Action::SaveAs || action == Action::Open || action == Action::New
        || action == Action::Close || action == Action::CommandPrompt || action == Action::PreviousBuffer
        || action == Action::NextBuffer)
}

pub fn action_needs_content(action: Action) -> (res: bool)
    ensures
        res == needs_content(action),
{
    match action {
        Action::Help | Action::Quit | Action::Interrupt | Action::Reload | Action::Save | Action::SaveAs | Action::Open
        | Action::New | Action::Close | Action::CommandPrompt | Action::PreviousBuffer | Action::NextBuffer => false,
        _ => true,
    }
}

} // verus!
