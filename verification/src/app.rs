//! Editor application state: the active buffer and its file, the screen,
//! the status message, and the state of every transient surface.

use vstd::prelude::*;

use crate::autocomplete::AutocompleteState;
use crate::buffer::{cursor_at, cursor_offset, left_of, replaced_text, right_of, vertical_of, Cursor, TextBuffer};
use crate::buffers::BufferSlot;
use crate::command_prompt::CommandPromptState;
use crate::config::{AutocompleteConfig, CommandConfig};
use crate::external_command::ExternalCommandState;
use crate::external_diff::ExternalChanges;
use crate::help::HelpView;
use crate::hooks::HookState;
use crate::inline_clanker::{ChangeHistory, InlineClankerState};
use crate::keys::KeyBindings;
use crate::lint::LintState;
use crate::llm::{AnswerView, LlmTask, PatchPreview, PendingLlmRequest};
use crate::keys::{upper_ascii, KeyCode, KeyEvent};
use crate::screen::{content_rows, revealed, Screen};
use crate::status::push_str;
use crate::selection::Selection;
use crate::status::StatusRole;

verus! {

/// Plain editing, or Project mode with repository-aware features.
#[derive(Clone, Copy, Debug, PartialEq, Eq, Structural)]
pub enum Mode {
    Plain,
    Project,
}

/// What the current mode permits.
#[derive(Clone, Copy, Debug, PartialEq, Eq, Structural)]
pub struct Capabilities {
    pub network_llm: bool,
    pub repo_llm: bool,
}

impl Capabilities {
    /// Plain mode reaches no model service and no repository.
    pub fn from_mode(mode: Mode) -> (res: Capabilities)
        ensures
            res.network_llm == (mode == Mode::Project),
            res.repo_llm == (mode == Mode::Project),
    {
        match mode {
            Mode::Plain => Capabilities { network_llm: false, repo_llm: false },
            Mode::Project => Capabilities { network_llm: true, repo_llm: true },
        }
    }
}

/// How the file on disk compares with what was last read or written.
#[derive(Clone, Copy, Debug, PartialEq, Eq, Structural)]
pub enum ExternalFileStatus {
    Unchanged,
    Modified,
    Deleted,
}

/// A save or reload that waits for a second confirming key press.
pub struct PendingFileCheck {
    pub path: String,
    pub status: ExternalFileStatus,
}

/// The file behind the active buffer and exact dirty tracking.
pub struct FileState {
    /// Where Save writes; None until a path is chosen.
    pub path: Option<String>,
    /// The history position differs from the one last saved or opened.
    pub dirty: bool,
    pub saved_history_position: u64,
    /// Tells buffers apart even when path and history agree.
    pub buffer_id: u64,
    /// Counts content changes of this buffer.
    pub content_generation: u64,
}

/// Read-only surfaces drawn over the buffer.
pub struct Surfaces {
    pub help: Option<HelpView>,
    pub llm_answer: Option<AnswerView>,
}

/// The whole editor state.
pub struct App {
    pub mode: Mode,
    pub caps: Capabilities,
    pub buffer: TextBuffer,
    pub file: FileState,
    pub should_quit: bool,
    pub message: Option<String>,
    pub message_role: StatusRole,
    pub pending_quit_confirm: bool,
    pub pending_save_conflict: Option<PendingFileCheck>,
    pub pending_reload: Option<PendingFileCheck>,
    pub screen: Screen,
    pub selection: Selection,
    pub tab_width: usize,
    pub keybindings: KeyBindings,
    pub command_config: CommandConfig,
    pub hooks: HookState,
    pub autocomplete: AutocompleteState,
    pub external_command: ExternalCommandState,
    pub external_changes: ExternalChanges,
    pub command_prompt: CommandPromptState,
    pub lint: LintState,
    pub surfaces: Surfaces,
    pub llm_preview: Option<PatchPreview>,
    pub pending_llm_request: Option<PendingLlmRequest>,
    pub llm_task: Option<LlmTask>,
    pub inline_clanker: InlineClankerState,
    pub clanker_changes: ChangeHistory,
    pub inactive_buffers: Vec<BufferSlot>,
    pub active_buffer_index: usize,
    pub next_buffer_id: u64,
}

/// Settings read at startup that the editor starts with.
pub struct StartupConfig {
    pub keybindings: KeyBindings,
    pub command_config: CommandConfig,
    pub tab_width: usize,
    pub initial_message: Option<String>,
}

/// Startup state: one clean buffer, nothing transient, nothing running.
pub open spec fn fresh(app: &App, path: Option<Seq<char>>) -> bool {
    &&& app.mode == Mode::Plain
    &&& !app.caps.network_llm
    &&& !app.caps.repo_llm
    &&& app.buffer.wf()
    &&& app.buffer.view_cursor() == (crate::buffer::Cursor { row: 0, col: 0 })
    &&& app.buffer.undo_states().len() == 0
    &&& app.buffer.redo_states().len() == 0
    &&& (match path {
        Some(p) => app.file.path matches Some(q) && q@ == p,
        None => app.file.path is None,
    })
    &&& !app.file.dirty
    &&& app.file.saved_history_position == app.buffer.history_position()
    &&& app.file.buffer_id == 1
    &&& app.file.content_generation == 0
    &&& !app.should_quit
    &&& app.message is None
    &&& app.message_role == StatusRole::Info
    &&& !app.pending_quit_confirm
    &&& app.pending_save_conflict is None
    &&& app.pending_reload is None
    &&& app.screen == Screen { width: 80, height: 24, scroll_top: 0, scroll_left: 0, wrap_col: 0 }
    &&& app.selection.anchor is None
    &&& app.tab_width == 4
    &&& app.hooks.queue@.len() == 0
    &&& app.hooks.active is None
    &&& !app.autocomplete.enabled
    &&& app.autocomplete.pending is None
    &&& app.autocomplete.confirmed is None
    &&& app.autocomplete.running is None
    &&& app.autocomplete.suggestion is None
    &&& app.autocomplete.backoff_until is None
    &&& app.autocomplete.error is None
    &&& app.external_command.running is None
    &&& app.external_command.preview is None
    &&& app.external_changes.view() == ExternalChanges::new_view()
    &&& app.command_prompt.active is None
    &&& app.lint.results is None
    &&& app.surfaces.help is None
    &&& app.surfaces.llm_answer is None
    &&& app.llm_preview is None
    &&& app.pending_llm_request is None
    &&& app.llm_task is None
    &&& app.inline_clanker.phase() is None
    &&& forall|a: crate::keys::Action| crate::keys::bound_chords(app.keybindings.bindings@, a) == crate::keys::default_chords(a)
    &&& app.lint.results is None
    &&& app.lint.running is None
    &&& app.command_config.commands@.len() == 0
    &&& app.command_config.on_open@.len() == 0
    &&& app.command_config.on_save@.len() == 0
    &&& app.command_config.before_llm@.len() == 0
    &&& forall|p: u64| app.clanker_changes.at(p) is None
    &&& app.inactive_buffers@.len() == 0
    &&& app.active_buffer_index == 0
    &&& app.next_buffer_id == 2
}

impl App {
    /// Every open buffer is well formed.
    pub open spec fn wf(&self) -> bool {
        &&& self.buffer.wf()
        &&& forall|i: int| 0 <= i < self.inactive_buffers@.len() ==> (#[trigger] self.inactive_buffers@[i]).buffer.wf()
    }

    /// The editor holding `text`, remembering `initial_path` as the file to save to.
    pub fn with_text(initial_path: Option<&str>, text: &str) -> (res: App)
        ensures
            fresh(&res, match initial_path {
                Some(p) => Some(p@),
                None => None,
            }),
            res.wf(),
            res.buffer.text() == text@,
    {
        let mode = Mode::Plain;
        let buffer = TextBuffer::from_text(text);
        let initial_pos = buffer.edit_history_position();
        let path = match initial_path {
            Some(p) => Some(String::from_str(p)),
            None => None,
        };
        App {
            mode,
            caps: Capabilities::from_mode(mode),
            buffer,
            file: FileState {
                path,
                dirty: false,
                saved_history_position: initial_pos,
                buffer_id: 1,
                content_generation: 0,
            },
            should_quit: false,
            message: None,
            message_role: StatusRole::Info,
            pending_quit_confirm: false,
            pending_save_conflict: None,
            pending_reload: None,
            screen: Screen::new(80, 24),
            selection: Selection::new(),
            tab_width: 4,
            keybindings: KeyBindings::new(),
            command_config: CommandConfig::new(),
            hooks: HookState::new(),
            autocomplete: AutocompleteState::new(AutocompleteConfig::new()),
            external_command: ExternalCommandState::new(),
            external_changes: ExternalChanges::new(),
            command_prompt: CommandPromptState::new(),
            lint: LintState::new(),
            surfaces: Surfaces { help: None, llm_answer: None },
            llm_preview: None,
            pending_llm_request: None,
            llm_task: None,
            inline_clanker: InlineClankerState::new(),
            clanker_changes: ChangeHistory::new(),
            inactive_buffers: Vec::new(),
            active_buffer_index: 0,
            next_buffer_id: 2,
        }
    }

    /// The editor holding `text` with settings read at startup: key bindings,
    /// configured commands and hooks, the tab size, and a message to show
    /// first (a warning, such as why a configuration file was not used).
    pub fn with_config(initial_path: Option<&str>, text: &str, config: StartupConfig) -> (res: App)
        ensures
            res.wf(),
            res.buffer.text() == text@,
            res.keybindings == config.keybindings,
            res.command_config == config.command_config,
            res.tab_width == config.tab_width,
            res.message == config.initial_message,
            res.message_role == (if config.initial_message is Some { StatusRole::Warning } else { StatusRole::Info }),
            exists|base: App|
                fresh(
                    &base,
                    match initial_path {
                        Some(p) => Some(p@),
                        None => None,
                    },
                ) && base.buffer.text() == text@ && res == (App {
                    keybindings: res.keybindings,
                    command_config: res.command_config,
                    tab_width: res.tab_width,
                    message: res.message,
                    message_role: res.message_role,
                    ..base
                }),
    {
        let mut app = App::with_text(initial_path, text);
        let ghost base = app;
        let role = if config.initial_message.is_some() { StatusRole::Warning } else { StatusRole::Info };
        app.keybindings = config.keybindings;
        app.command_config = config.command_config;
        app.tab_width = config.tab_width;
        app.message = config.initial_message;
        app.message_role = role;
        proof {
            assert(app == (App {
                keybindings: app.keybindings,
                command_config: app.command_config,
                tab_width: app.tab_width,
                message: app.message,
                message_role: app.message_role,
                ..base
            }));
        }
        app
    }

    /// The editor at startup: an empty buffer, and `initial_path` remembered
    /// as the file to save to (a path that does not exist yet starts this way).
    pub fn new(initial_path: Option<&str>) -> (res: App)
        ensures
            fresh(&res, match initial_path {
                Some(p) => Some(p@),
                None => None,
            }),
            res.wf(),
            res.buffer.text() == Seq::<char>::empty(),
    {
        proof {
            reveal_strlit("");
        }
        App::with_text(initial_path, "")
    }

    /// Shows `text` as information.
    pub fn message_info(&mut self, text: String)
        ensures
            *final(self) == (App { message: Some(text), message_role: StatusRole::Info, ..*old(self) }),
    {
        self.message = Some(text);
        self.message_role = StatusRole::Info;
    }

    /// Shows `text` as a warning.
    pub fn message_warning(&mut self, text: String)
        ensures
            *final(self) == (App { message: Some(text), message_role: StatusRole::Warning, ..*old(self) }),
    {
        self.message = Some(text);
        self.message_role = StatusRole::Warning;
    }

    /// Shows `text` as an error.
    pub fn message_error(&mut self, text: String)
        ensures
            *final(self) == (App { message: Some(text), message_role: StatusRole::Error, ..*old(self) }),
    {
        self.message = Some(text);
        self.message_role = StatusRole::Error;
    }

    /// Dirty exactly when the history position differs from the saved one.
    pub fn refresh_dirty(&mut self)
        ensures
            *final(self) == (App {
                file: FileState {
                    dirty: old(self).buffer.history_position() != old(self).file.saved_history_position,
                    ..old(self).file
                },
                ..*old(self)
            }),
    {
        let pos = self.buffer.edit_history_position();
        self.file.dirty = pos != self.file.saved_history_position;
    }

    /// The current history position becomes the clean save point.
    pub fn mark_saved(&mut self)
        ensures
            *final(self) == (App {
                file: FileState {
                    dirty: false,
                    saved_history_position: old(self).buffer.history_position(),
                    ..old(self).file
                },
                ..*old(self)
            }),
    {
        self.file.saved_history_position = self.buffer.edit_history_position();
        self.file.dirty = false;
    }
}


/// What the caller does after a key: nothing, draw a new frame, write a
/// file, carry out what a palette command handed back, or send a confirmed
/// model request.
pub enum KeyOutcome {
    Nothing,
    Redraw,
    Save(SaveRequest),
    Command(crate::command_prompt::CommandEffect),
    Send(crate::llm::OutgoingRequest),
}

/// The text to write atomically, and where.
pub struct SaveRequest {
    pub path: String,
    pub text: String,
}

/// The screen after clamping for zero sizes and scrolling the least amount
/// that shows `c`.
pub open spec fn revealed_screen(s: Screen, c: Cursor) -> Screen {
    let top = if content_rows(s) == 0 { 0 } else { s.scroll_top as int };
    let left = if s.width == 0 { 0 } else { s.scroll_left as int };
    Screen {
        scroll_top: revealed(top, content_rows(s), c.row as int) as usize,
        scroll_left: revealed(left, s.width as int, c.col as int) as usize,
        ..s
    }
}

/// The buffer edit a key asks for.
pub enum BufferOp {
    Newline,
    Insert(char),
    DeleteBack,
    DeleteForward,
    Undo,
    Redo,
}

/// `b1` is `b0` after `op`.
pub open spec fn applied(b0: &TextBuffer, b1: &TextBuffer, op: BufferOp) -> bool {
    &&& b1.wf()
    &&& match op {
        BufferOp::Newline => b1.text() == replaced_text(b0.lines(), b0.view_cursor(), b0.view_cursor(), seq!['\n'])
            && b1.history_position() == b0.fresh_position() && b1.undo_states() == b0.undo_states().push(b0.state()),
        BufferOp::Insert(ch) => b1.text() == replaced_text(b0.lines(), b0.view_cursor(), b0.view_cursor(), seq![ch])
            && cursor_at(b1.text(), cursor_offset(b0.lines(), b0.view_cursor()) + 1, b1.view_cursor())
            && b1.history_position() == b0.fresh_position() && b1.undo_states() == b0.undo_states().push(b0.state()),
        BufferOp::DeleteBack => if b0.view_cursor() == (Cursor { row: 0, col: 0 }) {
            b1.same(b0)
        } else {
            b1.text() == replaced_text(b0.lines(), left_of(b0.lines(), b0.view_cursor()), b0.view_cursor(), Seq::empty())
        },
        BufferOp::DeleteForward => if right_of(b0.lines(), b0.view_cursor()) == b0.view_cursor() {
            b1.same(b0)
        } else {
            b1.text() == replaced_text(b0.lines(), b0.view_cursor(), right_of(b0.lines(), b0.view_cursor()), Seq::empty())
        },
        BufferOp::Undo => if b0.undo_states().len() > 0 {
            b1.state() == b0.undo_states().last() && b1.undo_states() == b0.undo_states().drop_last()
                && b1.redo_states() == b0.redo_states().push(b0.state())
        } else {
            b1.same(b0)
        },
        BufferOp::Redo => if b0.redo_states().len() > 0 {
            b1.state() == b0.redo_states().last() && b1.redo_states() == b0.redo_states().drop_last()
                && b1.undo_states() == b0.undo_states().push(b0.state())
        } else {
            b1.same(b0)
        },
    }
}

/// The edit a key asks for, if it is one.
pub open spec fn key_edit(k: KeyEvent) -> Option<BufferOp> {
    match k.code {
        KeyCode::Enter => Some(BufferOp::Newline),
        KeyCode::Backspace => Some(BufferOp::DeleteBack),
        KeyCode::Delete => Some(BufferOp::DeleteForward),
        KeyCode::Char(c) => if k.ctrl {
            if (c == 'z' && !k.shift) {
                Some(BufferOp::Undo)
            } else if (c == 'z' || c == 'Z') && k.shift {
                Some(BufferOp::Redo)
            } else if c == 'y' {
                Some(BufferOp::Redo)
            } else {
                None
            }
        } else if c == '\n' || c == '\r' {
            Some(BufferOp::Newline)
        } else if crate::autocomplete::control(c) {
            None
        } else if k.shift {
            Some(BufferOp::Insert(upper_ascii(c)))
        } else {
            Some(BufferOp::Insert(c))
        },
        _ => None,
    }
}

/// The cursor movement a key asks for: Some(None) moves left/right, and so on.
pub open spec fn moved_cursor(lines: Seq<Seq<char>>, c: Cursor, code: KeyCode) -> Option<Cursor> {
    match code {
        KeyCode::Left => Some(left_of(lines, c)),
        KeyCode::Right => Some(right_of(lines, c)),
        KeyCode::Up => Some(vertical_of(lines, c, false)),
        KeyCode::Down => Some(vertical_of(lines, c, true)),
        _ => None,
    }
}

/// The quit warning for `n` dirty buffers.
pub open spec fn quit_warning(n: nat) -> Seq<char> {
    if n == 1 {
        "Unsaved changes. Press Ctrl+Q again to quit without saving, Ctrl+S to save."@
    } else {
        "Unsaved changes in "@ + crate::status::decimal(n) + " buffers. Press Ctrl+Q again to quit without saving."@
    }
}

impl App {
    /// Scrolls the least amount that shows the cursor, after clamping for zero sizes.
    pub fn reveal_cursor(&mut self)
        ensures
            *final(self) == (App { screen: revealed_screen(old(self).screen, old(self).buffer.view_cursor()), ..*old(self) }),
    {
        self.screen.clamp_scroll();
        let c = self.buffer.cursor();
        self.screen.reveal_row(c.row);
        self.screen.reveal_col(c.col);
    }

    /// The frame that draws the editor.
    pub fn render(&self) -> (res: String)
        requires
            self.buffer.wf(),
        ensures
            res@ == crate::render::frame(self),
    {
        crate::render::render(self)
    }

    /// The terminal is now `width` by `height`: keep the cursor visible and redraw.
    pub fn handle_resize(&mut self, width: u16, height: u16) -> (frame: String)
        requires
            old(self).buffer.wf(),
        ensures
            *final(self) == (App {
                screen: revealed_screen(Screen { width, height, ..old(self).screen }, old(self).buffer.view_cursor()),
                ..*old(self)
            }),
            frame@ == crate::render::frame(final(self)),
    {
        self.screen.update_size(width, height);
        self.reveal_cursor();
        self.render()
    }

    /// Quit: at once when nothing is dirty or the warning was already shown;
    /// otherwise warn once. Says whether the screen needs redrawing.
    pub fn handle_quit(&mut self) -> (redraw: bool)
        ensures
            (crate::buffers::dirty_count_spec(old(self)) == 0 || old(self).pending_quit_confirm) ==> !redraw && *final(self)
                == (App { should_quit: true, ..*old(self) }),
            *final(self) == (App {
                should_quit: final(self).should_quit,
                pending_quit_confirm: final(self).pending_quit_confirm,
                message: final(self).message,
                message_role: final(self).message_role,
                ..*old(self)
            }),
            !(crate::buffers::dirty_count_spec(old(self)) == 0 || old(self).pending_quit_confirm) ==> redraw && final(self).should_quit == old(self).should_quit
                && final(self).pending_quit_confirm && final(self).message_role == StatusRole::Warning
                && final(self).buffer == old(self).buffer && final(self).file == old(self).file,
            !(crate::buffers::dirty_count_spec(old(self)) == 0 || old(self).pending_quit_confirm)
                && crate::buffers::dirty_count_spec(old(self)) < usize::MAX ==> (final(self).message matches Some(m)
                && m@ == quit_warning(crate::buffers::dirty_count_spec(old(self)))),
    {
        let dirty = self.dirty_buffer_count();
        if dirty == 0 || self.pending_quit_confirm {
            self.should_quit = true;
            return false;
        }
        self.pending_quit_confirm = true;
        let mut m: Vec<char> = Vec::new();
        if dirty == 1 {
            push_str(&mut m, "Unsaved changes. Press Ctrl+Q again to quit without saving, Ctrl+S to save.");
        } else {
            push_str(&mut m, "Unsaved changes in ");
            crate::status::push_decimal(&mut m, dirty as u128);
            push_str(&mut m, " buffers. Press Ctrl+Q again to quit without saving.");
        }
        self.message_warning(crate::text::string_of(&m));
        true
    }

    /// What Save writes: the whole text, to the file's path or `untitled.txt`.
    pub fn save_request(&self) -> (res: SaveRequest)
        requires
            self.buffer.wf(),
        ensures
            res.text@ == self.buffer.text(),
            self.file.path matches Some(p) ==> res.path@ == p@,
            self.file.path is None ==> res.path@ == "untitled.txt"@,
    {
        let path = match &self.file.path {
            Some(p) => p.clone(),
            None => String::from_str("untitled.txt"),
        };
        SaveRequest { path, text: self.buffer.to_string() }
    }

    /// The write of a save ended: success makes the buffer clean, remembers
    /// the path, clears confirmations and queues the save hooks; a failure
    /// keeps it dirty and says why.
    pub fn finish_save(&mut self, path: String, result: Result<(), String>)
        ensures
            final(self).buffer == old(self).buffer,
            result is Ok ==> {
                &&& !final(self).file.dirty
                &&& final(self).file.saved_history_position == old(self).buffer.history_position()
                &&& final(self).file.path == (match old(self).file.path {
                    Some(p) => Some(p),
                    None => Some(path),
                })
                &&& !final(self).pending_quit_confirm
                &&& final(self).message is None
                &&& final(self).hooks.queue@ == old(self).hooks.queue@ + crate::config::hook_names(
                    &old(self).command_config,
                    crate::config::HookEvent::Save,
                )
            },
            result matches Err(e) ==> {
                &&& final(self).file == old(self).file
                &&& final(self).message_role == StatusRole::Error
                &&& final(self).message matches Some(m) && m@ == "Save error: "@ + e@
            },
    {
        match result {
            Ok(()) => {
                if self.file.path.is_none() {
                    self.file.path = Some(path);
                }
                self.mark_saved();
                self.pending_quit_confirm = false;
                self.message = None;
                self.message_role = StatusRole::Info;
                crate::hooks::trigger_save(self);
            },
            Err(e) => {
                let mut m: Vec<char> = Vec::new();
                push_str(&mut m, "Save error: ");
                push_str(&mut m, e.as_str());
                self.message_error(crate::text::string_of(&m));
            },
        }
    }

    /// The write of a Save As ended: on success the buffer is saved under
    /// `path` from now on; otherwise it is as after a failed save.
    pub fn finish_save_as(&mut self, path: String, result: Result<(), String>)
        ensures
            final(self).buffer == old(self).buffer,
            result is Ok ==> {
                &&& !final(self).file.dirty
                &&& final(self).file.saved_history_position == old(self).buffer.history_position()
                &&& final(self).file.path == Some(path)
                &&& !final(self).pending_quit_confirm
                &&& final(self).message is None
            },
            result matches Err(e) ==> {
                &&& final(self).file == old(self).file
                &&& final(self).message_role == StatusRole::Error
                &&& final(self).message matches Some(m) && m@ == "Save error: "@ + e@
            },
    {
        if result.is_ok() {
            self.file.path = Some(path.clone());
        }
        self.finish_save(path, result);
    }

    /// Applies one buffer edit; any edit marks the file dirty and clears
    /// the quit confirmation and the message.
    fn apply_edit(&mut self, op: BufferOp)
        requires
            old(self).buffer.wf(),
        ensures
            applied(&old(self).buffer, &final(self).buffer, op),
            final(self).file.dirty,
            !final(self).pending_quit_confirm,
            final(self).message is None,
            final(self).screen == revealed_screen(old(self).screen, final(self).buffer.view_cursor()),
            final(self).should_quit == old(self).should_quit,
            final(self).inactive_buffers == old(self).inactive_buffers,
    {
        match op {
            BufferOp::Newline => self.buffer.insert_newline(),
            BufferOp::Insert(ch) => self.buffer.insert_char(ch),
            BufferOp::DeleteBack => {
                self.buffer.delete_back();
            },
            BufferOp::DeleteForward => {
                self.buffer.delete_forward();
            },
            BufferOp::Undo => {
                self.buffer.undo();
            },
            BufferOp::Redo => {
                self.buffer.redo();
            },
        }
        self.file.dirty = true;
        self.pending_quit_confirm = false;
        self.message = None;
        self.reveal_cursor();
    }

    /// One key press: Ctrl+Q quits (asking once while dirty), Ctrl+S asks the
    /// caller to write, edits change the buffer and mark it dirty, arrows move
    /// the cursor; the cursor stays visible.
    pub fn handle_key(&mut self, key: KeyEvent) -> (res: KeyOutcome)
        requires
            old(self).buffer.wf(),
        ensures
            final(self).buffer.wf(),
            key.code == KeyCode::Char('q') && key.ctrl ==> {
                &&& (crate::buffers::dirty_count_spec(old(self)) == 0 || old(self).pending_quit_confirm) ==> *final(self)
                    == (App { should_quit: true, ..*old(self) }) && res is Nothing
                &&& !(crate::buffers::dirty_count_spec(old(self)) == 0 || old(self).pending_quit_confirm) ==> {
                    &&& final(self).should_quit == old(self).should_quit
                    &&& final(self).pending_quit_confirm
                    &&& final(self).message_role == StatusRole::Warning
                    &&& crate::buffers::dirty_count_spec(old(self)) < usize::MAX ==> (final(self).message matches Some(m)
                        && m@ == quit_warning(crate::buffers::dirty_count_spec(old(self))))
                    &&& *final(self) == (App {
                        should_quit: final(self).should_quit,
                        pending_quit_confirm: final(self).pending_quit_confirm,
                        message: final(self).message,
                        message_role: final(self).message_role,
                        ..*old(self)
                    })
                    &&& res is Redraw
                }
            },
            key.code == KeyCode::Char('s') && key.ctrl ==> *final(self) == *old(self) && (res matches KeyOutcome::Save(r)
                && r.text@ == old(self).buffer.text()
                && r.path@ == crate::llm::display_path_spec(old(self).file.path)),
            !(key.ctrl && (key.code == KeyCode::Char('q') || key.code == KeyCode::Char('s'))) ==> (key_edit(key) matches Some(op)
                ==> {
                &&& applied(&old(self).buffer, &final(self).buffer, op)
                &&& final(self).file.dirty
                &&& !final(self).pending_quit_confirm
                &&& final(self).message is None
                &&& final(self).should_quit == old(self).should_quit
                &&& final(self).screen == revealed_screen(old(self).screen, final(self).buffer.view_cursor())
                &&& res is Redraw
            }),
            moved_cursor(old(self).buffer.lines(), old(self).buffer.view_cursor(), key.code) matches Some(c) ==> {
                &&& final(self).buffer.same_but_cursor(&old(self).buffer)
                &&& final(self).buffer.view_cursor() == c
                &&& final(self).file == old(self).file
                &&& final(self).message == old(self).message
                &&& final(self).screen == revealed_screen(old(self).screen, c)
                &&& res is Redraw
            },
    {
        let code = key.code;
        if key.ctrl && code == KeyCode::Char('q') {
            return if self.handle_quit() { KeyOutcome::Redraw } else { KeyOutcome::Nothing };
        }
        if key.ctrl && code == KeyCode::Char('s') {
            return KeyOutcome::Save(self.save_request());
        }
        match code {
            KeyCode::Enter => {
                self.apply_edit(BufferOp::Newline);
                KeyOutcome::Redraw
            },
            KeyCode::Backspace => {
                self.apply_edit(BufferOp::DeleteBack);
                KeyOutcome::Redraw
            },
            KeyCode::Delete => {
                self.apply_edit(BufferOp::DeleteForward);
                KeyOutcome::Redraw
            },
            KeyCode::Char(c) => {
                if key.ctrl {
                    if c == 'z' && !key.shift {
                        self.apply_edit(BufferOp::Undo);
                    } else if (c == 'z' || c == 'Z') && key.shift {
                        self.apply_edit(BufferOp::Redo);
                    } else if c == 'y' {
                        self.apply_edit(BufferOp::Redo);
                    } else {
                        self.reveal_cursor();
                    }
                } else if c == '\n' || c == '\r' {
                    self.apply_edit(BufferOp::Newline);
                } else if !crate::autocomplete::is_control(c) {
                    let ch = if key.shift { crate::keys::ascii_upper(c) } else { c };
                    self.apply_edit(BufferOp::Insert(ch));
                } else {
                    self.reveal_cursor();
                }
                KeyOutcome::Redraw
            },
            KeyCode::Left => {
                self.buffer.move_left();
                self.reveal_cursor();
                KeyOutcome::Redraw
            },
            KeyCode::Right => {
                self.buffer.move_right();
                self.reveal_cursor();
                KeyOutcome::Redraw
            },
            KeyCode::Up => {
                self.buffer.move_up();
                self.reveal_cursor();
                KeyOutcome::Redraw
            },
            KeyCode::Down => {
                self.buffer.move_down();
                self.reveal_cursor();
                KeyOutcome::Redraw
            },
            _ => KeyOutcome::Nothing,
        }
    }
}

} // verus!
