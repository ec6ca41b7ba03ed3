//! Several open buffers: the inactive ones wait in a ring, each keeping its
//! own file state, cursor, history, selection, marks, message and viewport.

use vstd::prelude::*;

use crate::app::{App, FileState};
use crate::buffer::TextBuffer;
use crate::external_diff::ExternalChanges;
use crate::inline_clanker::ChangeHistory;
use crate::selection::Selection;

verus! {

/// Everything that belongs to one buffer while another is active.
pub struct BufferSlot {
    pub buffer: TextBuffer,
    pub file: FileState,
    pub message: Option<String>,
    pub selection: Selection,
    pub external_changes: ExternalChanges,
    pub clanker_changes: ChangeHistory,
    pub scroll_top: usize,
    pub scroll_left: usize,
    pub wrap_col: usize,
}

/// What opening a path found among the open buffers.
#[derive(Clone, Copy, Debug, PartialEq, Eq, Structural)]
pub enum OpenExisting {
    AlreadyActive,
    Switched,
    NotOpen,
}

/// The file state names `path`.
pub open spec fn file_has_path(f: FileState, path: Seq<char>) -> bool {
    f.path matches Some(p) && p@ == path
}

fn path_is(p: &Option<String>, path: &str) -> (res: bool)
    ensures
        res == (*p matches Some(x) && x@ == path@),
{
    match p {
        Some(x) => {
            let wanted = String::from_str(path);
            *x == wanted
        },
        None => false,
    }
}

/// Which way to rotate the ring.
#[derive(Clone, Copy, Debug, PartialEq, Eq, Structural)]
pub enum BufferDirection {
    Next,
    Previous,
}


/// `a + b`, saturated at `usize::MAX`.
pub open spec fn sat_add(a: int, b: int) -> int {
    if a + b > usize::MAX {
        usize::MAX as int
    } else {
        a + b
    }
}

/// How many buffers are open: the active one and the waiting ones
/// (saturated at `usize::MAX`).
pub open spec fn buffer_count_spec(app: &App) -> int {
    sat_add(app.inactive_buffers@.len() as int, 1)
}

/// How many of the given slots are dirty.
pub open spec fn dirty_slots(slots: Seq<BufferSlot>) -> nat
    decreases slots.len(),
{
    if slots.len() == 0 {
        0
    } else {
        dirty_slots(slots.drop_last()) + if slots.last().file.dirty { 1nat } else { 0nat }
    }
}

/// How many open buffers are dirty.
pub open spec fn dirty_count_spec(app: &App) -> nat {
    (if app.file.dirty { 1nat } else { 0nat }) + dirty_slots(app.inactive_buffers@)
}

/// The active buffer's state as a slot.
pub open spec fn active_slot(app: &App) -> BufferSlot {
    BufferSlot {
        buffer: app.buffer,
        file: app.file,
        message: app.message,
        selection: app.selection,
        external_changes: app.external_changes,
        clanker_changes: app.clanker_changes,
        scroll_top: app.screen.scroll_top,
        scroll_left: app.screen.scroll_left,
        wrap_col: app.screen.wrap_col,
    }
}

/// All open buffers in ring order, the active one first.
pub open spec fn ring(app: &App) -> Seq<BufferSlot> {
    seq![active_slot(app)] + app.inactive_buffers@
}

/// What switching away leaves of the active buffer's message: transient
/// confirmations and closed previews take theirs with them.
pub open spec fn message_after_leaving(app: &App) -> Option<String> {
    if app.pending_quit_confirm || app.llm_preview is Some || app.surfaces.llm_answer is Some {
        None
    } else {
        app.message
    }
}

/// The view of the active buffer once an inline-workflow page it showed
/// is closed.
pub open spec fn screen_after_leaving(app: &App) -> crate::screen::Screen {
    match app.inline_clanker.phase() {
        Some(ph) => crate::inline_clanker::restored_screen(app.screen, ph),
        None => app.screen,
    }
}

/// The ring as it is left when switching away: the active slot keeps its
/// state, with the view a workflow page replaced, but not a transient
/// message.
pub open spec fn ring_left(app: &App) -> Seq<BufferSlot> {
    seq![
        BufferSlot {
            message: message_after_leaving(app),
            scroll_top: screen_after_leaving(app).scroll_top,
            scroll_left: screen_after_leaving(app).scroll_left,
            wrap_col: screen_after_leaving(app).wrap_col,
            ..active_slot(app)
        },
    ] + app.inactive_buffers@
}

/// The ring turned one step: the next buffer becomes active.
pub open spec fn rotate_next(r: Seq<BufferSlot>) -> Seq<BufferSlot> {
    r.skip(1).push(r[0])
}

/// The ring turned one step back: the previous buffer becomes active.
pub open spec fn rotate_previous(r: Seq<BufferSlot>) -> Seq<BufferSlot> {
    seq![r.last()] + r.drop_last()
}

impl App {
    pub fn buffer_count(&self) -> (res: usize)
        ensures
            res == buffer_count_spec(self),
    {
        self.inactive_buffers.len().saturating_add(1)
    }

    /// How many open buffers are dirty (saturated at `usize::MAX`).
    pub fn dirty_buffer_count(&self) -> (res: usize)
        ensures
            res == (if dirty_count_spec(self) <= usize::MAX { dirty_count_spec(self) as int } else { usize::MAX as int }),
    {
        let mut count: usize = if self.file.dirty { 1 } else { 0 };
        let mut i: usize = 0;
        proof {
            assert(self.inactive_buffers@.take(0) =~= Seq::<BufferSlot>::empty());
        }
        while i < self.inactive_buffers.len()
            invariant
                0 <= i <= self.inactive_buffers@.len(),
                ({
                    let exact = (if self.file.dirty { 1nat } else { 0nat }) + dirty_slots(self.inactive_buffers@.take(i as int));
                    count == (if exact <= usize::MAX { exact as int } else { usize::MAX as int })
                }),
            decreases self.inactive_buffers@.len() - i,
        {
            proof {
                assert(self.inactive_buffers@.take(i + 1).drop_last() =~= self.inactive_buffers@.take(i as int));
            }
            if self.inactive_buffers[i].file.dirty && count < usize::MAX {
                count = count + 1;
            }
            i += 1;
        }
        proof {
            assert(self.inactive_buffers@.take(self.inactive_buffers@.len() as int) =~= self.inactive_buffers@);
        }
        count
    }

    /// Ends everything transient that belongs to the buffer being left.
    fn leave_active_buffer(&mut self)
        ensures
            final(self).message == message_after_leaving(old(self)),
            !final(self).pending_quit_confirm,
            final(self).llm_preview is None,
            final(self).surfaces.llm_answer is None,
            final(self).surfaces.help == old(self).surfaces.help,
            final(self).pending_llm_request is None,
            final(self).llm_task is None,
            final(self).external_command.running is None,
            final(self).external_command.preview is None,
            final(self).hooks.queue@.len() == 0,
            final(self).hooks.active is None,
            final(self).autocomplete.running is None,
            final(self).autocomplete.suggestion is None,
            final(self).buffer == old(self).buffer,
            final(self).file == old(self).file,
            final(self).selection == old(self).selection,
            final(self).external_changes == old(self).external_changes,
            final(self).clanker_changes == old(self).clanker_changes,
            final(self).inline_clanker.phase() is None,
            final(self).screen == screen_after_leaving(old(self)),
            final(self).inactive_buffers == old(self).inactive_buffers,
            final(self).active_buffer_index == old(self).active_buffer_index,
            final(self).next_buffer_id == old(self).next_buffer_id,
            final(self).pending_save_conflict == old(self).pending_save_conflict,
            final(self).pending_reload == old(self).pending_reload,
            final(self).command_prompt == old(self).command_prompt,
            final(self).should_quit == old(self).should_quit,
    {
        crate::autocomplete::invalidate(self);
        if self.llm_preview.is_some() {
            self.llm_preview = None;
            self.message = None;
        }
        if self.surfaces.llm_answer.is_some() {
            self.surfaces.llm_answer = None;
            self.message = None;
        }
        self.pending_llm_request = None;
        self.llm_task = None;
        crate::inline_clanker::cancel_all(self);
        crate::external_command::cancel_all(self);
        crate::hooks::cancel_all(self);
        if self.pending_quit_confirm {
            self.message = None;
            self.pending_quit_confirm = false;
        }
    }

    /// Makes the next (or previous) buffer of the ring active; the one left
    /// keeps its state. With a single buffer nothing changes.
    pub fn switch_buffer(&mut self, direction: BufferDirection) -> (switched: bool)
        requires
            old(self).wf(),
        ensures
            final(self).wf(),
            final(self).pending_quit_confirm ==> old(self).pending_quit_confirm,
            final(self).pending_save_conflict == old(self).pending_save_conflict,
            final(self).pending_reload == old(self).pending_reload,
            final(self).should_quit == old(self).should_quit,
            final(self).screen.width == old(self).screen.width,
            final(self).screen.height == old(self).screen.height,
            switched <==> old(self).inactive_buffers@.len() > 0,
            !switched ==> *final(self) == *old(self),
            dirty_count_spec(final(self)) == dirty_count_spec(old(self)),
            final(self).inactive_buffers@.len() == old(self).inactive_buffers@.len(),
            switched && direction == BufferDirection::Next ==> ring(final(self)) == rotate_next(ring_left(old(self))),
            switched && direction == BufferDirection::Previous ==> ring(final(self)) == rotate_previous(ring_left(old(self))),
            switched ==> final(self).active_buffer_index == (if direction == BufferDirection::Next {
                sat_add(old(self).active_buffer_index as int, 1) % buffer_count_spec(old(self))
            } else {
                sat_add(old(self).active_buffer_index as int, buffer_count_spec(old(self)) - 1) % buffer_count_spec(old(self))
            }),
            switched ==> !final(self).pending_quit_confirm && final(self).hooks.active is None
                && final(self).hooks.queue@.len() == 0 && final(self).external_command.running is None
                && final(self).autocomplete.suggestion is None && final(self).llm_preview is None
                && final(self).inline_clanker.phase() is None,
    {
        if self.inactive_buffers.len() == 0 {
            return false;
        }
        self.leave_active_buffer();
        let ghost left = ring(self);
        let count = self.buffer_count();
        match direction {
            BufferDirection::Next => {
                let mut slot = self.inactive_buffers.remove(0);
                swap_with_active(&mut slot, self);
                self.inactive_buffers.push(slot);
                proof {
                    assert(ring(self) =~= rotate_next(left));
                }
                self.active_buffer_index = self.active_buffer_index.saturating_add(1) % count;
            },
            BufferDirection::Previous => {
                let last = self.inactive_buffers.len() - 1;
                let mut slot = self.inactive_buffers.remove(last);
                swap_with_active(&mut slot, self);
                self.inactive_buffers.insert(0, slot);
                proof {
                    assert(ring(self) =~= rotate_previous(left));
                }
                self.active_buffer_index = self.active_buffer_index.saturating_add(count - 1) % count;
            },
        }
        proof {
            assert(left =~= ring_left(old(self)));
            assert forall|i: int| 0 <= i < self.inactive_buffers@.len() implies (#[trigger] self.inactive_buffers@[i]).buffer.wf() by {
                assert(self.inactive_buffers@[i] == ring(self)[i + 1]);
                if direction == BufferDirection::Next {
                    assert(ring(self)[i + 1] == left[i + 2 - (if i + 2 >= left.len() { left.len() as int } else { 0 })]) by {
                        assert(ring(self) == rotate_next(left));
                    }
                } else {
                    assert(ring(self)[i + 1] == left[i]) by {
                        assert(ring(self) == rotate_previous(left));
                    }
                }
                assert(left[0].buffer == old(self).buffer);
            }
            assert(self.buffer == ring(self)[0].buffer);
            lemma_rotation_keeps_dirty(old(self), self);
        }
        true
    }
}

/// Exchanges the slot's state with the active buffer's.
fn swap_with_active(slot: &mut BufferSlot, app: &mut App)
    ensures
        active_slot(final(app)) == *old(slot),
        *final(slot) == active_slot(old(app)),
        *final(app) == (App {
            buffer: old(slot).buffer,
            file: old(slot).file,
            message: old(slot).message,
            selection: old(slot).selection,
            external_changes: old(slot).external_changes,
            clanker_changes: old(slot).clanker_changes,
            screen: crate::screen::Screen {
                scroll_top: old(slot).scroll_top,
                scroll_left: old(slot).scroll_left,
                wrap_col: old(slot).wrap_col,
                ..old(app).screen
            },
            ..*old(app)
        }),
{
    std::mem::swap(&mut slot.buffer, &mut app.buffer);
    std::mem::swap(&mut slot.file, &mut app.file);
    std::mem::swap(&mut slot.message, &mut app.message);
    std::mem::swap(&mut slot.selection, &mut app.selection);
    std::mem::swap(&mut slot.external_changes, &mut app.external_changes);
    std::mem::swap(&mut slot.clanker_changes, &mut app.clanker_changes);
    std::mem::swap(&mut slot.scroll_top, &mut app.screen.scroll_top);
    std::mem::swap(&mut slot.scroll_left, &mut app.screen.scroll_left);
    std::mem::swap(&mut slot.wrap_col, &mut app.screen.wrap_col);
}


/// How closing ended.
#[derive(Clone, Copy, Debug, PartialEq, Eq, Structural)]
pub enum CloseBufferOutcome {
    Closed,
    Dirty,
}

/// A clean buffer holding `text`, as a slot with its own id.
fn make_slot(app: &mut App, path: Option<&str>, text: &str) -> (res: BufferSlot)
    ensures
        res.buffer.wf(),
        res.buffer.text() == text@,
        res.buffer.view_cursor() == (crate::buffer::Cursor { row: 0, col: 0 }),
        res.buffer.undo_states().len() == 0,
        res.buffer.redo_states().len() == 0,
        !res.file.dirty,
        res.file.saved_history_position == res.buffer.history_position(),
        res.file.buffer_id == old(app).next_buffer_id,
        res.file.content_generation == 0,
        (match path {
            Some(p) => res.file.path matches Some(q) && q@ == p@,
            None => res.file.path is None,
        }),
        res.message is None,
        res.selection.anchor is None,
        res.scroll_top == 0 && res.scroll_left == 0 && res.wrap_col == 0,
        forall|p: u64| res.clanker_changes.at(p) is None,
        *final(app) == (App {
            next_buffer_id: if old(app).next_buffer_id == u64::MAX { u64::MAX } else { (old(app).next_buffer_id + 1) as u64 },
            ..*old(app)
        }),
{
    let buffer = TextBuffer::from_text(text);
    let pos = buffer.edit_history_position();
    let id = app.next_buffer_id;
    app.next_buffer_id = app.next_buffer_id.saturating_add(1);
    BufferSlot {
        buffer,
        file: FileState {
            path: match path {
                Some(p) => Some(String::from_str(p)),
                None => None,
            },
            dirty: false,
            saved_history_position: pos,
            buffer_id: id,
            content_generation: 0,
        },
        message: None,
        selection: crate::selection::Selection::new(),
        external_changes: ExternalChanges::new(),
        clanker_changes: ChangeHistory::new(),
        scroll_top: 0,
        scroll_left: 0,
        wrap_col: 0,
    }
}

impl App {
    /// Another file given at startup waits at the end of the ring.
    pub fn add_inactive_buffer(&mut self, path: &str, text: &str)
        requires
            old(self).wf(),
        ensures
            final(self).wf(),
            final(self).inactive_buffers@.len() == old(self).inactive_buffers@.len() + 1,
            final(self).inactive_buffers@.drop_last() == old(self).inactive_buffers@,
            final(self).inactive_buffers@.last().buffer.text() == text@,
            final(self).inactive_buffers@.last().file.path matches Some(q) && q@ == path@,
            final(self).buffer == old(self).buffer,
            final(self).file == old(self).file,
    {
        let slot = make_slot(self, Some(path), text);
        self.inactive_buffers.push(slot);
        proof {
            assert forall|i: int| 0 <= i < self.inactive_buffers@.len() implies (#[trigger] self.inactive_buffers@[i]).buffer.wf() by {
                if i < old(self).inactive_buffers@.len() {
                    assert(self.inactive_buffers@[i] == old(self).inactive_buffers@[i]);
                }
            }
        }
    }

    /// Opening `path` when a buffer already holds it: the active one stays,
    /// an inactive one becomes active by turning the ring forward to it, and
    /// otherwise nothing changes and the caller reads the file.
    pub fn open_existing(&mut self, path: &str) -> (res: OpenExisting)
        requires
            old(self).wf(),
        ensures
            final(self).wf(),
            res is AlreadyActive <==> file_has_path(old(self).file, path@),
            res is NotOpen <==> !file_has_path(old(self).file, path@) && forall|i: int|
                0 <= i < old(self).inactive_buffers@.len() ==> !file_has_path(
                    (#[trigger] old(self).inactive_buffers@[i]).file,
                    path@,
                ),
            !(res is Switched) ==> *final(self) == *old(self),
            res is Switched ==> exists|i: int|
                0 <= i < old(self).inactive_buffers@.len() && file_has_path(
                    (#[trigger] old(self).inactive_buffers@[i]).file,
                    path@,
                ) && (forall|j: int| 0 <= j < i ==> !file_has_path(old(self).inactive_buffers@[j].file, path@))
                    && final(self).buffer == old(self).inactive_buffers@[i].buffer && final(self).file
                    == old(self).inactive_buffers@[i].file,
            final(self).inactive_buffers@.len() == old(self).inactive_buffers@.len(),
            dirty_count_spec(final(self)) == dirty_count_spec(old(self)),
    {
        if path_is(&self.file.path, path) {
            return OpenExisting::AlreadyActive;
        }
        let n = self.inactive_buffers.len();
        let mut pos: usize = 0;
        while pos < n && !path_is(&self.inactive_buffers[pos].file.path, path)
            invariant
                0 <= pos <= n == self.inactive_buffers@.len(),
                forall|j: int| 0 <= j < pos ==> !file_has_path(self.inactive_buffers@[j].file, path@),
            decreases n - pos,
        {
            pos += 1;
        }
        if pos == n {
            return OpenExisting::NotOpen;
        }
        let ghost start = *self;
        let mut k: usize = 0;
        while k <= pos
            invariant
                0 <= k <= pos + 1,
                pos < n,
                self.wf(),
                self.inactive_buffers@.len() == n,
                n == start.inactive_buffers@.len(),
                k > 0 ==> self.buffer == start.inactive_buffers@[k - 1].buffer && self.file
                    == start.inactive_buffers@[k - 1].file,
                k == 0 ==> *self == start,
                forall|j: int| k <= j < n ==> self.inactive_buffers@[j - k].buffer == #[trigger] start.inactive_buffers@[j].buffer
                    && self.inactive_buffers@[j - k].file == start.inactive_buffers@[j].file,
                dirty_count_spec(self) == dirty_count_spec(&start),
            decreases pos + 1 - k,
        {
            let ghost mid = *self;
            self.switch_buffer(BufferDirection::Next);
            proof {
                lemma_next_active(&mid, self);
                lemma_rotation_keeps_dirty(&mid, self);
                assert forall|j: int| k + 1 <= j < n implies self.inactive_buffers@[j - (k + 1)].buffer
                    == #[trigger] start.inactive_buffers@[j].buffer && self.inactive_buffers@[j - (k + 1)].file
                    == start.inactive_buffers@[j].file by {
                    let d = mid.inactive_buffers@.drop_first().push(ring_left(&mid)[0]);
                    assert(self.inactive_buffers@ == d);
                    assert(d[j - (k + 1)] == mid.inactive_buffers@[j - k]);
                    assert(mid.inactive_buffers@[j - k].buffer == start.inactive_buffers@[j].buffer);
                    assert(mid.inactive_buffers@[j - k].file == start.inactive_buffers@[j].file);
                }
                assert(mid.inactive_buffers@[0].buffer == start.inactive_buffers@[k as int].buffer);
            }
            k += 1;
        }
        OpenExisting::Switched
    }

    /// Opens `text` read from `path` in a new active buffer; the previous one
    /// keeps its place in the ring. Queues the open hooks.
    pub fn open_buffer_with_text(&mut self, path: &str, text: &str)
        requires
            old(self).wf(),
        ensures
            final(self).wf(),
            final(self).pending_save_conflict == old(self).pending_save_conflict,
            final(self).pending_reload == old(self).pending_reload,
            final(self).buffer.text() == text@,
            final(self).file.path matches Some(q) && q@ == path@,
            !final(self).file.dirty,
            final(self).inactive_buffers@.len() == old(self).inactive_buffers@.len() + 1,
            final(self).inactive_buffers@.last() == ring_left(old(self))[0],
    {
        let slot = make_slot(self, Some(path), text);
        self.inactive_buffers.insert(0, slot);
        proof {
            assert forall|i: int| 0 <= i < self.inactive_buffers@.len() implies (#[trigger] self.inactive_buffers@[i]).buffer.wf() by {
                if i > 0 {
                    assert(self.inactive_buffers@[i] == old(self).inactive_buffers@[i - 1]);
                }
            }
        }
        let ghost mid = *self;
        self.switch_buffer(BufferDirection::Next);
        proof {
            lemma_next_active(&mid, self);
            assert(mid.inactive_buffers@.drop_first() =~= old(self).inactive_buffers@);
        }
        crate::hooks::trigger_open(self);
        let mut m: Vec<char> = Vec::new();
        crate::status::push_str(&mut m, "Opened ");
        crate::status::push_str(&mut m, path);
        crate::status::push_str(&mut m, ".");
        self.message_info(crate::text::string_of(&m));
    }

    /// A new untitled buffer becomes active; the previous one keeps its place.
    pub fn new_file_buffer(&mut self)
        requires
            old(self).wf(),
        ensures
            final(self).wf(),
            final(self).pending_quit_confirm ==> old(self).pending_quit_confirm,
            final(self).pending_save_conflict == old(self).pending_save_conflict,
            final(self).pending_reload == old(self).pending_reload,
            final(self).buffer.text() == Seq::<char>::empty(),
            final(self).file.path is None,
            !final(self).file.dirty,
            final(self).inactive_buffers@.len() == old(self).inactive_buffers@.len() + 1,
            final(self).inactive_buffers@.last() == ring_left(old(self))[0],
            final(self).message matches Some(m) && m@ == "New untitled buffer."@,
    {
        proof {
            reveal_strlit("");
        }
        let slot = make_slot(self, None, "");
        self.inactive_buffers.insert(0, slot);
        proof {
            assert forall|i: int| 0 <= i < self.inactive_buffers@.len() implies (#[trigger] self.inactive_buffers@[i]).buffer.wf() by {
                if i > 0 {
                    assert(self.inactive_buffers@[i] == old(self).inactive_buffers@[i - 1]);
                }
            }
        }
        let ghost mid = *self;
        self.switch_buffer(BufferDirection::Next);
        proof {
            lemma_next_active(&mid, self);
            assert(mid.inactive_buffers@.drop_first() =~= old(self).inactive_buffers@);
        }
        self.message_info(String::from_str("New untitled buffer."));
    }

    /// Closes the active buffer: a dirty one only when forced. The next
    /// buffer of the ring becomes active; closing the last leaves a blank one.
    pub fn close_active_buffer(&mut self, force: bool) -> (res: CloseBufferOutcome)
        requires
            old(self).wf(),
        ensures
            final(self).wf(),
            final(self).pending_quit_confirm ==> old(self).pending_quit_confirm,
            final(self).pending_save_conflict == old(self).pending_save_conflict,
            final(self).pending_reload == old(self).pending_reload,
            old(self).file.dirty && !force ==> res == CloseBufferOutcome::Dirty && final(self).buffer == old(self).buffer
                && final(self).file == old(self).file && final(self).inactive_buffers == old(self).inactive_buffers
                && (final(self).message matches Some(m) && m@ == "Buffer has unsaved changes. Save it or use close! to discard."@)
                && final(self).message_role == crate::status::StatusRole::Warning,
            !(old(self).file.dirty && !force) ==> {
                &&& res == CloseBufferOutcome::Closed
                &&& old(self).inactive_buffers@.len() > 0 ==> active_slot(final(self)) == old(self).inactive_buffers@[0]
                    .clone_with_message(Some(final(self).message->0))
                    && final(self).inactive_buffers@ == old(self).inactive_buffers@.drop_first()
                &&& old(self).inactive_buffers@.len() == 0 ==> final(self).buffer.text() == Seq::<char>::empty()
                    && final(self).file.path is None && final(self).inactive_buffers@.len() == 0 && !final(self).file.dirty
                    && final(self).buffer.undo_states().len() == 0 && final(self).buffer.redo_states().len() == 0
                &&& final(self).message matches Some(m) && m@ == "Buffer closed."@
                &&& final(self).active_buffer_index < buffer_count_spec(final(self))
                &&& !final(self).pending_quit_confirm
                &&& final(self).hooks.active is None
                &&& final(self).external_command.running is None
                &&& final(self).lint.running is None
            },
    {
        if self.file.dirty && !force {
            self.message_warning(String::from_str("Buffer has unsaved changes. Save it or use close! to discard."));
            return CloseBufferOutcome::Dirty;
        }
        crate::external_command::cancel_all(self);
        crate::hooks::cancel_all(self);
        crate::inline_clanker::cancel_all(self);
        crate::llm::cancel_all(self);
        self.lint.running = None;
        let old_count = self.buffer_count();
        let mut replacement = if self.inactive_buffers.len() == 0 {
            proof {
                reveal_strlit("");
            }
            make_slot(self, None, "")
        } else {
            self.inactive_buffers.remove(0)
        };
        let ghost before_swap = *self;
        swap_with_active(&mut replacement, self);
        proof {
            assert forall|i: int| 0 <= i < self.inactive_buffers@.len() implies (#[trigger] self.inactive_buffers@[i]).buffer.wf() by {
                assert(self.inactive_buffers@[i] == old(self).inactive_buffers@[i + 1]);
            }
        }
        let new_count = self.buffer_count();
        self.active_buffer_index = if old_count == 1 || self.active_buffer_index >= new_count { 0 } else { self.active_buffer_index };
        self.pending_quit_confirm = false;
        self.message_info(String::from_str("Buffer closed."));
        CloseBufferOutcome::Closed
    }
}

/// After turning the ring forward, the first waiting buffer is active and
/// the one left waits last.
proof fn lemma_dirty_slots_concat(a: Seq<BufferSlot>, b: Seq<BufferSlot>)
    ensures
        dirty_slots(a + b) == dirty_slots(a) + dirty_slots(b),
    decreases b.len(),
{
    if b.len() > 0 {
        lemma_dirty_slots_concat(a, b.drop_last());
        assert((a + b).drop_last() =~= a + b.drop_last());
        assert((a + b).last() == b.last());
    } else {
        assert(a + b =~= a);
    }
}

proof fn lemma_dirty_single(x: BufferSlot)
    ensures
        dirty_slots(seq![x]) == (if x.file.dirty { 1nat } else { 0nat }),
{
    assert(seq![x].drop_last() =~= Seq::<BufferSlot>::empty());
    assert(seq![x].last() == x);
    assert(dirty_slots(Seq::<BufferSlot>::empty()) == 0);
}

proof fn lemma_dirty_ring(app: &App)
    ensures
        dirty_slots(ring(app)) == dirty_count_spec(app),
        dirty_slots(ring_left(app)) == dirty_count_spec(app),
{
    lemma_dirty_slots_concat(seq![active_slot(app)], app.inactive_buffers@);
    lemma_dirty_slots_concat(seq![ring_left(app)[0]], app.inactive_buffers@);
    assert(ring_left(app) =~= seq![ring_left(app)[0]] + app.inactive_buffers@);
    lemma_dirty_single(active_slot(app));
    lemma_dirty_single(ring_left(app)[0]);
}

/// Whether a waiting buffer is dirty, as a predicate to filter by.
pub open spec fn dirty_slot() -> spec_fn(BufferSlot) -> bool {
    |s: BufferSlot| s.file.dirty
}

proof fn lemma_dirty_slots_filter(slots: Seq<BufferSlot>)
    ensures
        dirty_slots(slots) == slots.filter(dirty_slot()).len(),
    decreases slots.len(),
{
    if slots.len() == 0 {
        reveal(Seq::filter);
    } else {
        lemma_dirty_slots_filter(slots.drop_last());
        let sub = slots.drop_last().filter(dirty_slot());
        reveal(Seq::filter);
        assert(slots.filter(dirty_slot()) == (if dirty_slot()(slots.last()) {
            sub.push(slots.last())
        } else {
            sub
        }));
    }
}

/// The dirty count is the active buffer's dirtiness plus the number of dirty
/// waiting buffers.
pub proof fn dirty_count_counts(app: &App)
    ensures
        dirty_count_spec(app) == (if app.file.dirty { 1nat } else { 0nat }) + app.inactive_buffers@.filter(dirty_slot()).len(),
{
    lemma_dirty_slots_filter(app.inactive_buffers@);
}

/// Turning the ring, either way, leaves as many buffers dirty as before:
/// switching buffers never saves or dirties one.
pub proof fn lemma_rotation_keeps_dirty(before: &App, after: &App)
    requires
        before.inactive_buffers@.len() > 0,
        ring(after) == rotate_next(ring_left(before)) || ring(after) == rotate_previous(ring_left(before)),
    ensures
        dirty_count_spec(after) == dirty_count_spec(before),
{
    let l = ring_left(before);
    lemma_dirty_ring(before);
    lemma_dirty_ring(after);
    lemma_dirty_single(l[0]);
    lemma_dirty_single(l.last());
    if ring(after) == rotate_next(l) {
        lemma_dirty_slots_concat(l.skip(1), seq![l[0]]);
        lemma_dirty_slots_concat(seq![l[0]], l.skip(1));
        assert(l =~= seq![l[0]] + l.skip(1));
        assert(l.skip(1).push(l[0]) =~= l.skip(1) + seq![l[0]]);
    } else {
        lemma_dirty_slots_concat(seq![l.last()], l.drop_last());
        assert(dirty_slots(l) == dirty_slots(l.drop_last()) + (if l.last().file.dirty { 1nat } else { 0nat }));
    }
}

pub proof fn lemma_next_active(before: &App, after: &App)
    requires
        before.inactive_buffers@.len() > 0,
        ring(after) == rotate_next(ring_left(before)),
    ensures
        active_slot(after) == before.inactive_buffers@[0],
        after.inactive_buffers@ == before.inactive_buffers@.drop_first().push(ring_left(before)[0]),
{
    let l = ring_left(before);
    assert(ring(after)[0] == active_slot(after));
    assert(rotate_next(l)[0] == l[1]);
    assert(l[1] == before.inactive_buffers@[0]);
    assert(after.inactive_buffers@ =~= ring(after).drop_first());
    assert(rotate_next(l).drop_first() =~= before.inactive_buffers@.drop_first().push(l[0]));
}

impl BufferSlot {
    /// The same slot with another message.
    pub open spec fn clone_with_message(self, m: Option<String>) -> BufferSlot {
        BufferSlot { message: m, ..self }
    }
}

/// Where the slot at `j` came from after `k` forward turns of a ring of `n`.
pub open spec fn turned_index(j: int, k: int, n: int) -> int {
    if j + k < n {
        j + k
    } else {
        j + k - n
    }
}

/// Two slots hold the same buffer and file state.
pub open spec fn same_buffer(a: BufferSlot, b: BufferSlot) -> bool {
    a.buffer == b.buffer && a.file == b.file
}

proof fn lemma_turns(states: Seq<App>, k: int)
    requires
        0 <= k < states.len(),
        k <= ring(&states[0]).len(),
        forall|i: int| 0 <= i < states.len() - 1 ==> ring(&states[i + 1]) == rotate_next(ring_left(&states[i])),
    ensures
        ring(&states[k]).len() == ring(&states[0]).len(),
        forall|j: int| 0 <= j < ring(&states[0]).len() ==> same_buffer(
            #[trigger] ring(&states[k])[j],
            ring(&states[0])[turned_index(j, k, ring(&states[0]).len() as int)],
        ),
    decreases k,
{
    let n = ring(&states[0]).len() as int;
    if k > 0 {
        lemma_turns(states, k - 1);
        let prev = &states[k - 1];
        let l = ring_left(prev);
        assert(ring(&states[k]) == rotate_next(l));
        assert forall|j: int| 0 <= j < n implies same_buffer(
            #[trigger] ring(&states[k])[j],
            ring(&states[0])[turned_index(j, k, n)],
        ) by {
            let jp = if j + 1 < n { j + 1 } else { 0 };
            assert(ring(&states[k])[j] == l[jp]);
            assert(same_buffer(l[jp], ring(prev)[jp]));
            assert(same_buffer(ring(prev)[jp], ring(&states[0])[turned_index(jp, k - 1, n)]));
            assert(turned_index(jp, k - 1, n) == turned_index(j, k, n));
        }
    }
}

/// Turning the ring forward once per open buffer brings every buffer back to
/// its place: the one that was active is active again, and each waiting one
/// waits where it did, with its text, history and file state.
pub proof fn full_turn_returns(states: Seq<App>)
    requires
        states.len() == states[0].inactive_buffers@.len() + 2,
        forall|i: int| 0 <= i < states.len() - 1 ==> ring(&states[i + 1]) == rotate_next(ring_left(&states[i])),
    ensures
        states.last().buffer == states[0].buffer,
        states.last().file == states[0].file,
        states.last().inactive_buffers@.len() == states[0].inactive_buffers@.len(),
        forall|j: int| 0 <= j < states[0].inactive_buffers@.len() ==> same_buffer(
            #[trigger] states.last().inactive_buffers@[j],
            states[0].inactive_buffers@[j],
        ),
{
    let n = ring(&states[0]).len() as int;
    let k = states.len() - 1;
    lemma_turns(states, k);
    assert(ring(&states[k])[0] == active_slot(&states[k]));
    assert(same_buffer(ring(&states[k])[0], ring(&states[0])[turned_index(0, k, n)]));
    assert forall|j: int| 0 <= j < states[0].inactive_buffers@.len() implies same_buffer(
        #[trigger] states.last().inactive_buffers@[j],
        states[0].inactive_buffers@[j],
    ) by {
        assert(same_buffer(ring(&states[k])[j + 1], ring(&states[0])[turned_index(j + 1, k, n)]));
        assert(ring(&states[k])[j + 1] == states.last().inactive_buffers@[j]);
    }
}

/// Switching to the next buffer and then back to the previous one returns
/// to the buffer that was active, and every open buffer keeps its text,
/// history, file state, selection, marks and view; only a message that
/// switching away drops may be gone, and a workflow page that was shown
/// gives back the view it replaced.
pub proof fn next_then_previous(before: &App, mid: &App, after: &App)
    requires
        before.inactive_buffers@.len() > 0,
        ring(mid) == rotate_next(ring_left(before)),
        mid.inline_clanker.phase() is None,
        ring(after) == rotate_previous(ring_left(mid)),
    ensures
        ring(after).len() == ring(before).len(),
        forall|i: int| 0 <= i < ring(before).len() ==> (BufferSlot { message: None, ..#[trigger] ring(after)[i] }) == (
        BufferSlot { message: None, ..ring_left(before)[i] }),
        after.buffer == before.buffer,
        after.file == before.file,
{
    let l = ring_left(before);
    let m = ring_left(mid);
    assert(ring(mid).len() == l.len());
    assert(m.len() == ring(mid).len());
    assert(ring(after).len() == m.len());
    assert forall|i: int| 0 <= i < ring(before).len() implies (BufferSlot { message: None, ..#[trigger] ring(after)[i] }) == (
    BufferSlot { message: None, ..ring_left(before)[i] }) by {
        assert(ring(mid)[0] == active_slot(mid));
        assert(m[0] == BufferSlot { message: message_after_leaving(mid), ..active_slot(mid) });
        assert(screen_after_leaving(mid) == mid.screen);
        if i == 0 {
            assert(ring(after)[0] == m[m.len() - 1]);
            assert(m[m.len() - 1] == ring(mid)[ring(mid).len() - 1]);
            assert(ring(mid)[ring(mid).len() - 1] == l[0]);
        } else {
            assert(ring(after)[i] == m[i - 1]);
            if i == 1 {
                assert(m[0].buffer == ring(mid)[0].buffer);
                assert(ring(mid)[0] == l[1]);
            } else {
                assert(m[i - 1] == ring(mid)[i - 1]);
                assert(ring(mid)[i - 1] == l[i]);
            }
        }
    }
    assert(ring(after)[0] == active_slot(after));
    assert(ring(before)[0] == active_slot(before));
}

} // verus!
