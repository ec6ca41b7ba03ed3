//! The editor selection: an anchor that, with the cursor, spans a range.

use vstd::prelude::*;

use crate::app::App;
use crate::buffer::{clamp_cursor, cursor_le, Cursor};

verus! {

/// A selection is active while it has an anchor; the cursor is its other end.
pub struct Selection {
    pub anchor: Option<Cursor>,
}

/// The two ends in document order.
pub open spec fn ordered(a: Cursor, b: Cursor) -> (Cursor, Cursor) {
    if cursor_le(a, b) {
        (a, b)
    } else {
        (b, a)
    }
}

impl Selection {
    pub fn new() -> (res: Selection)
        ensures
            res.anchor is None,
    {
        Selection { anchor: None }
    }

    pub fn clear(&mut self)
        ensures
            final(self).anchor is None,
    {
        self.anchor = None;
    }

    /// The selected range with `cursor` as the moving end, in document order.
    pub fn active(&self, cursor: Cursor) -> (res: Option<(Cursor, Cursor)>)
        ensures
            self.anchor is None ==> res is None,
            self.anchor matches Some(a) ==> res == Some(ordered(a, cursor)),
    {
        match self.anchor {
            Some(a) => {
                if a.row < cursor.row || (a.row == cursor.row && a.col <= cursor.col) {
                    Some((a, cursor))
                } else {
                    Some((cursor, a))
                }
            },
            None => None,
        }
    }
}


/// Moves the cursor to `target`; extending keeps (or starts) the selection
/// at the old cursor, otherwise the selection ends.
pub fn move_to(app: &mut App, target: Cursor, extend: bool)
    requires
        old(app).buffer.wf(),
    ensures
        final(app).buffer.wf(),
        final(app).buffer.same_but_cursor(&old(app).buffer),
        final(app).buffer.view_cursor() == clamp_cursor(old(app).buffer.lines(), target),
        extend && old(app).selection.anchor is None ==> final(app).selection.anchor == Some(old(app).buffer.view_cursor()),
        extend && old(app).selection.anchor is Some ==> final(app).selection.anchor == old(app).selection.anchor,
        !extend ==> final(app).selection.anchor is None,
        final(app).file == old(app).file,
        final(app).inactive_buffers == old(app).inactive_buffers,
{
    crate::autocomplete::invalidate(app);
    if extend {
        if app.selection.anchor.is_none() {
            app.selection.anchor = Some(app.buffer.cursor());
        }
    } else {
        app.selection.clear();
    }
    app.buffer.set_cursor(target);
    app.reveal_cursor();
}
} // verus!
