//! The editable text buffer: lines of scalars, a cursor, and an undo/redo
//! history whose positions identify the exact content revision in history.

use vstd::prelude::*;

use crate::lines::{
    col_at, join_lines, lemma_join_split, lemma_join_take_grows, lemma_join_take_step,
    lemma_offset_bound, lemma_offset_monotone, lemma_split_prefix, lemma_split_wf, lemma_text_before, lines_wf,
    offset_of, row_at, split_lines,
};

verus! {

/// A 0-based (row, column) position; the column counts Unicode scalars.
#[derive(Clone, Copy, Debug, PartialEq, Eq, Structural)]
pub struct Cursor {
    pub row: usize,
    pub col: usize,
}

/// `a` is at or before `b` in reading order.
pub open spec fn cursor_le(a: Cursor, b: Cursor) -> bool {
    a.row < b.row || (a.row == b.row && a.col <= b.col)
}

/// `c` names a position inside `lines` (a column may sit just past the last scalar).
pub open spec fn cursor_valid(lines: Seq<Seq<char>>, c: Cursor) -> bool {
    c.row < lines.len() && c.col <= lines[c.row as int].len()
}

/// Offset of a cursor in the joined text of `lines`.
pub open spec fn cursor_offset(lines: Seq<Seq<char>>, c: Cursor) -> int {
    offset_of(lines, c.row as int, c.col as int)
}

/// `c` is the position of scalar offset `p` of `text`.
pub open spec fn cursor_at(text: Seq<char>, p: int, c: Cursor) -> bool {
    c.row == row_at(text, p) && c.col == col_at(text, p)
}

/// `lines` with the scalars between two positions replaced by `ins`, re-split into lines.
pub open spec fn replaced_text(lines: Seq<Seq<char>>, start: Cursor, end: Cursor, ins: Seq<char>) -> Seq<char> {
    join_lines(lines).take(cursor_offset(lines, start)) + ins + join_lines(lines).skip(
        cursor_offset(lines, end),
    )
}

/// `x + 1`, wrapping to 0 at the top of the range.
pub open spec fn bump(x: u64) -> u64 {
    if x < u64::MAX {
        (x + 1) as u64
    } else {
        0
    }
}

/// The leftward neighbour of a position: previous scalar, or the end of the previous line.
pub open spec fn left_of(lines: Seq<Seq<char>>, c: Cursor) -> Cursor {
    if c.col > 0 {
        Cursor { row: c.row, col: (c.col - 1) as usize }
    } else if c.row > 0 {
        Cursor { row: (c.row - 1) as usize, col: lines[c.row - 1].len() as usize }
    } else {
        c
    }
}

/// The rightward neighbour of a position: next scalar, or the start of the next line.
pub open spec fn right_of(lines: Seq<Seq<char>>, c: Cursor) -> Cursor {
    if c.col < lines[c.row as int].len() {
        Cursor { row: c.row, col: (c.col + 1) as usize }
    } else if c.row + 1 < lines.len() {
        Cursor { row: (c.row + 1) as usize, col: 0 }
    } else {
        c
    }
}

/// Moving one row up or down keeps the column where the target line allows it.
pub open spec fn vertical_of(lines: Seq<Seq<char>>, c: Cursor, down: bool) -> Cursor {
    if down && c.row + 1 < lines.len() {
        Cursor {
            row: (c.row + 1) as usize,
            col: if c.col <= lines[c.row + 1].len() { c.col } else { lines[c.row + 1].len() as usize },
        }
    } else if !down && c.row > 0 {
        Cursor {
            row: (c.row - 1) as usize,
            col: if c.col <= lines[c.row - 1].len() { c.col } else { lines[c.row - 1].len() as usize },
        }
    } else {
        c
    }
}

/// The nearest valid position to `c`.
pub open spec fn clamp_cursor(lines: Seq<Seq<char>>, c: Cursor) -> Cursor {
    let row = if c.row < lines.len() { c.row } else { (lines.len() - 1) as usize };
    Cursor { row, col: if c.col <= lines[row as int].len() { c.col } else { lines[row as int].len() as usize } }
}

/// One recorded buffer state: content, cursor, and history position.
pub struct EditState {
    pub lines: Seq<Seq<char>>,
    pub cursor: Cursor,
    pub position: u64,
}

struct Snapshot {
    lines: Vec<Vec<char>>,
    cursor: Cursor,
    position: u64,
}

/// Why an edit was refused.
#[derive(Clone, Copy, Debug, PartialEq, Eq, Structural)]
pub enum EditError {
    /// A position lies outside the text or the range is reversed.
    InvalidRange,
}

/// Lines of scalars with a cursor and a linear undo/redo history.
pub struct TextBuffer {
    lines: Vec<Vec<char>>,
    cursor: Cursor,
    position: u64,
    next_position: u64,
    revision: u64,
    undo: Vec<Snapshot>,
    redo: Vec<Snapshot>,
}

pub open spec fn view_lines(v: Seq<Vec<char>>) -> Seq<Seq<char>> {
    v.map_values(|l: Vec<char>| l@)
}

spec fn snapshot_state(s: Snapshot) -> EditState {
    EditState { lines: view_lines(s.lines@), cursor: s.cursor, position: s.position }
}

pub open spec fn state_wf(s: EditState) -> bool {
    lines_wf(s.lines) && cursor_valid(s.lines, s.cursor)
}

impl TextBuffer {
    pub closed spec fn lines(&self) -> Seq<Seq<char>> {
        view_lines(self.lines@)
    }

    /// The whole text with '\n' between lines.
    pub open spec fn text(&self) -> Seq<char> {
        join_lines(self.lines())
    }

    pub closed spec fn view_cursor(&self) -> Cursor {
        self.cursor
    }

    pub closed spec fn history_position(&self) -> u64 {
        self.position
    }

    pub closed spec fn fresh_position(&self) -> u64 {
        self.next_position
    }

    pub closed spec fn revision(&self) -> u64 {
        self.revision
    }

    pub open spec fn state(&self) -> EditState {
        EditState { lines: self.lines(), cursor: self.view_cursor(), position: self.history_position() }
    }

    /// States that undo returns to, oldest first.
    pub closed spec fn undo_states(&self) -> Seq<EditState> {
        self.undo@.map_values(|s: Snapshot| snapshot_state(s))
    }

    /// States that redo returns to, the next one last.
    pub closed spec fn redo_states(&self) -> Seq<EditState> {
        self.redo@.map_values(|s: Snapshot| snapshot_state(s))
    }

    pub open spec fn wf(&self) -> bool {
        &&& state_wf(self.state())
        &&& forall|i: int| 0 <= i < self.undo_states().len() ==> state_wf(#[trigger] self.undo_states()[i])
        &&& forall|i: int| 0 <= i < self.redo_states().len() ==> state_wf(#[trigger] self.redo_states()[i])
    }

    /// The same content, cursor, history and revision.
    pub open spec fn same(&self, other: &TextBuffer) -> bool {
        &&& self.state() == other.state()
        &&& self.undo_states() == other.undo_states()
        &&& self.redo_states() == other.redo_states()
        &&& self.revision() == other.revision()
        &&& self.fresh_position() == other.fresh_position()
    }

    /// Only the cursor differs.
    pub open spec fn same_but_cursor(&self, other: &TextBuffer) -> bool {
        &&& self.lines() == other.lines()
        &&& self.history_position() == other.history_position()
        &&& self.undo_states() == other.undo_states()
        &&& self.redo_states() == other.redo_states()
        &&& self.revision() == other.revision()
        &&& self.fresh_position() == other.fresh_position()
    }

    /// A buffer holding `text`, cursor at the start, empty history at position 0.
    pub fn from_chars(text: &Vec<char>) -> (res: TextBuffer)
        ensures
            res.wf(),
            res.lines() == split_lines(text@),
            res.text() == text@,
            res.view_cursor() == (Cursor { row: 0, col: 0 }),
            res.history_position() == 0,
            res.fresh_position() == 1,
            res.revision() == 0,
            res.undo_states().len() == 0,
            res.redo_states().len() == 0,
    {
        let (lines, _c) = split_text(text, 0);
        proof {
            lemma_split_wf(text@);
            lemma_join_split(text@);
        }
        let res = TextBuffer {
            lines,
            cursor: Cursor { row: 0, col: 0 },
            position: 0,
            next_position: 1,
            revision: 0,
            undo: Vec::new(),
            redo: Vec::new(),
        };
        proof {
            assert(res.undo_states() =~= Seq::<EditState>::empty());
            assert(res.redo_states() =~= Seq::<EditState>::empty());
        }
        res
    }

    /// A buffer holding `text`, cursor at the start, empty history at position 0.
    pub fn from_text(text: &str) -> (res: TextBuffer)
        ensures
            res.wf(),
            res.text() == text@,
            res.lines() == split_lines(text@),
            res.view_cursor() == (Cursor { row: 0, col: 0 }),
            res.history_position() == 0,
            res.undo_states().len() == 0,
            res.redo_states().len() == 0,
    {
        let chars = crate::text::chars_of(text);
        Self::from_chars(&chars)
    }

    /// An empty buffer.
    pub fn new() -> (res: TextBuffer)
        ensures
            res.wf(),
            res.text() == Seq::<char>::empty(),
            res.view_cursor() == (Cursor { row: 0, col: 0 }),
            res.history_position() == 0,
            res.undo_states().len() == 0,
            res.redo_states().len() == 0,
    {
        let v: Vec<char> = Vec::new();
        let res = Self::from_chars(&v);
        proof {
            assert(split_lines(v@) == seq![Seq::<char>::empty()]);
        }
        res
    }

    pub fn cursor(&self) -> (c: Cursor)
        ensures
            c == self.view_cursor(),
    {
        self.cursor
    }

    pub fn edit_history_position(&self) -> (p: u64)
        ensures
            p == self.history_position(),
    {
        self.position
    }

    /// Counts every content change, including undo and redo.
    pub fn content_revision(&self) -> (r: u64)
        ensures
            r == self.revision(),
    {
        self.revision
    }

    pub fn line_count(&self) -> (n: usize)
        requires
            self.wf(),
        ensures
            n == self.lines().len(),
            n >= 1,
    {
        self.lines.len()
    }

    /// Number of scalars on `row`, or None past the last line.
    pub fn line_char_count(&self, row: usize) -> (n: Option<usize>)
        ensures
            row < self.lines().len() ==> n == Some(self.lines()[row as int].len() as usize),
            row >= self.lines().len() ==> n is None,
    {
        if row < self.lines.len() {
            Some(self.lines[row].len())
        } else {
            None
        }
    }

    /// The scalars of `row`, or None past the last line.
    pub fn line(&self, row: usize) -> (res: Option<Vec<char>>)
        ensures
            row < self.lines().len() ==> (res matches Some(l) && l@ == self.lines()[row as int]),
            row >= self.lines().len() ==> res is None,
    {
        if row < self.lines.len() {
            Some(copy_chars(&self.lines[row]))
        } else {
            None
        }
    }

    /// A buffer with the same lines, cursor at the start and no history:
    /// scratch space for working out edits before one of them is applied.
    pub fn detached_copy(&self) -> (res: TextBuffer)
        requires
            self.wf(),
        ensures
            res.wf(),
            res.lines() == self.lines(),
            res.undo_states().len() == 0,
            res.redo_states().len() == 0,
    {
        let mut lines: Vec<Vec<char>> = Vec::new();
        let mut i: usize = 0;
        while i < self.lines.len()
            invariant
                0 <= i <= self.lines@.len(),
                view_lines(lines@) == view_lines(self.lines@).take(i as int),
            decreases self.lines@.len() - i,
        {
            let ghost before = lines@;
            let line = copy_chars(&self.lines[i]);
            lines.push(line);
            proof {
                assert(lines@ =~= before.push(line));
                assert(view_lines(lines@) =~= view_lines(before).push(line@));
                assert(view_lines(self.lines@).take(i + 1) =~= view_lines(self.lines@).take(i as int).push(
                    self.lines@[i as int]@,
                ));
            }
            i += 1;
        }
        proof {
            assert(view_lines(self.lines@).take(self.lines@.len() as int) =~= view_lines(self.lines@));
        }
        let res = TextBuffer {
            lines,
            cursor: Cursor { row: 0, col: 0 },
            position: 0,
            next_position: 1,
            revision: 0,
            undo: Vec::new(),
            redo: Vec::new(),
        };
        proof {
            assert(res.undo_states() =~= Seq::<EditState>::empty());
            assert(res.redo_states() =~= Seq::<EditState>::empty());
        }
        res
    }

    /// The position just past the last scalar.
    pub fn end_cursor(&self) -> (res: Cursor)
        requires
            self.wf(),
        ensures
            res.row == self.lines().len() - 1,
            res.col == self.lines().last().len(),
    {
        let last = self.lines.len() - 1;
        Cursor { row: last, col: self.lines[last].len() }
    }

    /// All lines, borrowed.
    pub fn line_vec(&self) -> (res: &Vec<Vec<char>>)
        ensures
            view_lines(res@) == self.lines(),
    {
        &self.lines
    }

    /// The whole text.
    pub fn to_chars(&self) -> (res: Vec<char>)
        requires
            self.wf(),
        ensures
            res@ == self.text(),
    {
        let c = Cursor { row: 0, col: 0 };
        let (text, _a, _b) = self.join_with_offsets(c, c);
        text
    }

    /// The whole text as an owned string.
    pub fn to_string(&self) -> (res: String)
        requires
            self.wf(),
        ensures
            res@ == self.text(),
    {
        let chars = self.to_chars();
        crate::text::string_of(&chars)
    }

    /// Moves the cursor to the nearest valid position to `c`.
    pub fn set_cursor(&mut self, c: Cursor)
        requires
            old(self).wf(),
        ensures
            final(self).wf(),
            final(self).same_but_cursor(old(self)),
            final(self).view_cursor() == clamp_cursor(old(self).lines(), c),
    {
        let row = if c.row < self.lines.len() {
            c.row
        } else {
            self.lines.len() - 1
        };
        let len = self.lines[row].len();
        let col = if c.col <= len {
            c.col
        } else {
            len
        };
        self.cursor = Cursor { row, col };
        proof {
            assert(self.undo_states() =~= old(self).undo_states());
            assert(self.redo_states() =~= old(self).redo_states());
        }
    }

    pub fn move_left(&mut self)
        requires
            old(self).wf(),
        ensures
            final(self).wf(),
            final(self).same_but_cursor(old(self)),
            final(self).view_cursor() == left_of(old(self).lines(), old(self).view_cursor()),
    {
        let c = self.cursor;
        if c.col > 0 {
            self.cursor = Cursor { row: c.row, col: c.col - 1 };
        } else if c.row > 0 {
            let len = self.lines[c.row - 1].len();
            self.cursor = Cursor { row: c.row - 1, col: len };
        }
        proof {
            assert(self.undo_states() =~= old(self).undo_states());
            assert(self.redo_states() =~= old(self).redo_states());
        }
    }

    pub fn move_right(&mut self)
        requires
            old(self).wf(),
        ensures
            final(self).wf(),
            final(self).same_but_cursor(old(self)),
            final(self).view_cursor() == right_of(old(self).lines(), old(self).view_cursor()),
    {
        let c = self.cursor;
        let n = self.lines.len();
        if c.col < self.lines[c.row].len() {
            self.cursor = Cursor { row: c.row, col: c.col + 1 };
        } else if c.row + 1 < n {
            self.cursor = Cursor { row: c.row + 1, col: 0 };
        }
        proof {
            assert(self.undo_states() =~= old(self).undo_states());
            assert(self.redo_states() =~= old(self).redo_states());
        }
    }

    fn move_vertical(&mut self, down: bool)
        requires
            old(self).wf(),
        ensures
            final(self).wf(),
            final(self).same_but_cursor(old(self)),
            final(self).view_cursor() == vertical_of(old(self).lines(), old(self).view_cursor(), down),
    {
        let c = self.cursor;
        let n = self.lines.len();
        if down && c.row + 1 < n {
            let len = self.lines[c.row + 1].len();
            self.cursor = Cursor { row: c.row + 1, col: if c.col <= len { c.col } else { len } };
        } else if !down && c.row > 0 {
            let len = self.lines[c.row - 1].len();
            self.cursor = Cursor { row: c.row - 1, col: if c.col <= len { c.col } else { len } };
        }
        proof {
            assert(self.undo_states() =~= old(self).undo_states());
            assert(self.redo_states() =~= old(self).redo_states());
        }
    }

    pub fn move_up(&mut self)
        requires
            old(self).wf(),
        ensures
            final(self).wf(),
            final(self).same_but_cursor(old(self)),
            final(self).view_cursor() == vertical_of(old(self).lines(), old(self).view_cursor(), false),
    {
        self.move_vertical(false)
    }

    pub fn move_down(&mut self)
        requires
            old(self).wf(),
        ensures
            final(self).wf(),
            final(self).same_but_cursor(old(self)),
            final(self).view_cursor() == vertical_of(old(self).lines(), old(self).view_cursor(), true),
    {
        self.move_vertical(true)
    }

    /// The text and the offsets of two valid positions in it.
    fn join_with_offsets(&self, a: Cursor, b: Cursor) -> (res: (Vec<char>, usize, usize))
        requires
            self.wf(),
            cursor_valid(self.lines(), a),
            cursor_valid(self.lines(), b),
        ensures
            res.0@ == self.text(),
            res.1 == cursor_offset(self.lines(), a),
            res.2 == cursor_offset(self.lines(), b),
    {
        let ghost ls = self.lines();
        let mut out: Vec<char> = Vec::new();
        let mut oa: usize = 0;
        let mut ob: usize = 0;
        let n = self.lines.len();
        let mut i: usize = 0;
        while i < n
            invariant
                ls == self.lines(),
                n == ls.len(),
                lines_wf(ls),
                0 <= i <= n,
                cursor_valid(ls, a),
                cursor_valid(ls, b),
                i >= 1 ==> out@ == join_lines(ls.take(i as int)),
                i == 0 ==> out@.len() == 0,
                a.row < i ==> oa == cursor_offset(ls, a),
                b.row < i ==> ob == cursor_offset(ls, b),
            decreases n - i,
        {
            let ghost before = out@;
            if i > 0 {
                out.push('\n');
            }
            let line = &self.lines[i];
            assert(line@ == ls[i as int]);
            let mut j: usize = 0;
            let ghost base = out@;
            while j < line.len()
                invariant
                    0 <= j <= line@.len(),
                    out@ == base + line@.take(j as int),
                decreases line@.len() - j,
            {
                out.push(line[j]);
                proof {
                    assert(line@.take(j + 1) =~= line@.take(j as int).push(line@[j as int]));
                }
                j += 1;
            }
            proof {
                assert(line@.take(line@.len() as int) =~= line@);
                if i == 0 {
                    assert(ls.take(1) =~= seq![ls[0]]);
                    assert(out@ =~= ls[0]);
                } else {
                    lemma_join_take_step(ls, i as int);
                }
            }
            let len = line.len();
            if a.row == i {
                oa = out.len() - (len - a.col);
                proof {
                    if i > 0 {
                        assert(out@.len() == before.len() + 1 + len);
                    }
                }
            }
            if b.row == i {
                ob = out.len() - (len - b.col);
                proof {
                    if i > 0 {
                        assert(out@.len() == before.len() + 1 + len);
                    }
                }
            }
            i += 1;
        }
        proof {
            assert(ls.take(n as int) =~= ls);
        }
        (out, oa, ob)
    }

    /// Replaces the scalars from `start` to `end` by `ins` as one undoable step.
    /// Returns whether the text changed; an unchanged text records no history.
    pub fn replace_range(&mut self, start: Cursor, end: Cursor, ins: &[char]) -> (res: Result<bool, EditError>)
        requires
            old(self).wf(),
        ensures
            final(self).wf(),
            !(cursor_valid(old(self).lines(), start) && cursor_valid(old(self).lines(), end)
                && cursor_le(start, end)) <==> res is Err,
            res is Err ==> final(self).same(old(self)),
            res matches Ok(changed) ==> (changed <==> replaced_text(old(self).lines(), start, end, ins@) != old(self).text()),
            res matches Ok(changed) && !changed ==> final(self).same(old(self)),
            res matches Ok(changed) && changed ==> {
                let t = replaced_text(old(self).lines(), start, end, ins@);
                &&& final(self).lines() == split_lines(t)
                &&& final(self).text() == t
                &&& cursor_at(t, cursor_offset(old(self).lines(), start) + ins@.len(), final(self).view_cursor())
                &&& final(self).history_position() == old(self).fresh_position()
                &&& final(self).fresh_position() == bump(old(self).fresh_position())
                &&& final(self).revision() == bump(old(self).revision())
                &&& final(self).undo_states() == old(self).undo_states().push(old(self).state())
                &&& final(self).redo_states().len() == 0
            },
    {
        let n = self.lines.len();
        if !(start.row < n && end.row < n && start.col <= self.lines[start.row].len()
            && end.col <= self.lines[end.row].len() && (start.row < end.row || (start.row
            == end.row && start.col <= end.col))) {
            return Err(EditError::InvalidRange);
        }
        let ghost ls = self.lines();
        let (text, o1, o2) = self.join_with_offsets(start, end);
        proof {
            lemma_offset_monotone(ls, start.row as int, start.col as int, end.row as int, end.col as int);
            lemma_offset_bound(ls, end.row as int, end.col as int);
        }
        let mut out: Vec<char> = Vec::new();
        let mut i: usize = 0;
        while i < o1
            invariant
                o1 <= text@.len(),
                0 <= i <= o1,
                out@ == text@.take(i as int),
            decreases o1 - i,
        {
            out.push(text[i]);
            proof {
                assert(text@.take(i + 1) =~= text@.take(i as int).push(text@[i as int]));
            }
            i += 1;
        }
        let mut k: usize = 0;
        while k < ins.len()
            invariant
                0 <= k <= ins@.len(),
                out@ == text@.take(o1 as int) + ins@.take(k as int),
            decreases ins@.len() - k,
        {
            out.push(ins[k]);
            proof {
                assert(ins@.take(k + 1) =~= ins@.take(k as int).push(ins@[k as int]));
            }
            k += 1;
        }
        let mid = out.len();
        let mut m: usize = o2;
        while m < text.len()
            invariant
                o2 <= m <= text@.len(),
                out@ == text@.take(o1 as int) + ins@ + text@.subrange(o2 as int, m as int),
                mid == o1 + ins@.len(),
            decreases text@.len() - m,
        {
            out.push(text[m]);
            proof {
                assert(text@.subrange(o2 as int, m + 1) =~= text@.subrange(o2 as int, m as int).push(
                    text@[m as int],
                ));
            }
            m += 1;
        }
        proof {
            assert(ins@.take(ins@.len() as int) =~= ins@);
            assert(text@.subrange(o2 as int, text@.len() as int) =~= text@.skip(o2 as int));
            assert(out@ =~= replaced_text(ls, start, end, ins@));
        }
        if chars_equal(&out, &text) {
            return Ok(false);
        }
        let (mut new_lines, pos) = split_text(&out, mid);
        proof {
            lemma_split_wf(out@);
            lemma_join_split(out@);
            lemma_split_prefix(out@, mid as int);
        }
        let ghost old_state = self.state();
        let ghost old_undo = self.undo_states();
        std::mem::swap(&mut self.lines, &mut new_lines);
        let snap = Snapshot { lines: new_lines, cursor: self.cursor, position: self.position };
        self.undo.push(snap);
        self.redo = Vec::new();
        self.cursor = pos;
        self.position = self.next_position;
        self.next_position = if self.next_position < u64::MAX {
            self.next_position + 1
        } else {
            0
        };
        self.revision = if self.revision < u64::MAX {
            self.revision + 1
        } else {
            0
        };
        proof {
            assert(self.undo_states() =~= old_undo.push(old_state));
            assert(self.redo_states() =~= Seq::<EditState>::empty());
            assert forall|i: int| 0 <= i < self.undo_states().len() implies state_wf(
                #[trigger] self.undo_states()[i],
            ) by {
                if i < old_undo.len() {
                    assert(self.undo_states()[i] == old_undo[i]);
                }
            }
        }
        Ok(true)
    }

    /// The scalars between two positions.
    pub fn text_range(&self, start: Cursor, end: Cursor) -> (res: Result<Vec<char>, EditError>)
        requires
            self.wf(),
        ensures
            !(cursor_valid(self.lines(), start) && cursor_valid(self.lines(), end) && cursor_le(
                start,
                end,
            )) <==> res is Err,
            res matches Ok(t) ==> t@ == self.text().subrange(
                cursor_offset(self.lines(), start),
                cursor_offset(self.lines(), end),
            ),
    {
        let n = self.lines.len();
        if !(start.row < n && end.row < n && start.col <= self.lines[start.row].len()
            && end.col <= self.lines[end.row].len() && (start.row < end.row || (start.row
            == end.row && start.col <= end.col))) {
            return Err(EditError::InvalidRange);
        }
        let ghost ls = self.lines();
        let (text, o1, o2) = self.join_with_offsets(start, end);
        proof {
            lemma_offset_monotone(ls, start.row as int, start.col as int, end.row as int, end.col as int);
            lemma_offset_bound(ls, end.row as int, end.col as int);
        }
        let mut out: Vec<char> = Vec::new();
        let mut i: usize = o1;
        while i < o2
            invariant
                o1 <= i <= o2,
                o2 <= text@.len(),
                out@ == text@.subrange(o1 as int, i as int),
            decreases o2 - i,
        {
            out.push(text[i]);
            proof {
                assert(text@.subrange(o1 as int, i + 1) =~= text@.subrange(o1 as int, i as int).push(
                    text@[i as int],
                ));
            }
            i += 1;
        }
        Ok(out)
    }

    /// Inserts one scalar at the cursor as one undoable step.
    pub fn insert_char(&mut self, ch: char)
        requires
            old(self).wf(),
        ensures
            final(self).wf(),
            final(self).text() == replaced_text(
                old(self).lines(),
                old(self).view_cursor(),
                old(self).view_cursor(),
                seq![ch],
            ),
            cursor_at(final(self).text(), cursor_offset(old(self).lines(), old(self).view_cursor()) + 1, final(self).view_cursor()),
            final(self).history_position() == old(self).fresh_position(),
            final(self).undo_states() == old(self).undo_states().push(old(self).state()),
            final(self).redo_states().len() == 0,
    {
        let c = self.cursor;
        let v = vec![ch];
        proof {
            lemma_insert_changes(old(self).lines(), c, v@);
        }
        assert(v@ =~= seq![ch]);
        let r = self.replace_range(c, c, v.as_slice());
        assert(r matches Ok(changed) && changed);
    }

    /// Inserts a line break at the cursor as one undoable step.
    pub fn insert_newline(&mut self)
        requires
            old(self).wf(),
        ensures
            final(self).wf(),
            final(self).text() == replaced_text(
                old(self).lines(),
                old(self).view_cursor(),
                old(self).view_cursor(),
                seq!['\n'],
            ),
            final(self).history_position() == old(self).fresh_position(),
            final(self).undo_states() == old(self).undo_states().push(old(self).state()),
    {
        self.insert_char('\n')
    }

    /// Deletes the scalar (or line break) before the cursor; at the very start nothing changes.
    pub fn delete_back(&mut self) -> (changed: bool)
        requires
            old(self).wf(),
        ensures
            final(self).wf(),
            changed ==> final(self).text() == replaced_text(
                old(self).lines(),
                left_of(old(self).lines(), old(self).view_cursor()),
                old(self).view_cursor(),
                Seq::empty(),
            ),
            !changed <==> old(self).view_cursor() == (Cursor { row: 0, col: 0 }),
            !changed ==> final(self).same(old(self)),
            changed ==> cursor_at(
                final(self).text(),
                cursor_offset(old(self).lines(), left_of(old(self).lines(), old(self).view_cursor())),
                final(self).view_cursor(),
            ),
    {
        let c = self.cursor;
        if c.row == 0 && c.col == 0 {
            return false;
        }
        let start = if c.col > 0 {
            Cursor { row: c.row, col: c.col - 1 }
        } else {
            Cursor { row: c.row - 1, col: self.lines[c.row - 1].len() }
        };
        let empty: Vec<char> = Vec::new();
        assert(empty@ =~= Seq::<char>::empty());
        let r = self.replace_range(start, c, empty.as_slice());
        proof {
            let ls = old(self).lines();
            lemma_offset_monotone(ls, start.row as int, start.col as int, c.row as int, c.col as int);
            lemma_remove_nonempty_changes(ls, start, c);
            assert(r matches Ok(changed) && changed);
        }
        true
    }

    /// Deletes the scalar (or line break) after the cursor; at the very end nothing changes.
    pub fn delete_forward(&mut self) -> (changed: bool)
        requires
            old(self).wf(),
        ensures
            final(self).wf(),
            changed ==> final(self).text() == replaced_text(
                old(self).lines(),
                old(self).view_cursor(),
                right_of(old(self).lines(), old(self).view_cursor()),
                Seq::empty(),
            ),
            !changed <==> right_of(old(self).lines(), old(self).view_cursor()) == old(self).view_cursor(),
            !changed ==> final(self).same(old(self)),
            changed ==> cursor_at(final(self).text(), cursor_offset(old(self).lines(), old(self).view_cursor()), final(self).view_cursor()),
    {
        let c = self.cursor;
        let n = self.lines.len();
        let end = if c.col < self.lines[c.row].len() {
            Cursor { row: c.row, col: c.col + 1 }
        } else if c.row + 1 < n {
            Cursor { row: c.row + 1, col: 0 }
        } else {
            return false;
        };
        let empty: Vec<char> = Vec::new();
        assert(empty@ =~= Seq::<char>::empty());
        let r = self.replace_range(c, end, empty.as_slice());
        proof {
            let ls = old(self).lines();
            lemma_remove_nonempty_changes(ls, c, end);
            assert(r matches Ok(changed) && changed);
        }
        true
    }

    /// Returns to the previous recorded state; the current state becomes redoable.
    pub fn undo(&mut self) -> (changed: bool)
        requires
            old(self).wf(),
        ensures
            final(self).wf(),
            changed <==> old(self).undo_states().len() > 0,
            !changed ==> final(self).same(old(self)),
            changed ==> {
                &&& final(self).state() == old(self).undo_states().last()
                &&& final(self).undo_states() == old(self).undo_states().drop_last()
                &&& final(self).redo_states() == old(self).redo_states().push(old(self).state())
                &&& final(self).revision() == bump(old(self).revision())
                &&& final(self).fresh_position() == old(self).fresh_position()
            },
    {
        let ghost old_undo = self.undo_states();
        let ghost old_redo = self.redo_states();
        let ghost old_state = self.state();
        match self.undo.pop() {
            None => false,
            Some(snap) => {
                let Snapshot { lines: mut lines, cursor, position } = snap;
                std::mem::swap(&mut self.lines, &mut lines);
                let current = Snapshot { lines, cursor: self.cursor, position: self.position };
                self.redo.push(current);
                self.cursor = cursor;
                self.position = position;
                self.revision = if self.revision < u64::MAX {
                    self.revision + 1
                } else {
                    0
                };
                proof {
                    assert(self.undo_states() =~= old_undo.drop_last());
                    assert(self.redo_states() =~= old_redo.push(old_state));
                    assert(old_undo[old_undo.len() - 1] == old_undo.last());
                    assert forall|i: int| 0 <= i < self.undo_states().len() implies state_wf(
                        #[trigger] self.undo_states()[i],
                    ) by {
                        assert(self.undo_states()[i] == old_undo[i]);
                    }
                    assert forall|i: int| 0 <= i < self.redo_states().len() implies state_wf(
                        #[trigger] self.redo_states()[i],
                    ) by {
                        if i < old_redo.len() {
                            assert(self.redo_states()[i] == old_redo[i]);
                        }
                    }
                }
                true
            },
        }
    }

    /// Re-applies the most recently undone state.
    pub fn redo(&mut self) -> (changed: bool)
        requires
            old(self).wf(),
        ensures
            final(self).wf(),
            changed <==> old(self).redo_states().len() > 0,
            !changed ==> final(self).same(old(self)),
            changed ==> {
                &&& final(self).state() == old(self).redo_states().last()
                &&& final(self).redo_states() == old(self).redo_states().drop_last()
                &&& final(self).undo_states() == old(self).undo_states().push(old(self).state())
                &&& final(self).revision() == bump(old(self).revision())
                &&& final(self).fresh_position() == old(self).fresh_position()
            },
    {
        let ghost old_undo = self.undo_states();
        let ghost old_redo = self.redo_states();
        let ghost old_state = self.state();
        match self.redo.pop() {
            None => false,
            Some(snap) => {
                let Snapshot { lines: mut lines, cursor, position } = snap;
                std::mem::swap(&mut self.lines, &mut lines);
                let current = Snapshot { lines, cursor: self.cursor, position: self.position };
                self.undo.push(current);
                self.cursor = cursor;
                self.position = position;
                self.revision = if self.revision < u64::MAX {
                    self.revision + 1
                } else {
                    0
                };
                proof {
                    assert(self.redo_states() =~= old_redo.drop_last());
                    assert(self.undo_states() =~= old_undo.push(old_state));
                    assert(old_redo[old_redo.len() - 1] == old_redo.last());
                    assert forall|i: int| 0 <= i < self.redo_states().len() implies state_wf(
                        #[trigger] self.redo_states()[i],
                    ) by {
                        assert(self.redo_states()[i] == old_redo[i]);
                    }
                    assert forall|i: int| 0 <= i < self.undo_states().len() implies state_wf(
                        #[trigger] self.undo_states()[i],
                    ) by {
                        if i < old_undo.len() {
                            assert(self.undo_states()[i] == old_undo[i]);
                        }
                    }
                }
                true
            },
        }
    }
}

/// Inserting scalars always changes the text.
proof fn lemma_insert_changes(ls: Seq<Seq<char>>, c: Cursor, ins: Seq<char>)
    requires
        lines_wf(ls),
        cursor_valid(ls, c),
        ins.len() > 0,
    ensures
        replaced_text(ls, c, c, ins) != join_lines(ls),
{
    lemma_offset_bound(ls, c.row as int, c.col as int);
    let t = join_lines(ls);
    assert(replaced_text(ls, c, c, ins).len() == t.len() + ins.len());
}


/// After the scalars from `start` to `end` are removed, the cursor placed at
/// the removal's offset stands at `start`: nothing before it moved.
pub proof fn lemma_cursor_after_removal(ls: Seq<Seq<char>>, start: Cursor, end: Cursor, c: Cursor)
    requires
        lines_wf(ls),
        cursor_valid(ls, start),
        cursor_valid(ls, end),
        cursor_le(start, end),
        cursor_at(replaced_text(ls, start, end, Seq::empty()), cursor_offset(ls, start), c),
    ensures
        c == start,
{
    let t = join_lines(ls);
    let p = cursor_offset(ls, start);
    lemma_offset_bound(ls, start.row as int, start.col as int);
    lemma_text_before(ls, start.row as int, start.col as int);
    let r = replaced_text(ls, start, end, Seq::empty());
    assert(r.take(p) =~= t.take(p));
}

/// Removing a non-empty range always changes the text.
pub proof fn lemma_remove_nonempty_changes(ls: Seq<Seq<char>>, a: Cursor, b: Cursor)
    requires
        lines_wf(ls),
        cursor_valid(ls, a),
        cursor_valid(ls, b),
        cursor_le(a, b),
        a != b,
    ensures
        replaced_text(ls, a, b, Seq::empty()) != join_lines(ls),
{
    lemma_offset_monotone(ls, a.row as int, a.col as int, b.row as int, b.col as int);
    lemma_offset_bound(ls, b.row as int, b.col as int);
    lemma_offset_strict(ls, a, b);
    let t = join_lines(ls);
    let r = replaced_text(ls, a, b, Seq::empty());
    assert(r.len() == t.len() - (cursor_offset(ls, b) - cursor_offset(ls, a)));
}

/// Distinct valid positions have distinct offsets.
proof fn lemma_offset_strict(ls: Seq<Seq<char>>, a: Cursor, b: Cursor)
    requires
        lines_wf(ls),
        cursor_valid(ls, a),
        cursor_valid(ls, b),
        cursor_le(a, b),
        a != b,
    ensures
        cursor_offset(ls, a) < cursor_offset(ls, b),
{
    if a.row < b.row {
        lemma_join_take_grows(ls, a.row + 1, b.row as int);
        if a.row == 0 {
            assert(ls.take(1) =~= seq![ls[0]]);
        } else {
            lemma_join_take_step(ls, a.row as int);
        }
    }
}

/// Copies a scalar sequence.
pub fn copy_chars(v: &Vec<char>) -> (res: Vec<char>)
    ensures
        res@ == v@,
{
    let mut out: Vec<char> = Vec::new();
    let mut i: usize = 0;
    while i < v.len()
        invariant
            0 <= i <= v@.len(),
            out@ == v@.take(i as int),
        decreases v@.len() - i,
    {
        out.push(v[i]);
        proof {
            assert(v@.take(i + 1) =~= v@.take(i as int).push(v@[i as int]));
        }
        i += 1;
    }
    proof {
        assert(v@.take(v@.len() as int) =~= v@);
    }
    out
}

/// Whether two scalar sequences are equal.
pub fn chars_equal(a: &Vec<char>, b: &Vec<char>) -> (res: bool)
    ensures
        res == (a@ == b@),
{
    if a.len() != b.len() {
        return false;
    }
    let mut i: usize = 0;
    while i < a.len()
        invariant
            a@.len() == b@.len(),
            0 <= i <= a@.len(),
            forall|j: int| 0 <= j < i ==> a@[j] == b@[j],
        decreases a@.len() - i,
    {
        if a[i] != b[i] {
            return false;
        }
        i += 1;
    }
    proof {
        assert(a@ =~= b@);
    }
    true
}

/// Splits a text into lines and locates scalar offset `at`.
/// The lines of `t`, and the position of scalar offset `at` among them.
pub fn split_text(t: &Vec<char>, at: usize) -> (res: (Vec<Vec<char>>, Cursor))
    requires
        at <= t@.len(),
    ensures
        view_lines(res.0@) == split_lines(t@),
        cursor_at(t@, at as int, res.1),
{
    let mut done: Vec<Vec<char>> = Vec::new();
    let mut cur: Vec<char> = Vec::new();
    let mut pos = Cursor { row: 0, col: 0 };
    let mut i: usize = 0;
    proof {
        assert(t@.take(0) =~= Seq::<char>::empty());
        assert(view_lines(done@).push(cur@) =~= split_lines(t@.take(0)));
    }
    while i < t.len()
        invariant
            0 <= i <= t@.len(),
            at <= t@.len(),
            view_lines(done@).push(cur@) == split_lines(t@.take(i as int)),
            at < i ==> cursor_at(t@, at as int, pos),
        decreases t@.len() - i,
    {
        if i == at {
            pos = Cursor { row: done.len(), col: cur.len() };
            proof {
                let s = split_lines(t@.take(i as int));
                assert(s.len() == done@.len() + 1);
                assert(s.last() == cur@);
            }
        }
        let c = t[i];
        let ghost prev = view_lines(done@).push(cur@);
        proof {
            assert(t@.take(i + 1).drop_last() =~= t@.take(i as int));
            assert(t@.take(i + 1).last() == c);
        }
        if c == '\n' {
            let mut fresh: Vec<char> = Vec::new();
            std::mem::swap(&mut cur, &mut fresh);
            done.push(fresh);
            proof {
                assert(view_lines(done@).push(cur@) =~= prev.push(Seq::<char>::empty()));
            }
        } else {
            cur.push(c);
            proof {
                assert(view_lines(done@).push(cur@) =~= prev.update(prev.len() - 1, prev.last().push(c)));
            }
        }
        i += 1;
    }
    proof {
        assert(t@.take(t@.len() as int) =~= t@);
    }
    if at == t.len() {
        pos = Cursor { row: done.len(), col: cur.len() };
    }
    proof {
        assert(view_lines(done@).push(cur@) == split_lines(t@));
    }
    done.push(cur);
    proof {
        assert(view_lines(done@) =~= split_lines(t@));
    }
    (done, pos)
}

/// Undo after an edit brings back the state before it (text, cursor and
/// history position); redo after that brings back the edited state.
pub proof fn undo_redo_round_trip(before: &TextBuffer, edited: &TextBuffer, undone: &TextBuffer, redone: &TextBuffer)
    requires
        edited.undo_states() == before.undo_states().push(before.state()),
        undone.state() == edited.undo_states().last(),
        undone.redo_states() == edited.redo_states().push(edited.state()),
        redone.state() == undone.redo_states().last(),
    ensures
        undone.state() == before.state(),
        undone.text() == before.text(),
        redone.state() == edited.state(),
        redone.text() == edited.text(),
{
}

} // verus!
