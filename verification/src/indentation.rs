//! Indentation: a newline keeps the line's indent and adds a level after a
//! block opener; Tab and Shift+Tab indent or unindent whole selected lines
//! as one undoable edit.

use vstd::prelude::*;

use crate::app::App;
use crate::buffer::{clamp_cursor, cursor_at, cursor_le, cursor_offset, cursor_valid, replaced_text, Cursor, TextBuffer};
use crate::lines::split_lines;
use crate::lines::join_lines;
use crate::lint::{lead_ws, trail_ws, white_space};
use crate::selection::ordered;

verus! {

/// Terminal cells one scalar takes on its own: none for combining marks,
/// zero-width joiners and spaces, variation selectors and emoji skin-tone
/// modifiers; two for East Asian wide and fullwidth forms and for emoji;
/// one otherwise.
pub open spec fn scalar_cells(c: char) -> nat {
    let u = c as u32;
    if (0x0300 <= u <= 0x036F) || (0x1AB0 <= u <= 0x1AFF) || (0x1DC0 <= u <= 0x1DFF) || (0x200B <= u <= 0x200F)
        || (0x2060 <= u <= 0x2064) || (0x20D0 <= u <= 0x20FF) || (0xFE00 <= u <= 0xFE0F) || (0xFE20 <= u <= 0xFE2F)
        || (0x1F3FB <= u <= 0x1F3FF) || (0xE0100 <= u <= 0xE01EF) {
        0
    } else if (0x1100 <= u <= 0x115F) || (0x2E80 <= u <= 0x303E) || (0x3041 <= u <= 0x33FF) || (0x3400 <= u <= 0x4DBF)
        || (0x4E00 <= u <= 0x9FFF) || (0xA000 <= u <= 0xA4CF) || (0xAC00 <= u <= 0xD7A3) || (0xF900 <= u <= 0xFAFF)
        || (0xFE30 <= u <= 0xFE4F) || (0xFF00 <= u <= 0xFF60) || (0xFFE0 <= u <= 0xFFE6) || (0x1F300 <= u <= 0x1F64F)
        || (0x1F680 <= u <= 0x1F6FF) || (0x1F900 <= u <= 0x1F9FF) || (0x20000 <= u <= 0x3FFFD) {
        2
    } else {
        1
    }
}

/// The terminal cells that `s` covers from the start of a line: a tab
/// advances to the next multiple of four cells, and a scalar joined to the
/// one before it by a zero-width joiner draws inside that one.
pub open spec fn cells(s: Seq<char>) -> nat
    decreases s.len(),
{
    if s.len() == 0 {
        0
    } else {
        let prev = cells(s.drop_last());
        let c = s.last();
        if c == '\t' {
            (prev / 4 + 1) * 4
        } else if s.len() >= 2 && s[s.len() - 2] == '\u{200d}' {
            prev
        } else {
            prev + scalar_cells(c)
        }
    }
}

fn scalar_cell_count(c: char) -> (res: u128)
    ensures
        res == scalar_cells(c),
{
    let u = c as u32;
    if (0x0300 <= u && u <= 0x036F) || (0x1AB0 <= u && u <= 0x1AFF) || (0x1DC0 <= u && u <= 0x1DFF) || (0x200B <= u && u
        <= 0x200F) || (0x2060 <= u && u <= 0x2064) || (0x20D0 <= u && u <= 0x20FF) || (0xFE00 <= u && u <= 0xFE0F) || (
    0xFE20 <= u && u <= 0xFE2F) || (0x1F3FB <= u && u <= 0x1F3FF) || (0xE0100 <= u && u <= 0xE01EF) {
        0
    } else if (0x1100 <= u && u <= 0x115F) || (0x2E80 <= u && u <= 0x303E) || (0x3041 <= u && u <= 0x33FF) || (0x3400
        <= u && u <= 0x4DBF) || (0x4E00 <= u && u <= 0x9FFF) || (0xA000 <= u && u <= 0xA4CF) || (0xAC00 <= u && u
        <= 0xD7A3) || (0xF900 <= u && u <= 0xFAFF) || (0xFE30 <= u && u <= 0xFE4F) || (0xFF00 <= u && u <= 0xFF60) || (
    0xFFE0 <= u && u <= 0xFFE6) || (0x1F300 <= u && u <= 0x1F64F) || (0x1F680 <= u && u <= 0x1F6FF) || (0x1F900 <= u
        && u <= 0x1F9FF) || (0x20000 <= u && u <= 0x3FFFD) {
        2
    } else {
        1
    }
}

/// The terminal cells that the first `col` scalars of `line` cover.
pub fn cell_column(line: &Vec<char>, col: usize) -> (res: u128)
    requires
        col <= line@.len(),
    ensures
        res == cells(line@.take(col as int)),
{
    let mut total: u128 = 0;
    let mut i: usize = 0;
    while i < col
        invariant
            0 <= i <= col <= line@.len(),
            total == cells(line@.take(i as int)),
            total <= 4 * i,
        decreases col - i,
    {
        let c = line[i];
        proof {
            assert(line@.take(i + 1).drop_last() =~= line@.take(i as int));
            assert(line@.take(i + 1).last() == c);
            if i >= 1 {
                assert(line@.take(i + 1)[i - 1] == line@[i - 1]);
            }
        }
        if c == '\t' {
            total = (total / 4 + 1) * 4;
        } else if i >= 1 && line[i - 1] == '\u{200d}' {
        } else {
            total = total + scalar_cell_count(c);
        }
        i += 1;
    }
    total
}

/// `n` spaces.
pub open spec fn spaces(n: nat) -> Seq<char> {
    Seq::new(n, |i: int| ' ')
}

/// Whether text ending here opens a block: its last non-space scalar is one of `{ [ ( :`.
pub open spec fn opens_block(before: Seq<char>) -> bool {
    let t = before.take(before.len() - trail_ws(before));
    t.len() > 0 && (t.last() == '{' || t.last() == '[' || t.last() == '(' || t.last() == ':')
}

/// What Enter inserts at column `col` of `line`: a line break, the white
/// space that leads the line up to that column, and one more level after a
/// block opener.
pub open spec fn newline_text(line: Seq<char>, col: int, width: nat) -> Seq<char> {
    let before = line.take(if col < line.len() { col } else { line.len() as int });
    let prefix = before.take(lead_ws(before) as int);
    seq!['\n'] + prefix + (if opens_block(before) { spaces(width) } else { Seq::empty() })
}

/// Leading spaces among the first `width` scalars.
pub open spec fn lead_spaces(line: Seq<char>, width: nat) -> nat
    decreases width,
{
    if width == 0 || line.len() == 0 || line[0] != ' ' {
        0
    } else {
        1 + lead_spaces(line.drop_first(), (width - 1) as nat)
    }
}

/// How much one unindent removes: a leading tab, or up to `width` leading spaces.
pub open spec fn removable(line: Seq<char>, width: nat) -> nat {
    if line.len() > 0 && line[0] == '\t' {
        1
    } else {
        lead_spaces(line, width)
    }
}

/// A line after one indent or unindent.
pub open spec fn edited_line(line: Seq<char>, width: nat, unindent: bool) -> Seq<char> {
    if unindent {
        line.skip(removable(line, width) as int)
    } else {
        spaces(width) + line
    }
}

/// Lines `first..=last` after one indent or unindent.
pub open spec fn edited_lines(lines: Seq<Seq<char>>, first: int, last: int, width: nat, unindent: bool) -> Seq<Seq<char>> {
    Seq::new((last - first + 1) as nat, |k: int| edited_line(lines[first + k], width, unindent))
}

fn push_spaces(out: &mut Vec<char>, n: usize)
    ensures
        final(out)@ == old(out)@ + spaces(n as nat),
{
    let ghost start = out@;
    let mut i: usize = 0;
    while i < n
        invariant
            0 <= i <= n,
            out@ == start + spaces(i as nat),
        decreases n - i,
    {
        out.push(' ');
        i += 1;
        proof {
            assert(spaces(i as nat) =~= spaces((i - 1) as nat).push(' '));
        }
    }
}

fn count_lead_ws(line: &Vec<char>) -> (res: usize)
    ensures
        res == lead_ws(line@),
        res <= line@.len(),
{
    let mut i: usize = 0;
    proof {
        assert(line@.skip(0) =~= line@);
    }
    while i < line.len() && crate::lint::is_white_space(line[i])
        invariant
            0 <= i <= line@.len(),
            lead_ws(line@) == i + lead_ws(line@.skip(i as int)),
        decreases line@.len() - i,
    {
        proof {
            assert(line@.skip(i as int).drop_first() =~= line@.skip(i + 1));
            assert(line@.skip(i as int)[0] == line@[i as int]);
        }
        i += 1;
    }
    proof {
        if i < line@.len() {
            assert(line@.skip(i as int)[0] == line@[i as int]);
        }
    }
    i
}

fn block_opener_before(line: &Vec<char>, col: usize) -> (res: bool)
    requires
        col <= line@.len(),
    ensures
        res == opens_block(line@.take(col as int)),
{
    let ghost before = line@.take(col as int);
    let mut e: usize = col;
    proof {
        assert(before.take(before.len() as int) =~= before);
    }
    while e > 0 && crate::lint::is_white_space(line[e - 1])
        invariant
            0 <= e <= col <= line@.len(),
            before == line@.take(col as int),
            trail_ws(before) == (col - e) + trail_ws(before.take(e as int)),
        decreases e,
    {
        proof {
            assert(before.take(e as int).drop_last() =~= before.take(e - 1));
            assert(before.take(e as int).last() == line@[e - 1]);
        }
        e -= 1;
    }
    proof {
        if e > 0 {
            assert(before.take(e as int).last() == line@[e - 1]);
        }
        assert(before.take(before.len() - trail_ws(before)) =~= line@.take(e as int));
    }
    if e == 0 {
        return false;
    }
    let c = line[e - 1];
    c == '{' || c == '[' || c == '(' || c == ':'
}

/// The text Enter inserts at `col` of `line`.
pub fn newline_with_indent(line: &Vec<char>, col: usize, width: usize) -> (res: Vec<char>)
    ensures
        res@ == newline_text(line@, col as int, width as nat),
{
    let mut out: Vec<char> = Vec::new();
    out.push('\n');
    let c = if col < line.len() { col } else { line.len() };
    let before = crate::autocomplete::subrange_chars(line, 0, c);
    proof {
        assert(before@ =~= line@.take(c as int));
    }
    let n = count_lead_ws(&before);
    let mut i: usize = 0;
    while i < n
        invariant
            n == lead_ws(before@),
            n <= before@.len(),
            0 <= i <= n,
            out@ == seq!['\n'] + before@.take(i as int),
        decreases n - i,
    {
        out.push(before[i]);
        i += 1;
        proof {
            assert(before@.take(i as int) =~= before@.take(i - 1).push(before@[i - 1]));
        }
    }
    if block_opener_before(line, c) {
        push_spaces(&mut out, width);
    }
    proof {
        assert(out@ =~= newline_text(line@, col as int, width as nat));
    }
    out
}

/// The selection, or the empty range at the cursor.
pub open spec fn edit_range(app: &App) -> (Cursor, Cursor) {
    match crate::external_command::app_selection(app) {
        Some(r) => r,
        None => (app.buffer.view_cursor(), app.buffer.view_cursor()),
    }
}

/// `after` is `before` with its selection (or the empty range at the
/// cursor) replaced by `text`, as one undoable edit when the text changed.
pub open spec fn range_replaced(before: &App, after: &App, text: Seq<char>) -> bool {
    let (start, end) = edit_range(before);
    let t = replaced_text(before.buffer.lines(), start, end, text);
    cursor_valid(before.buffer.lines(), start) && cursor_valid(before.buffer.lines(), end) && cursor_le(start, end)
        ==> after.buffer.text() == t && (t != before.buffer.text() ==> {
        &&& after.buffer.undo_states() == before.buffer.undo_states().push(before.buffer.state())
        &&& after.buffer.redo_states().len() == 0
        &&& after.buffer.history_position() == before.buffer.fresh_position()
        &&& cursor_at(t, cursor_offset(before.buffer.lines(), start) + text.len(), after.buffer.view_cursor())
    })
}

/// Enter with indentation happened: the selection (or the empty range at
/// the cursor) became a line break, the line's indent, and one more level
/// after a block opener.
pub open spec fn newline_inserted(before: &App, after: &App) -> bool {
    let (start, end) = edit_range(before);
    range_replaced(before, after, newline_text(before.buffer.lines()[start.row as int], start.col as int, before.tab_width as nat))
}

/// Enter with indentation: replaces the selection (or inserts at the
/// cursor) with a line break, the line's indent, and one level more after a
/// block opener, as one undoable edit.
pub fn insert_newline(app: &mut App)
    requires
        old(app).buffer.wf(),
    ensures
        crate::input::content_finished(old(app), final(app)),
        final(app).buffer.wf(),
        newline_inserted(old(app), final(app)),
        final(app).selection.anchor is None,
        final(app).inactive_buffers == old(app).inactive_buffers,
{
    let cursor = app.buffer.cursor();
    let (start, end) = match app.selection.active(cursor) {
        Some(r) => r,
        None => (cursor, cursor),
    };
    let line = match app.buffer.line(start.row) {
        Some(l) => l,
        None => Vec::new(),
    };
    let text = newline_with_indent(&line, start.col, app.tab_width);
    let _ = app.buffer.replace_range(start, end, text.as_slice());
    crate::input::finish_content_edit(app);
}


/// How much one unindent removes from `line`.
pub fn removable_indent(line: &Vec<char>, width: usize) -> (res: usize)
    ensures
        res == removable(line@, width as nat),
        res <= line@.len(),
{
    if line.len() > 0 && line[0] == '\t' {
        return 1;
    }
    let mut i: usize = 0;
    proof {
        assert(line@.skip(0) =~= line@);
    }
    while i < width && i < line.len() && line[i] == ' '
        invariant
            0 <= i <= width,
            i <= line@.len(),
            lead_spaces(line@, width as nat) == i + lead_spaces(line@.skip(i as int), (width - i) as nat),
        decreases width - i,
    {
        proof {
            assert(line@.skip(i as int).drop_first() =~= line@.skip(i + 1));
            assert(line@.skip(i as int)[0] == line@[i as int]);
        }
        i += 1;
    }
    proof {
        if i < line@.len() && i < width {
            assert(line@.skip(i as int)[0] == line@[i as int]);
        }
    }
    i
}

fn edit_line(line: &Vec<char>, width: usize, unindent: bool) -> (res: Vec<char>)
    ensures
        res@ == edited_line(line@, width as nat, unindent),
{
    let mut out: Vec<char> = Vec::new();
    if unindent {
        let removed = removable_indent(line, width);
        let mut i: usize = removed;
        while i < line.len()
            invariant
                removed <= i <= line@.len(),
                out@ == line@.subrange(removed as int, i as int),
            decreases line@.len() - i,
        {
            out.push(line[i]);
            i += 1;
            proof {
                assert(line@.subrange(removed as int, i as int) =~= line@.subrange(removed as int, i - 1).push(line@[i - 1]));
            }
        }
        proof {
            assert(out@ =~= line@.skip(removed as int));
        }
    } else {
        push_spaces(&mut out, width);
        crate::status::push_chars(&mut out, line);
    }
    out
}

/// Where the cursor is asked to go after indenting lines `first..=last`: on
/// an edited row it moves with its scalar by the indent added or removed.
pub open spec fn indent_cursor(before: &App, first: usize, last: usize, unindent: bool) -> Cursor {
    let c = before.buffer.view_cursor();
    let shift: int = if first <= c.row <= last {
        if unindent {
            removable(before.buffer.lines()[c.row as int], before.tab_width as nat) as int
        } else {
            before.tab_width as int
        }
    } else {
        0
    };
    let col: int = if unindent {
        if c.col >= shift { c.col - shift } else { 0 }
    } else {
        if c.col + shift > usize::MAX { usize::MAX as int } else { c.col + shift }
    };
    Cursor { row: c.row, col: col as usize }
}

/// What indenting (or unindenting) lines `first..=last` does to the buffer:
/// an unindent that changes nothing leaves it as it was; otherwise those
/// lines are replaced by their edited form, as one undoable edit.
pub open spec fn lines_edited(before: &App, after: &App, first: usize, last: usize, unindent: bool) -> bool {
    let lines = before.buffer.lines();
    let edited = edited_lines(lines, first as int, last as int, before.tab_width as nat, unindent);
    let unchanged = unindent && edited == lines.subrange(first as int, last + 1);
    &&& unchanged ==> after.buffer.same(&before.buffer)
    &&& !unchanged ==> {
        let t = replaced_text(
            lines,
            Cursor { row: first, col: 0 },
            Cursor { row: last, col: lines[last as int].len() as usize },
            join_lines(edited),
        );
        &&& after.buffer.text() == t
        &&& t != before.buffer.text() ==> after.buffer.undo_states() == before.buffer.undo_states().push(
            before.buffer.state(),
        )
        &&& after.buffer.view_cursor() == clamp_cursor(after.buffer.lines(), indent_cursor(before, first, last, unindent))
    }
}

/// Indents (or unindents) lines `first..=last` as one edit and keeps the
/// cursor on its scalar. An unindent that changes nothing edits nothing.
pub fn edit_lines(app: &mut App, first: usize, last: usize, unindent: bool)
    requires
        old(app).buffer.wf(),
        first <= last < old(app).buffer.lines().len(),
    ensures
        crate::input::content_finished(old(app), final(app)),
        final(app).buffer.wf(),
        lines_edited(old(app), final(app), first, last, unindent),
        final(app).inactive_buffers == old(app).inactive_buffers,
{
    let width = app.tab_width;
    let old_cursor = app.buffer.cursor();
    let ghost lines = app.buffer.lines();
    let mut changed_on_cursor_row: usize = 0;
    let mut edited: Vec<Vec<char>> = Vec::new();
    let mut all_same = true;
    let all = app.buffer.line_vec();
    let _n = all.len();
    let count = last - first + 1;
    let mut k: usize = 0;
    while k < count
        invariant
            count == last - first + 1,
            0 <= k <= count,
            last < lines.len(),
            lines == app.buffer.lines(),
            crate::buffer::view_lines(all@) == lines,
            edited@.len() == k,
            forall|k: int| 0 <= k < edited@.len() ==> (#[trigger] edited@[k])@ == edited_line(lines[first + k], width as nat, unindent),
            all_same == (forall|k: int| 0 <= k < edited@.len() ==> (#[trigger] edited@[k])@ == lines[first + k]),
            old_cursor == old(app).buffer.view_cursor(),
            width == old(app).tab_width,
            changed_on_cursor_row == (if first <= old_cursor.row < first + k {
                if unindent {
                    removable(lines[old_cursor.row as int], width as nat) as int
                } else {
                    width as int
                }
            } else {
                0
            }),
        decreases count - k,
    {
        let row = first + k;
        let line = &all[row];
        let e = edit_line(line, width, unindent);
        if row == old_cursor.row {
            changed_on_cursor_row = if unindent { removable_indent(line, width) } else { width };
        }
        let same = crate::buffer::chars_equal(&e, line);
        let ghost before = edited@;
        let ghost was_same = all_same;
        all_same = all_same && same;
        edited.push(e);
        proof {
            assert forall|k: int| 0 <= k < edited@.len() implies (#[trigger] edited@[k])@ == edited_line(lines[first + k], width as nat, unindent) by {
                if k < before.len() {
                    assert(edited@[k] == before[k]);
                }
            }
            if all_same {
                assert forall|k: int| 0 <= k < edited@.len() implies (#[trigger] edited@[k])@ == lines[first + k] by {
                    if k < before.len() {
                        assert(edited@[k] == before[k]);
                    }
                }
            } else if !same {
                assert(edited@[edited@.len() - 1]@ != lines[first + edited@.len() - 1]);
            } else {
                assert(!was_same);
                let k = choose|k: int| 0 <= k < before.len() && before[k]@ != lines[first + k];
                assert(edited@[k] == before[k]);
            }
        }
        k += 1;
    }
    proof {
        assert(crate::buffer::view_lines(edited@) =~= edited_lines(lines, first as int, last as int, width as nat, unindent));
    }
    if unindent && all_same {
        proof {
            assert(edited_lines(lines, first as int, last as int, width as nat, unindent) =~= lines.subrange(first as int, last + 1));
        }
        crate::input::finish_content_edit(app);
        return;
    }
    proof {
        if unindent {
            if edited_lines(lines, first as int, last as int, width as nat, unindent) == lines.subrange(first as int, last + 1) {
                let k = choose|k: int| 0 <= k < edited@.len() && edited@[k]@ != lines[first + k];
                assert(edited_lines(lines, first as int, last as int, width as nat, unindent)[k] == lines.subrange(first as int, last + 1)[k]);
            }
        }
    }
    let text = join_all(&edited);
    let end_col = match app.buffer.line_char_count(last) {
        Some(n) => n,
        None => 0,
    };
    let _ = app.buffer.replace_range(Cursor { row: first, col: 0 }, Cursor { row: last, col: end_col }, text.as_slice());
    let col = if unindent {
        old_cursor.col.saturating_sub(changed_on_cursor_row)
    } else {
        old_cursor.col.saturating_add(changed_on_cursor_row)
    };
    app.buffer.set_cursor(Cursor { row: old_cursor.row, col });
    crate::input::finish_content_edit(app);
}

/// Lines joined with '\n'.
fn join_all(lines: &Vec<Vec<char>>) -> (res: Vec<char>)
    ensures
        res@ == join_lines(crate::buffer::view_lines(lines@)),
{
    let n = lines.len();
    let r = crate::llm::join_range(lines, 0, n);
    proof {
        assert(crate::buffer::view_lines(lines@).subrange(0, n as int) =~= crate::buffer::view_lines(lines@));
    }
    r
}

/// Spaces up to the next tab stop were inserted at the cursor.
pub open spec fn tab_stop_inserted(before: &App, after: &App) -> bool {
    let c = before.buffer.view_cursor();
    let column = cells(before.buffer.lines()[c.row as int].take(c.col as int)) as int;
    let n = before.tab_width as int - column % (before.tab_width as int);
    let t = replaced_text(before.buffer.lines(), c, c, spaces(n as nat));
    &&& after.buffer.text() == t
    &&& after.buffer.undo_states() == before.buffer.undo_states().push(before.buffer.state())
    &&& crate::buffer::cursor_at(t, crate::buffer::cursor_offset(before.buffer.lines(), c) + n, after.buffer.view_cursor())
}

/// Inserts spaces up to the next tab stop, counted in terminal cells, as
/// one undoable edit; the cursor ends after them.
pub fn insert_to_tab_stop(app: &mut App)
    requires
        old(app).buffer.wf(),
        old(app).tab_width > 0,
    ensures
        crate::input::content_finished(old(app), final(app)),
        final(app).buffer.wf(),
        tab_stop_inserted(old(app), final(app)),
        final(app).inactive_buffers == old(app).inactive_buffers,
{
    let cursor = app.buffer.cursor();
    let width = app.tab_width;
    let line = match app.buffer.line(cursor.row) {
        Some(l) => l,
        None => Vec::new(),
    };
    let column = cell_column(&line, cursor.col);
    let n = width - (column % (width as u128)) as usize;
    let mut text: Vec<char> = Vec::new();
    push_spaces(&mut text, n);
    proof {
        let ls = app.buffer.lines();
        crate::lines::lemma_offset_bound(ls, cursor.row as int, cursor.col as int);
        let o = crate::buffer::cursor_offset(ls, cursor);
        let t = replaced_text(ls, cursor, cursor, text@);
        assert(t.len() == join_lines(ls).len() + n);
        assert(t != app.buffer.text());
        assert(line@ == ls[cursor.row as int]);
    }
    let _ = app.buffer.replace_range(cursor, cursor, text.as_slice());
    crate::input::finish_content_edit(app);
}

/// The last row a selection's lines cover: a selection ending at column 0
/// of a later row does not include that row.
pub open spec fn last_selected_row(start: Cursor, end: Cursor) -> usize {
    if end.col == 0 && end.row > start.row {
        (end.row - 1) as usize
    } else {
        end.row
    }
}

/// What Tab (or Shift+Tab, `unindent`) did: every selected line was
/// indented (unindented); without a selection Tab inserted spaces to the
/// next tab stop and Shift+Tab unindented the cursor's line.
pub open spec fn tab_handled(before: &App, after: &App, unindent: bool) -> bool {
    &&& crate::external_command::app_selection(before) matches Some((s, e)) ==> {
        let last = last_selected_row(s, e);
        &&& s.row <= last < before.buffer.lines().len() ==> lines_edited(before, after, s.row, last, unindent)
        &&& !(s.row <= last < before.buffer.lines().len()) ==> *after == *before
    }
    &&& crate::external_command::app_selection(before) is None && unindent ==> lines_edited(
        before,
        after,
        before.buffer.view_cursor().row,
        before.buffer.view_cursor().row,
        true,
    )
    &&& crate::external_command::app_selection(before) is None && !unindent ==> tab_stop_inserted(before, after)
}


/// Tab on a selection that ends at the start of a later line indents the
/// lines from the selection's first row up to the line before its end, and
/// leaves the end's line (and everything after it) as it was: the text after
/// the last indented line is kept exactly.
pub proof fn tab_skips_the_line_a_selection_ends_at(before: &App, after: &App, start: Cursor, end: Cursor)
    requires
        crate::external_command::app_selection(before) == Some((start, end)),
        end.col == 0,
        start.row < end.row < before.buffer.lines().len(),
        tab_handled(before, after, false),
    ensures
        ({
            let lines = before.buffer.lines();
            let last = end.row - 1;
            after.buffer.text() == replaced_text(
                lines,
                Cursor { row: start.row, col: 0 },
                Cursor { row: last as usize, col: lines[last].len() as usize },
                join_lines(Seq::new((end.row - start.row) as nat, |k: int| spaces(before.tab_width as nat) + lines[start.row + k])),
            )
        }),
{
    let lines = before.buffer.lines();
    let last = (end.row - 1) as usize;
    assert(last_selected_row(start, end) == last);
    assert(edited_lines(lines, start.row as int, last as int, before.tab_width as nat, false) =~= Seq::new(
        (end.row - start.row) as nat,
        |k: int| spaces(before.tab_width as nat) + lines[start.row + k],
    ));
}

/// Tab on a selection that ends inside a line (not at its start) indents
/// every line from the selection's first row to its last row.
pub proof fn tab_indents_every_line_a_selection_touches(before: &App, after: &App, start: Cursor, end: Cursor)
    requires
        crate::external_command::app_selection(before) == Some((start, end)),
        end.col > 0 || end.row == start.row,
        end.row < before.buffer.lines().len(),
        tab_handled(before, after, false),
    ensures
        ({
            let lines = before.buffer.lines();
            after.buffer.text() == replaced_text(
                lines,
                Cursor { row: start.row, col: 0 },
                Cursor { row: end.row, col: lines[end.row as int].len() as usize },
                join_lines(Seq::new((end.row - start.row + 1) as nat, |k: int| spaces(before.tab_width as nat) + lines[start.row + k])),
            )
        }),
{
    let lines = before.buffer.lines();
    assert(start.row <= end.row);
    assert(last_selected_row(start, end) == end.row);
    assert(edited_lines(lines, start.row as int, end.row as int, before.tab_width as nat, false) =~= Seq::new(
        (end.row - start.row + 1) as nat,
        |k: int| spaces(before.tab_width as nat) + lines[start.row + k],
    ));
}

/// Tab / Shift+Tab: with a selection, every selected line; without one, Tab
/// inserts up to the next tab stop and Shift+Tab unindents the cursor's line.
pub fn handle_tab(app: &mut App, unindent: bool)
    requires
        old(app).buffer.wf(),
        old(app).tab_width > 0,
    ensures
        final(app).buffer.wf(),
        final(app).inactive_buffers == old(app).inactive_buffers,
        tab_handled(old(app), final(app), unindent),
        crate::external_command::app_selection(old(app)) is None ==> crate::input::content_finished(old(app), final(app)),
{
    let cursor = app.buffer.cursor();
    match app.selection.active(cursor) {
        Some((start, end)) => {
            let n = app.buffer.line_count();
            let last_row = if end.col == 0 && end.row > start.row { end.row - 1 } else { end.row };
            if start.row <= last_row && last_row < n {
                edit_lines(app, start.row, last_row, unindent);
            }
        },
        None => {
            if unindent {
                let row = cursor.row;
                if row < app.buffer.line_count() {
                    edit_lines(app, row, row, true);
                }
            } else {
                insert_to_tab_stop(app);
            }
        },
    }
}

} // verus!
