//! The inline model-edit workflow ("clanker"): an instruction in the file
//! names a scope, the scope is confirmed and sent, the model's answer is
//! previewed read-only, and only Enter applies it. Applied ranges are
//! remembered per undo/redo position so they can be shown again.
//!
//! Positions here are scalar (row, column) positions; where one grows past
//! the top of `usize` it saturates.

use vstd::prelude::*;

use crate::app::App;
use crate::buffer::{cursor_le, cursor_offset, cursor_valid, replaced_text, Cursor, TextBuffer};
use crate::llm::{same_path, OutgoingRequest};
use crate::status::StatusRole;
use crate::keys::{KeyCode, KeyEvent};
use crate::screen::{content_rows, revealed, Screen};
use crate::status::{push_chars, push_decimal, push_str, decimal};
use crate::config::BackendPreset;
use crate::buffers::sat_add;
use crate::lines::{join_lines, newline_count, split_lines};

verus! {

/// `a - b`, or 0 where `b` is larger.
pub open spec fn sat_sub(a: int, b: int) -> int {
    if a >= b {
        a - b
    } else {
        0
    }
}

/// Scalars after the last '\n' of `text` (all of them when it has none).
pub open spec fn tail_len(text: Seq<char>) -> nat
    decreases text.len(),
{
    if text.len() == 0 {
        0
    } else if text.last() == '\n' {
        0
    } else {
        tail_len(text.drop_last()) + 1
    }
}

/// Where the end of `text` lands when it is written from `start`.
pub open spec fn after_text(start: Cursor, text: Seq<char>) -> Cursor {
    if newline_count(text) == 0 {
        Cursor { row: start.row, col: sat_add(start.col as int, text.len() as int) as usize }
    } else {
        Cursor {
            row: sat_add(start.row as int, newline_count(text) as int) as usize,
            col: tail_len(text) as usize,
        }
    }
}

proof fn lemma_counts_bounded(text: Seq<char>)
    ensures
        newline_count(text) <= text.len(),
        tail_len(text) <= text.len(),
        newline_count(text) == 0 ==> tail_len(text) == text.len(),
    decreases text.len(),
{
    if text.len() > 0 {
        lemma_counts_bounded(text.drop_last());
    }
}

fn text_counts(text: &Vec<char>) -> (res: (usize, usize))
    ensures
        res.0 == newline_count(text@),
        res.1 == tail_len(text@),
{
    let mut newlines: usize = 0;
    let mut tail: usize = 0;
    let mut i: usize = 0;
    while i < text.len()
        invariant
            0 <= i <= text@.len(),
            newlines == newline_count(text@.take(i as int)),
            tail == tail_len(text@.take(i as int)),
        decreases text@.len() - i,
    {
        proof {
            lemma_counts_bounded(text@.take(i as int));
            assert(text@.take(i + 1).drop_last() =~= text@.take(i as int));
        }
        if text[i] == '\n' {
            newlines = newlines + 1;
            tail = 0;
        } else {
            tail = tail + 1;
        }
        i += 1;
    }
    proof {
        assert(text@.take(text@.len() as int) =~= text@);
    }
    (newlines, tail)
}

/// Where the end of `text` lands when it is written from `start`.
pub fn cursor_after_text(start: Cursor, text: &Vec<char>) -> (res: Cursor)
    ensures
        res == after_text(start, text@),
{
    let (newlines, tail) = text_counts(text);
    proof {
        lemma_counts_bounded(text@);
    }
    if newlines == 0 {
        Cursor { row: start.row, col: start.col.saturating_add(text.len()) }
    } else {
        Cursor { row: start.row.saturating_add(newlines), col: tail }
    }
}

/// One replacement of the scalars between two positions.
#[derive(Debug)]
pub struct TextEdit {
    pub start: Cursor,
    pub end: Cursor,
    pub replacement: Vec<char>,
}

impl TextEdit {
    /// An equal copy.
    pub fn copy(&self) -> (res: TextEdit)
        ensures
            res.start == self.start,
            res.end == self.end,
            res.replacement@ == self.replacement@,
    {
        TextEdit { start: self.start, end: self.end, replacement: crate::buffer::copy_chars(&self.replacement) }
    }
}

/// `a` comes strictly before `b` in reading order.
pub open spec fn cursor_lt(a: Cursor, b: Cursor) -> bool {
    a.row < b.row || (a.row == b.row && a.col < b.col)
}

/// Where a position ends up once `e` has been applied: positions before
/// the replaced end stay, those on its last line move with the
/// replacement's end, later lines move by the change in line count.
pub open spec fn shifted(c: Cursor, e: TextEdit) -> Cursor {
    if cursor_lt(c, e.end) {
        c
    } else {
        let re = after_text(e.start, e.replacement@);
        if c.row == e.end.row {
            Cursor { row: re.row, col: sat_add(re.col as int, sat_sub(c.col as int, e.end.col as int)) as usize }
        } else {
            let removed = sat_sub(e.end.row as int, e.start.row as int);
            let added = sat_sub(re.row as int, e.start.row as int);
            Cursor {
                row: (if added >= removed {
                    sat_add(c.row as int, added - removed)
                } else {
                    sat_sub(c.row as int, removed - added)
                }) as usize,
                col: c.col,
            }
        }
    }
}

/// Where a position ends up once `e` has been applied.
pub fn shift_cursor(c: Cursor, e: &TextEdit) -> (res: Cursor)
    ensures
        res == shifted(c, *e),
{
    if c.row < e.end.row || (c.row == e.end.row && c.col < e.end.col) {
        return c;
    }
    let re = cursor_after_text(e.start, &e.replacement);
    if c.row == e.end.row {
        return Cursor { row: re.row, col: re.col.saturating_add(c.col.saturating_sub(e.end.col)) };
    }
    let removed = e.end.row.saturating_sub(e.start.row);
    let added = re.row.saturating_sub(e.start.row);
    Cursor {
        row: if added >= removed {
            c.row.saturating_add(added - removed)
        } else {
            c.row.saturating_sub(removed - added)
        },
        col: c.col,
    }
}

/// A position moved through the first `k` edits in order.
pub open spec fn shifted_through(c: Cursor, edits: Seq<TextEdit>, k: int) -> Cursor
    decreases k,
{
    if k <= 0 {
        c
    } else {
        shifted(shifted_through(c, edits, k - 1), edits[k - 1])
    }
}

/// A gutter line moved through the first `k` edits: each edit moves the
/// start of that line.
pub open spec fn line_through(line: usize, edits: Seq<TextEdit>, k: int) -> usize
    decreases k,
{
    if k <= 0 {
        line
    } else {
        shifted(Cursor { row: line_through(line, edits, k - 1), col: 0 }, edits[k - 1]).row
    }
}

fn shift_through(c: Cursor, edits: &Vec<PendingEdit>) -> (res: Cursor)
    ensures
        res == shifted_through(c, batch_edits(edits@), edits@.len() as int),
{
    let mut cur = c;
    let mut k: usize = 0;
    while k < edits.len()
        invariant
            0 <= k <= edits@.len(),
            cur == shifted_through(c, batch_edits(edits@), k as int),
        decreases edits@.len() - k,
    {
        cur = shift_cursor(cur, &edits[k].edit);
        k += 1;
    }
    cur
}

fn line_through_edits(line: usize, edits: &Vec<PendingEdit>) -> (res: usize)
    ensures
        res == line_through(line, batch_edits(edits@), edits@.len() as int),
{
    let mut cur = line;
    let mut k: usize = 0;
    while k < edits.len()
        invariant
            0 <= k <= edits@.len(),
            cur == line_through(line, batch_edits(edits@), k as int),
        decreases edits@.len() - k,
    {
        cur = shift_cursor(Cursor { row: cur, col: 0 }, &edits[k].edit).row;
        k += 1;
    }
    cur
}

/// A span of text that model output produced.
#[derive(Clone, Copy, Debug, PartialEq, Eq, Structural)]
pub struct ChangedRange {
    pub start: Cursor,
    pub end: Cursor,
}

/// What to mark: changed spans, and lines that carry a gutter mark.
#[derive(Debug)]
pub struct ChangeSet {
    pub ranges: Vec<ChangedRange>,
    pub gutter_lines: Vec<usize>,
}

impl ChangeSet {
    pub open spec fn view(&self) -> (Seq<ChangedRange>, Seq<usize>) {
        (self.ranges@, self.gutter_lines@)
    }

    /// Nothing marked.
    pub fn new() -> (res: ChangeSet)
        ensures
            res.view() == (Seq::<ChangedRange>::empty(), Seq::<usize>::empty()),
    {
        ChangeSet { ranges: Vec::new(), gutter_lines: Vec::new() }
    }

    /// An equal copy.
    pub fn copy(&self) -> (res: ChangeSet)
        ensures
            res.view() == self.view(),
    {
        let mut ranges: Vec<ChangedRange> = Vec::new();
        let mut i: usize = 0;
        while i < self.ranges.len()
            invariant
                0 <= i <= self.ranges@.len(),
                ranges@ == self.ranges@.take(i as int),
            decreases self.ranges@.len() - i,
        {
            ranges.push(self.ranges[i]);
            i += 1;
            proof {
                assert(self.ranges@.take(i as int) =~= self.ranges@.take(i - 1).push(self.ranges@[i - 1]));
            }
        }
        let mut lines: Vec<usize> = Vec::new();
        let mut j: usize = 0;
        while j < self.gutter_lines.len()
            invariant
                0 <= j <= self.gutter_lines@.len(),
                lines@ == self.gutter_lines@.take(j as int),
            decreases self.gutter_lines@.len() - j,
        {
            lines.push(self.gutter_lines[j]);
            j += 1;
            proof {
                assert(self.gutter_lines@.take(j as int) =~= self.gutter_lines@.take(j - 1).push(
                    self.gutter_lines@[j - 1],
                ));
            }
        }
        proof {
            assert(ranges@ =~= self.ranges@);
            assert(lines@ =~= self.gutter_lines@);
        }
        ChangeSet { ranges, gutter_lines: lines }
    }
}

fn copy_lines(v: &Vec<usize>) -> (res: Vec<usize>)
    ensures
        res@ == v@,
{
    let mut out: Vec<usize> = Vec::new();
    let mut i: usize = 0;
    while i < v.len()
        invariant
            0 <= i <= v@.len(),
            out@ == v@.take(i as int),
        decreases v@.len() - i,
    {
        out.push(v[i]);
        i += 1;
        proof {
            assert(v@.take(i as int) =~= v@.take(i - 1).push(v@[i - 1]));
        }
    }
    proof {
        assert(v@.take(v@.len() as int) =~= v@);
    }
    out
}

/// Strictly increasing, so ordered and free of repeats.
pub open spec fn strictly_increasing(s: Seq<usize>) -> bool {
    forall|i: int, j: int| 0 <= i < j < s.len() ==> s[i] < s[j]
}

/// The same lines in increasing order, each once.
pub fn sorted_lines(v: &Vec<usize>) -> (res: Vec<usize>)
    ensures
        strictly_increasing(res@),
        res@.to_set() == v@.to_set(),
{
    let mut out: Vec<usize> = Vec::new();
    let mut i: usize = 0;
    while i < v.len()
        invariant
            0 <= i <= v@.len(),
            strictly_increasing(out@),
            out@.to_set() == v@.take(i as int).to_set(),
        decreases v@.len() - i,
    {
        let x = v[i];
        let mut p: usize = 0;
        while p < out.len() && out[p] < x
            invariant
                0 <= p <= out@.len(),
                forall|q: int| 0 <= q < p ==> out@[q] < x,
            decreases out@.len() - p,
        {
            p += 1;
        }
        let ghost before = out@;
        if p < out.len() && out[p] == x {
            proof {
                assert(before.contains(x));
            }
        } else {
            out.insert(p, x);
            proof {
                assert forall|a: int, b: int| 0 <= a < b < out@.len() implies out@[a] < out@[b] by {
                    if b < p {
                    } else if b == p {
                    } else if a < p {
                        assert(out@[b] == before[b - 1]);
                    } else if a == p {
                        assert(out@[b] == before[b - 1]);
                        assert(before[p as int] > x || p == before.len());
                    } else {
                    }
                }
                assert(out@.to_set() =~= before.to_set().insert(x)) by {
                    assert forall|y: usize| out@.to_set().contains(y) implies before.to_set().insert(x).contains(y) by {
                        let k = choose|k: int| 0 <= k < out@.len() && out@[k] == y;
                        if k < p {
                            assert(before[k] == y);
                        } else if k > p {
                            assert(before[k - 1] == y);
                        }
                    }
                    assert forall|y: usize| before.to_set().insert(x).contains(y) implies out@.to_set().contains(y) by {
                        if y == x {
                            assert(out@[p as int] == x);
                        } else {
                            let k = choose|k: int| 0 <= k < before.len() && before[k] == y;
                            if k < p {
                                assert(out@[k] == y);
                            } else {
                                assert(out@[k + 1] == y);
                            }
                        }
                    }
                }
            }
        }
        proof {
            let t1 = v@.take(i + 1);
            let t0 = v@.take(i as int);
            assert(t1 =~= t0.push(x));
            assert(t1.to_set() =~= t0.to_set().insert(x)) by {
                assert forall|y: usize| t1.to_set().contains(y) implies t0.to_set().insert(x).contains(y) by {
                    let k = choose|k: int| 0 <= k < t1.len() && t1[k] == y;
                    if k < i {
                        assert(t0[k] == y);
                    }
                }
                assert forall|y: usize| t0.to_set().insert(x).contains(y) implies t1.to_set().contains(y) by {
                    if y == x {
                        assert(t1[i as int] == x);
                    } else {
                        let k = choose|k: int| 0 <= k < t0.len() && t0[k] == y;
                        assert(t1[k] == y);
                    }
                }
            }
            if p < before.len() && before[p as int] == x {
                assert(out@.to_set() =~= before.to_set().insert(x));
            }
        }
        i += 1;
    }
    proof {
        assert(v@.take(v@.len() as int) =~= v@);
    }
    out
}

/// A changed span moved through all of `edits`.
pub open spec fn range_through(r: ChangedRange, edits: Seq<TextEdit>) -> ChangedRange {
    ChangedRange {
        start: shifted_through(r.start, edits, edits.len() as int),
        end: shifted_through(r.end, edits, edits.len() as int),
    }
}

/// `after` is `before` with every span and gutter line moved through
/// `edits`, the gutter lines then ordered and each kept once.
pub open spec fn set_shifted(
    before: (Seq<ChangedRange>, Seq<usize>),
    edits: Seq<TextEdit>,
    after: (Seq<ChangedRange>, Seq<usize>),
) -> bool {
    &&& after.0 == before.0.map_values(|r: ChangedRange| range_through(r, edits))
    &&& strictly_increasing(after.1)
    &&& after.1.to_set() == before.1.map_values(|l: usize| line_through(l, edits, edits.len() as int)).to_set()
}

/// Moves every span and gutter line of `changes` through the edits of a
/// proposal, in order.
pub fn shift_set(changes: &mut ChangeSet, edits: &Vec<PendingEdit>)
    ensures
        set_shifted(old(changes).view(), batch_edits(edits@), final(changes).view()),
{
    let ghost before = changes.view();
    let mut ranges: Vec<ChangedRange> = Vec::new();
    let mut i: usize = 0;
    while i < changes.ranges.len()
        invariant
            changes.view() == before,
            0 <= i <= before.0.len(),
            ranges@ == before.0.take(i as int).map_values(|r: ChangedRange| range_through(r, batch_edits(edits@))),
        decreases before.0.len() - i,
    {
        let r = changes.ranges[i];
        let moved = ChangedRange { start: shift_through(r.start, edits), end: shift_through(r.end, edits) };
        ranges.push(moved);
        proof {
            assert(before.0.take(i + 1) =~= before.0.take(i as int).push(r));
            assert(ranges@ =~= before.0.take(i + 1).map_values(|r: ChangedRange| range_through(r, batch_edits(edits@))));
        }
        i += 1;
    }
    let mut lines: Vec<usize> = Vec::new();
    let mut j: usize = 0;
    while j < changes.gutter_lines.len()
        invariant
            changes.view() == before,
            0 <= j <= before.1.len(),
            lines@ == before.1.take(j as int).map_values(|l: usize| line_through(l, batch_edits(edits@), edits@.len() as int)),
        decreases before.1.len() - j,
    {
        let l = changes.gutter_lines[j];
        lines.push(line_through_edits(l, edits));
        proof {
            assert(before.1.take(j + 1) =~= before.1.take(j as int).push(l));
            assert(lines@ =~= before.1.take(j + 1).map_values(|l: usize| line_through(l, batch_edits(edits@), edits@.len() as int)));
        }
        j += 1;
    }
    proof {
        assert(before.0.take(before.0.len() as int) =~= before.0);
        assert(before.1.take(before.1.len() as int) =~= before.1);
    }
    changes.ranges = ranges;
    changes.gutter_lines = sorted_lines(&lines);
}

/// The marks recorded for one undo/redo position.
#[derive(Debug)]
pub struct ChangeVersion {
    pub history_position: u64,
    pub changes: ChangeSet,
}

/// The marks of the latest version recorded for `pos` among `vs`.
pub open spec fn version_at(vs: Seq<ChangeVersion>, pos: u64) -> Option<(Seq<ChangedRange>, Seq<usize>)>
    decreases vs.len(),
{
    if vs.len() == 0 {
        None
    } else if vs.last().history_position == pos {
        Some(vs.last().changes.view())
    } else {
        version_at(vs.drop_last(), pos)
    }
}

/// The versions of `vs` except those recorded for `pos`.
pub open spec fn without_position(vs: Seq<ChangeVersion>, pos: u64) -> Seq<ChangeVersion> {
    vs.filter(|v: ChangeVersion| v.history_position != pos)
}

proof fn lemma_version_without(vs: Seq<ChangeVersion>, pos: u64, p: u64)
    ensures
        version_at(without_position(vs, pos), p) == if p == pos { None } else { version_at(vs, p) },
    decreases vs.len(),
{
    reveal(Seq::filter);
    if vs.len() > 0 {
        lemma_version_without(vs.drop_last(), pos, p);
        let f = without_position(vs, pos);
        let fd = without_position(vs.drop_last(), pos);
        if vs.last().history_position != pos {
            assert(f == fd.push(vs.last()));
            assert(f.drop_last() =~= fd);
        } else {
            assert(f == fd);
        }
    }
}

/// Marks of applied model output, kept per undo/redo position of one buffer.
#[derive(Debug)]
pub struct ChangeHistory {
    pub versions: Vec<ChangeVersion>,
}

/// The empty marks.
pub open spec fn no_marks() -> (Seq<ChangedRange>, Seq<usize>) {
    (Seq::empty(), Seq::empty())
}

impl ChangeHistory {
    /// The marks recorded for `pos`, if any.
    pub open spec fn at(&self, pos: u64) -> Option<(Seq<ChangedRange>, Seq<usize>)> {
        version_at(self.versions@, pos)
    }

    /// No marks anywhere.
    pub fn new() -> (res: ChangeHistory)
        ensures
            forall|p: u64| res.at(p) is None,
    {
        ChangeHistory { versions: Vec::new() }
    }

    /// Forgets every version.
    pub fn clear(&mut self)
        ensures
            forall|p: u64| final(self).at(p) is None,
    {
        self.versions = Vec::new();
    }

    fn find(&self, pos: u64) -> (res: Option<usize>)
        ensures
            match res {
                Some(i) => i < self.versions@.len() && self.at(pos) == Some(self.versions@[i as int].changes.view()),
                None => self.at(pos) is None,
            },
    {
        let mut k: usize = self.versions.len();
        proof {
            assert(self.versions@.take(k as int) =~= self.versions@);
        }
        while k > 0
            invariant
                k <= self.versions@.len(),
                version_at(self.versions@, pos) == version_at(self.versions@.take(k as int), pos),
            decreases k,
        {
            proof {
                assert(self.versions@.take(k as int).drop_last() =~= self.versions@.take(k - 1));
            }
            if self.versions[k - 1].history_position == pos {
                return Some(k - 1);
            }
            k -= 1;
        }
        proof {
            assert(self.versions@.take(0) =~= Seq::<ChangeVersion>::empty());
        }
        None
    }

    /// The marks to show at `pos`: those recorded for it, unless there are none.
    pub fn visible(&self, pos: u64) -> (res: Option<&ChangeSet>)
        ensures
            match res {
                Some(cs) => self.at(pos) == Some(cs.view()) && (cs.view().0.len() > 0 || cs.view().1.len() > 0),
                None => self.at(pos) is None || self.at(pos) == Some(no_marks()),
            },
    {
        match self.find(pos) {
            Some(i) => {
                let cs = &self.versions[i].changes;
                if cs.ranges.len() == 0 && cs.gutter_lines.len() == 0 {
                    proof {
                        assert(cs.view() =~= no_marks());
                    }
                    None
                } else {
                    Some(cs)
                }
            },
            None => None,
        }
    }

    /// The marks recorded for `pos`, or none.
    pub fn changes_at(&self, pos: u64) -> (res: ChangeSet)
        ensures
            res.view() == match self.at(pos) {
                Some(cs) => cs,
                None => no_marks(),
            },
    {
        match self.find(pos) {
            Some(i) => self.versions[i].changes.copy(),
            None => ChangeSet::new(),
        }
    }

    /// Forgets everything unless `pos` has recorded marks.
    pub fn reconcile(&mut self, pos: u64)
        ensures
            old(self).at(pos) is Some ==> *final(self) == *old(self),
            old(self).at(pos) is None ==> forall|p: u64| final(self).at(p) is None,
    {
        if self.find(pos).is_none() {
            self.clear();
        }
    }

    /// Records `changes` for the position `after` that an apply moved to
    /// from `before`; the first apply of a workflow starts afresh with no
    /// marks at `before`.
    pub fn record(&mut self, first_apply: bool, before: u64, after: u64, changes: ChangeSet)
        ensures
            forall|p: u64|
                #![trigger final(self).at(p)]
                final(self).at(p) == if p == after {
                    Some(changes.view())
                } else if first_apply {
                    if p == before {
                        Some(no_marks())
                    } else {
                        None
                    }
                } else {
                    old(self).at(p)
                },
    {
        let ghost cs = changes.view();
        if first_apply {
            self.versions = Vec::new();
            self.versions.push(ChangeVersion { history_position: before, changes: ChangeSet::new() });
            proof {
                assert forall|p: u64| version_at(self.versions@, p) == if p == before { Some(no_marks()) } else {
                    None::<(Seq<ChangedRange>, Seq<usize>)>
                } by {
                    reveal_with_fuel(version_at, 2);
                    assert(self.versions@.drop_last() =~= Seq::<ChangeVersion>::empty());
                    assert(self.versions@.last().changes.view() =~= no_marks());
                }
            }
        }
        let ghost mid = self.versions@;
        let mut kept: Vec<ChangeVersion> = Vec::new();
        let mut rest: Vec<ChangeVersion> = Vec::new();
        std::mem::swap(&mut rest, &mut self.versions);
        let count = rest.len();
        let mut i: usize = 0;
        proof {
            assert(count == mid.len());
            assert(mid.skip(0) =~= mid);
            assert(mid.take(0) =~= Seq::<ChangeVersion>::empty());
            reveal(Seq::filter);
        }
        while rest.len() > 0
            invariant
                mid.len() <= usize::MAX,
                0 <= i <= mid.len(),
                rest@ == mid.skip(i as int),
                kept@ == without_position(mid.take(i as int), after),
            decreases rest@.len(),
        {
            let v = rest.remove(0);
            proof {
                assert(mid.take(i + 1) =~= mid.take(i as int).push(v));
                assert(mid.take(i + 1).drop_last() =~= mid.take(i as int));
                reveal(Seq::filter);
                assert(mid.skip(i + 1) =~= mid.skip(i as int).remove(0));
            }
            if v.history_position != after {
                kept.push(v);
            }
            i += 1;
        }
        proof {
            assert(mid.take(i as int) =~= mid);
            assert forall|p: u64| version_at(kept@, p) == if p == after { None } else { version_at(mid, p) } by {
                lemma_version_without(mid, after, p);
            }
        }
        self.versions = kept;
        self.versions.push(ChangeVersion { history_position: after, changes });
        proof {
            assert(self.versions@.drop_last() == kept@);
            assert(self.versions@.last().changes.view() == cs);
            assert forall|p: u64| #[trigger] version_at(self.versions@, p) == if p == after {
                Some(cs)
            } else {
                version_at(mid, p)
            } by {
                lemma_version_without(mid, after, p);
            }
        }
    }
}

/// What part of the file a request covers.
#[derive(Clone, Copy, Debug, PartialEq, Eq, Structural)]
pub enum InlineScope {
    /// The selected text.
    Selection,
    /// The blocks between context delimiters.
    Blocks,
    /// The whole (bounded) file.
    FullFile,
}

/// A span of the file captured when the request was prepared, with the
/// text it held and the lines it covers.
#[derive(Debug)]
pub struct CapturedRange {
    pub start: Cursor,
    pub end: Cursor,
    pub original: Vec<char>,
    pub first_line: usize,
    pub last_line: usize,
}

/// The lines a span covers: a span ending at the start of a later line
/// does not cover that line.
pub open spec fn covered_last_line(start: Cursor, end: Cursor) -> usize {
    if end.row > start.row && end.col == 0 {
        (end.row - 1) as usize
    } else {
        end.row
    }
}

/// `r` covers exactly the lines between its ends.
pub open spec fn lines_synced(r: &CapturedRange) -> bool {
    r.first_line == r.start.row && r.last_line == covered_last_line(r.start, r.end)
}

/// The instruction that asked for the edit.
#[derive(Debug)]
pub struct InlineInstruction {
    /// The instruction text as it stands in the file.
    pub metadata: CapturedRange,
    /// What removing the instruction after the last apply deletes.
    pub cleanup: CapturedRange,
    /// The 1-based line shown for it.
    pub display_line: usize,
    /// The instruction itself.
    pub text: Vec<char>,
}

/// One region the model may replace.
#[derive(Debug)]
pub struct InlineTarget {
    pub id: usize,
    pub range: CapturedRange,
}

/// One request of the serial queue.
#[derive(Debug)]
pub struct InlineRequest {
    pub target_ids: Vec<usize>,
    pub text: Vec<char>,
    pub line_count: usize,
    pub byte_count: usize,
}

/// Content that looks sensitive.
#[derive(Clone, Copy, Debug, PartialEq, Eq, Structural)]
pub enum Sensitivity {
    /// The file is a dotfile.
    Dotfile,
    /// A line (0-based) looks like it holds a secret.
    SecretLikeLine(usize),
}

/// What an instruction in the file asks for: the scope, the regions, and
/// the serial requests that carry them.
#[derive(Debug)]
pub struct InlineDraft {
    pub scope: InlineScope,
    pub instruction: InlineInstruction,
    pub delimiter_guards: Vec<CapturedRange>,
    pub targets: Vec<InlineTarget>,
    pub requests: Vec<InlineRequest>,
    pub full_file_sentinel: Option<Vec<char>>,
    pub full_file_lines: usize,
    pub full_file_bytes: usize,
    pub sensitivity: Vec<Sensitivity>,
    /// How the blocks were split into requests, as shown to the user.
    pub mode_label: Vec<char>,
}

/// Settings of the inline workflow.
#[derive(Clone, Copy, Debug, PartialEq, Eq, Structural)]
pub struct InlineSettings {
    pub remove_instruction_after_apply: bool,
    pub stop_on_error: bool,
    pub warn_lines: usize,
}

/// A confirmed workflow and where its serial queue stands.
pub struct PreparedWorkflow {
    pub draft: InlineDraft,
    pub preset: BackendPreset,
    pub inline: InlineSettings,
    pub destination: Vec<char>,
    pub path: Vec<char>,
    pub file_path: Option<String>,
    pub expected_revision: u64,
    pub request_index: usize,
    pub applied_count: usize,
    pub had_failure: bool,
}

/// One edit of a proposal, with the text it replaces and how it is named.
#[derive(Debug)]
pub struct PendingEdit {
    pub target_id: Option<usize>,
    pub edit: TextEdit,
    pub original: Vec<char>,
    pub label: Vec<char>,
}

/// `r` moved through `e`, its covered lines recomputed.
pub open spec fn captured_shifted(before: &CapturedRange, e: TextEdit, after: &CapturedRange) -> bool {
    &&& after.start == shifted(before.start, e)
    &&& after.end == shifted(before.end, e)
    &&& after.original@ == before.original@
    &&& lines_synced(after)
}

fn sync_lines(r: &mut CapturedRange)
    ensures
        final(r).start == old(r).start,
        final(r).end == old(r).end,
        final(r).original@ == old(r).original@,
        lines_synced(final(r)),
{
    r.first_line = r.start.row;
    r.last_line = if r.end.row > r.start.row && r.end.col == 0 {
        r.end.row - 1
    } else {
        r.end.row
    };
}

fn shift_captured(r: &mut CapturedRange, e: &TextEdit)
    ensures
        captured_shifted(old(r), *e, final(r)),
{
    r.start = shift_cursor(r.start, e);
    r.end = shift_cursor(r.end, e);
    sync_lines(r);
}

/// What the draft of a queue looks like after the edit of target `id` was
/// applied: that target now holds the replacement, everything else moved.
pub open spec fn draft_updated(before: &InlineDraft, id: usize, e: TextEdit, after: &InlineDraft) -> bool {
    &&& captured_shifted(&before.instruction.metadata, e, &after.instruction.metadata)
    &&& captured_shifted(&before.instruction.cleanup, e, &after.instruction.cleanup)
    &&& after.instruction.display_line == sat_add(after.instruction.metadata.first_line as int, 1)
    &&& after.instruction.text@ == before.instruction.text@
    &&& after.delimiter_guards@.len() == before.delimiter_guards@.len()
    &&& forall|i: int| 0 <= i < before.delimiter_guards@.len() ==> captured_shifted(
        &before.delimiter_guards@[i],
        e,
        #[trigger] &after.delimiter_guards@[i],
    )
    &&& after.targets@.len() == before.targets@.len()
    &&& forall|i: int|
        0 <= i < before.targets@.len() ==> {
            let b = #[trigger] before.targets@[i];
            let a = after.targets@[i];
            &&& a.id == b.id
            &&& b.id == id ==> {
                &&& a.range.start == b.range.start
                &&& a.range.end == after_text(b.range.start, e.replacement@)
                &&& a.range.original@ == e.replacement@
                &&& lines_synced(&a.range)
            }
            &&& b.id != id ==> captured_shifted(&b.range, e, &a.range)
        }
    &&& after.scope == before.scope
    &&& after.requests == before.requests
    &&& after.full_file_sentinel == before.full_file_sentinel
    &&& after.full_file_lines == before.full_file_lines
    &&& after.full_file_bytes == before.full_file_bytes
    &&& after.sensitivity == before.sensitivity
    &&& after.mode_label == before.mode_label
}

/// Moves what a queued draft captured past the applied edit of target `id`.
pub fn update_draft_after_edit(draft: &mut InlineDraft, id: usize, e: &TextEdit)
    ensures
        draft_updated(old(draft), id, *e, final(draft)),
{
    shift_captured(&mut draft.instruction.metadata, e);
    shift_captured(&mut draft.instruction.cleanup, e);
    draft.instruction.display_line = draft.instruction.metadata.first_line.saturating_add(1);
    let ghost guards0 = draft.delimiter_guards@;
    let ghost d1 = *draft;
    let mut i: usize = 0;
    while i < draft.delimiter_guards.len()
        invariant
            draft.instruction == d1.instruction,
            draft.targets == d1.targets,
            draft.scope == d1.scope,
            draft.requests == d1.requests,
            draft.full_file_sentinel == d1.full_file_sentinel,
            draft.full_file_lines == d1.full_file_lines,
            draft.full_file_bytes == d1.full_file_bytes,
            draft.sensitivity == d1.sensitivity,
            draft.mode_label == d1.mode_label,
            0 <= i <= guards0.len(),
            draft.delimiter_guards@.len() == guards0.len(),
            forall|j: int| 0 <= j < i ==> captured_shifted(&guards0[j], *e, #[trigger] &draft.delimiter_guards@[j]),
            forall|j: int| i <= j < guards0.len() ==> #[trigger] draft.delimiter_guards@[j] == guards0[j],
        decreases guards0.len() - i,
    {
        let mut g = draft.delimiter_guards.remove(i);
        shift_captured(&mut g, e);
        draft.delimiter_guards.insert(i, g);
        i += 1;
    }
    let ghost targets0 = draft.targets@;
    let ghost d2 = *draft;
    let mut k: usize = 0;
    while k < draft.targets.len()
        invariant
            draft.instruction == d2.instruction,
            draft.delimiter_guards == d2.delimiter_guards,
            draft.scope == d2.scope,
            draft.requests == d2.requests,
            draft.full_file_sentinel == d2.full_file_sentinel,
            draft.full_file_lines == d2.full_file_lines,
            draft.full_file_bytes == d2.full_file_bytes,
            draft.sensitivity == d2.sensitivity,
            draft.mode_label == d2.mode_label,
            0 <= k <= targets0.len(),
            draft.targets@.len() == targets0.len(),
            forall|j: int|
                0 <= j < k ==> {
                    let b = targets0[j];
                    let a = #[trigger] draft.targets@[j];
                    &&& a.id == b.id
                    &&& b.id == id ==> {
                        &&& a.range.start == b.range.start
                        &&& a.range.end == after_text(b.range.start, e.replacement@)
                        &&& a.range.original@ == e.replacement@
                        &&& lines_synced(&a.range)
                    }
                    &&& b.id != id ==> captured_shifted(&b.range, *e, &a.range)
                },
            forall|j: int| k <= j < targets0.len() ==> #[trigger] draft.targets@[j] == targets0[j],
        decreases targets0.len() - k,
    {
        let mut t = draft.targets.remove(k);
        if t.id == id {
            t.range.end = cursor_after_text(t.range.start, &e.replacement);
            t.range.original = crate::buffer::copy_chars(&e.replacement);
            sync_lines(&mut t.range);
        } else {
            shift_captured(&mut t.range, e);
        }
        draft.targets.insert(k, t);
        k += 1;
    }
}

/// The instruction is removed with this apply: removal is configured, no
/// request failed, and this is the last request.
pub open spec fn cleanup_due(p: &PreparedWorkflow) -> bool {
    p.inline.remove_instruction_after_apply && !p.had_failure && p.request_index + 1 == p.draft.requests@.len()
}

fn cleanup_is_due(p: &PreparedWorkflow) -> (res: bool)
    ensures
        res == cleanup_due(p),
{
    p.inline.remove_instruction_after_apply && !p.had_failure && p.draft.requests.len() > 0 && p.request_index
        == p.draft.requests.len() - 1
}

/// What a pending edit holds, as values.
pub struct PendingView {
    pub target_id: Option<usize>,
    pub start: Cursor,
    pub end: Cursor,
    pub replacement: Seq<char>,
    pub original: Seq<char>,
    pub label: Seq<char>,
}

impl PendingEdit {
    pub open spec fn view(&self) -> PendingView {
        PendingView {
            target_id: self.target_id,
            start: self.edit.start,
            end: self.edit.end,
            replacement: self.edit.replacement@,
            original: self.original@,
            label: self.label@,
        }
    }
}

/// The edits of a proposal, as values.
pub open spec fn pending_views(ps: Seq<PendingEdit>) -> Seq<PendingView> {
    ps.map_values(|p: PendingEdit| p.view())
}

/// The label of the edit that removes the instruction.
pub open spec fn cleanup_label(display_line: usize) -> Seq<char> {
    "confirmed instruction cleanup line "@ + decimal(display_line as nat)
}

/// `edits` with the instruction's removal added when it is due (never for
/// a full-file proposal, whose patch carries it).
pub open spec fn with_cleanup(p: &PreparedWorkflow, edits: Seq<PendingView>) -> Seq<PendingView> {
    if p.draft.scope != InlineScope::FullFile && cleanup_due(p) {
        let c = p.draft.instruction.cleanup;
        edits.push(
            PendingView {
                target_id: None,
                start: c.start,
                end: c.end,
                replacement: Seq::empty(),
                original: c.original@,
                label: cleanup_label(p.draft.instruction.display_line),
            },
        )
    } else {
        edits
    }
}

fn add_cleanup_if_final(p: &PreparedWorkflow, edits: &mut Vec<PendingEdit>)
    ensures
        pending_views(final(edits)@) == with_cleanup(p, pending_views(old(edits)@)),
{
    if p.draft.scope == InlineScope::FullFile || !cleanup_is_due(p) {
        return;
    }
    let c = &p.draft.instruction.cleanup;
    let mut label: Vec<char> = Vec::new();
    push_str(&mut label, "confirmed instruction cleanup line ");
    push_decimal(&mut label, p.draft.instruction.display_line as u128);
    let ghost before = edits@;
    edits.push(
        PendingEdit {
            target_id: None,
            edit: TextEdit { start: c.start, end: c.end, replacement: Vec::new() },
            original: crate::buffer::copy_chars(&c.original),
            label,
        },
    );
    proof {
        assert(pending_views(edits@) =~= pending_views(before).push(edits@.last().view()));
    }
}

/// Where a position after an applied edit moves: on the edit's last line
/// it follows the replacement's end, on later lines it moves by the change
/// in line count.
pub open spec fn moved_after(c: Cursor, e: TextEdit) -> Cursor {
    if c.row == e.end.row {
        let end = after_text(e.start, e.replacement@);
        Cursor { row: end.row, col: sat_add(end.col as int, sat_sub(c.col as int, e.end.col as int)) as usize }
    } else {
        let removed = sat_sub(e.end.row as int, e.start.row as int);
        let added = newline_count(e.replacement@) as int;
        Cursor {
            row: (if added >= removed {
                sat_add(c.row as int, added - removed)
            } else {
                sat_sub(c.row as int, removed - added)
            }) as usize,
            col: c.col,
        }
    }
}

fn shift_after(c: Cursor, e: &TextEdit) -> (res: Cursor)
    ensures
        res == moved_after(c, *e),
{
    if c.row == e.end.row {
        let end = cursor_after_text(e.start, &e.replacement);
        Cursor { row: end.row, col: end.col.saturating_add(c.col.saturating_sub(e.end.col)) }
    } else {
        let removed = e.end.row.saturating_sub(e.start.row);
        let (added, _) = text_counts(&e.replacement);
        Cursor {
            row: if added >= removed {
                c.row.saturating_add(added - removed)
            } else {
                c.row.saturating_sub(removed - added)
            },
            col: c.col,
        }
    }
}

/// Where `start` lands once the first `k` edits of the batch are applied:
/// only edits that end at or before it, and do not start there, move it.
pub open spec fn final_start(start: Cursor, edits: Seq<TextEdit>, k: int) -> Cursor
    decreases k,
{
    if k <= 0 {
        start
    } else {
        let prev = final_start(start, edits, k - 1);
        let e = edits[k - 1];
        if cursor_le(e.end, start) && e.start != start {
            moved_after(prev, e)
        } else {
            prev
        }
    }
}

/// The edit parts of a batch.
pub open spec fn batch_edits(ps: Seq<PendingEdit>) -> Seq<TextEdit> {
    ps.map_values(|p: PendingEdit| p.edit)
}

fn final_start_after_edits(start: Cursor, edits: &Vec<PendingEdit>) -> (res: Cursor)
    ensures
        res == final_start(start, batch_edits(edits@), edits@.len() as int),
{
    let mut shifted = start;
    let mut k: usize = 0;
    while k < edits.len()
        invariant
            0 <= k <= edits@.len(),
            shifted == final_start(start, batch_edits(edits@), k as int),
        decreases edits@.len() - k,
    {
        let e = &edits[k].edit;
        if (e.end.row < start.row || (e.end.row == start.row && e.end.col <= start.col)) && !(e.start.row
            == start.row && e.start.col == start.col) {
            shifted = shift_after(shifted, e);
        }
        k += 1;
    }
    shifted
}

/// `needle` occurs in `hay`.
pub open spec fn has_infix(hay: Seq<char>, needle: Seq<char>) -> bool {
    exists|i: int| 0 <= i && i + needle.len() <= hay.len() && #[trigger] hay.subrange(i, i + needle.len()) == needle
}

fn contains_text(hay: &Vec<char>, needle: &str) -> (res: bool)
    ensures
        res == has_infix(hay@, needle@),
{
    let n = crate::text::chars_of(needle);
    if n.len() > hay.len() {
        return false;
    }
    let hl = hay.len();
    let last = hl - n.len();
    let mut i: usize = 0;
    while i <= last
        invariant
            hl == hay@.len(),
            last == hay@.len() - n@.len(),
            n@ == needle@,
            n@.len() <= hay@.len(),
            0 <= i <= hay@.len() - n@.len() + 1,
            forall|j: int| 0 <= j < i ==> #[trigger] hay@.subrange(j, j + n@.len()) != n@,
        decreases hay@.len() - i,
    {
        let mut k: usize = 0;
        let mut same = true;
        while k < n.len()
            invariant
                hl == hay@.len(),
                0 <= k <= n@.len(),
                i + n@.len() <= hay@.len(),
                same == (forall|q: int| 0 <= q < k ==> hay@[i + q] == n@[q]),
            decreases n@.len() - k,
        {
            if hay[i + k] != n[k] {
                same = false;
            }
            k += 1;
        }
        if same {
            proof {
                assert(hay@.subrange(i as int, i + n@.len()) =~= n@);
            }
            return true;
        }
        proof {
            let q = choose|q: int| 0 <= q < n@.len() && hay@[i + q] != n@[q];
            assert(hay@.subrange(i as int, i + n@.len())[q] != n@[q]);
        }
        i += 1;
    }
    proof {
        assert forall|j: int| 0 <= j && j + n@.len() <= hay@.len() implies #[trigger] hay@.subrange(j, j + n@.len())
            != needle@ by {
            assert(j < i);
        }
    }
    false
}

/// Whether an edit's final line carries a gutter mark: model edits do, and
/// so does the removal of the instruction.
pub open spec fn marks_gutter(p: PendingEdit) -> bool {
    p.target_id is Some || has_infix(p.label@, "instruction cleanup"@)
}

/// Where the start of edit `i` of the batch lands.
pub open spec fn landed(ps: Seq<PendingEdit>, i: int) -> Cursor {
    final_start(ps[i].edit.start, batch_edits(ps), ps.len() as int)
}

/// The spans of the first `k` model edits that insert text, where they land.
pub open spec fn model_ranges(ps: Seq<PendingEdit>, k: int) -> Seq<ChangedRange>
    decreases k,
{
    if k <= 0 {
        Seq::empty()
    } else {
        let prev = model_ranges(ps, k - 1);
        let p = ps[k - 1];
        if p.target_id is Some && p.edit.replacement@.len() > 0 {
            let at = landed(ps, k - 1);
            prev.push(ChangedRange { start: at, end: after_text(at, p.edit.replacement@) })
        } else {
            prev
        }
    }
}

/// Lines marked in the gutter by the first `k` edits.
pub open spec fn gutter_marks(ps: Seq<PendingEdit>, k: int) -> Set<usize> {
    Set::new(|l: usize| exists|j: int| 0 <= j < k && marks_gutter(ps[j]) && #[trigger] landed(ps, j).row == l)
}

/// The marks an applied batch leaves: without model edits, the given marks
/// with the gutter ordered; otherwise the model edits' spans and lines
/// where they land, with the instruction's removal line.
pub open spec fn finalized(before: (Seq<ChangedRange>, Seq<usize>), ps: Seq<PendingEdit>, after: (Seq<ChangedRange>, Seq<usize>)) -> bool {
    &&& strictly_increasing(after.1)
    &&& if forall|i: int| 0 <= i < ps.len() ==> (#[trigger] ps[i]).target_id is None {
        &&& after.0 == before.0
        &&& after.1.to_set() == before.1.to_set()
    } else {
        &&& after.0 == model_ranges(ps, ps.len() as int)
        &&& after.1.to_set() == gutter_marks(ps, ps.len() as int)
    }
}

fn finalize_change_positions(changes: ChangeSet, edits: &Vec<PendingEdit>) -> (res: ChangeSet)
    ensures
        finalized(changes.view(), edits@, res.view()),
{
    let mut any_model = false;
    let mut i: usize = 0;
    while i < edits.len()
        invariant
            0 <= i <= edits@.len(),
            any_model == exists|j: int| 0 <= j < i && (#[trigger] edits@[j]).target_id is Some,
        decreases edits@.len() - i,
    {
        if edits[i].target_id.is_some() {
            any_model = true;
        }
        i += 1;
    }
    if !any_model {
        let sorted = sorted_lines(&changes.gutter_lines);
        return ChangeSet { ranges: changes.ranges, gutter_lines: sorted };
    }
    let ghost ps = edits@;
    let mut ranges: Vec<ChangedRange> = Vec::new();
    let mut lines: Vec<usize> = Vec::new();
    let mut k: usize = 0;
    while k < edits.len()
        invariant
            ps == edits@,
            0 <= k <= ps.len(),
            ranges@ == model_ranges(ps, k as int),
            lines@.to_set() == gutter_marks(ps, k as int),
        decreases ps.len() - k,
    {
        let p = &edits[k];
        let at = final_start_after_edits(p.edit.start, edits);
        let is_model = p.target_id.is_some();
        if is_model && p.edit.replacement.len() > 0 {
            let end = cursor_after_text(at, &p.edit.replacement);
            ranges.push(ChangedRange { start: at, end });
        }
        let ghost before_lines = lines@;
        let marks = is_model || contains_text(&p.label, "instruction cleanup");
        if marks {
            lines.push(at.row);
        }
        proof {
            assert(at == landed(ps, k as int));
            if marks {
                before_lines.lemma_push_to_set_commute(at.row);
            }
            assert(gutter_marks(ps, k + 1) =~= if marks_gutter(ps[k as int]) {
                gutter_marks(ps, k as int).insert(landed(ps, k as int).row)
            } else {
                gutter_marks(ps, k as int)
            });
        }
        k += 1;
    }
    ChangeSet { ranges, gutter_lines: sorted_lines(&lines) }
}

/// `i` is the first target of `ts` named `id`.
pub open spec fn first_target(ts: Seq<InlineTarget>, id: usize, i: int) -> bool {
    &&& 0 <= i < ts.len()
    &&& ts[i].id == id
    &&& forall|j: int| 0 <= j < i ==> (#[trigger] ts[j]).id != id
}

/// Some target of `ts` is named `id`.
pub open spec fn has_target(ts: Seq<InlineTarget>, id: usize) -> bool {
    exists|i: int| 0 <= i < ts.len() && (#[trigger] ts[i]).id == id
}

/// The first target of `ts` named `id`.
pub open spec fn target_for(ts: Seq<InlineTarget>, id: usize) -> InlineTarget {
    ts[choose|i: int| first_target(ts, id, i)]
}

proof fn lemma_first_target(ts: Seq<InlineTarget>, id: usize, i: int)
    requires
        first_target(ts, id, i),
    ensures
        has_target(ts, id),
        target_for(ts, id) == ts[i],
{
    let c = choose|c: int| first_target(ts, id, c);
    assert(first_target(ts, id, c));
    if c < i {
        assert(ts[c].id != id);
    } else if c > i {
        assert(ts[i].id != id);
    }
}

fn find_target(ts: &Vec<InlineTarget>, id: usize) -> (res: Option<usize>)
    ensures
        match res {
            Some(i) => first_target(ts@, id, i as int),
            None => !has_target(ts@, id),
        },
{
    let mut i: usize = 0;
    while i < ts.len()
        invariant
            0 <= i <= ts@.len(),
            forall|j: int| 0 <= j < i ==> (#[trigger] ts@[j]).id != id,
        decreases ts@.len() - i,
    {
        if ts[i].id == id {
            return Some(i);
        }
        i += 1;
    }
    None
}

/// How a region edit is named in the preview.
pub open spec fn region_label(scope: InlineScope, id: usize, r: CapturedRange) -> Seq<char> {
    if scope == InlineScope::Selection {
        "selection lines "@ + decimal((r.first_line + 1) as nat) + "-"@ + decimal((r.last_line + 1) as nat)
    } else {
        "context block "@ + decimal(id as nat) + " lines "@ + decimal((r.first_line + 1) as nat) + "-"@ + decimal((r.last_line + 1) as nat)
    }
}

/// The reply for target `replies[j].0` names no target of the draft.
pub open spec fn reply_missing(p: &PreparedWorkflow, replies: Seq<(usize, Vec<char>)>, j: int) -> bool {
    !has_target(p.draft.targets@, replies[j].0)
}

/// Reply `j` is the first that names no target.
pub open spec fn first_missing(p: &PreparedWorkflow, replies: Seq<(usize, Vec<char>)>, j: int) -> bool {
    &&& 0 <= j < replies.len()
    &&& reply_missing(p, replies, j)
    &&& forall|q: int| 0 <= q < j ==> !reply_missing(p, replies, q)
}

/// The edits that the first `k` replies ask for: a reply that repeats its
/// target's text asks for none.
pub open spec fn region_edits(p: &PreparedWorkflow, replies: Seq<(usize, Vec<char>)>, k: int) -> Seq<PendingView>
    decreases k,
{
    if k <= 0 {
        Seq::empty()
    } else {
        let prev = region_edits(p, replies, k - 1);
        let id = replies[k - 1].0;
        let rep = replies[k - 1].1@;
        let t = target_for(p.draft.targets@, id);
        if rep == t.range.original@ {
            prev
        } else {
            prev.push(
                PendingView {
                    target_id: Some(id),
                    start: t.range.start,
                    end: t.range.end,
                    replacement: rep,
                    original: t.range.original@,
                    label: region_label(p.draft.scope, id, t.range),
                },
            )
        }
    }
}

/// The marks that the first `k` replies leave: a span for inserted text, a
/// gutter line where a region was emptied.
pub open spec fn region_marks(p: &PreparedWorkflow, replies: Seq<(usize, Vec<char>)>, k: int) -> (Seq<ChangedRange>, Seq<usize>)
    decreases k,
{
    if k <= 0 {
        no_marks()
    } else {
        let prev = region_marks(p, replies, k - 1);
        let id = replies[k - 1].0;
        let rep = replies[k - 1].1@;
        let t = target_for(p.draft.targets@, id);
        if rep == t.range.original@ {
            prev
        } else if rep.len() == 0 {
            (prev.0, prev.1.push(t.range.start.row))
        } else {
            (prev.0.push(ChangedRange { start: t.range.start, end: after_text(t.range.start, rep) }), prev.1)
        }
    }
}

/// What a region reply proposes, or why it is refused.
pub open spec fn region_outcome(p: &PreparedWorkflow, replies: Seq<(usize, Vec<char>)>) -> Result<(Seq<PendingView>, (Seq<ChangedRange>, Seq<usize>)), Seq<char>> {
    if exists|j: int| first_missing(p, replies, j) {
        let j = choose|j: int| first_missing(p, replies, j);
        Err("response names missing request-local block "@ + decimal(replies[j].0 as nat))
    } else {
        let edits = region_edits(p, replies, replies.len() as int);
        if edits.len() == 0 && !cleanup_due(p) {
            Err("proposal makes no scoped change"@)
        } else {
            Ok((edits, region_marks(p, replies, replies.len() as int)))
        }
    }
}

proof fn lemma_some_first_missing(p: &PreparedWorkflow, replies: Seq<(usize, Vec<char>)>, j: int)
    requires
        0 <= j < replies.len(),
        reply_missing(p, replies, j),
    ensures
        exists|k: int| first_missing(p, replies, k),
    decreases j,
{
    if exists|q: int| 0 <= q < j && reply_missing(p, replies, q) {
        let q = choose|q: int| 0 <= q < j && reply_missing(p, replies, q);
        lemma_some_first_missing(p, replies, q);
    } else {
        assert(first_missing(p, replies, j));
    }
}

proof fn lemma_region_outcome_views(p: &PreparedWorkflow, a: Seq<(usize, Vec<char>)>, b: Seq<(usize, Vec<char>)>)
    requires
        a.len() == b.len(),
        forall|i: int| 0 <= i < a.len() ==> a[i].0 == b[i].0 && a[i].1@ == b[i].1@,
    ensures
        region_outcome(p, a) == region_outcome(p, b),
{
    assert forall|j: int| 0 <= j < a.len() implies reply_missing(p, a, j) == reply_missing(p, b, j) by {
    }
    assert forall|j: int| first_missing(p, a, j) == first_missing(p, b, j) by {
    }
    assert forall|k: int| 0 <= k <= a.len() implies region_edits(p, a, k) == region_edits(p, b, k) && region_marks(p, a, k)
        == region_marks(p, b, k) by {
        lemma_region_steps(p, a, b, k);
    }
}

proof fn lemma_region_steps(p: &PreparedWorkflow, a: Seq<(usize, Vec<char>)>, b: Seq<(usize, Vec<char>)>, k: int)
    requires
        a.len() == b.len(),
        0 <= k <= a.len(),
        forall|i: int| 0 <= i < a.len() ==> a[i].0 == b[i].0 && a[i].1@ == b[i].1@,
    ensures
        region_edits(p, a, k) == region_edits(p, b, k),
        region_marks(p, a, k) == region_marks(p, b, k),
    decreases k,
{
    if k > 0 {
        lemma_region_steps(p, a, b, k - 1);
    }
}

/// Turns a region reply into edits, as `region_outcome` says.
pub fn region_proposal_result(p: &PreparedWorkflow, replies: &Vec<(usize, Vec<char>)>) -> (res: Result<(Vec<PendingEdit>, ChangeSet), Vec<char>>)
    ensures
        match res {
            Ok((es, cs)) => region_outcome(p, replies@) == Ok::<(Seq<PendingView>, (Seq<ChangedRange>, Seq<usize>)), Seq<char>>((pending_views(es@), cs.view())),
            Err(e) => region_outcome(p, replies@) == Err::<(Seq<PendingView>, (Seq<ChangedRange>, Seq<usize>)), Seq<char>>(e@),
        },
{
    let res = region_proposal(p, replies);
    proof {
        if exists|j: int| first_missing(p, replies@, j) {
            let j = choose|j: int| first_missing(p, replies@, j);
            assert(first_missing(p, replies@, j));
        } else {
            assert forall|j: int| 0 <= j < replies@.len() implies !#[trigger] reply_missing(p, replies@, j) by {
                if reply_missing(p, replies@, j) {
                    lemma_some_first_missing(p, replies@, j);
                }
            }
        }
    }
    res
}

/// Turns the model's replacement for each named region into edits of the
/// current request; `replies` pairs each region id with its new text.
pub fn region_proposal(p: &PreparedWorkflow, replies: &Vec<(usize, Vec<char>)>) -> (res: Result<(Vec<PendingEdit>, ChangeSet), Vec<char>>)
    ensures
        forall|j: int| #[trigger] first_missing(p, replies@, j) ==> (res matches Err(m) && m@
            == "response names missing request-local block "@ + decimal(replies@[j].0 as nat)),
        (forall|j: int| 0 <= j < replies@.len() ==> !#[trigger] reply_missing(p, replies@, j)) ==> {
            let edits = region_edits(p, replies@, replies@.len() as int);
            if edits.len() == 0 && !cleanup_due(p) {
                res matches Err(m) && m@ == "proposal makes no scoped change"@
            } else {
                res matches Ok((es, cs)) && pending_views(es@) == edits && cs.view() == region_marks(
                    p,
                    replies@,
                    replies@.len() as int,
                )
            }
        },
{
    let ghost rs = replies@;
    let mut edits: Vec<PendingEdit> = Vec::new();
    let mut changes = ChangeSet::new();
    let mut k: usize = 0;
    while k < replies.len()
        invariant
            rs == replies@,
            0 <= k <= rs.len(),
            forall|j: int| 0 <= j < k ==> !#[trigger] reply_missing(p, rs, j),
            pending_views(edits@) == region_edits(p, rs, k as int),
            changes.view() == region_marks(p, rs, k as int),
        decreases rs.len() - k,
    {
        let id = replies[k].0;
        let rep = &replies[k].1;
        let found = find_target(&p.draft.targets, id);
        match found {
            None => {
                let mut m: Vec<char> = Vec::new();
                push_str(&mut m, "response names missing request-local block ");
                push_decimal(&mut m, id as u128);
                proof {
                    assert(first_missing(p, rs, k as int));
                    assert forall|j: int| #[trigger] first_missing(p, rs, j) implies j == k by {
                        if j < k {
                        } else if j > k {
                            assert(!reply_missing(p, rs, k as int));
                        }
                    }
                }
                return Err(m);
            },
            Some(ti) => {
                let t = &p.draft.targets[ti];
                proof {
                    lemma_first_target(p.draft.targets@, id, ti as int);
                }
                let ghost before_edits = edits@;
                if !crate::buffer::chars_equal(rep, &t.range.original) {
                    let edit = TextEdit { start: t.range.start, end: t.range.end, replacement: crate::buffer::copy_chars(rep) };
                    if rep.len() == 0 {
                        changes.gutter_lines.push(edit.start.row);
                    } else {
                        let end = cursor_after_text(edit.start, rep);
                        changes.ranges.push(ChangedRange { start: edit.start, end });
                    }
                    let mut label: Vec<char> = Vec::new();
                    if p.draft.scope == InlineScope::Selection {
                        push_str(&mut label, "selection lines ");
                    } else {
                        push_str(&mut label, "context block ");
                        push_decimal(&mut label, id as u128);
                        push_str(&mut label, " lines ");
                    }
                    push_decimal(&mut label, t.range.first_line as u128 + 1);
                    push_str(&mut label, "-");
                    push_decimal(&mut label, t.range.last_line as u128 + 1);
                    edits.push(
                        PendingEdit {
                            target_id: Some(id),
                            edit,
                            original: crate::buffer::copy_chars(&t.range.original),
                            label,
                        },
                    );
                    proof {
                        assert(pending_views(edits@) =~= pending_views(before_edits).push(edits@.last().view()));
                        assert(label@ =~= region_label(p.draft.scope, id, t.range));
                    }
                }
                proof {
                    assert(rs[k as int].0 == id);
                    assert(has_target(p.draft.targets@, id));
                }
            },
        }
        k += 1;
    }
    proof {
        assert forall|j: int| !#[trigger] first_missing(p, rs, j) by {
            if first_missing(p, rs, j) {
                assert(!reply_missing(p, rs, j));
            }
        }
    }
    if edits.len() == 0 && !cleanup_is_due(p) {
        let mut m: Vec<char> = Vec::new();
        push_str(&mut m, "proposal makes no scoped change");
        return Err(m);
    }
    Ok((edits, changes))
}

/// A line without the '\r' that came before its '\n'.
pub open spec fn strip_cr(l: Seq<char>) -> Seq<char> {
    if l.len() > 0 && l.last() == '\r' {
        l.drop_last()
    } else {
        l
    }
}

/// The pieces of `t` between '\n's, without an empty piece after a final
/// '\n' (and none for an empty text).
pub open spec fn raw_lines(t: Seq<char>) -> Seq<Seq<char>> {
    let parts = split_lines(t);
    let ended = parts.take(parts.len() - 1);
    if parts.last().len() == 0 {
        ended
    } else {
        ended.push(parts.last())
    }
}

/// The lines of `t` as `str::lines` yields them: the pieces of
/// `raw_lines`, with a '\r' before a line's '\n' dropped.
pub open spec fn text_lines(t: Seq<char>) -> Seq<Seq<char>> {
    let parts = split_lines(t);
    let ended = parts.take(parts.len() - 1).map_values(|l: Seq<char>| strip_cr(l));
    if parts.last().len() == 0 {
        ended
    } else {
        ended.push(parts.last())
    }
}

fn line_pieces(t: &Vec<char>, strip: bool) -> (res: Vec<Vec<char>>)
    ensures
        crate::buffer::view_lines(res@) == if strip {
            text_lines(t@)
        } else {
            raw_lines(t@)
        },
{
    let (parts, _) = crate::buffer::split_text(t, 0);
    let ghost ps = split_lines(t@);
    proof {
        crate::lines::lemma_split_wf(t@);
    }
    let n = parts.len() - 1;
    let mut out: Vec<Vec<char>> = Vec::new();
    let mut i: usize = 0;
    while i < n
        invariant
            crate::buffer::view_lines(parts@) == ps,
            ps.len() >= 1,
            n == ps.len() - 1,
            0 <= i <= n,
            crate::buffer::view_lines(out@) == if strip {
                ps.take(i as int).map_values(|l: Seq<char>| strip_cr(l))
            } else {
                ps.take(i as int)
            },
        decreases n - i,
    {
        let line = &parts[i];
        let mut piece = crate::buffer::copy_chars(line);
        proof {
            assert(line@ == ps[i as int]);
        }
        if strip && piece.len() > 0 && piece[piece.len() - 1] == '\r' {
            piece.pop();
        }
        let ghost before = out@;
        out.push(piece);
        proof {
            assert(ps.take(i + 1) =~= ps.take(i as int).push(ps[i as int]));
            assert(crate::buffer::view_lines(out@) =~= crate::buffer::view_lines(before).push(piece@));
            if strip {
                assert(piece@ =~= strip_cr(ps[i as int]));
                assert(ps.take(i + 1).map_values(|l: Seq<char>| strip_cr(l)) =~= ps.take(i as int).map_values(
                    |l: Seq<char>| strip_cr(l),
                ).push(strip_cr(ps[i as int])));
            }
        }
        i += 1;
    }
    let last = &parts[n];
    proof {
        assert(last@ == ps.last());
    }
    if last.len() > 0 {
        let ghost before = out@;
        out.push(crate::buffer::copy_chars(last));
        proof {
            assert(crate::buffer::view_lines(out@) =~= crate::buffer::view_lines(before).push(ps.last()));
        }
    }
    out
}

/// `ls` written one per line, each behind `prefix`.
pub open spec fn prefixed_lines(prefix: char, ls: Seq<Seq<char>>, k: int) -> Seq<char>
    decreases k,
{
    if k <= 0 {
        Seq::empty()
    } else {
        prefixed_lines(prefix, ls, k - 1) + seq![prefix] + ls[k - 1] + seq!['\n']
    }
}

/// `value` written line by line behind `prefix`; an empty value is shown
/// as "<empty>".
pub open spec fn prefixed(prefix: char, value: Seq<char>) -> Seq<char> {
    if value.len() == 0 {
        seq![prefix] + "<empty>\n"@
    } else {
        let ls = raw_lines(value);
        prefixed_lines(prefix, ls, ls.len() as int)
    }
}

fn append_prefixed(out: &mut Vec<char>, prefix: char, value: &Vec<char>)
    ensures
        final(out)@ == old(out)@ + prefixed(prefix, value@),
{
    if value.len() == 0 {
        out.push(prefix);
        push_str(out, "<empty>\n");
        proof {
            assert(final(out)@ =~= old(out)@ + prefixed(prefix, value@)) by {
                assert(seq![prefix] + "<empty>\n"@ =~= prefixed(prefix, value@));
            }
        }
        return;
    }
    let ls = line_pieces(value, false);
    let ghost start = out@;
    let ghost raw = raw_lines(value@);
    let mut i: usize = 0;
    while i < ls.len()
        invariant
            crate::buffer::view_lines(ls@) == raw,
            0 <= i <= raw.len(),
            out@ == start + prefixed_lines(prefix, raw, i as int),
        decreases raw.len() - i,
    {
        out.push(prefix);
        push_chars(out, &ls[i]);
        out.push('\n');
        proof {
            assert(ls@[i as int]@ == raw[i as int]);
            assert(out@ =~= start + prefixed_lines(prefix, raw, i + 1));
        }
        i += 1;
    }
}

/// The marks of a preview page: an added line ('+', not "+++") is marked
/// whole and in the gutter, a removed line ('-', not "---") in the gutter.
pub open spec fn preview_marks(ls: Seq<Seq<char>>, k: int) -> (Seq<ChangedRange>, Seq<usize>)
    decreases k,
{
    if k <= 0 {
        no_marks()
    } else {
        let prev = preview_marks(ls, k - 1);
        let line = ls[k - 1];
        let row = (k - 1) as usize;
        if line.len() > 0 && line[0] == '+' && !(line.len() >= 3 && line[1] == '+' && line[2] == '+') {
            (
                prev.0.push(
                    ChangedRange { start: Cursor { row, col: 0 }, end: Cursor { row, col: line.len() as usize } },
                ),
                prev.1.push(row),
            )
        } else if line.len() > 0 && line[0] == '-' && !(line.len() >= 3 && line[1] == '-' && line[2] == '-') {
            (prev.0, prev.1.push(row))
        } else {
            prev
        }
    }
}

fn preview_line_changes(text: &Vec<char>) -> (res: ChangeSet)
    ensures
        res.view() == preview_marks(text_lines(text@), text_lines(text@).len() as int),
{
    let ls = line_pieces(text, true);
    let ghost tl = text_lines(text@);
    let mut changes = ChangeSet::new();
    let mut row: usize = 0;
    while row < ls.len()
        invariant
            crate::buffer::view_lines(ls@) == tl,
            0 <= row <= tl.len(),
            changes.view() == preview_marks(tl, row as int),
        decreases tl.len() - row,
    {
        let line = &ls[row];
        proof {
            assert(line@ == tl[row as int]);
        }
        let n = line.len();
        if n > 0 && line[0] == '+' && !(n >= 3 && line[1] == '+' && line[2] == '+') {
            changes.ranges.push(ChangedRange { start: Cursor { row, col: 0 }, end: Cursor { row, col: n } });
            changes.gutter_lines.push(row);
        } else if n > 0 && line[0] == '-' && !(n >= 3 && line[1] == '-' && line[2] == '-') {
            changes.gutter_lines.push(row);
        }
        row += 1;
    }
    changes
}

/// `s` occurs in `t` at `i`.
pub open spec fn occurs_at(t: Seq<char>, s: Seq<char>, i: int) -> bool {
    0 <= i && i + s.len() <= t.len() && t.subrange(i, i + s.len()) == s
}

/// `i` is where `s` first occurs in `t`.
pub open spec fn first_at(t: Seq<char>, s: Seq<char>, i: int) -> bool {
    occurs_at(t, s, i) && forall|j: int| 0 <= j < i ==> !#[trigger] occurs_at(t, s, j)
}

/// Non-overlapping matches of `s` in `t` from `i` on, counted left to
/// right (an empty `s` matches at every position).
pub open spec fn matches_from(t: Seq<char>, s: Seq<char>, i: int) -> nat
    decreases t.len() + 1 - i,
{
    if i > t.len() || i < 0 {
        0
    } else if s.len() == 0 {
        (t.len() + 1 - i) as nat
    } else if i + s.len() > t.len() {
        0
    } else if occurs_at(t, s, i) {
        1 + matches_from(t, s, i + s.len())
    } else {
        matches_from(t, s, i + 1)
    }
}

proof fn lemma_match_found(t: Seq<char>, s: Seq<char>, i: int)
    requires
        s.len() > 0,
        0 <= i,
        matches_from(t, s, i) > 0,
    ensures
        exists|j: int| i <= j && #[trigger] occurs_at(t, s, j),
    decreases t.len() + 1 - i,
{
    if i <= t.len() && i + s.len() <= t.len() && !occurs_at(t, s, i) {
        lemma_match_found(t, s, i + 1);
    }
}

fn count_matches(t: &Vec<char>, s: &Vec<char>) -> (res: usize)
    ensures
        res as nat == matches_from(t@, s@, 0) || (res == usize::MAX && matches_from(t@, s@, 0) >= usize::MAX),
{
    if s.len() == 0 {
        return t.len().saturating_add(1);
    }
    let tl = t.len();
    let mut count: usize = 0;
    let mut i: usize = 0;
    while i <= t.len() && s.len() <= t.len() - i
        invariant
            tl == t@.len(),
            s@.len() > 0,
            0 <= i <= t@.len(),
            count <= i,
            count + matches_from(t@, s@, i as int) == matches_from(t@, s@, 0),
        decreases t@.len() + 1 - i,
    {
        let mut k: usize = 0;
        let mut same = true;
        while k < s.len()
            invariant
                tl == t@.len(),
                0 <= k <= s@.len(),
                i + s@.len() <= t@.len(),
                same == (forall|q: int| 0 <= q < k ==> t@[i + q] == s@[q]),
            decreases s@.len() - k,
        {
            if t[i + k] != s[k] {
                same = false;
            }
            k += 1;
        }
        if same {
            proof {
                assert(t@.subrange(i as int, i + s@.len()) =~= s@);
            }
            count += 1;
            i += s.len();
        } else {
            proof {
                let q = choose|q: int| 0 <= q < s@.len() && t@[i + q] != s@[q];
                assert(t@.subrange(i as int, i + s@.len())[q] != s@[q]);
            }
            i += 1;
        }
    }
    count
}

fn find_first(t: &Vec<char>, s: &Vec<char>) -> (res: Option<usize>)
    ensures
        match res {
            Some(i) => first_at(t@, s@, i as int),
            None => forall|j: int| !#[trigger] occurs_at(t@, s@, j),
        },
{
    if s.len() > t.len() {
        return None;
    }
    let tl = t.len();
    if s.len() == 0 {
        proof {
            assert(t@.subrange(0, 0) =~= s@);
        }
        return Some(0);
    }
    let last = t.len() - s.len();
    let mut i: usize = 0;
    while i <= last
        invariant
            tl == t@.len(),
            s@.len() > 0,
            last == t@.len() - s@.len(),
            s@.len() <= t@.len(),
            0 <= i <= last + 1,
            forall|j: int| 0 <= j < i ==> !#[trigger] occurs_at(t@, s@, j),
        decreases last + 1 - i,
    {
        let mut k: usize = 0;
        let mut same = true;
        while k < s.len()
            invariant
                tl == t@.len(),
                0 <= k <= s@.len(),
                i + s@.len() <= t@.len(),
                same == (forall|q: int| 0 <= q < k ==> t@[i + q] == s@[q]),
            decreases s@.len() - k,
        {
            if t[i + k] != s[k] {
                same = false;
            }
            k += 1;
        }
        if same {
            proof {
                assert(t@.subrange(i as int, i + s@.len()) =~= s@);
            }
            return Some(i);
        }
        proof {
            let q = choose|q: int| 0 <= q < s@.len() && t@[i + q] != s@[q];
            assert(t@.subrange(i as int, i + s@.len())[q] != s@[q]);
        }
        i += 1;
    }
    proof {
        assert forall|j: int| !#[trigger] occurs_at(t@, s@, j) by {
            if occurs_at(t@, s@, j) {
                assert(j < i);
            }
        }
    }
    None
}

/// The proposed text with the instruction's metadata line put back, or
/// removed with the newline the cleanup covers; `at` is where the
/// sentinel that stands for it sits.
pub open spec fn restored(proposed: Seq<char>, sentinel: Seq<char>, p: &PreparedWorkflow, at: int) -> Result<Seq<char>, Seq<char>> {
    let m = p.draft.instruction;
    let end = at + sentinel.len();
    if !p.inline.remove_instruction_after_apply {
        Ok(proposed.take(at) + m.metadata.original@ + proposed.skip(end))
    } else if m.cleanup.start != m.metadata.start {
        if at == 0 {
            Err("instruction cleanup expected a preceding newline that is missing"@)
        } else if proposed[at - 1] != '\n' {
            Err("instruction cleanup preceding newline drifted"@)
        } else {
            Ok(proposed.take(at - 1) + proposed.skip(end))
        }
    } else if m.cleanup.end != m.metadata.end {
        if end >= proposed.len() || proposed[end] != '\n' {
            Err("instruction cleanup terminating newline drifted"@)
        } else {
            Ok(proposed.take(at) + proposed.skip(end + 1))
        }
    } else {
        Ok(proposed.take(at) + proposed.skip(end))
    }
}

fn splice(t: &Vec<char>, start: usize, end: usize, ins: &Vec<char>) -> (res: Vec<char>)
    requires
        start <= end <= t@.len(),
    ensures
        res@ == t@.take(start as int) + ins@ + t@.skip(end as int),
{
    let mut out: Vec<char> = Vec::new();
    let mut i: usize = 0;
    while i < start
        invariant
            start <= t@.len(),
            0 <= i <= start,
            out@ == t@.take(i as int),
        decreases start - i,
    {
        out.push(t[i]);
        i += 1;
        proof {
            assert(t@.take(i as int) =~= t@.take(i - 1).push(t@[i - 1]));
        }
    }
    push_chars(&mut out, ins);
    let mut j: usize = end;
    while j < t.len()
        invariant
            end <= j <= t@.len(),
            out@ == t@.take(start as int) + ins@ + t@.subrange(end as int, j as int),
        decreases t@.len() - j,
    {
        out.push(t[j]);
        j += 1;
        proof {
            assert(t@.subrange(end as int, j as int) =~= t@.subrange(end as int, j - 1).push(t@[j - 1]));
        }
    }
    proof {
        assert(t@.subrange(end as int, t@.len() as int) =~= t@.skip(end as int));
    }
    out
}

fn restore_or_remove_metadata(proposed: &Vec<char>, sentinel: &Vec<char>, p: &PreparedWorkflow, at: usize) -> (res: Result<Vec<char>, Vec<char>>)
    requires
        occurs_at(proposed@, sentinel@, at as int),
    ensures
        match res {
            Ok(t) => restored(proposed@, sentinel@, p, at as int) == Ok::<Seq<char>, Seq<char>>(t@),
            Err(e) => restored(proposed@, sentinel@, p, at as int) == Err::<Seq<char>, Seq<char>>(e@),
        },
{
    let pl = proposed.len();
    let m = &p.draft.instruction;
    let end = at + sentinel.len();
    let empty: Vec<char> = Vec::new();
    if !p.inline.remove_instruction_after_apply {
        return Ok(splice(proposed, at, end, &m.metadata.original));
    }
    if m.cleanup.start != m.metadata.start {
        if at == 0 {
            let mut e: Vec<char> = Vec::new();
            push_str(&mut e, "instruction cleanup expected a preceding newline that is missing");
            return Err(e);
        }
        if proposed[at - 1] != '\n' {
            let mut e: Vec<char> = Vec::new();
            push_str(&mut e, "instruction cleanup preceding newline drifted");
            return Err(e);
        }
        let r = splice(proposed, at - 1, end, &empty);
        proof {
            assert(r@ =~= proposed@.take(at - 1) + proposed@.skip(end as int));
        }
        return Ok(r);
    }
    if m.cleanup.end != m.metadata.end {
        if end >= proposed.len() || proposed[end] != '\n' {
            let mut e: Vec<char> = Vec::new();
            push_str(&mut e, "instruction cleanup terminating newline drifted");
            return Err(e);
        }
        let r = splice(proposed, at, end + 1, &empty);
        proof {
            assert(r@ =~= proposed@.take(at as int) + proposed@.skip(end + 1));
        }
        return Ok(r);
    }
    let r = splice(proposed, at, end, &empty);
    proof {
        assert(r@ =~= proposed@.take(at as int) + proposed@.skip(end as int));
    }
    Ok(r)
}

/// Where a line of the proposed text (which holds the sentinel line `sl`)
/// lands in the final text: lines after the sentinel move up by one when
/// the instruction is removed, or down by the metadata's extra lines.
pub open spec fn mapped_line(l: usize, sl: usize, p: &PreparedWorkflow) -> int {
    if l <= sl {
        l as int
    } else if p.inline.remove_instruction_after_apply {
        sat_sub(l as int, 1)
    } else {
        sat_add(l as int, newline_count(p.draft.instruction.metadata.original@) as int)
    }
}

/// `a`, or `b` where it is smaller.
pub open spec fn min_of(a: int, b: int) -> int {
    if a <= b {
        a
    } else {
        b
    }
}

/// The spans of the lines that the first `k` added ranges cover, mapped
/// into a final text of `lc` lines.
pub open spec fn added_marks(added: Seq<(usize, usize)>, sl: usize, p: &PreparedWorkflow, lc: int, k: int) -> Seq<ChangedRange>
    decreases k,
{
    if k <= 0 {
        Seq::empty()
    } else {
        let prev = added_marks(added, sl, p, lc, k - 1);
        let start = min_of(mapped_line(added[k - 1].0, sl, p), lc - 1);
        let end = min_of(mapped_line(added[k - 1].1, sl, p), lc);
        if start < end {
            prev.push(
                ChangedRange {
                    start: Cursor { row: start as usize, col: 0 },
                    end: Cursor { row: end as usize, col: 0 },
                },
            )
        } else {
            prev
        }
    }
}

/// The marks of a full-file patch in the final text: the lines it adds,
/// the lines where it deletes, and the removed instruction's line.
pub open spec fn patch_marks(
    added: Seq<(usize, usize)>,
    deleted: Seq<usize>,
    sl: usize,
    p: &PreparedWorkflow,
    final_text: Seq<char>,
) -> (Seq<ChangedRange>, Seq<usize>) {
    let lc = newline_count(final_text) + 1int;
    let gutter = deleted.map_values(|l: usize| min_of(mapped_line(l, sl, p), lc - 1) as usize);
    (
        added_marks(added, sl, p, lc, added.len() as int),
        if p.inline.remove_instruction_after_apply {
            gutter.push(min_of(mapped_line(sl, sl, p), lc - 1) as usize)
        } else {
            gutter
        },
    )
}

fn map_line(l: usize, sl: usize, p: &PreparedWorkflow, metadata_newlines: usize) -> (res: usize)
    requires
        metadata_newlines == newline_count(p.draft.instruction.metadata.original@),
    ensures
        res == mapped_line(l, sl, p),
{
    if l <= sl {
        l
    } else if p.inline.remove_instruction_after_apply {
        l.saturating_sub(1)
    } else {
        l.saturating_add(metadata_newlines)
    }
}

fn map_patch_changes(added: &Vec<(usize, usize)>, deleted: &Vec<usize>, sl: usize, p: &PreparedWorkflow, final_text: &Vec<char>) -> (res: ChangeSet)
    ensures
        res.view() == patch_marks(added@, deleted@, sl, p, final_text@),
{
    let (mn, _) = text_counts(&p.draft.instruction.metadata.original);
    let (fl, _) = text_counts(final_text);
    let ghost lc: int = fl + 1;
    let mut changes = ChangeSet::new();
    let mut i: usize = 0;
    while i < added.len()
        invariant
            mn == newline_count(p.draft.instruction.metadata.original@),
            lc == fl + 1,
            0 <= i <= added@.len(),
            changes.ranges@ == added_marks(added@, sl, p, lc, i as int),
            changes.gutter_lines@.len() == 0,
        decreases added@.len() - i,
    {
        let (a, b) = added[i];
        let ma = map_line(a, sl, p, mn);
        let start = if ma <= fl { ma } else { fl };
        let mb = map_line(b, sl, p, mn);
        let end = if mb <= fl { mb } else { fl + 1 };
        if start < end {
            changes.ranges.push(ChangedRange { start: Cursor { row: start, col: 0 }, end: Cursor { row: end, col: 0 } });
        }
        i += 1;
    }
    let ghost gutter = deleted@.map_values(|l: usize| min_of(mapped_line(l, sl, p), lc - 1) as usize);
    let mut j: usize = 0;
    while j < deleted.len()
        invariant
            mn == newline_count(p.draft.instruction.metadata.original@),
            lc == fl + 1,
            0 <= j <= deleted@.len(),
            gutter == deleted@.map_values(|l: usize| min_of(mapped_line(l, sl, p), lc - 1) as usize),
            changes.ranges@ == added_marks(added@, sl, p, lc, added@.len() as int),
            changes.gutter_lines@ == gutter.take(j as int),
        decreases deleted@.len() - j,
    {
        let m = map_line(deleted[j], sl, p, mn);
        changes.gutter_lines.push(if m <= fl { m } else { fl });
        j += 1;
        proof {
            assert(gutter.take(j as int) =~= gutter.take(j - 1).push(gutter[j - 1]));
        }
    }
    proof {
        assert(gutter.take(deleted@.len() as int) =~= gutter);
    }
    if p.inline.remove_instruction_after_apply {
        let m = map_line(sl, sl, p, mn);
        changes.gutter_lines.push(if m <= fl { m } else { fl });
    }
    changes
}

/// What the patch reader made of a full-file reply.
pub enum PatchOutcome {
    /// The reply is no valid unified diff; the reader's reason.
    Invalid(Vec<char>),
    /// The diff is for another file.
    OtherPath,
    /// The diff does not apply to the confirmed text; the reader's reason.
    Mismatch(Vec<char>),
    /// The confirmed text with the diff applied, the line ranges it adds
    /// and the lines where it deletes.
    Applied { proposed: Vec<char>, added_line_ranges: Vec<(usize, usize)>, deleted_at_lines: Vec<usize> },
}

/// What a full-file reply proposes, or why it is refused.
pub open spec fn full_file_outcome(b: &TextBuffer, p: &PreparedWorkflow, output: Seq<char>, patch: &PatchOutcome) -> Result<(Seq<PendingView>, (Seq<ChangedRange>, Seq<usize>)), Seq<char>> {
    match p.draft.full_file_sentinel {
        None => Err("full-file request lost its control sentinel"@),
        Some(sv) => {
            let s = sv@;
            if text_lines(output).contains(seq!['-'] + s) || text_lines(output).contains(seq!['+'] + s) {
                Err("full-file patch attempts to edit instruction metadata"@)
            } else {
                match patch {
                    PatchOutcome::Invalid(d) => Err("invalid full-file patch: "@ + d@),
                    PatchOutcome::OtherPath => Err("full-file patch targets a path other than "@ + p.path@),
                    PatchOutcome::Mismatch(d) => Err("full-file patch does not match confirmed context: "@ + d@),
                    PatchOutcome::Applied { proposed, added_line_ranges, deleted_at_lines } => {
                        if matches_from(proposed@, s, 0) != 1 {
                            Err("full-file patch changed or duplicated instruction metadata"@)
                        } else {
                            let at = choose|i: int| first_at(proposed@, s, i);
                            let sl = newline_count(proposed@.take(at));
                            match restored(proposed@, s, p, at) {
                                Err(e) => Err(e),
                                Ok(final_text) => if final_text == b.text() {
                                    Err("proposal makes no full-file change"@)
                                } else {
                                    let last = (b.lines().len() - 1) as usize;
                                    Ok(
                                        (
                                            seq![
                                                PendingView {
                                                    target_id: None,
                                                    start: Cursor { row: 0, col: 0 },
                                                    end: Cursor { row: last, col: b.lines()[last as int].len() as usize },
                                                    replacement: final_text,
                                                    original: b.text(),
                                                    label: "full-file unified patch for "@ + p.path@,
                                                },
                                            ],
                                            patch_marks(added_line_ranges@, deleted_at_lines@, sl as usize, p, final_text),
                                        ),
                                    )
                                },
                            }
                        }
                    },
                }
            }
        },
    }
}

proof fn lemma_first_unique(t: Seq<char>, s: Seq<char>, i: int)
    requires
        first_at(t, s, i),
    ensures
        (choose|j: int| first_at(t, s, j)) == i,
{
    let c = choose|j: int| first_at(t, s, j);
    assert(first_at(t, s, c));
    if c < i {
        assert(!occurs_at(t, s, c));
    } else if c > i {
        assert(!occurs_at(t, s, i));
    }
}

fn has_line(ls: &Vec<Vec<char>>, prefix: char, s: &Vec<char>) -> (res: bool)
    ensures
        res == crate::buffer::view_lines(ls@).contains(seq![prefix] + s@),
{
    let mut target: Vec<char> = Vec::new();
    target.push(prefix);
    push_chars(&mut target, s);
    let mut i: usize = 0;
    while i < ls.len()
        invariant
            target@ == seq![prefix] + s@,
            0 <= i <= ls@.len(),
            forall|j: int| 0 <= j < i ==> ls@[j]@ != target@,
        decreases ls@.len() - i,
    {
        if crate::buffer::chars_equal(&ls[i], &target) {
            proof {
                assert(crate::buffer::view_lines(ls@)[i as int] == target@);
            }
            return true;
        }
        i += 1;
    }
    proof {
        if crate::buffer::view_lines(ls@).contains(target@) {
            let j = choose|j: int| 0 <= j < crate::buffer::view_lines(ls@).len() && crate::buffer::view_lines(ls@)[j] == target@;
            assert(ls@[j]@ == target@);
        }
    }
    false
}

/// Turns a full-file reply into one edit of the whole buffer `b`, with the
/// instruction's metadata restored or removed; `patch` is what the patch
/// reader made of `output`.
pub fn full_file_proposal(b: &TextBuffer, p: &PreparedWorkflow, output: &Vec<char>, patch: &PatchOutcome) -> (res: Result<(Vec<PendingEdit>, ChangeSet), Vec<char>>)
    requires
        b.wf(),
    ensures
        match res {
            Ok((es, cs)) => full_file_outcome(b, p, output@, patch) == Ok::<(Seq<PendingView>, (Seq<ChangedRange>, Seq<usize>)), Seq<char>>((pending_views(es@), cs.view())),
            Err(e) => full_file_outcome(b, p, output@, patch) == Err::<(Seq<PendingView>, (Seq<ChangedRange>, Seq<usize>)), Seq<char>>(e@),
        },
{
    let sentinel = match &p.draft.full_file_sentinel {
        None => {
            let mut e: Vec<char> = Vec::new();
            push_str(&mut e, "full-file request lost its control sentinel");
            return Err(e);
        },
        Some(sv) => sv,
    };
    let ls = line_pieces(output, true);
    if has_line(&ls, '-', sentinel) || has_line(&ls, '+', sentinel) {
        let mut e: Vec<char> = Vec::new();
        push_str(&mut e, "full-file patch attempts to edit instruction metadata");
        return Err(e);
    }
    match patch {
        PatchOutcome::Invalid(d) => {
            let mut e: Vec<char> = Vec::new();
            push_str(&mut e, "invalid full-file patch: ");
            push_chars(&mut e, d);
            Err(e)
        },
        PatchOutcome::OtherPath => {
            let mut e: Vec<char> = Vec::new();
            push_str(&mut e, "full-file patch targets a path other than ");
            push_chars(&mut e, &p.path);
            Err(e)
        },
        PatchOutcome::Mismatch(d) => {
            let mut e: Vec<char> = Vec::new();
            push_str(&mut e, "full-file patch does not match confirmed context: ");
            push_chars(&mut e, d);
            Err(e)
        },
        PatchOutcome::Applied { proposed, added_line_ranges, deleted_at_lines } => {
            if count_matches(proposed, sentinel) != 1 {
                let mut e: Vec<char> = Vec::new();
                push_str(&mut e, "full-file patch changed or duplicated instruction metadata");
                return Err(e);
            }
            proof {
                if sentinel@.len() > 0 {
                    lemma_match_found(proposed@, sentinel@, 0);
                }
            }
            let at = match find_first(proposed, sentinel) {
                Some(i) => i,
                None => {
                    proof {
                        if sentinel@.len() == 0 {
                            assert(proposed@.subrange(0, 0) =~= sentinel@);
                            assert(occurs_at(proposed@, sentinel@, 0));
                        }
                    }
                    return Err(Vec::new());
                },
            };
            proof {
                lemma_first_unique(proposed@, sentinel@, at as int);
            }
            let head = crate::autocomplete::subrange_chars(proposed, 0, at);
            let (sl, _) = text_counts(&head);
            proof {
                assert(head@ =~= proposed@.take(at as int));
            }
            let final_text = match restore_or_remove_metadata(proposed, sentinel, p, at) {
                Err(e) => return Err(e),
                Ok(t) => t,
            };
            let current = b.to_chars();
            if crate::buffer::chars_equal(&final_text, &current) {
                let mut e: Vec<char> = Vec::new();
                push_str(&mut e, "proposal makes no full-file change");
                return Err(e);
            }
            let changes = map_patch_changes(added_line_ranges, deleted_at_lines, sl, p, &final_text);
            let n = b.line_count();
            let end_row = n - 1;
            let end_col = match b.line_char_count(end_row) {
                Some(c) => c,
                None => 0,
            };
            let mut label: Vec<char> = Vec::new();
            push_str(&mut label, "full-file unified patch for ");
            push_chars(&mut label, &p.path);
            let mut edits: Vec<PendingEdit> = Vec::new();
            edits.push(
                PendingEdit {
                    target_id: None,
                    edit: TextEdit { start: Cursor { row: 0, col: 0 }, end: Cursor { row: end_row, col: end_col }, replacement: final_text },
                    original: current,
                    label,
                },
            );
            proof {
                assert(pending_views(edits@) =~= seq![edits@[0].view()]);
            }
            Ok((edits, changes))
        },
    }
}

/// Encoded UTF-8 size of `v`.
pub fn utf8_size(v: &Vec<char>) -> (res: u128)
    ensures
        res == crate::external_diff::utf8_len(v@),
{
    let mut total: u128 = 0;
    let mut i: usize = 0;
    while i < v.len()
        invariant
            0 <= i <= v@.len(),
            total == crate::external_diff::utf8_len(v@.take(i as int)),
            total <= 4 * i,
        decreases v@.len() - i,
    {
        let c = v[i];
        let n: u128 = if (c as u32) < 0x80 {
            1
        } else if (c as u32) < 0x800 {
            2
        } else if (c as u32) < 0x10000 {
            3
        } else {
            4
        };
        proof {
            assert(v@.take(i + 1).drop_last() =~= v@.take(i as int));
            assert(v@.take(i + 1).last() == c);
        }
        total = total + n;
        i += 1;
    }
    proof {
        assert(v@.take(v@.len() as int) =~= v@);
    }
    total
}

/// The heading of one edit on the preview page: its name, where it was and
/// where it will be, and the sizes of both texts.
pub open spec fn edit_header(v: PendingView) -> Seq<char> {
    let after = after_text(v.start, v.replacement);
    "@@ "@ + v.label + "; before "@ + decimal((v.start.row + 1) as nat) + ":"@ + decimal((v.start.col + 1) as nat) + "-"@
        + decimal((v.end.row + 1) as nat) + ":"@ + decimal((v.end.col + 1) as nat) + " ("@ + decimal(
        crate::external_diff::utf8_len(v.original),
    ) + " bytes); after "@ + decimal((v.start.row + 1) as nat) + ":"@ + decimal((v.start.col + 1) as nat) + "-"@
        + decimal((after.row + 1) as nat) + ":"@ + decimal((after.col + 1) as nat) + " ("@ + decimal(
        crate::external_diff::utf8_len(v.replacement),
    ) + " bytes) @@\n"@
}

/// The first `k` edits as the preview shows them: heading, removed lines,
/// added lines, and a blank line.
pub open spec fn edit_sections(vs: Seq<PendingView>, k: int) -> Seq<char>
    decreases k,
{
    if k <= 0 {
        Seq::empty()
    } else {
        let v = vs[k - 1];
        edit_sections(vs, k - 1) + edit_header(v) + prefixed('-', v.original) + prefixed('+', v.replacement) + "\n"@
    }
}

/// The read-only page that shows a proposal before it is applied.
pub open spec fn preview_text(p: &PreparedWorkflow, vs: Seq<PendingView>, output: Seq<char>) -> Seq<char> {
    "Inline clanker proposal (read-only)\nModel: "@ + p.preset.model@ + "\nEndpoint: "@ + p.destination@
        + "\nInstruction line: "@ + decimal(p.draft.instruction.display_line as nat) + "\nCleanup: "@ + (if cleanup_due(p) {
        "included"@
    } else {
        "not included"@
    }) + "\n\n"@ + edit_sections(vs, vs.len() as int) + if p.draft.scope == InlineScope::FullFile {
        "Validated model unified diff:\n"@ + output + if output.len() > 0 && output.last() == '\n' {
            Seq::<char>::empty()
        } else {
            "\n"@
        }
    } else {
        Seq::<char>::empty()
    }
}

#[verifier::rlimit(30)]
fn push_edit_header(text: &mut Vec<char>, pe: &PendingEdit)
    ensures
        final(text)@ == old(text)@ + edit_header(pe.view()),
{
    let after = cursor_after_text(pe.edit.start, &pe.edit.replacement);
    let mut h: Vec<char> = Vec::new();
    push_str(&mut h, "@@ ");
    push_chars(&mut h, &pe.label);
    push_str(&mut h, "; before ");
    push_decimal(&mut h, pe.edit.start.row as u128 + 1);
    push_str(&mut h, ":");
    push_decimal(&mut h, pe.edit.start.col as u128 + 1);
    push_str(&mut h, "-");
    push_decimal(&mut h, pe.edit.end.row as u128 + 1);
    push_str(&mut h, ":");
    push_decimal(&mut h, pe.edit.end.col as u128 + 1);
    push_str(&mut h, " (");
    push_decimal(&mut h, utf8_size(&pe.original));
    let ghost first = h@;
    push_str(&mut h, " bytes); after ");
    push_decimal(&mut h, pe.edit.start.row as u128 + 1);
    push_str(&mut h, ":");
    push_decimal(&mut h, pe.edit.start.col as u128 + 1);
    push_str(&mut h, "-");
    push_decimal(&mut h, after.row as u128 + 1);
    push_str(&mut h, ":");
    push_decimal(&mut h, after.col as u128 + 1);
    push_str(&mut h, " (");
    push_decimal(&mut h, utf8_size(&pe.edit.replacement));
    push_str(&mut h, " bytes) @@\n");
    proof {
        assert(h@ =~= edit_header(pe.view()));
    }
    push_chars(text, &h);
}

/// The preview page of a proposal, with its added and removed lines marked.
#[verifier::rlimit(40)]
pub fn build_preview(p: &PreparedWorkflow, edits: &Vec<PendingEdit>, output: &Vec<char>) -> (res: (Vec<char>, ChangeSet))
    ensures
        res.0@ == preview_text(p, pending_views(edits@), output@),
        res.1.view() == preview_marks(text_lines(res.0@), text_lines(res.0@).len() as int),
{
    let mut text: Vec<char> = Vec::new();
    push_str(&mut text, "Inline clanker proposal (read-only)\nModel: ");
    push_str(&mut text, p.preset.model.as_str());
    push_str(&mut text, "\nEndpoint: ");
    push_chars(&mut text, &p.destination);
    push_str(&mut text, "\nInstruction line: ");
    push_decimal(&mut text, p.draft.instruction.display_line as u128);
    push_str(&mut text, "\nCleanup: ");
    if cleanup_is_due(p) {
        push_str(&mut text, "included");
    } else {
        push_str(&mut text, "not included");
    }
    push_str(&mut text, "\n\n");
    let ghost head = text@;
    let ghost vs = pending_views(edits@);
    let mut i: usize = 0;
    while i < edits.len()
        invariant
            vs == pending_views(edits@),
            0 <= i <= edits@.len(),
            text@ == head + edit_sections(vs, i as int),
        decreases edits@.len() - i,
    {
        let pe = &edits[i];
        push_edit_header(&mut text, pe);
        proof {
            assert(vs[i as int] == pe.view());
        }
        append_prefixed(&mut text, '-', &pe.original);
        append_prefixed(&mut text, '+', &pe.edit.replacement);
        push_str(&mut text, "\n");
        proof {
            assert(text@ =~= head + edit_sections(vs, i + 1));
        }
        i += 1;
    }
    let ghost body = text@;
    if p.draft.scope == InlineScope::FullFile {
        push_str(&mut text, "Validated model unified diff:\n");
        push_chars(&mut text, output);
        if !(output.len() > 0 && output[output.len() - 1] == '\n') {
            push_str(&mut text, "\n");
        }
    }
    proof {
        assert(text@ =~= preview_text(p, vs, output@));
    }
    let changes = preview_line_changes(&text);
    (text, changes)
}

/// `items` with `sep` between neighbours.
pub open spec fn join_with(items: Seq<Seq<char>>, sep: Seq<char>) -> Seq<char>
    decreases items.len(),
{
    if items.len() == 0 {
        Seq::empty()
    } else if items.len() == 1 {
        items[0]
    } else {
        join_with(items.drop_last(), sep) + sep + items.last()
    }
}

/// How the confirmation lists request `i`.
pub open spec fn request_item(r: InlineRequest, i: int) -> Seq<char> {
    "Request "@ + decimal((i + 1) as nat) + ": "@ + decimal(r.line_count as nat) + " lines / "@ + decimal(r.byte_count as nat)
        + " bytes"@
}

/// The requests of the queue, one per line.
pub open spec fn request_list(rs: Seq<InlineRequest>) -> Seq<char> {
    join_with(Seq::new(rs.len(), |i: int| request_item(rs[i], i)), "\n"@)
}

/// How the confirmation lists one block.
pub open spec fn block_item(t: InlineTarget) -> Seq<char> {
    decimal(t.id as nat) + ":"@ + decimal((t.range.first_line + 1) as nat) + "-"@ + decimal((t.range.last_line + 1) as nat)
        + "("@ + decimal(crate::external_diff::utf8_len(t.range.original@)) + "B)"@
}

/// What the request covers, as the confirmation says it.
pub open spec fn scope_text(d: &InlineDraft) -> Seq<char> {
    match d.scope {
        InlineScope::Selection => {
            let r = d.targets@[0].range;
            "selection lines "@ + decimal((r.first_line + 1) as nat) + "-"@ + decimal((r.last_line + 1) as nat) + " ("@
                + decimal(crate::external_diff::utf8_len(r.original@)) + " bytes)"@
        },
        InlineScope::Blocks => decimal(d.targets@.len()) + " context block(s) ["@ + join_with(
            Seq::new(d.targets@.len(), |i: int| block_item(d.targets@[i])),
            ","@,
        ) + "]"@,
        InlineScope::FullFile => "bounded full file "@ + decimal(d.full_file_lines as nat) + " lines/"@ + decimal(
            d.full_file_bytes as nat,
        ) + " bytes"@,
    }
}

/// How one sensitivity warning is named.
pub open spec fn sensitivity_label(w: Sensitivity) -> Seq<char> {
    match w {
        Sensitivity::Dotfile => "dotfile"@,
        Sensitivity::SecretLikeLine(line) => "secret-like line "@ + decimal((line + 1) as nat),
    }
}

/// What the sensitivity check found, as a sentence.
pub open spec fn sensitivity_text(d: &InlineDraft) -> Seq<char> {
    if d.sensitivity@.len() == 0 {
        "No obvious sensitive content detected."@
    } else {
        "Obvious sensitive content detected: "@ + join_with(
            Seq::new(d.sensitivity@.len(), |i: int| sensitivity_label(d.sensitivity@[i])),
            ", "@,
        ) + "."@
    }
}

/// The read-only page shown before anything is sent: destination, the
/// instruction, the scope and request sizes, sensitivity, and cleanup.
pub open spec fn send_confirmation_text(p: &PreparedWorkflow) -> Seq<char> {
    "Inline clanker send confirmation\n\nPreset: "@ + p.preset.name@ + "\nModel: "@ + p.preset.model@ + "\nAdapter: "@
        + crate::autocomplete::adapter_label(&p.preset) + "\nDestination: "@ + p.destination@
        + "\nInstruction source: line "@ + decimal(p.draft.instruction.display_line as nat) + "\nInstruction:\n"@
        + p.draft.instruction.text@ + "\n\nMode: "@ + p.draft.mode_label@ + "\nScope: "@ + scope_text(&p.draft) + "\n"@
        + request_list(p.draft.requests@) + "\nSensitive content: "@ + sensitivity_text(&p.draft)
        + "\nCleanup after final accepted proposal: "@ + (if p.inline.remove_instruction_after_apply {
        "enabled"@
    } else {
        "disabled"@
    }) + "\n\nNo client, process, or network request starts until Enter.\nEnter sends; Esc cancels.\n"@
}

/// The question asked before a large file is sent whole.
pub open spec fn warning_text(p: &PreparedWorkflow) -> Seq<char> {
    "Current file is "@ + decimal(p.draft.full_file_lines as nat) + " lines / "@ + decimal(p.draft.full_file_bytes as nat)
        + " bytes. Send the full file to "@ + p.preset.model@ + " at "@ + p.destination@ + "? "@ + sensitivity_text(&p.draft)
        + " Type yes or no:"@
}

proof fn lemma_join_step(items: Seq<Seq<char>>, sep: Seq<char>, i: int)
    requires
        0 <= i < items.len(),
    ensures
        join_with(items.take(i + 1), sep) == if i == 0 {
            items[0]
        } else {
            join_with(items.take(i), sep) + sep + items[i]
        },
{
    assert(items.take(i + 1).drop_last() =~= items.take(i));
    if i == 0 {
        assert(items.take(1).len() == 1);
    }
}

#[verifier::rlimit(40)]
fn push_request_list(out: &mut Vec<char>, rs: &Vec<InlineRequest>)
    ensures
        final(out)@ == old(out)@ + request_list(rs@),
{
    let ghost items = Seq::new(rs@.len(), |i: int| request_item(rs@[i], i));
    let ghost start = out@;
    let mut i: usize = 0;
    while i < rs.len()
        invariant
            items == Seq::new(rs@.len(), |i: int| request_item(rs@[i], i)),
            0 <= i <= rs@.len(),
            out@ == start + join_with(items.take(i as int), "\n"@),
        decreases rs@.len() - i,
    {
        let ghost before = out@;
        if i > 0 {
            push_str(out, "\n");
        }
        let ghost mid = out@;
        push_str(out, "Request ");
        push_decimal(out, i as u128 + 1);
        push_str(out, ": ");
        push_decimal(out, rs[i].line_count as u128);
        push_str(out, " lines / ");
        push_decimal(out, rs[i].byte_count as u128);
        push_str(out, " bytes");
        proof {
            lemma_join_step(items, "\n"@, i as int);
            assert(out@ =~= mid + items[i as int]);
            assert(out@ =~= start + join_with(items.take(i + 1), "\n"@));
        }
        i += 1;
    }
    proof {
        assert(items.take(rs@.len() as int) =~= items);
    }
}

#[verifier::rlimit(40)]
fn push_block_list(out: &mut Vec<char>, ts: &Vec<InlineTarget>)
    ensures
        final(out)@ == old(out)@ + join_with(Seq::new(ts@.len(), |i: int| block_item(ts@[i])), ","@),
{
    let ghost items = Seq::new(ts@.len(), |i: int| block_item(ts@[i]));
    let ghost start = out@;
    let mut i: usize = 0;
    while i < ts.len()
        invariant
            items == Seq::new(ts@.len(), |i: int| block_item(ts@[i])),
            0 <= i <= ts@.len(),
            out@ == start + join_with(items.take(i as int), ","@),
        decreases ts@.len() - i,
    {
        if i > 0 {
            push_str(out, ",");
        }
        let ghost mid = out@;
        let t = &ts[i];
        push_decimal(out, t.id as u128);
        push_str(out, ":");
        push_decimal(out, t.range.first_line as u128 + 1);
        push_str(out, "-");
        push_decimal(out, t.range.last_line as u128 + 1);
        push_str(out, "(");
        push_decimal(out, utf8_size(&t.range.original));
        push_str(out, "B)");
        proof {
            lemma_join_step(items, ","@, i as int);
            assert(out@ =~= mid + items[i as int]);
            assert(out@ =~= start + join_with(items.take(i + 1), ","@));
        }
        i += 1;
    }
    proof {
        assert(items.take(ts@.len() as int) =~= items);
    }
}

fn push_scope(out: &mut Vec<char>, d: &InlineDraft)
    requires
        d.scope == InlineScope::Selection ==> d.targets@.len() > 0,
    ensures
        final(out)@ == old(out)@ + scope_text(d),
{
    let ghost start = out@;
    match d.scope {
        InlineScope::Selection => {
            let r = &d.targets[0].range;
            push_str(out, "selection lines ");
            push_decimal(out, r.first_line as u128 + 1);
            push_str(out, "-");
            push_decimal(out, r.last_line as u128 + 1);
            push_str(out, " (");
            push_decimal(out, utf8_size(&r.original));
            push_str(out, " bytes)");
        },
        InlineScope::Blocks => {
            push_decimal(out, d.targets.len() as u128);
            push_str(out, " context block(s) [");
            push_block_list(out, &d.targets);
            push_str(out, "]");
        },
        InlineScope::FullFile => {
            push_str(out, "bounded full file ");
            push_decimal(out, d.full_file_lines as u128);
            push_str(out, " lines/");
            push_decimal(out, d.full_file_bytes as u128);
            push_str(out, " bytes");
        },
    }
    proof {
        assert(out@ =~= start + scope_text(d));
    }
}

#[verifier::rlimit(40)]
fn push_sensitivity(out: &mut Vec<char>, d: &InlineDraft)
    ensures
        final(out)@ == old(out)@ + sensitivity_text(d),
{
    let ghost start = out@;
    if d.sensitivity.len() == 0 {
        push_str(out, "No obvious sensitive content detected.");
        return;
    }
    push_str(out, "Obvious sensitive content detected: ");
    let ghost items = Seq::new(d.sensitivity@.len(), |i: int| sensitivity_label(d.sensitivity@[i]));
    let ghost head = out@;
    let mut i: usize = 0;
    while i < d.sensitivity.len()
        invariant
            items == Seq::new(d.sensitivity@.len(), |i: int| sensitivity_label(d.sensitivity@[i])),
            0 <= i <= d.sensitivity@.len(),
            out@ == head + join_with(items.take(i as int), ", "@),
        decreases d.sensitivity@.len() - i,
    {
        if i > 0 {
            push_str(out, ", ");
        }
        let ghost mid = out@;
        match d.sensitivity[i] {
            Sensitivity::Dotfile => push_str(out, "dotfile"),
            Sensitivity::SecretLikeLine(line) => {
                push_str(out, "secret-like line ");
                push_decimal(out, line as u128 + 1);
            },
        }
        proof {
            lemma_join_step(items, ", "@, i as int);
            assert(out@ =~= mid + items[i as int]);
            assert(out@ =~= head + join_with(items.take(i + 1), ", "@));
        }
        i += 1;
    }
    push_str(out, ".");
    proof {
        assert(items.take(d.sensitivity@.len() as int) =~= items);
        assert(out@ =~= start + sensitivity_text(d));
    }
}

/// The send confirmation page.
#[verifier::rlimit(30)]
pub fn confirmation_document(p: &PreparedWorkflow) -> (res: Vec<char>)
    requires
        p.draft.scope == InlineScope::Selection ==> p.draft.targets@.len() > 0,
    ensures
        res@ == send_confirmation_text(p),
{
    let mut out: Vec<char> = Vec::new();
    push_str(&mut out, "Inline clanker send confirmation\n\nPreset: ");
    push_str(&mut out, p.preset.name.as_str());
    push_str(&mut out, "\nModel: ");
    push_str(&mut out, p.preset.model.as_str());
    push_str(&mut out, "\nAdapter: ");
    match &p.preset.adapter {
        crate::config::BackendAdapter::OpenAiCompatible { .. } => push_str(&mut out, "OpenAI-compatible HTTP"),
        crate::config::BackendAdapter::Command { .. } => push_str(&mut out, "headless command"),
    }
    push_str(&mut out, "\nDestination: ");
    push_chars(&mut out, &p.destination);
    push_str(&mut out, "\nInstruction source: line ");
    push_decimal(&mut out, p.draft.instruction.display_line as u128);
    push_str(&mut out, "\nInstruction:\n");
    push_chars(&mut out, &p.draft.instruction.text);
    let ghost a = out@;
    push_str(&mut out, "\n\nMode: ");
    push_chars(&mut out, &p.draft.mode_label);
    push_str(&mut out, "\nScope: ");
    push_scope(&mut out, &p.draft);
    push_str(&mut out, "\n");
    push_request_list(&mut out, &p.draft.requests);
    push_str(&mut out, "\nSensitive content: ");
    push_sensitivity(&mut out, &p.draft);
    push_str(&mut out, "\nCleanup after final accepted proposal: ");
    if p.inline.remove_instruction_after_apply {
        push_str(&mut out, "enabled");
    } else {
        push_str(&mut out, "disabled");
    }
    push_str(&mut out, "\n\nNo client, process, or network request starts until Enter.\nEnter sends; Esc cancels.\n");
    proof {
        assert(out@ =~= send_confirmation_text(p));
    }
    out
}

/// The question asked before a large file is sent whole.
pub fn warning_question(p: &PreparedWorkflow) -> (res: Vec<char>)
    ensures
        res@ == warning_text(p),
{
    let mut out: Vec<char> = Vec::new();
    push_str(&mut out, "Current file is ");
    push_decimal(&mut out, p.draft.full_file_lines as u128);
    push_str(&mut out, " lines / ");
    push_decimal(&mut out, p.draft.full_file_bytes as u128);
    push_str(&mut out, " bytes. Send the full file to ");
    push_str(&mut out, p.preset.model.as_str());
    push_str(&mut out, " at ");
    push_chars(&mut out, &p.destination);
    push_str(&mut out, "? ");
    push_sensitivity(&mut out, &p.draft);
    push_str(&mut out, " Type yes or no:");
    proof {
        assert(out@ =~= warning_text(p));
    }
    out
}

/// What the status line says while request `request_index` runs.
pub open spec fn progress_text(p: &PreparedWorkflow) -> Seq<char> {
    let current = p.request_index + 1;
    let total = p.draft.requests@.len();
    let unit = p.draft.requests@[p.request_index as int];
    if total > 1 {
        "Inline clanker block "@ + decimal(current as nat) + "/"@ + decimal(total) + ": sending "@ + decimal(
            unit.line_count as nat,
        ) + " lines/"@ + decimal(unit.byte_count as nat) + " bytes to "@ + p.preset.model@ + " at "@ + p.destination@
            + "; "@ + decimal(sat_sub(total as int, current) as nat) + " remaining. Esc cancels queue."@
    } else {
        "Inline clanker sending "@ + decimal(unit.line_count as nat) + " lines/"@ + decimal(unit.byte_count as nat)
            + " bytes to "@ + p.preset.model@ + " at "@ + p.destination@ + ". Esc cancels."@
    }
}

/// What the status line says while a request runs.
pub fn progress_message(p: &PreparedWorkflow) -> (res: Vec<char>)
    requires
        p.request_index < p.draft.requests@.len(),
    ensures
        res@ == progress_text(p),
{
    let total = p.draft.requests.len();
    let unit = &p.draft.requests[p.request_index];
    let mut out: Vec<char> = Vec::new();
    if total > 1 {
        push_str(&mut out, "Inline clanker block ");
        push_decimal(&mut out, p.request_index as u128 + 1);
        push_str(&mut out, "/");
        push_decimal(&mut out, total as u128);
        push_str(&mut out, ": sending ");
        push_decimal(&mut out, unit.line_count as u128);
        push_str(&mut out, " lines/");
        push_decimal(&mut out, unit.byte_count as u128);
        push_str(&mut out, " bytes to ");
        push_str(&mut out, p.preset.model.as_str());
        push_str(&mut out, " at ");
        push_chars(&mut out, &p.destination);
        push_str(&mut out, "; ");
        push_decimal(&mut out, (total - (p.request_index + 1)) as u128);
        push_str(&mut out, " remaining. Esc cancels queue.");
    } else {
        push_str(&mut out, "Inline clanker sending ");
        push_decimal(&mut out, unit.line_count as u128);
        push_str(&mut out, " lines/");
        push_decimal(&mut out, unit.byte_count as u128);
        push_str(&mut out, " bytes to ");
        push_str(&mut out, p.preset.model.as_str());
        push_str(&mut out, " at ");
        push_chars(&mut out, &p.destination);
        push_str(&mut out, ". Esc cancels.");
    }
    proof {
        assert(out@ =~= progress_text(p));
    }
    out
}

/// The system prompt of a region request.
pub open spec fn region_system() -> Seq<char> {
    "You edit one exact Catomic region. Return exactly one JSON object with one string field named catomic_replacement. Do not return a patch, markdown fence, extra field, or prose. The replacement is only for the supplied region; never edit outside it or claim it was applied."@
}

/// The system prompt of a request for several blocks.
pub open spec fn multi_system() -> Seq<char> {
    "You edit numbered, independent Catomic context blocks. Return exactly one JSON object with one field catomic_replacements, an array containing every block exactly once as {\"block\":NUMBER,\"replacement\":STRING}. Do not merge concepts, move content between blocks, add prose, or mention content outside the supplied boundaries."@
}

/// The system prompt of a full-file request.
pub open spec fn full_file_system() -> Seq<char> {
    "You edit one bounded Catomic file. Return exactly one valid single-file unified diff against the supplied path, without prose or fences. The CATOMIC-INSTRUCTION-METADATA sentinel is immutable control metadata: preserve it byte-identically and exactly once. Never claim the patch was applied."@
}

/// The system prompt for a request of `target_count` regions.
pub open spec fn system_text(scope: InlineScope, target_count: nat) -> Seq<char> {
    match scope {
        InlineScope::FullFile => full_file_system(),
        InlineScope::Blocks => if target_count > 1 {
            multi_system()
        } else {
            region_system()
        },
        InlineScope::Selection => region_system(),
    }
}

/// The system prompt for a request of `target_count` regions.
pub fn system_prompt(scope: InlineScope, target_count: usize) -> (res: Vec<char>)
    ensures
        res@ == system_text(scope, target_count as nat),
{
    let mut out: Vec<char> = Vec::new();
    match scope {
        InlineScope::FullFile => push_str(&mut out, "You edit one bounded Catomic file. Return exactly one valid single-file unified diff against the supplied path, without prose or fences. The CATOMIC-INSTRUCTION-METADATA sentinel is immutable control metadata: preserve it byte-identically and exactly once. Never claim the patch was applied."),
        InlineScope::Blocks if target_count > 1 => push_str(&mut out, "You edit numbered, independent Catomic context blocks. Return exactly one JSON object with one field catomic_replacements, an array containing every block exactly once as {\"block\":NUMBER,\"replacement\":STRING}. Do not merge concepts, move content between blocks, add prose, or mention content outside the supplied boundaries."),
        _ => push_str(&mut out, "You edit one exact Catomic region. Return exactly one JSON object with one string field named catomic_replacement. Do not return a patch, markdown fence, extra field, or prose. The replacement is only for the supplied region; never edit outside it or claim it was applied."),
    }
    proof {
        reveal_strlit("You edit one bounded Catomic file. Return exactly one valid single-file unified diff against the supplied path, without prose or fences. The CATOMIC-INSTRUCTION-METADATA sentinel is immutable control metadata: preserve it byte-identically and exactly once. Never claim the patch was applied.");
    }
    out
}

/// How the user prompt names one confirmed block.
pub open spec fn target_item(t: InlineTarget) -> Seq<char> {
    "block "@ + decimal(t.id as nat) + "=lines "@ + decimal((t.range.first_line + 1) as nat) + "-"@ + decimal(
        (t.range.last_line + 1) as nat,
    ) + " ("@ + decimal(crate::external_diff::utf8_len(t.range.original@)) + " bytes)"@
}

/// The blocks named by the first `k` ids that the draft has.
pub open spec fn target_items(ts: Seq<InlineTarget>, ids: Seq<usize>, k: int) -> Seq<Seq<char>>
    decreases k,
{
    if k <= 0 {
        Seq::empty()
    } else if has_target(ts, ids[k - 1]) {
        target_items(ts, ids, k - 1).push(target_item(target_for(ts, ids[k - 1])))
    } else {
        target_items(ts, ids, k - 1)
    }
}

/// The user prompt of the current request: path, instruction, what may be
/// edited, and the context text.
pub open spec fn user_text(p: &PreparedWorkflow) -> Seq<char> {
    let unit = p.draft.requests@[p.request_index as int];
    let ids = unit.target_ids@;
    let ranges = if ids.len() == 0 {
        "full file"@
    } else {
        join_with(target_items(p.draft.targets@, ids, ids.len() as int), ", "@)
    };
    "Path: "@ + p.path@ + "\nInstruction source line: "@ + decimal(p.draft.instruction.display_line as nat)
        + "\nInstruction cleanup after final apply: "@ + (if p.inline.remove_instruction_after_apply {
        "true"@
    } else {
        "false"@
    }) + "\nConfirmed target: "@ + ranges + "\nInstruction:\n"@ + p.draft.instruction.text@ + "\n\nContext:\n"@ + unit.text@
}

proof fn lemma_join_push(items: Seq<Seq<char>>, sep: Seq<char>, x: Seq<char>)
    ensures
        join_with(items.push(x), sep) == if items.len() == 0 {
            x
        } else {
            join_with(items, sep) + sep + x
        },
{
    assert(items.push(x).drop_last() =~= items);
}

/// The user prompt of the current request.
#[verifier::rlimit(30)]
pub fn user_prompt(p: &PreparedWorkflow) -> (res: Vec<char>)
    requires
        p.request_index < p.draft.requests@.len(),
    ensures
        res@ == user_text(p),
{
    let unit = &p.draft.requests[p.request_index];
    let ids = &unit.target_ids;
    let mut ranges: Vec<char> = Vec::new();
    if ids.len() == 0 {
        push_str(&mut ranges, "full file");
    } else {
        let ghost ts = p.draft.targets@;
        let n = ids.len();
        let mut count: usize = 0;
        let mut i: usize = 0;
        while i < ids.len()
            invariant
                ts == p.draft.targets@,
                n == ids@.len(),
                0 <= i <= ids@.len(),
                count <= i,
                count == target_items(ts, ids@, i as int).len(),
                ranges@ == join_with(target_items(ts, ids@, i as int), ", "@),
            decreases ids@.len() - i,
        {
            let id = ids[i];
            match find_target(&p.draft.targets, id) {
                Some(ti) => {
                    proof {
                        lemma_first_target(ts, id, ti as int);
                        lemma_join_push(target_items(ts, ids@, i as int), ", "@, target_item(ts[ti as int]));
                    }
                    if count > 0 {
                        push_str(&mut ranges, ", ");
                    }
                    let t = &p.draft.targets[ti];
                    push_str(&mut ranges, "block ");
                    push_decimal(&mut ranges, t.id as u128);
                    push_str(&mut ranges, "=lines ");
                    push_decimal(&mut ranges, t.range.first_line as u128 + 1);
                    push_str(&mut ranges, "-");
                    push_decimal(&mut ranges, t.range.last_line as u128 + 1);
                    push_str(&mut ranges, " (");
                    push_decimal(&mut ranges, utf8_size(&t.range.original));
                    push_str(&mut ranges, " bytes)");
                    count = count + 1;
                },
                None => {},
            }
            i += 1;
        }
    }
    let mut out: Vec<char> = Vec::new();
    push_str(&mut out, "Path: ");
    push_chars(&mut out, &p.path);
    push_str(&mut out, "\nInstruction source line: ");
    push_decimal(&mut out, p.draft.instruction.display_line as u128);
    push_str(&mut out, "\nInstruction cleanup after final apply: ");
    if p.inline.remove_instruction_after_apply {
        push_str(&mut out, "true");
    } else {
        push_str(&mut out, "false");
    }
    push_str(&mut out, "\nConfirmed target: ");
    push_chars(&mut out, &ranges);
    push_str(&mut out, "\nInstruction:\n");
    push_chars(&mut out, &p.draft.instruction.text);
    push_str(&mut out, "\n\nContext:\n");
    push_chars(&mut out, &unit.text);
    proof {
        assert(out@ =~= user_text(p));
    }
    out
}

/// Where the inline workflow stands.
pub enum ClankerPhase {
    /// A large file waits for a typed yes or no before it is sent whole.
    Warning(PreparedWorkflow),
    /// The send confirmation is shown.
    Confirm(SendConfirmation),
    /// A request is out; the workflow waits for its result.
    Running(PreparedWorkflow),
    /// A proposal is shown read-only.
    Preview(ProposalPreview),
}

/// The send confirmation page and the view it replaced.
pub struct SendConfirmation {
    pub prepared: PreparedWorkflow,
    pub page: TextBuffer,
    pub source_scroll_top: usize,
    pub source_scroll_left: usize,
    pub source_wrap_col: usize,
}

/// A proposal on its read-only page, with what applying it needs.
pub struct ProposalPreview {
    pub prepared: PreparedWorkflow,
    pub edits: Vec<PendingEdit>,
    pub source_revision: u64,
    pub source_path: Option<String>,
    pub page: TextBuffer,
    pub preview_changes: ChangeSet,
    pub applied_changes: ChangeSet,
    pub source_scroll_top: usize,
    pub source_scroll_left: usize,
    pub source_wrap_col: usize,
}

/// The request being worked on is in the queue, and a selection has its
/// target.
pub open spec fn prepared_ok(p: &PreparedWorkflow) -> bool {
    &&& p.request_index < p.draft.requests@.len()
    &&& p.draft.scope == InlineScope::Selection ==> p.draft.targets@.len() > 0
}

/// What every phase keeps: its request is in the queue, and a page it
/// shows is a well-formed buffer.
pub open spec fn phase_ok(ph: &ClankerPhase) -> bool {
    match ph {
        ClankerPhase::Warning(p) => prepared_ok(p),
        ClankerPhase::Running(p) => prepared_ok(p),
        ClankerPhase::Confirm(c) => prepared_ok(&c.prepared) && c.page.wf(),
        ClankerPhase::Preview(v) => prepared_ok(&v.prepared) && v.page.wf(),
    }
}

/// The inline workflow of the active buffer.
pub struct InlineClankerState {
    phase: Option<ClankerPhase>,
}

impl InlineClankerState {
    #[verifier::type_invariant]
    spec fn inv(self) -> bool {
        match self.phase {
            Some(ph) => phase_ok(&ph),
            None => true,
        }
    }

    /// Where the workflow stands.
    pub closed spec fn phase(&self) -> Option<ClankerPhase> {
        self.phase
    }

    /// No workflow.
    pub fn new() -> (res: InlineClankerState)
        ensures
            res.phase() is None,
    {
        InlineClankerState { phase: None }
    }

    /// Where the workflow stands.
    pub fn current(&self) -> (res: &Option<ClankerPhase>)
        ensures
            *res == self.phase(),
            res matches Some(ph) ==> phase_ok(&ph),
    {
        proof {
            use_type_invariant(self);
        }
        &self.phase
    }

    /// Ends the workflow, handing back where it stood.
    pub fn take(&mut self) -> (res: Option<ClankerPhase>)
        ensures
            res == old(self).phase(),
            final(self).phase() is None,
            res matches Some(ph) ==> phase_ok(&ph),
    {
        proof {
            use_type_invariant(&*self);
        }
        let mut ph: Option<ClankerPhase> = None;
        std::mem::swap(&mut ph, &mut self.phase);
        ph
    }

    /// Moves the workflow to `ph`.
    pub fn set(&mut self, ph: ClankerPhase)
        requires
            phase_ok(&ph),
        ensures
            final(self).phase() == Some(ph),
    {
        self.phase = Some(ph);
    }
}

/// Some workflow is under way.
pub fn is_busy(app: &App) -> (res: bool)
    ensures
        res == app.inline_clanker.phase() is Some,
{
    app.inline_clanker.current().is_some()
}

/// A confirmation or a proposal page is shown in place of the buffer.
pub fn is_previewing(app: &App) -> (res: bool)
    ensures
        res == (app.inline_clanker.phase() matches Some(ClankerPhase::Confirm(_)) || app.inline_clanker.phase() matches Some(
            ClankerPhase::Preview(_),
        )),
{
    match app.inline_clanker.current() {
        Some(ClankerPhase::Confirm(_)) => true,
        Some(ClankerPhase::Preview(_)) => true,
        _ => false,
    }
}

/// The page shown in place of the buffer, if any.
pub fn display_page(app: &App) -> (res: Option<&TextBuffer>)
    ensures
        match app.inline_clanker.phase() {
            Some(ClankerPhase::Confirm(c)) => res == Some(&c.page),
            Some(ClankerPhase::Preview(v)) => res == Some(&v.page),
            _ => res is None,
        },
{
    match app.inline_clanker.current() {
        Some(ClankerPhase::Confirm(c)) => Some(&c.page),
        Some(ClankerPhase::Preview(v)) => Some(&v.page),
        _ => None,
    }
}

/// The marks of the proposal page, if one is shown.
pub fn page_marks(app: &App) -> (res: Option<&ChangeSet>)
    ensures
        match app.inline_clanker.phase() {
            Some(ClankerPhase::Preview(v)) => res == Some(&v.preview_changes),
            _ => res is None,
        },
{
    match app.inline_clanker.current() {
        Some(ClankerPhase::Preview(v)) => Some(&v.preview_changes),
        _ => None,
    }
}

/// The marks of applied model output to show at the active buffer's
/// current undo/redo position.
pub fn source_changes(app: &App) -> (res: Option<&ChangeSet>)
    ensures
        match res {
            Some(cs) => app.clanker_changes.at(app.buffer.history_position()) == Some(cs.view()) && (cs.view().0.len() > 0
                || cs.view().1.len() > 0),
            None => app.clanker_changes.at(app.buffer.history_position()) is None || app.clanker_changes.at(
                app.buffer.history_position(),
            ) == Some(no_marks()),
        },
{
    app.clanker_changes.visible(app.buffer.edit_history_position())
}

/// Forgets every mark of applied model output and clears the message.
pub fn clear_changes(app: &mut App)
    ensures
        forall|p: u64| final(app).clanker_changes.at(p) is None,
        *final(app) == (App { clanker_changes: final(app).clanker_changes, message: None, ..*old(app) }),
{
    app.clanker_changes.clear();
    app.message = None;
}

/// The view the pages of `ph` replaced, put back.
pub open spec fn restored_screen(s: crate::screen::Screen, ph: ClankerPhase) -> crate::screen::Screen {
    match ph {
        ClankerPhase::Confirm(c) => crate::screen::Screen {
            scroll_top: c.source_scroll_top,
            scroll_left: c.source_scroll_left,
            wrap_col: c.source_wrap_col,
            ..s
        },
        ClankerPhase::Preview(v) => crate::screen::Screen {
            scroll_top: v.source_scroll_top,
            scroll_left: v.source_scroll_left,
            wrap_col: v.source_wrap_col,
            ..s
        },
        _ => s,
    }
}

/// Ends any workflow, putting back the view that a page replaced.
pub fn cancel_all(app: &mut App) -> (res: bool)
    ensures
        res == old(app).inline_clanker.phase() is Some,
        final(app).inline_clanker.phase() is None,
        *final(app) == (App {
            inline_clanker: final(app).inline_clanker,
            screen: match old(app).inline_clanker.phase() {
                Some(ph) => restored_screen(old(app).screen, ph),
                None => old(app).screen,
            },
            ..*old(app)
        }),
{
    match app.inline_clanker.take() {
        None => false,
        Some(ph) => {
            restore_view(app, &ph);
            true
        },
    }
}

fn restore_view(app: &mut App, ph: &ClankerPhase)
    ensures
        *final(app) == (App { screen: restored_screen(old(app).screen, *ph), ..*old(app) }),
{
    match ph {
        ClankerPhase::Confirm(c) => {
            app.screen.scroll_top = c.source_scroll_top;
            app.screen.scroll_left = c.source_scroll_left;
            app.screen.wrap_col = c.source_wrap_col;
        },
        ClankerPhase::Preview(v) => {
            app.screen.scroll_top = v.source_scroll_top;
            app.screen.scroll_left = v.source_scroll_left;
            app.screen.wrap_col = v.source_wrap_col;
        },
        _ => {},
    }
}

/// `r` still spans exactly the text it captured.
pub open spec fn captured_ok(b: &TextBuffer, r: &CapturedRange) -> bool {
    &&& cursor_valid(b.lines(), r.start)
    &&& cursor_valid(b.lines(), r.end)
    &&& cursor_le(r.start, r.end)
    &&& b.text().subrange(cursor_offset(b.lines(), r.start), cursor_offset(b.lines(), r.end)) == r.original@
}

/// Why the file no longer is what the workflow captured, if it is not:
/// another path, another revision, or a captured span that drifted.
pub open spec fn identity_error(app: &App, p: &PreparedWorkflow) -> Option<Seq<char>> {
    if !same_path(app.file.path, p.file_path) {
        Some("the active file path changed"@)
    } else if app.buffer.history_position() != p.expected_revision {
        Some("the file revision changed"@)
    } else if !captured_ok(&app.buffer, &p.draft.instruction.metadata) || !captured_ok(
        &app.buffer,
        &p.draft.instruction.cleanup,
    ) {
        Some("the selected instruction metadata drifted"@)
    } else if exists|i: int| 0 <= i < p.draft.delimiter_guards@.len() && !captured_ok(&app.buffer, #[trigger] &p.draft.delimiter_guards@[i]) {
        Some("a context delimiter drifted"@)
    } else if exists|i: int| 0 <= i < p.draft.targets@.len() && !captured_ok(&app.buffer, &(#[trigger] p.draft.targets@[i]).range) {
        Some("a captured edit target drifted"@)
    } else {
        None
    }
}

fn captured_matches(b: &TextBuffer, r: &CapturedRange) -> (res: bool)
    requires
        b.wf(),
    ensures
        res == captured_ok(b, r),
{
    match b.text_range(r.start, r.end) {
        Ok(t) => crate::buffer::chars_equal(&t, &r.original),
        Err(_) => false,
    }
}

/// Checks that the file is still what the workflow captured.
pub fn validate_identity(app: &App, p: &PreparedWorkflow) -> (res: Option<&'static str>)
    requires
        app.buffer.wf(),
    ensures
        match res {
            Some(m) => identity_error(app, p) == Some(m@),
            None => identity_error(app, p) is None,
        },
{
    if !crate::llm::paths_equal(&app.file.path, &p.file_path) {
        return Some("the active file path changed");
    }
    if app.buffer.edit_history_position() != p.expected_revision {
        return Some("the file revision changed");
    }
    if !captured_matches(&app.buffer, &p.draft.instruction.metadata) || !captured_matches(
        &app.buffer,
        &p.draft.instruction.cleanup,
    ) {
        return Some("the selected instruction metadata drifted");
    }
    let mut i: usize = 0;
    while i < p.draft.delimiter_guards.len()
        invariant
            app.buffer.wf(),
            same_path(app.file.path, p.file_path),
            app.buffer.history_position() == p.expected_revision,
            captured_ok(&app.buffer, &p.draft.instruction.metadata),
            captured_ok(&app.buffer, &p.draft.instruction.cleanup),
            0 <= i <= p.draft.delimiter_guards@.len(),
            forall|j: int| 0 <= j < i ==> captured_ok(&app.buffer, #[trigger] &p.draft.delimiter_guards@[j]),
        decreases p.draft.delimiter_guards@.len() - i,
    {
        if !captured_matches(&app.buffer, &p.draft.delimiter_guards[i]) {
            proof {
                assert(!captured_ok(&app.buffer, &p.draft.delimiter_guards@[i as int]));
            }
            return Some("a context delimiter drifted");
        }
        i += 1;
    }
    let mut k: usize = 0;
    while k < p.draft.targets.len()
        invariant
            app.buffer.wf(),
            same_path(app.file.path, p.file_path),
            app.buffer.history_position() == p.expected_revision,
            captured_ok(&app.buffer, &p.draft.instruction.metadata),
            captured_ok(&app.buffer, &p.draft.instruction.cleanup),
            forall|j: int| 0 <= j < p.draft.delimiter_guards@.len() ==> captured_ok(&app.buffer, #[trigger] &p.draft.delimiter_guards@[j]),
            0 <= k <= p.draft.targets@.len(),
            forall|j: int| 0 <= j < k ==> captured_ok(&app.buffer, &(#[trigger] p.draft.targets@[j]).range),
        decreases p.draft.targets@.len() - k,
    {
        if !captured_matches(&app.buffer, &p.draft.targets[k].range) {
            proof {
                assert(exists|j: int| 0 <= j < p.draft.targets@.len() && !captured_ok(&app.buffer, &(#[trigger] p.draft.targets@[j]).range));
            }
            return Some("a captured edit target drifted");
        }
        k += 1;
    }
    None
}

/// Starting request `p.request_index`: it is sent only while the file is
/// what the workflow captured; otherwise the queue stops.
pub open spec fn started(before: &App, p: PreparedWorkflow, after: &App, res: Option<OutgoingRequest>) -> bool {
    &&& *after == (App { inline_clanker: after.inline_clanker, message: after.message, ..*before })
    &&& match identity_error(before, &p) {
        Some(m) => {
            &&& res is None
            &&& after.inline_clanker.phase() is None
            &&& after.message matches Some(t) && t@ == "Inline clanker queue stopped before send: "@ + m + "."@
        },
        None => {
            let unit = p.draft.requests@[p.request_index as int];
            &&& res matches Some(r) && r.system@ == system_text(p.draft.scope, unit.target_ids@.len()) && r.user@
                == user_text(&p)
            &&& after.inline_clanker.phase() == Some(ClankerPhase::Running(p))
            &&& after.message matches Some(t) && t@ == progress_text(&p)
        },
    }
}

fn start(app: &mut App, p: PreparedWorkflow) -> (res: Option<OutgoingRequest>)
    requires
        old(app).buffer.wf(),
        old(app).inline_clanker.phase() is None,
        prepared_ok(&p),
    ensures
        started(old(app), p, final(app), res),
{
    match validate_identity(app, &p) {
        Some(m) => {
            let mut t: Vec<char> = Vec::new();
            push_str(&mut t, "Inline clanker queue stopped before send: ");
            push_str(&mut t, m);
            push_str(&mut t, ".");
            app.message = Some(crate::text::string_of(&t));
            None
        },
        None => {
            let unit = &p.draft.requests[p.request_index];
            let system = system_prompt(p.draft.scope, unit.target_ids.len());
            let user = user_prompt(&p);
            let progress = progress_message(&p);
            app.message = Some(crate::text::string_of(&progress));
            app.inline_clanker.set(ClankerPhase::Running(p));
            Some(OutgoingRequest { system: crate::text::string_of(&system), user: crate::text::string_of(&user) })
        },
    }
}

/// The workflow after request `p.request_index` failed with `error`: it
/// stops when so configured or when no request is left, and otherwise
/// goes on with the next request.
pub open spec fn failed_on(before: &App, p: PreparedWorkflow, error: Seq<char>, after: &App, res: Option<OutgoingRequest>) -> bool {
    let failed = p.request_index + 1;
    let total = p.draft.requests@.len();
    if p.inline.stop_on_error || failed >= total {
        &&& res is None
        &&& after.inline_clanker.phase() is None
        &&& after.message matches Some(t) && t@ == "Inline clanker stopped at request "@ + decimal(failed as nat) + "/"@
            + decimal(total) + ": "@ + error + "; instruction kept and no pending work remains."@
        &&& *after == (App { inline_clanker: after.inline_clanker, message: after.message, ..*before })
    } else {
        started(before, PreparedWorkflow { request_index: failed as usize, had_failure: true, ..p }, after, res)
    }
}

fn fail_or_continue(app: &mut App, p: PreparedWorkflow, error: &Vec<char>) -> (res: Option<OutgoingRequest>)
    requires
        old(app).buffer.wf(),
        old(app).inline_clanker.phase() is None,
        prepared_ok(&p),
    ensures
        failed_on(old(app), p, error@, final(app), res),
{
    let mut p = p;
    p.had_failure = true;
    let total = p.draft.requests.len();
    let failed = p.request_index + 1;
    if p.inline.stop_on_error || failed >= total {
        let mut t: Vec<char> = Vec::new();
        push_str(&mut t, "Inline clanker stopped at request ");
        push_decimal(&mut t, failed as u128);
        push_str(&mut t, "/");
        push_decimal(&mut t, total as u128);
        push_str(&mut t, ": ");
        push_chars(&mut t, error);
        push_str(&mut t, "; instruction kept and no pending work remains.");
        app.message = Some(crate::text::string_of(&t));
        return None;
    }
    p.request_index = failed;
    let mut t: Vec<char> = Vec::new();
    push_str(&mut t, "Inline clanker request ");
    push_decimal(&mut t, failed as u128);
    push_str(&mut t, " failed (");
    push_chars(&mut t, error);
    push_str(&mut t, "); continuing by configuration.");
    app.message = Some(crate::text::string_of(&t));
    start(app, p)
}

/// What a draft must hold for the workflow: at least one request, and a
/// target for a selection.
pub open spec fn draft_ok(d: &InlineDraft) -> bool {
    &&& d.requests@.len() > 0
    &&& d.scope == InlineScope::Selection ==> d.targets@.len() > 0
}

/// `p` is the workflow prepared from `d` for the active file of `app`: at
/// its first request, against the current revision.
pub open spec fn prepared_from(app: &App, d: InlineDraft, preset: BackendPreset, inline: InlineSettings, p: PreparedWorkflow) -> bool {
    &&& p.draft == d
    &&& p.preset == preset
    &&& p.inline == inline
    &&& p.destination@ == crate::autocomplete::destination_of(&preset)
    &&& p.path@ == crate::llm::display_path_spec(app.file.path)
    &&& p.file_path == app.file.path
    &&& p.expected_revision == app.buffer.history_position()
    &&& p.request_index == 0
    &&& p.applied_count == 0
    &&& !p.had_failure
}

/// The message shown while the send confirmation is open.
pub open spec fn confirmation_notice() -> Seq<char> {
    "Inline clanker send confirmation (read-only): review details above; Enter sends; Esc cancels."@
}

/// The send confirmation of `p` is shown in place of the buffer, the view
/// it replaced remembered.
pub open spec fn confirmation_shown(before: &App, p: PreparedWorkflow, after: &App) -> bool {
    &&& after.inline_clanker.phase() matches Some(ClankerPhase::Confirm(c)) && {
        &&& c.prepared == p
        &&& c.page.text() == send_confirmation_text(&p)
        &&& c.page.view_cursor() == (Cursor { row: 0, col: 0 })
        &&& c.source_scroll_top == before.screen.scroll_top
        &&& c.source_scroll_left == before.screen.scroll_left
        &&& c.source_wrap_col == before.screen.wrap_col
    }
    &&& after.screen == (crate::screen::Screen { scroll_top: 0, scroll_left: 0, wrap_col: 0, ..before.screen })
    &&& after.selection.anchor is None
    &&& after.message matches Some(m) && m@ == confirmation_notice()
    &&& *after == (App {
        inline_clanker: after.inline_clanker,
        screen: after.screen,
        selection: after.selection,
        message: after.message,
        ..*before
    })
}

fn show_confirmation(app: &mut App, p: PreparedWorkflow)
    requires
        old(app).inline_clanker.phase() is None,
        prepared_ok(&p),
    ensures
        confirmation_shown(old(app), p, final(app)),
{
    let doc = confirmation_document(&p);
    let page = TextBuffer::from_chars(&doc);
    let c = SendConfirmation {
        prepared: p,
        page,
        source_scroll_top: app.screen.scroll_top,
        source_scroll_left: app.screen.scroll_left,
        source_wrap_col: app.screen.wrap_col,
    };
    app.selection.clear();
    app.screen.scroll_top = 0;
    app.screen.scroll_left = 0;
    app.screen.wrap_col = 0;
    app.message = Some(String::from_str("Inline clanker send confirmation (read-only): review details above; Enter sends; Esc cancels."));
    app.inline_clanker.set(ClankerPhase::Confirm(c));
}

/// Another model workflow is pending or running.
pub open spec fn model_busy(app: &App) -> bool {
    app.inline_clanker.phase() is Some || app.pending_llm_request is Some || app.llm_task is Some
}

/// Starts the inline workflow for the instruction that `draft` was read
/// from: a large full file first asks before it is sent whole, anything
/// else goes straight to the send confirmation. Nothing is sent here.
pub fn begin(app: &mut App, draft: Result<InlineDraft, String>, preset: BackendPreset, inline: InlineSettings)
    requires
        old(app).buffer.wf(),
        draft matches Ok(d) ==> draft_ok(&d),
    ensures
        final(app).buffer == old(app).buffer,
        final(app).file == old(app).file,
        final(app).inactive_buffers == old(app).inactive_buffers,
        model_busy(old(app)) ==> (*final(app) == (App {
            message: final(app).message,
            message_role: StatusRole::Info,
            ..*old(app)
        }) && (final(app).message matches Some(m) && m@ == "Another model workflow is already pending or running."@)),
        (!model_busy(old(app)) && draft is Err) ==> (*final(app) == (App {
            message: final(app).message,
            message_role: StatusRole::Error,
            ..*old(app)
        }) && (final(app).message matches Some(m) && m@ == "Cannot prepare inline clanker: "@ + draft->Err_0@)),
        (!model_busy(old(app)) && draft is Ok) ==> ({
            let d = draft->Ok_0;
            let big = d.scope == InlineScope::FullFile && d.full_file_lines > inline.warn_lines;
            &&& big ==> (final(app).inline_clanker.phase() matches Some(ClankerPhase::Warning(p)) && {
                &&& prepared_from(old(app), d, preset, inline, p)
                &&& final(app).command_prompt.active matches Some(ap) && ap.kind is InlineWarning && ap.text@.len() == 0
                &&& final(app).message matches Some(m) && m@ == warning_text(&p) + " "@
                &&& final(app).message_role == StatusRole::Warning
            })
            &&& !big ==> exists|p: PreparedWorkflow| prepared_from(old(app), d, preset, inline, p) && confirmation_shown(
                old(app),
                p,
                final(app),
            )
        }),
{
    if app.inline_clanker.current().is_some() || app.pending_llm_request.is_some() || app.llm_task.is_some() {
        app.message_info(String::from_str("Another model workflow is already pending or running."));
        return;
    }
    let d = match draft {
        Err(e) => {
            let mut m: Vec<char> = Vec::new();
            push_str(&mut m, "Cannot prepare inline clanker: ");
            push_str(&mut m, e.as_str());
            app.message_error(crate::text::string_of(&m));
            return;
        },
        Ok(d) => d,
    };
    let destination = crate::autocomplete::display_destination(&preset);
    let path = crate::llm::display_path(app);
    let p = PreparedWorkflow {
        draft: d,
        preset,
        inline,
        destination: crate::text::chars_of(destination.as_str()),
        path: crate::text::chars_of(path.as_str()),
        file_path: app.file.path.clone(),
        expected_revision: app.buffer.edit_history_position(),
        request_index: 0,
        applied_count: 0,
        had_failure: false,
    };
    if p.draft.scope == InlineScope::FullFile && p.draft.full_file_lines > p.inline.warn_lines {
        let question = warning_question(&p);
        app.message_warning(crate::text::string_of(&question));
        app.inline_clanker.set(ClankerPhase::Warning(p));
        crate::command_prompt::open_prompt(app, crate::command_prompt::PromptKind::InlineWarning);
        return;
    }
    show_confirmation(app, p);
}

/// ASCII letters in lower case; everything else unchanged.
pub open spec fn lower_ascii(c: char) -> char {
    if 'A' <= c && c <= 'Z' {
        ((c as u32) + 32) as char
    } else {
        c
    }
}

/// `s` with ASCII letters in lower case.
pub open spec fn lowercase(s: Seq<char>) -> Seq<char> {
    s.map_values(|c: char| lower_ascii(c))
}

fn lowered(s: &Vec<char>) -> (res: Vec<char>)
    ensures
        res@ == lowercase(s@),
{
    let mut out: Vec<char> = Vec::new();
    let mut i: usize = 0;
    while i < s.len()
        invariant
            0 <= i <= s@.len(),
            out@ == s@.take(i as int).map_values(|c: char| lower_ascii(c)),
        decreases s@.len() - i,
    {
        let c = s[i];
        let l = if 'A' <= c && c <= 'Z' {
            let b: u8 = ((c as u32) + 32) as u8;
            b as char
        } else {
            c
        };
        out.push(l);
        proof {
            assert(s@.take(i + 1) =~= s@.take(i as int).push(c));
            assert(out@ =~= s@.take(i + 1).map_values(|c: char| lower_ascii(c)));
        }
        i += 1;
    }
    proof {
        assert(s@.take(s@.len() as int) =~= s@);
    }
    out
}

/// The answer as compared: trimmed and in lower case.
pub open spec fn answer_word(answer: Seq<char>) -> Seq<char> {
    lowercase(crate::lint::trim(answer))
}

/// What the warning prompt shows while `text` is typed.
pub open spec fn warning_prompt_text(app: &App, text: Seq<char>) -> Option<Seq<char>> {
    match app.inline_clanker.phase() {
        Some(ClankerPhase::Warning(p)) => Some(warning_text(&p) + " "@ + text),
        _ => None,
    }
}

/// What the warning prompt shows while `text` is typed.
pub fn warning_prompt_message(app: &App, text: &str) -> (res: Option<String>)
    ensures
        match warning_prompt_text(app, text@) {
            Some(t) => res matches Some(m) && m@ == t,
            None => res is None,
        },
{
    match app.inline_clanker.current() {
        Some(ClankerPhase::Warning(p)) => {
            let mut m = warning_question(p);
            push_str(&mut m, " ");
            push_str(&mut m, text);
            Some(crate::text::string_of(&m))
        },
        _ => None,
    }
}

/// Esc on the warning prompt: the workflow ends before anything is sent.
pub fn cancel_warning(app: &mut App)
    ensures
        old(app).inline_clanker.phase() matches Some(ClankerPhase::Warning(_)) ==> (final(app).inline_clanker.phase() is None
            && *final(app) == (App { inline_clanker: final(app).inline_clanker, message: None, ..*old(app) })),
        !(old(app).inline_clanker.phase() matches Some(ClankerPhase::Warning(_))) ==> *final(app) == *old(app),
{
    let is_warning = match app.inline_clanker.current() {
        Some(ClankerPhase::Warning(_)) => true,
        _ => false,
    };
    if is_warning {
        let _ = app.inline_clanker.take();
        app.message = None;
    }
}

/// The answer typed at the warning prompt: "yes" (in any case, around
/// white space) goes on to the send confirmation, "no" ends the workflow,
/// anything else asks again. Returns whether the prompt is done.
pub fn answer_warning(app: &mut App, answer: &str) -> (done: bool)
    requires
        old(app).buffer.wf(),
    ensures
        final(app).buffer == old(app).buffer,
        final(app).file == old(app).file,
        final(app).inactive_buffers == old(app).inactive_buffers,
        final(app).command_prompt == old(app).command_prompt,
        !(old(app).inline_clanker.phase() matches Some(ClankerPhase::Warning(_))) ==> (done && final(app).inline_clanker.phase() is None
            && *final(app) == (App { inline_clanker: final(app).inline_clanker, ..*old(app) })),
        old(app).inline_clanker.phase() matches Some(ClankerPhase::Warning(p)) ==> (answer_word(answer@) == "yes"@
            ==> done && confirmation_shown(old(app), p, final(app))),
        old(app).inline_clanker.phase() matches Some(ClankerPhase::Warning(_)) ==> (answer_word(answer@) == "no"@ ==> (done
            && final(app).inline_clanker.phase() is None && *final(app) == (App {
            inline_clanker: final(app).inline_clanker,
            message: None,
            ..*old(app)
        }))),
        old(app).inline_clanker.phase() matches Some(ClankerPhase::Warning(p)) ==> (answer_word(answer@) != "yes"@
            && answer_word(answer@) != "no"@ ==> {
            &&& !done
            &&& final(app).inline_clanker.phase() == old(app).inline_clanker.phase()
            &&& final(app).message matches Some(m) && m@ == "Please type yes or no. "@ + warning_text(&p) + " Type yes or no: "@
                + crate::lint::trim(answer@)
            &&& final(app).message_role == StatusRole::Warning
        }),
{
    let p = match app.inline_clanker.take() {
        Some(ClankerPhase::Warning(p)) => p,
        _ => return true,
    };
    let raw = crate::text::chars_of(answer);
    let trimmed = crate::llm::trimmed_chars(&raw);
    let word = lowered(&trimmed);
    let yes = crate::text::chars_of("yes");
    let no = crate::text::chars_of("no");
    proof {
        reveal_strlit("yes");
        reveal_strlit("no");
    }
    proof {
        assert(word@ == answer_word(answer@));
    }
    if crate::buffer::chars_equal(&word, &yes) {
        show_confirmation(app, p);
        true
    } else if crate::buffer::chars_equal(&word, &no) {
        app.message = None;
        proof {
            assert(answer_word(answer@) == "no"@);
            assert(final(app).inline_clanker.phase() is None);
            assert(*final(app) == (App { inline_clanker: final(app).inline_clanker, message: None, ..*old(app) }));
        }
        true
    } else {
        let mut m: Vec<char> = Vec::new();
        push_str(&mut m, "Please type yes or no. ");
        let q = warning_question(&p);
        push_chars(&mut m, &q);
        push_str(&mut m, " Type yes or no: ");
        push_chars(&mut m, &trimmed);
        app.message_warning(crate::text::string_of(&m));
        app.inline_clanker.set(ClankerPhase::Warning(p));
        false
    }
}

/// The first index at or after `i` whose edit starts strictly before `x`
/// does, or the end.
pub open spec fn first_below(s: Seq<PendingView>, x: PendingView, i: int) -> int
    decreases s.len() - i,
{
    if i >= s.len() || i < 0 {
        s.len() as int
    } else if cursor_lt(s[i].start, x.start) {
        i
    } else {
        first_below(s, x, i + 1)
    }
}

/// The first `k` edits ordered from the last start to the first; edits
/// that start at the same place keep their order.
pub open spec fn sorted_by_start(vs: Seq<PendingView>, k: int) -> Seq<PendingView>
    decreases k,
{
    if k <= 0 {
        Seq::empty()
    } else {
        let s = sorted_by_start(vs, k - 1);
        s.insert(first_below(s, vs[k - 1], 0), vs[k - 1])
    }
}

proof fn lemma_first_below_range(s: Seq<PendingView>, x: PendingView, i: int)
    requires
        0 <= i <= s.len(),
    ensures
        i <= first_below(s, x, i) <= s.len(),
    decreases s.len() - i,
{
    if i < s.len() && !cursor_lt(s[i].start, x.start) {
        lemma_first_below_range(s, x, i + 1);
    }
}

fn sort_edits(edits: Vec<PendingEdit>) -> (res: Vec<PendingEdit>)
    ensures
        pending_views(res@) == sorted_by_start(pending_views(edits@), edits@.len() as int),
{
    let ghost vs = pending_views(edits@);
    let ghost n = edits@.len();
    let count = edits.len();
    let mut rest = edits;
    let mut out: Vec<PendingEdit> = Vec::new();
    let mut i: usize = 0;
    proof {
        assert(edits@.skip(0) =~= edits@);
    }
    while rest.len() > 0
        invariant
            vs == pending_views(edits@),
            n == edits@.len(),
            count == n,
            0 <= i <= n,
            rest@ == edits@.skip(i as int),
            pending_views(out@) == sorted_by_start(vs, i as int),
        decreases rest@.len(),
    {
        let x = rest.remove(0);
        proof {
            assert(edits@.skip(i + 1) =~= edits@.skip(i as int).remove(0));
            assert(x == edits@[i as int]);
        }
        let ghost sv = pending_views(out@);
        let mut q: usize = 0;
        while q < out.len() && !(out[q].edit.start.row < x.edit.start.row || (out[q].edit.start.row == x.edit.start.row
            && out[q].edit.start.col < x.edit.start.col))
            invariant
                sv == pending_views(out@),
                0 <= q <= out@.len(),
                first_below(sv, x.view(), 0) == first_below(sv, x.view(), q as int),
            decreases out@.len() - q,
        {
            q += 1;
        }
        proof {
            lemma_first_below_range(sv, x.view(), 0);
        }
        out.insert(q, x);
        proof {
            assert(vs[i as int] == x.view());
            assert(pending_views(out@) =~= sv.insert(q as int, x.view()));
        }
        i += 1;
    }
    out
}

/// What the reply readers made of a model reply.
pub enum ModelReply {
    /// The replacement for a request of one region, or the reader's reason
    /// for refusing the reply.
    Single(Result<Vec<char>, Vec<char>>),
    /// The replacements of a request of several blocks by block id, in
    /// increasing id order, or the reader's reason.
    Multi(Result<Vec<(usize, Vec<char>)>, Vec<char>>),
    /// What the patch reader made of a full-file reply.
    Patch(PatchOutcome),
}

/// The reply is of the kind the current request asks for.
pub open spec fn reply_fits(p: &PreparedWorkflow, r: &ModelReply) -> bool {
    let unit = p.draft.requests@[p.request_index as int];
    match p.draft.scope {
        InlineScope::FullFile => r is Patch,
        _ => if unit.target_ids@.len() == 1 {
            r is Single
        } else {
            r is Multi
        },
    }
}

/// What a reply proposes for the current request, or why it is refused.
pub open spec fn proposal_outcome(b: &TextBuffer, p: &PreparedWorkflow, output: Seq<char>, r: &ModelReply) -> Result<(Seq<PendingView>, (Seq<ChangedRange>, Seq<usize>)), Seq<char>> {
    match r {
        ModelReply::Patch(po) => full_file_outcome(b, p, output, po),
        ModelReply::Single(Ok(rep)) => region_outcome(
            p,
            seq![(p.draft.requests@[p.request_index as int].target_ids@[0], *rep)],
        ),
        ModelReply::Single(Err(d)) => Err("malformed scoped replacement: "@ + d@),
        ModelReply::Multi(Ok(rs)) => region_outcome(p, rs@),
        ModelReply::Multi(Err(d)) => Err("malformed multi-block replacement: "@ + d@),
    }
}

/// The message shown while a proposal is open.
pub open spec fn preview_notice() -> Seq<char> {
    "Inline clanker proposal (read-only): touched ranges are red/underlined. Enter applies the complete diff; Esc rejects."@
}

/// The proposal of `edits` is shown read-only in place of the buffer, with
/// what applying it needs; the view it replaced is remembered.
pub open spec fn preview_opened(before: &App, p: PreparedWorkflow, output: Seq<char>, edits: Seq<PendingView>, marks: (Seq<ChangedRange>, Seq<usize>), after: &App) -> bool {
    let mid = match before.llm_preview {
        Some(lp) => crate::screen::Screen { scroll_top: lp.source_scroll_top, scroll_left: lp.source_scroll_left, ..before.screen },
        None => before.screen,
    };
    &&& after.inline_clanker.phase() matches Some(ClankerPhase::Preview(v)) && {
        &&& v.prepared == p
        &&& pending_views(v.edits@) == edits
        &&& finalized(marks, v.edits@, v.applied_changes.view())
        &&& v.source_revision == p.expected_revision
        &&& v.source_path == p.file_path
        &&& v.page.text() == preview_text(&p, edits, output)
        &&& v.page.view_cursor() == (Cursor { row: 0, col: 0 })
        &&& v.preview_changes.view() == preview_marks(text_lines(v.page.text()), text_lines(v.page.text()).len() as int)
        &&& v.source_scroll_top == mid.scroll_top
        &&& v.source_scroll_left == mid.scroll_left
        &&& v.source_wrap_col == mid.wrap_col
    }
    &&& after.llm_preview is None
    &&& after.screen == (crate::screen::Screen { scroll_top: 0, scroll_left: 0, wrap_col: 0, ..mid })
    &&& after.selection.anchor is None
    &&& after.message matches Some(m) && m@ == preview_notice()
    &&& *after == (App {
        inline_clanker: after.inline_clanker,
        llm_preview: None,
        screen: after.screen,
        selection: after.selection,
        message: after.message,
        ..*before
    })
}

/// A reply to the current request: a usable proposal is shown for
/// review; a refused one counts as a failure of the request.
pub open spec fn response_opened(before: &App, p: PreparedWorkflow, output: Seq<char>, r: &ModelReply, after: &App, res: Option<OutgoingRequest>) -> bool {
    match proposal_outcome(&before.buffer, &p, output, r) {
        Err(e) => failed_on(before, p, e, after, res),
        Ok((vs, marks)) => res is None && preview_opened(
            before,
            p,
            output,
            sorted_by_start(with_cleanup(&p, vs), with_cleanup(&p, vs).len() as int),
            marks,
            after,
        ),
    }
}

fn open_response(app: &mut App, p: PreparedWorkflow, output: &Vec<char>, reply: &ModelReply) -> (res: Option<OutgoingRequest>)
    requires
        old(app).buffer.wf(),
        old(app).inline_clanker.phase() is None,
        prepared_ok(&p),
        reply_fits(&p, reply),
    ensures
        response_opened(old(app), p, output@, reply, final(app), res),
{
    let result = match reply {
        ModelReply::Patch(po) => full_file_proposal(&app.buffer, &p, output, po),
        ModelReply::Single(Ok(rep)) => {
            let id = p.draft.requests[p.request_index].target_ids[0];
            let mut one: Vec<(usize, Vec<char>)> = Vec::new();
            one.push((id, crate::buffer::copy_chars(rep)));
            proof {
                assert(one@ =~= seq![(id, one@[0].1)]);
                assert(one@[0].1@ == rep@);
            }
            let r = region_proposal_result(&p, &one);
            proof {
                assert(region_outcome(&p, one@) == region_outcome(&p, seq![(id, *rep)])) by {
                    lemma_region_outcome_views(&p, one@, seq![(id, *rep)]);
                }
            }
            r
        },
        ModelReply::Single(Err(d)) => {
            let mut e: Vec<char> = Vec::new();
            push_str(&mut e, "malformed scoped replacement: ");
            push_chars(&mut e, d);
            Err(e)
        },
        ModelReply::Multi(Ok(rs)) => region_proposal_result(&p, rs),
        ModelReply::Multi(Err(d)) => {
            let mut e: Vec<char> = Vec::new();
            push_str(&mut e, "malformed multi-block replacement: ");
            push_chars(&mut e, d);
            Err(e)
        },
    };
    match result {
        Err(e) => fail_or_continue(app, p, &e),
        Ok((edits, marks)) => {
            let mut edits = edits;
            add_cleanup_if_final(&p, &mut edits);
            let edits = sort_edits(edits);
            let applied = finalize_change_positions(marks, &edits);
            let (text, page_marks) = build_preview(&p, &edits, output);
            crate::llm::close_preview(app);
            let page = TextBuffer::from_chars(&text);
            let v = ProposalPreview {
                source_revision: p.expected_revision,
                source_path: p.file_path.clone(),
                prepared: p,
                edits,
                page,
                preview_changes: page_marks,
                applied_changes: applied,
                source_scroll_top: app.screen.scroll_top,
                source_scroll_left: app.screen.scroll_left,
                source_wrap_col: app.screen.wrap_col,
            };
            app.inline_clanker.set(ClankerPhase::Preview(v));
            app.screen.scroll_top = 0;
            app.screen.scroll_left = 0;
            app.screen.wrap_col = 0;
            app.selection.clear();
            app.message = Some(String::from_str("Inline clanker proposal (read-only): touched ranges are red/underlined. Enter applies the complete diff; Esc rejects."));
            None
        },
    }
}

/// The lines after the first `k` edits are applied in turn, each at the
/// positions it names in the lines as they stand then; None where a range
/// does not fit.
pub open spec fn batch_lines(ls: Seq<Seq<char>>, es: Seq<TextEdit>, k: int) -> Option<Seq<Seq<char>>>
    decreases k,
{
    if k <= 0 {
        Some(ls)
    } else {
        match batch_lines(ls, es, k - 1) {
            None => None,
            Some(cur) => {
                let e = es[k - 1];
                if cursor_valid(cur, e.start) && cursor_valid(cur, e.end) && cursor_le(e.start, e.end) {
                    let t = replaced_text(cur, e.start, e.end, e.replacement@);
                    if t == join_lines(cur) {
                        Some(cur)
                    } else {
                        Some(split_lines(t))
                    }
                } else {
                    None
                }
            }
        }
    }
}

proof fn lemma_batch_none(ls: Seq<Seq<char>>, es: Seq<TextEdit>, k: int, n: int)
    requires
        0 <= k <= n,
        batch_lines(ls, es, k) is None,
    ensures
        batch_lines(ls, es, n) is None,
    decreases n - k,
{
    if k < n {
        lemma_batch_none(ls, es, k + 1, n);
    }
}

proof fn lemma_whole_range(lines: Seq<Seq<char>>, end: Cursor, x: Seq<char>)
    requires
        crate::lines::lines_wf(lines),
        end.row == lines.len() - 1,
        end.col == lines.last().len(),
    ensures
        replaced_text(lines, Cursor { row: 0, col: 0 }, end, x) == x,
{
    let j = join_lines(lines);
    let last = lines.len() - 1;
    if last > 0 {
        assert(lines.take(last) =~= lines.drop_last());
    }
    assert(cursor_offset(lines, end) == j.len());
    assert(j.take(0) + x + j.skip(j.len() as int) =~= x);
}

/// The text that the edits of a proposal leave, applied as one step.
pub open spec fn batch_result(b: &TextBuffer, ps: Seq<PendingEdit>) -> Option<Seq<char>> {
    match batch_lines(b.lines(), batch_edits(ps), ps.len() as int) {
        Some(ls) => Some(join_lines(ls)),
        None => None,
    }
}

/// Applies every edit of a proposal, in order, as one undoable step;
/// returns whether the text changed.
fn apply_batch(b: &mut TextBuffer, edits: &Vec<PendingEdit>) -> (changed: bool)
    requires
        old(b).wf(),
    ensures
        final(b).wf(),
        changed <==> (batch_result(old(b), edits@) matches Some(t) && t != old(b).text()),
        !changed ==> final(b).same(old(b)),
        changed ==> {
            &&& final(b).text() == batch_result(old(b), edits@)->0
            &&& final(b).undo_states() == old(b).undo_states().push(old(b).state())
            &&& final(b).redo_states().len() == 0
            &&& final(b).history_position() == old(b).fresh_position()
        },
{
    let ghost es = batch_edits(edits@);
    let ghost n = edits@.len() as int;
    let mut scratch = b.detached_copy();
    let mut k: usize = 0;
    while k < edits.len()
        invariant
            es == batch_edits(edits@),
            n == edits@.len(),
            old(b).wf(),
            b == old(b),
            scratch.wf(),
            0 <= k <= n,
            batch_lines(b.lines(), es, k as int) == Some(scratch.lines()),
        decreases n - k,
    {
        let e = &edits[k].edit;
        proof {
            assert(es[k as int] == *e);
        }
        match scratch.replace_range(e.start, e.end, e.replacement.as_slice()) {
            Err(_) => {
                proof {
                    lemma_batch_none(b.lines(), es, k + 1, n);
                }
                return false;
            },
            Ok(_) => {},
        }
        k += 1;
    }
    let new_text = scratch.to_chars();
    let old_text = b.to_chars();
    if crate::buffer::chars_equal(&new_text, &old_text) {
        return false;
    }
    let end = b.end_cursor();
    proof {
        lemma_whole_range(b.lines(), end, new_text@);
    }
    match b.replace_range(Cursor { row: 0, col: 0 }, end, new_text.as_slice()) {
        Ok(c) => c,
        Err(_) => false,
    }
}

/// The page cursor moved `n` rows up or down.
pub open spec fn vertical_times(lines: Seq<Seq<char>>, c: Cursor, down: bool, n: nat) -> Cursor
    decreases n,
{
    if n == 0 {
        c
    } else {
        crate::buffer::vertical_of(lines, vertical_times(lines, c, down, (n - 1) as nat), down)
    }
}

/// A key that moves the cursor of a page.
pub open spec fn nav_key(code: KeyCode) -> bool {
    code == KeyCode::Left || code == KeyCode::Right || code == KeyCode::Up || code == KeyCode::Down || code
        == KeyCode::PageUp || code == KeyCode::PageDown
}

/// Where a navigation key moves a page cursor; a page key moves by the
/// rows on screen (at least one).
pub open spec fn page_moved(lines: Seq<Seq<char>>, c: Cursor, code: KeyCode, rows: nat) -> Cursor {
    let page = if rows == 0 { 1nat } else { rows };
    match code {
        KeyCode::Left => crate::buffer::left_of(lines, c),
        KeyCode::Right => crate::buffer::right_of(lines, c),
        KeyCode::Up => crate::buffer::vertical_of(lines, c, false),
        KeyCode::Down => crate::buffer::vertical_of(lines, c, true),
        KeyCode::PageUp => vertical_times(lines, c, false, page),
        KeyCode::PageDown => vertical_times(lines, c, true, page),
        _ => c,
    }
}

/// The view scrolled the least amount that shows `c`.
pub open spec fn page_view(s: Screen, c: Cursor) -> Screen {
    Screen {
        scroll_top: revealed(s.scroll_top as int, content_rows(s), c.row as int) as usize,
        scroll_left: revealed(s.scroll_left as int, s.width as int, c.col as int) as usize,
        ..s
    }
}

fn move_page(page: &mut TextBuffer, code: KeyCode, rows: usize)
    requires
        old(page).wf(),
    ensures
        final(page).wf(),
        final(page).same_but_cursor(old(page)),
        final(page).view_cursor() == page_moved(old(page).lines(), old(page).view_cursor(), code, rows as nat),
{
    match code {
        KeyCode::Left => page.move_left(),
        KeyCode::Right => page.move_right(),
        KeyCode::Up => page.move_up(),
        KeyCode::Down => page.move_down(),
        KeyCode::PageUp | KeyCode::PageDown => {
            let down = code == KeyCode::PageDown;
            let n = if rows == 0 { 1 } else { rows };
            let ghost start = *page;
            let mut i: usize = 0;
            while i < n
                invariant
                    page.wf(),
                    page.same_but_cursor(&start),
                    0 <= i <= n,
                    page.view_cursor() == vertical_times(start.lines(), start.view_cursor(), down, i as nat),
                decreases n - i,
            {
                if down {
                    page.move_down();
                } else {
                    page.move_up();
                }
                i += 1;
            }
        },
        _ => {},
    }
}

fn reveal_page(screen: &mut Screen, c: Cursor)
    ensures
        *final(screen) == page_view(*old(screen), c),
{
    screen.reveal_row(c.row);
    screen.reveal_col(c.col);
}

/// What a key did to the inline workflow.
pub enum ClankerKeyOutcome {
    /// The key is not for the workflow.
    NotTaken,
    /// The key was taken; draw a new frame.
    Taken,
    /// The send confirmation was accepted: send this request.
    Send(OutgoingRequest),
    /// The running request was cancelled: stop it.
    CancelRequest,
}

/// Enter on the send confirmation: the request goes out only while the
/// file is what was captured.
pub open spec fn confirmed(before: &App, c: SendConfirmation, after: &App, res: Option<OutgoingRequest>) -> bool {
    let back = App { screen: restored_screen(before.screen, ClankerPhase::Confirm(c)), ..*before };
    match identity_error(&back, &c.prepared) {
        Some(m) => {
            &&& res is None
            &&& after.inline_clanker.phase() is None
            &&& after.message matches Some(t) && t@ == "Inline clanker cancelled before sending: "@ + m + "; no network call made."@
            &&& *after == (App { inline_clanker: after.inline_clanker, message: after.message, ..back })
        },
        None => started(&back, c.prepared, after, res),
    }
}

fn confirm(app: &mut App, c: SendConfirmation) -> (res: Option<OutgoingRequest>)
    requires
        old(app).buffer.wf(),
        old(app).inline_clanker.phase() is None,
        prepared_ok(&c.prepared),
    ensures
        confirmed(old(app), c, final(app), res),
{
    let ghost cv = c;
    app.screen.scroll_top = c.source_scroll_top;
    app.screen.scroll_left = c.source_scroll_left;
    app.screen.wrap_col = c.source_wrap_col;
    let p = c.prepared;
    match validate_identity(app, &p) {
        Some(m) => {
            let mut t: Vec<char> = Vec::new();
            push_str(&mut t, "Inline clanker cancelled before sending: ");
            push_str(&mut t, m);
            push_str(&mut t, "; no network call made.");
            app.message = Some(crate::text::string_of(&t));
            None
        },
        None => start(app, p),
    }
}

/// The proposal still applies: the same file at the same revision, every
/// captured span as it was, and every edit's range holding the text it
/// replaces.
pub open spec fn proposal_current(app: &App, v: &ProposalPreview) -> bool {
    &&& same_path(app.file.path, v.source_path)
    &&& app.buffer.history_position() == v.source_revision
    &&& identity_error(app, &v.prepared) is None
    &&& forall|i: int|
        0 <= i < v.edits@.len() ==> {
            let pe = #[trigger] v.edits@[i];
            &&& cursor_valid(app.buffer.lines(), pe.edit.start)
            &&& cursor_valid(app.buffer.lines(), pe.edit.end)
            &&& cursor_le(pe.edit.start, pe.edit.end)
            &&& app.buffer.text().subrange(
                cursor_offset(app.buffer.lines(), pe.edit.start),
                cursor_offset(app.buffer.lines(), pe.edit.end),
            ) == pe.original@
        }
}

fn proposal_is_current(app: &App, v: &ProposalPreview) -> (res: bool)
    requires
        app.buffer.wf(),
    ensures
        res == proposal_current(app, v),
{
    if !crate::llm::paths_equal(&app.file.path, &v.source_path) || app.buffer.edit_history_position() != v.source_revision {
        return false;
    }
    if validate_identity(app, &v.prepared).is_some() {
        return false;
    }
    let mut i: usize = 0;
    while i < v.edits.len()
        invariant
            app.buffer.wf(),
            0 <= i <= v.edits@.len(),
            forall|j: int|
                0 <= j < i ==> {
                    let pe = #[trigger] v.edits@[j];
                    &&& cursor_valid(app.buffer.lines(), pe.edit.start)
                    &&& cursor_valid(app.buffer.lines(), pe.edit.end)
                    &&& cursor_le(pe.edit.start, pe.edit.end)
                    &&& app.buffer.text().subrange(
                        cursor_offset(app.buffer.lines(), pe.edit.start),
                        cursor_offset(app.buffer.lines(), pe.edit.end),
                    ) == pe.original@
                },
        decreases v.edits@.len() - i,
    {
        let pe = &v.edits[i];
        let ok = match app.buffer.text_range(pe.edit.start, pe.edit.end) {
            Ok(t) => crate::buffer::chars_equal(&t, &pe.original),
            Err(_) => false,
        };
        if !ok {
            return false;
        }
        i += 1;
    }
    true
}

/// One step of moving a queued draft past the edits of an applied batch.
pub open spec fn draft_step(d0: InlineDraft, pe: PendingEdit, d1: InlineDraft) -> bool {
    match pe.target_id {
        Some(id) => draft_updated(&d0, id, pe.edit, &d1),
        None => d1 == d0,
    }
}

/// `d1` is `d0` moved past every model edit of `ps`, in order.
pub open spec fn drafts_moved(d0: InlineDraft, ps: Seq<PendingEdit>, d1: InlineDraft) -> bool {
    exists|ds: Seq<InlineDraft>|
        #![trigger ds.len()]
        {
            &&& ds.len() == ps.len() + 1
            &&& ds[0] == d0
            &&& ds.last() == d1
            &&& forall|i: int| 0 <= i < ps.len() ==> draft_step(ds[i], ps[i], #[trigger] ds[i + 1])
        }
}

fn update_queued_draft(d: &mut InlineDraft, edits: &Vec<PendingEdit>)
    ensures
        drafts_moved(*old(d), edits@, *final(d)),
        final(d).targets@.len() == old(d).targets@.len(),
        final(d).requests == old(d).requests,
        final(d).scope == old(d).scope,
{
    let ghost mut ds = seq![*d];
    let mut i: usize = 0;
    while i < edits.len()
        invariant
            0 <= i <= edits@.len(),
            ds.len() == i + 1,
            ds[0] == *old(d),
            ds.last() == *d,
            forall|j: int| 0 <= j < i ==> draft_step(ds[j], edits@[j], #[trigger] ds[j + 1]),
            d.targets@.len() == old(d).targets@.len(),
            d.requests == old(d).requests,
            d.scope == old(d).scope,
        decreases edits@.len() - i,
    {
        let pe = &edits[i];
        match pe.target_id {
            Some(id) => update_draft_after_edit(d, id, &pe.edit),
            None => {},
        }
        proof {
            ds = ds.push(*d);
        }
        i += 1;
    }
    proof {
        assert(ds.len() == edits@.len() + 1);
    }
}

/// The marks an apply records at the new position: the marks already there
/// moved through the batch (none on the first apply), then the proposal's.
pub open spec fn marks_after_apply(before: &App, v: &ProposalPreview, m: (Seq<ChangedRange>, Seq<usize>)) -> bool {
    let pos = before.buffer.history_position();
    let base = if v.prepared.applied_count == 0 {
        no_marks()
    } else {
        match before.clanker_changes.at(pos) {
            Some(x) => x,
            None => no_marks(),
        }
    };
    let es = batch_edits(v.edits@);
    &&& m.0 == base.0.map_values(|r: ChangedRange| range_through(r, es)) + v.applied_changes.ranges@
    &&& strictly_increasing(m.1)
    &&& m.1.to_set() == base.1.map_values(|l: usize| line_through(l, es, es.len() as int)).to_set()
        + v.applied_changes.gutter_lines@.to_set()
}

/// The message once a whole proposal queue is applied.
pub open spec fn applied_notice() -> Seq<char> {
    "Inline clanker proposal applied without saving. Red/underlined text and gutter marks are locally applied model output, not a selection; Ctrl+Z undoes it."@
}

/// Enter on a proposal: it is applied only while everything it was made
/// from is unchanged, as one undoable step; its marks are recorded for the
/// new undo/redo position; a queue goes on with its next request.
pub open spec fn apply_outcome(before: &App, v: ProposalPreview, after: &App, res: Option<OutgoingRequest>) -> bool {
    let back = App { screen: restored_screen(before.screen, ClankerPhase::Preview(v)), ..*before };
    if !proposal_current(&back, &v) {
        &&& res is None
        &&& after.inline_clanker.phase() is None
        &&& after.message matches Some(t) && t@ == "Inline clanker apply refused: source, instruction, delimiter, or target drifted."@
        &&& *after == (App { inline_clanker: after.inline_clanker, message: after.message, ..back })
    } else if !(batch_result(&before.buffer, v.edits@) matches Some(t) && t != before.buffer.text()) {
        &&& res is None
        &&& after.inline_clanker.phase() is None
        &&& after.message matches Some(t) && t@ == "Inline clanker proposal makes no applicable change."@
        &&& after.buffer.same(&before.buffer)
        &&& *after == (App { inline_clanker: after.inline_clanker, message: after.message, buffer: after.buffer, ..back })
    } else {
        let pos0 = before.buffer.history_position();
        let pos1 = before.buffer.fresh_position();
        let total = v.prepared.draft.requests@.len();
        &&& after.buffer.text() == batch_result(&before.buffer, v.edits@)->0
        &&& after.buffer.undo_states() == before.buffer.undo_states().push(before.buffer.state())
        &&& after.buffer.redo_states().len() == 0
        &&& after.buffer.history_position() == pos1
        &&& after.file.path == before.file.path
        &&& after.inactive_buffers == before.inactive_buffers
        &&& after.clanker_changes.at(pos1) matches Some(m) && marks_after_apply(before, &v, m)
        &&& forall|q: u64|
            q != pos1 ==> #[trigger] after.clanker_changes.at(q) == if v.prepared.applied_count == 0 {
                if q == pos0 {
                    Some(no_marks())
                } else {
                    None
                }
            } else {
                before.clanker_changes.at(q)
            }
        &&& v.prepared.request_index + 1 < total ==> exists|d: InlineDraft|
            #![trigger drafts_moved(v.prepared.draft, v.edits@, d)]
            {
                let p2 = PreparedWorkflow {
                    draft: d,
                    expected_revision: pos1,
                    request_index: (v.prepared.request_index + 1) as usize,
                    applied_count: sat_add(v.prepared.applied_count as int, 1) as usize,
                    ..v.prepared
                };
                &&& drafts_moved(v.prepared.draft, v.edits@, d)
                &&& match identity_error(after, &p2) {
                    Some(msg) => res is None && after.inline_clanker.phase() is None && (after.message matches Some(t) && t@
                        == "Inline clanker queue stopped before send: "@ + msg + "."@),
                    None => {
                        let unit = p2.draft.requests@[p2.request_index as int];
                        &&& res matches Some(r) && r.system@ == system_text(p2.draft.scope, unit.target_ids@.len()) && r.user@
                            == user_text(&p2)
                        &&& after.inline_clanker.phase() == Some(ClankerPhase::Running(p2))
                        &&& after.message matches Some(t) && t@ == progress_text(&p2)
                    },
                }
            }
        &&& v.prepared.request_index + 1 >= total ==> {
            &&& res is None
            &&& after.inline_clanker.phase() is None
            &&& after.message matches Some(t) && t@ == applied_notice()
        }
    }
}

#[verifier::rlimit(60)]
fn apply(app: &mut App, v: ProposalPreview) -> (res: Option<OutgoingRequest>)
    requires
        old(app).buffer.wf(),
        old(app).inline_clanker.phase() is None,
        prepared_ok(&v.prepared),
    ensures
        apply_outcome(old(app), v, final(app), res),
        final(app).buffer.wf(),
{
    let ghost vv = v;
    app.screen.scroll_top = v.source_scroll_top;
    app.screen.scroll_left = v.source_scroll_left;
    app.screen.wrap_col = v.source_wrap_col;
    if !proposal_is_current(app, &v) {
        app.message = Some(String::from_str("Inline clanker apply refused: source, instruction, delimiter, or target drifted."));
        return None;
    }
    let before = app.buffer.edit_history_position();
    let mut cumulative = if v.prepared.applied_count == 0 {
        ChangeSet::new()
    } else {
        app.clanker_changes.changes_at(before)
    };
    shift_set(&mut cumulative, &v.edits);
    let ghost shifted_marks = cumulative.view();
    let mut i: usize = 0;
    while i < v.applied_changes.ranges.len()
        invariant
            0 <= i <= v.applied_changes.ranges@.len(),
            cumulative.ranges@ == shifted_marks.0 + v.applied_changes.ranges@.take(i as int),
            cumulative.gutter_lines@ == shifted_marks.1,
        decreases v.applied_changes.ranges@.len() - i,
    {
        cumulative.ranges.push(v.applied_changes.ranges[i]);
        i += 1;
        proof {
            assert(v.applied_changes.ranges@.take(i as int) =~= v.applied_changes.ranges@.take(i - 1).push(
                v.applied_changes.ranges@[i - 1],
            ));
        }
    }
    let mut lines = copy_lines(&cumulative.gutter_lines);
    let mut j: usize = 0;
    while j < v.applied_changes.gutter_lines.len()
        invariant
            0 <= j <= v.applied_changes.gutter_lines@.len(),
            lines@ == shifted_marks.1 + v.applied_changes.gutter_lines@.take(j as int),
        decreases v.applied_changes.gutter_lines@.len() - j,
    {
        lines.push(v.applied_changes.gutter_lines[j]);
        j += 1;
        proof {
            assert(v.applied_changes.gutter_lines@.take(j as int) =~= v.applied_changes.gutter_lines@.take(j - 1).push(
                v.applied_changes.gutter_lines@[j - 1],
            ));
        }
    }
    proof {
        assert(v.applied_changes.ranges@.take(v.applied_changes.ranges@.len() as int) =~= v.applied_changes.ranges@);
        assert(v.applied_changes.gutter_lines@.take(v.applied_changes.gutter_lines@.len() as int)
            =~= v.applied_changes.gutter_lines@);
        vstd::seq_lib::seq_to_set_distributes_over_add(shifted_marks.1, v.applied_changes.gutter_lines@);
    }
    cumulative.gutter_lines = sorted_lines(&lines);
    let ghost marks = cumulative.view();
    if !apply_batch(&mut app.buffer, &v.edits) {
        app.message = Some(String::from_str("Inline clanker proposal makes no applicable change."));
        return None;
    }
    let after = app.buffer.edit_history_position();
    app.clanker_changes.record(v.prepared.applied_count == 0, before, after, cumulative);
    continue_or_finish(app, v, after)
}

fn continue_or_finish(app: &mut App, v: ProposalPreview, after: u64) -> (res: Option<OutgoingRequest>)
    requires
        old(app).buffer.wf(),
        old(app).inline_clanker.phase() is None,
        prepared_ok(&v.prepared),
        after == old(app).buffer.history_position(),
        old(app).clanker_changes.at(after) is Some,
    ensures
        final(app).buffer == old(app).buffer,
        final(app).file.path == old(app).file.path,
        final(app).inactive_buffers == old(app).inactive_buffers,
        final(app).clanker_changes == old(app).clanker_changes,
        v.prepared.request_index + 1 < v.prepared.draft.requests@.len() ==> exists|d: InlineDraft|
            #![trigger drafts_moved(v.prepared.draft, v.edits@, d)]
            {
                let p2 = PreparedWorkflow {
                    draft: d,
                    expected_revision: after,
                    request_index: (v.prepared.request_index + 1) as usize,
                    applied_count: sat_add(v.prepared.applied_count as int, 1) as usize,
                    ..v.prepared
                };
                &&& drafts_moved(v.prepared.draft, v.edits@, d)
                &&& match identity_error(final(app), &p2) {
                    Some(msg) => res is None && final(app).inline_clanker.phase() is None && (final(app).message matches Some(t)
                        && t@ == "Inline clanker queue stopped before send: "@ + msg + "."@),
                    None => {
                        let unit = p2.draft.requests@[p2.request_index as int];
                        &&& res matches Some(r) && r.system@ == system_text(p2.draft.scope, unit.target_ids@.len()) && r.user@
                            == user_text(&p2)
                        &&& final(app).inline_clanker.phase() == Some(ClankerPhase::Running(p2))
                        &&& final(app).message matches Some(t) && t@ == progress_text(&p2)
                    },
                }
            },
        v.prepared.request_index + 1 >= v.prepared.draft.requests@.len() ==> {
            &&& res is None
            &&& final(app).inline_clanker.phase() is None
            &&& final(app).message matches Some(t) && t@ == applied_notice()
        },
{
    let mut p = v.prepared;
    let total = p.draft.requests.len();
    if p.request_index + 1 < total {
        update_queued_draft(&mut p.draft, &v.edits);
        p.expected_revision = after;
        p.request_index = p.request_index + 1;
        p.applied_count = p.applied_count.saturating_add(1);
        crate::input::finish_content_edit_with_message(
            app,
            Some(String::from_str("Inline clanker block applied; starting the next serial block.")),
        );
        let ghost p2 = p;
        let res = start(app, p);
        proof {
            assert(drafts_moved(v.prepared.draft, v.edits@, p2.draft));
        }
        return res;
    }
    crate::input::finish_content_edit_with_message(
        app,
        Some(String::from_str("Inline clanker proposal applied without saving. Red/underlined text and gutter marks are locally applied model output, not a selection; Ctrl+Z undoes it.")),
    );
    None
}

/// The message for a key that a read-only confirmation does not take.
pub open spec fn confirmation_read_only() -> Seq<char> {
    "Inline clanker confirmation is read-only. Enter sends; Esc cancels."@
}

/// The message for a key that a read-only proposal does not take.
pub open spec fn proposal_read_only() -> Seq<char> {
    "Inline clanker proposal is read-only. Enter applies; Esc rejects."@
}

/// A navigation key on a page: its cursor moves, and the view follows it.
pub open spec fn page_navigated(before: &App, old_page: TextBuffer, new_page: TextBuffer, code: KeyCode, after: &App) -> bool {
    &&& new_page.wf()
    &&& new_page.same_but_cursor(&old_page)
    &&& new_page.view_cursor() == page_moved(old_page.lines(), old_page.view_cursor(), code, content_rows(before.screen) as nat)
    &&& after.screen == page_view(before.screen, new_page.view_cursor())
    &&& *after == (App { inline_clanker: after.inline_clanker, screen: after.screen, ..*before })
}

/// Keys while the inline workflow runs: the confirmation takes Enter (send),
/// Esc (cancel) and navigation; a running request takes Esc (cancel) and
/// holds every other key; the proposal takes Enter (apply), Esc (reject)
/// and navigation. Ctrl+Q and the warning prompt's keys are not taken.
#[verifier::rlimit(60)]
pub fn handle_key(app: &mut App, key: KeyEvent) -> (res: ClankerKeyOutcome)
    requires
        old(app).buffer.wf(),
    ensures
        final(app).buffer.wf(),
        final(app).inactive_buffers == old(app).inactive_buffers,
        (old(app).inline_clanker.phase() is None || (key.code == KeyCode::Char('q') && key.ctrl) || old(
            app,
        ).inline_clanker.phase() matches Some(ClankerPhase::Warning(_))) ==> (res is NotTaken && *final(app) == *old(app)),
        !(key.code == KeyCode::Char('q') && key.ctrl) ==> match old(app).inline_clanker.phase() {
            Some(ClankerPhase::Confirm(c)) => {
                &&& key.code == KeyCode::Enter ==> ((res is Taken && confirmed(old(app), c, final(app), None)) || (res matches ClankerKeyOutcome::Send(r) && confirmed(old(app), c, final(app), Some(r))))
                &&& key.code == KeyCode::Esc ==> res is Taken && final(app).inline_clanker.phase() is None && (final(app).message matches Some(m)
                    && m@ == "Inline clanker cancelled before sending; no client or network call was started."@) && *final(app) == (App {
                    inline_clanker: final(app).inline_clanker,
                    message: final(app).message,
                    screen: restored_screen(old(app).screen, ClankerPhase::Confirm(c)),
                    ..*old(app)
                })
                &&& nav_key(key.code) ==> res is Taken && (final(app).inline_clanker.phase() matches Some(ClankerPhase::Confirm(c2))
                    && c2.prepared == c.prepared && c2.source_scroll_top == c.source_scroll_top && c2.source_scroll_left
                    == c.source_scroll_left && c2.source_wrap_col == c.source_wrap_col && page_navigated(old(app), c.page, c2.page, key.code, final(app)))
                &&& !(key.code == KeyCode::Enter || key.code == KeyCode::Esc || nav_key(key.code)) ==> res is Taken && (final(app).message matches Some(m)
                    && m@ == confirmation_read_only()) && *final(app) == (App { message: final(app).message, ..*old(app) })
            },
            Some(ClankerPhase::Running(_)) => {
                &&& key.code == KeyCode::Esc ==> res is CancelRequest && final(app).inline_clanker.phase() is None && *final(app) == (App {
                    inline_clanker: final(app).inline_clanker,
                    message: None,
                    ..*old(app)
                })
                &&& key.code != KeyCode::Esc ==> res is Taken && (final(app).message matches Some(m) && m@
                    == "Inline clanker request is running. Esc cancels; other input is paused."@) && *final(app) == (App {
                    message: final(app).message,
                    message_role: StatusRole::Info,
                    ..*old(app)
                })
            },
            Some(ClankerPhase::Preview(v)) => {
                &&& key.code == KeyCode::Enter ==> ((res is Taken && apply_outcome(old(app), v, final(app), None)) || (res matches ClankerKeyOutcome::Send(r) && apply_outcome(old(app), v, final(app), Some(r))))
                &&& key.code == KeyCode::Esc ==> res is Taken && final(app).inline_clanker.phase() is None && (final(app).message matches Some(m)
                    && m@ == "Inline clanker proposal rejected; remaining queue cleared, instruction kept, and no previewed changes applied."@)
                    && *final(app) == (App {
                    inline_clanker: final(app).inline_clanker,
                    message: final(app).message,
                    message_role: StatusRole::Info,
                    screen: crate::app::revealed_screen(
                        restored_screen(old(app).screen, ClankerPhase::Preview(v)),
                        old(app).buffer.view_cursor(),
                    ),
                    ..*old(app)
                })
                &&& nav_key(key.code) ==> res is Taken && (final(app).inline_clanker.phase() matches Some(ClankerPhase::Preview(v2))
                    && v2.prepared == v.prepared && v2.edits == v.edits && v2.applied_changes == v.applied_changes
                    && v2.preview_changes == v.preview_changes && v2.source_revision == v.source_revision
                    && v2.source_path == v.source_path && v2.source_scroll_top == v.source_scroll_top
                    && v2.source_scroll_left == v.source_scroll_left && v2.source_wrap_col == v.source_wrap_col
                    && page_navigated(old(app), v.page, v2.page, key.code, final(app)))
                &&& !(key.code == KeyCode::Enter || key.code == KeyCode::Esc || nav_key(key.code)) ==> res is Taken && (final(app).message matches Some(m)
                    && m@ == proposal_read_only()) && *final(app) == (App { message: final(app).message, ..*old(app) })
            },
            _ => true,
        },
{
    let is_nav = match key.code {
        KeyCode::Left | KeyCode::Right | KeyCode::Up | KeyCode::Down | KeyCode::PageUp | KeyCode::PageDown => true,
        _ => false,
    };
    let kind: u8 = match app.inline_clanker.current() {
        None => return ClankerKeyOutcome::NotTaken,
        Some(ClankerPhase::Warning(_)) => return ClankerKeyOutcome::NotTaken,
        Some(ClankerPhase::Confirm(_)) => 0,
        Some(ClankerPhase::Running(_)) => 1,
        Some(ClankerPhase::Preview(_)) => 2,
    };
    if key.code == KeyCode::Char('q') && key.ctrl {
        return ClankerKeyOutcome::NotTaken;
    }
    if kind == 1 {
        if key.code == KeyCode::Esc {
            let _ = app.inline_clanker.take();
            app.message = None;
            return ClankerKeyOutcome::CancelRequest;
        }
        app.message_info(String::from_str("Inline clanker request is running. Esc cancels; other input is paused."));
        return ClankerKeyOutcome::Taken;
    }
    if !(key.code == KeyCode::Enter || key.code == KeyCode::Esc || is_nav) {
        if kind == 0 {
            app.message = Some(String::from_str("Inline clanker confirmation is read-only. Enter sends; Esc cancels."));
        } else {
            app.message = Some(String::from_str("Inline clanker proposal is read-only. Enter applies; Esc rejects."));
        }
        return ClankerKeyOutcome::Taken;
    }
    let rows = app.screen.visible_height();
    match app.inline_clanker.take() {
        Some(ClankerPhase::Confirm(c)) => confirmation_key(app, c, key.code, rows),
        Some(ClankerPhase::Preview(v)) => preview_key(app, v, key.code, rows),
        _ => ClankerKeyOutcome::Taken,
    }
}

fn confirmation_key(app: &mut App, c: SendConfirmation, code: KeyCode, rows: usize) -> (res: ClankerKeyOutcome)
    requires
        old(app).buffer.wf(),
        old(app).inline_clanker.phase() is None,
        prepared_ok(&c.prepared),
        c.page.wf(),
        code == KeyCode::Enter || code == KeyCode::Esc || nav_key(code),
        rows == content_rows(old(app).screen),
    ensures
        final(app).buffer.wf(),
        final(app).inactive_buffers == old(app).inactive_buffers,
        code == KeyCode::Enter ==> ((res is Taken && confirmed(old(app), c, final(app), None)) || (res matches ClankerKeyOutcome::Send(r) && confirmed(old(app), c, final(app), Some(r)))),
        code == KeyCode::Esc ==> res is Taken && final(app).inline_clanker.phase() is None && (final(app).message matches Some(m)
            && m@ == "Inline clanker cancelled before sending; no client or network call was started."@) && *final(app) == (App {
            inline_clanker: final(app).inline_clanker,
            message: final(app).message,
            screen: restored_screen(old(app).screen, ClankerPhase::Confirm(c)),
            ..*old(app)
        }),
        nav_key(code) ==> res is Taken && (final(app).inline_clanker.phase() matches Some(ClankerPhase::Confirm(c2))
            && c2.prepared == c.prepared && c2.source_scroll_top == c.source_scroll_top && c2.source_scroll_left
            == c.source_scroll_left && c2.source_wrap_col == c.source_wrap_col && page_navigated(old(app), c.page, c2.page, code, final(app))),
{
    if code == KeyCode::Enter {
        match confirm(app, c) {
            Some(r) => ClankerKeyOutcome::Send(r),
            None => ClankerKeyOutcome::Taken,
        }
    } else if code == KeyCode::Esc {
        app.screen.scroll_top = c.source_scroll_top;
        app.screen.scroll_left = c.source_scroll_left;
        app.screen.wrap_col = c.source_wrap_col;
        app.message = Some(String::from_str("Inline clanker cancelled before sending; no client or network call was started."));
        ClankerKeyOutcome::Taken
    } else {
        let mut c = c;
        move_page(&mut c.page, code, rows);
        let cur = c.page.cursor();
        reveal_page(&mut app.screen, cur);
        app.inline_clanker.set(ClankerPhase::Confirm(c));
        ClankerKeyOutcome::Taken
    }
}

fn preview_key(app: &mut App, v: ProposalPreview, code: KeyCode, rows: usize) -> (res: ClankerKeyOutcome)
    requires
        old(app).buffer.wf(),
        old(app).inline_clanker.phase() is None,
        prepared_ok(&v.prepared),
        v.page.wf(),
        code == KeyCode::Enter || code == KeyCode::Esc || nav_key(code),
        rows == content_rows(old(app).screen),
    ensures
        final(app).buffer.wf(),
        final(app).inactive_buffers == old(app).inactive_buffers,
        code == KeyCode::Enter ==> ((res is Taken && apply_outcome(old(app), v, final(app), None)) || (res matches ClankerKeyOutcome::Send(r) && apply_outcome(old(app), v, final(app), Some(r)))),
        code == KeyCode::Esc ==> res is Taken && final(app).inline_clanker.phase() is None && (final(app).message matches Some(m)
            && m@ == "Inline clanker proposal rejected; remaining queue cleared, instruction kept, and no previewed changes applied."@)
            && *final(app) == (App {
            inline_clanker: final(app).inline_clanker,
            message: final(app).message,
            message_role: StatusRole::Info,
            screen: crate::app::revealed_screen(
                restored_screen(old(app).screen, ClankerPhase::Preview(v)),
                old(app).buffer.view_cursor(),
            ),
            ..*old(app)
        }),
        nav_key(code) ==> res is Taken && (final(app).inline_clanker.phase() matches Some(ClankerPhase::Preview(v2))
            && v2.prepared == v.prepared && v2.edits == v.edits && v2.applied_changes == v.applied_changes
            && v2.preview_changes == v.preview_changes && v2.source_revision == v.source_revision
            && v2.source_path == v.source_path && v2.source_scroll_top == v.source_scroll_top
            && v2.source_scroll_left == v.source_scroll_left && v2.source_wrap_col == v.source_wrap_col
            && page_navigated(old(app), v.page, v2.page, code, final(app))),
{
    if code == KeyCode::Enter {
        match apply(app, v) {
            Some(r) => ClankerKeyOutcome::Send(r),
            None => ClankerKeyOutcome::Taken,
        }
    } else if code == KeyCode::Esc {
        app.screen.scroll_top = v.source_scroll_top;
        app.screen.scroll_left = v.source_scroll_left;
        app.screen.wrap_col = v.source_wrap_col;
        app.message_info(String::from_str("Inline clanker proposal rejected; remaining queue cleared, instruction kept, and no previewed changes applied."));
        app.reveal_cursor();
        ClankerKeyOutcome::Taken
    } else {
        let mut v = v;
        move_page(&mut v.page, code, rows);
        let cur = v.page.cursor();
        reveal_page(&mut app.screen, cur);
        app.inline_clanker.set(ClankerPhase::Preview(v));
        ClankerKeyOutcome::Taken
    }
}

/// A paste while the workflow shows a page or runs a request is held, with
/// a message that says why; returns whether it was held.
pub fn handle_paste(app: &mut App) -> (held: bool)
    ensures
        held == old(app).inline_clanker.phase() is Some,
        !held ==> *final(app) == *old(app),
        held ==> *final(app) == (App { message: final(app).message, message_role: StatusRole::Info, ..*old(app) }),
        match old(app).inline_clanker.phase() {
            Some(ClankerPhase::Warning(_)) => final(app).message matches Some(m) && m@ == confirmation_read_only(),
            Some(ClankerPhase::Confirm(_)) => final(app).message matches Some(m) && m@ == confirmation_read_only(),
            Some(ClankerPhase::Running(_)) => final(app).message matches Some(m) && m@
                == "Inline clanker request is running. Esc cancels; pasted input is paused."@,
            Some(ClankerPhase::Preview(_)) => final(app).message matches Some(m) && m@ == proposal_read_only(),
            None => true,
        },
{
    let kind: u8 = match app.inline_clanker.current() {
        None => return false,
        Some(ClankerPhase::Warning(_)) => 0,
        Some(ClankerPhase::Confirm(_)) => 0,
        Some(ClankerPhase::Running(_)) => 1,
        Some(ClankerPhase::Preview(_)) => 2,
    };
    if kind == 0 {
        app.message_info(String::from_str("Inline clanker confirmation is read-only. Enter sends; Esc cancels."));
    } else if kind == 1 {
        app.message_info(String::from_str("Inline clanker request is running. Esc cancels; pasted input is paused."));
    } else {
        app.message_info(String::from_str("Inline clanker proposal is read-only. Enter applies; Esc rejects."));
    }
    true
}

/// The end of the running request: a reply is checked against the file
/// and, when it still fits, read into a proposal (`reply` is what the
/// reply readers made of it); a cancelled or failed request counts as a
/// failure of that request. Nothing happens unless a request is running.
pub fn finish_task(app: &mut App, result: crate::llm::LlmTaskResult, reply: ModelReply) -> (res: Option<OutgoingRequest>)
    requires
        old(app).buffer.wf(),
        old(app).inline_clanker.phase() matches Some(ClankerPhase::Running(p)) ==> (result is Finished ==> reply_fits(
            &p,
            &reply,
        )),
    ensures
        final(app).buffer.wf(),
        !(old(app).inline_clanker.phase() matches Some(ClankerPhase::Running(_))) ==> res is None && *final(app) == *old(app),
        old(app).inline_clanker.phase() matches Some(ClankerPhase::Running(p)) ==> match result {
            crate::llm::LlmTaskResult::Finished(out) => match identity_error(old(app), &p) {
                Some(m) => res is None && final(app).inline_clanker.phase() is None && (final(app).message matches Some(t)
                    && t@ == "Inline clanker response discarded because "@ + m + "; instruction kept."@) && *final(app) == (App {
                    inline_clanker: final(app).inline_clanker,
                    message: final(app).message,
                    ..*old(app)
                }),
                None => response_opened(old(app), p, out@, &reply, final(app), res),
            },
            crate::llm::LlmTaskResult::Cancelled => failed_on(old(app), p, "request cancelled"@, final(app), res),
            crate::llm::LlmTaskResult::Failed(e) => failed_on(old(app), p, e@, final(app), res),
        },
{
    let running = match app.inline_clanker.current() {
        Some(ClankerPhase::Running(_)) => true,
        _ => false,
    };
    if !running {
        return None;
    }
    let p = match app.inline_clanker.take() {
        Some(ClankerPhase::Running(p)) => p,
        _ => return None,
    };
    match result {
        crate::llm::LlmTaskResult::Finished(out) => {
            match validate_identity(app, &p) {
                Some(m) => {
                    let mut t: Vec<char> = Vec::new();
                    push_str(&mut t, "Inline clanker response discarded because ");
                    push_str(&mut t, m);
                    push_str(&mut t, "; instruction kept.");
                    app.message = Some(crate::text::string_of(&t));
                    None
                },
                None => {
                    let output = crate::text::chars_of(out.as_str());
                    open_response(app, p, &output, &reply)
                },
            }
        },
        crate::llm::LlmTaskResult::Cancelled => {
            let e = crate::text::chars_of("request cancelled");
            fail_or_continue(app, p, &e)
        },
        crate::llm::LlmTaskResult::Failed(message) => {
            let e = crate::text::chars_of(message.as_str());
            fail_or_continue(app, p, &e)
        },
    }
}

/// The request could not be started (its backend could not be prepared,
/// or the task could not start): it counts as a failure of that request.
pub fn start_failed(app: &mut App, error: &str) -> (res: Option<OutgoingRequest>)
    requires
        old(app).buffer.wf(),
    ensures
        final(app).buffer.wf(),
        !(old(app).inline_clanker.phase() matches Some(ClankerPhase::Running(_))) ==> res is None && *final(app) == *old(app),
        old(app).inline_clanker.phase() matches Some(ClankerPhase::Running(p)) ==> failed_on(old(app), p, error@, final(app), res),
{
    let running = match app.inline_clanker.current() {
        Some(ClankerPhase::Running(_)) => true,
        _ => false,
    };
    if !running {
        return None;
    }
    match app.inline_clanker.take() {
        Some(ClankerPhase::Running(p)) => {
            let e = crate::text::chars_of(error);
            fail_or_continue(app, p, &e)
        },
        _ => None,
    }
}

} // verus!
