//! Render-only change metadata for the latest external reload: which lines and
//! scalar ranges of the reloaded revision differ from the revision it replaced.

use vstd::prelude::*;

use crate::buffer::{view_lines, Cursor, TextBuffer};
use unicode_segmentation::UnicodeSegmentation;

verus! {

pub const MAX_DIFF_LINES: usize = 200_000;

pub const MAX_GRAPHEME_LINE_BYTES: usize = 1_048_576;

/// Files above this many UTF-8 bytes are not compared.
pub const SMALL_FILE_LIMIT_BYTES: u64 = 10_485_760;

#[derive(Clone, Copy, Debug, PartialEq, Eq, Structural)]
pub enum ChangeKind {
    Added,
    Changed,
    Deleted,
}

#[derive(Clone, Copy, Debug, PartialEq, Eq, Structural)]
pub struct ChangedRange {
    pub start: Cursor,
    pub end: Cursor,
}

#[derive(Clone, Copy, Debug, PartialEq, Eq, Structural)]
pub struct LineMarker {
    pub line: usize,
    pub kind: ChangeKind,
}

/// Change marks bound to the history position of the reload that produced them.
pub struct ExternalChanges {
    pub history_position: Option<u64>,
    pub added_ranges: Vec<ChangedRange>,
    pub changed_ranges: Vec<ChangedRange>,
    pub markers: Vec<LineMarker>,
}

/// Why no comparison was made.
#[derive(Clone, Copy, Debug, PartialEq, Eq, Structural)]
pub enum SkipReason {
    /// One side exceeds the byte limit.
    TooLarge,
    /// One side exceeds the line limit.
    TooManyLines,
}

pub enum DiffOutcome {
    Compared(ExternalChanges),
    Skipped(SkipReason),
}

/// A region where the old lines `old_start..old_end` became `new_start..new_end`.
#[derive(Clone, Copy, Debug, PartialEq, Eq, Structural)]
pub struct ChangedBlock {
    pub old_start: usize,
    pub old_end: usize,
    pub new_start: usize,
    pub new_end: usize,
}

/// Encoded UTF-8 length of one scalar (`char::len_utf8`).
pub open spec fn char_utf8_len(c: char) -> nat {
    if (c as u32) < 0x80 {
        1
    } else if (c as u32) < 0x800 {
        2
    } else if (c as u32) < 0x10000 {
        3
    } else {
        4
    }
}

pub open spec fn utf8_len(s: Seq<char>) -> nat
    decreases s.len(),
{
    if s.len() == 0 {
        0
    } else {
        utf8_len(s.drop_last()) + char_utf8_len(s.last())
    }
}

/// Concatenation of pieces in order.
pub open spec fn concat_all(gs: Seq<Seq<char>>) -> Seq<char>
    decreases gs.len(),
{
    if gs.len() == 0 {
        Seq::empty()
    } else {
        concat_all(gs.drop_last()) + gs.last()
    }
}

/// The extended grapheme clusters of a text, as segmented by unicode-segmentation.
pub uninterp spec fn extended_graphemes(s: Seq<char>) -> Seq<Seq<char>>;

/// Number of leading elements two sequences share.
pub open spec fn prefix_len<T>(a: Seq<T>, b: Seq<T>) -> nat
    decreases a.len(),
{
    if a.len() > 0 && b.len() > 0 && a[0] == b[0] {
        1 + prefix_len(a.drop_first(), b.drop_first())
    } else {
        0
    }
}

/// Number of trailing elements two sequences share.
pub open spec fn suffix_len<T>(a: Seq<T>, b: Seq<T>) -> nat
    decreases a.len(),
{
    if a.len() > 0 && b.len() > 0 && a.last() == b.last() {
        1 + suffix_len(a.drop_last(), b.drop_last())
    } else {
        0
    }
}

/// Number of times `x` occurs in `s`.
pub open spec fn occurrences<T>(s: Seq<T>, x: T) -> nat
    decreases s.len(),
{
    if s.len() == 0 {
        0
    } else {
        occurrences(s.drop_last(), x) + if s.last() == x { 1nat } else { 0nat }
    }
}

pub open spec fn merge_kind_spec(left: ChangeKind, right: ChangeKind) -> ChangeKind {
    if left == right {
        left
    } else {
        ChangeKind::Changed
    }
}

/// The marker recorded for `row` by a `kind` change.
pub open spec fn with_marker(c: ExternalChangesView, line: int, kind: ChangeKind) -> ExternalChangesView {
    ExternalChangesView { markers: c.markers.push(LineMarker { line: line as usize, kind }), ..c }
}

/// A `kind` change of the scalars `start..end` of `row`: a marker, and a range when non-empty.
pub open spec fn with_range(c: ExternalChangesView, row: int, start: int, end: int, kind: ChangeKind) -> ExternalChangesView {
    let m = with_marker(c, row, kind);
    let r = ChangedRange {
        start: Cursor { row: row as usize, col: start as usize },
        end: Cursor { row: row as usize, col: end as usize },
    };
    if start >= end {
        m
    } else if kind == ChangeKind::Added {
        ExternalChangesView { added: m.added.push(r), ..m }
    } else if kind == ChangeKind::Changed {
        ExternalChangesView { changed: m.changed.push(r), ..m }
    } else {
        m
    }
}

/// The mathematical content of an `ExternalChanges`.
pub struct ExternalChangesView {
    pub position: Option<u64>,
    pub added: Seq<ChangedRange>,
    pub changed: Seq<ChangedRange>,
    pub markers: Seq<LineMarker>,
}

/// What comparing one old line with the new line at `row` records.
pub open spec fn line_change(c: ExternalChangesView, old: Seq<char>, new: Seq<char>, row: int) -> ExternalChangesView {
    if old == new {
        c
    } else if utf8_len(old) > MAX_GRAPHEME_LINE_BYTES || utf8_len(new) > MAX_GRAPHEME_LINE_BYTES {
        with_range(c, row, 0, new.len() as int, ChangeKind::Changed)
    } else {
        let go = extended_graphemes(old);
        let gn = extended_graphemes(new);
        let p = prefix_len(go, gn) as int;
        let q = suffix_len(go.skip(p), gn.skip(p)) as int;
        let start = concat_all(gn.take(p)).len() as int;
        let end = concat_all(gn.take(gn.len() - q)).len() as int;
        let old_changed = go.len() - q > p;
        let new_changed = gn.len() - q > p;
        if !old_changed && new_changed {
            with_range(c, row, start, end, ChangeKind::Added)
        } else if old_changed && new_changed {
            with_range(c, row, start, end, ChangeKind::Changed)
        } else if old_changed && !new_changed {
            with_marker(c, row, ChangeKind::Deleted)
        } else {
            c
        }
    }
}

/// Lines `o..o+n` of `old` equal lines `m..m+n` of `new`.
pub open spec fn aligned(old: Seq<Seq<char>>, new: Seq<Seq<char>>, o: int, m: int, n: int) -> bool {
    &&& 0 <= n
    &&& 0 <= o
    &&& 0 <= m
    &&& o + n <= old.len()
    &&& m + n <= new.len()
    &&& old.subrange(o, o + n) == new.subrange(m, m + n)
}

/// Block `i` is in order, non-empty and in bounds, and the lines between the
/// previous block and it correspond one to one and are equal.
pub open spec fn block_ok(old: Seq<Seq<char>>, new: Seq<Seq<char>>, bs: Seq<ChangedBlock>, i: int) -> bool {
    let b = bs[i];
    &&& b.old_start <= b.old_end <= old.len()
    &&& b.new_start <= b.new_end <= new.len()
    &&& (b.old_start < b.old_end || b.new_start < b.new_end)
    &&& aligned(old, new, gap_old(bs, i), gap_new(bs, i), b.old_start - gap_old(bs, i))
    &&& b.old_start - gap_old(bs, i) == b.new_start - gap_new(bs, i)
}

/// The blocks account for old lines `0..oc` and new lines `0..nc`: every line
/// outside a block up to there is equal to its counterpart.
pub open spec fn covers_upto(old: Seq<Seq<char>>, new: Seq<Seq<char>>, bs: Seq<ChangedBlock>, oc: int, nc: int) -> bool {
    &&& forall|i: int| 0 <= i < bs.len() ==> #[trigger] block_ok(old, new, bs, i)
    &&& aligned(old, new, gap_old(bs, bs.len() as int), gap_new(bs, bs.len() as int), oc - gap_old(bs, bs.len() as int))
    &&& oc - gap_old(bs, bs.len() as int) == nc - gap_new(bs, bs.len() as int)
}

/// The blocks cover every difference between the two line lists.
pub open spec fn blocks_cover(old: Seq<Seq<char>>, new: Seq<Seq<char>>, bs: Seq<ChangedBlock>) -> bool {
    covers_upto(old, new, bs, old.len() as int, new.len() as int)
}

/// Where the unchanged old lines before block `i` start.
pub open spec fn gap_old(bs: Seq<ChangedBlock>, i: int) -> int {
    if i == 0 {
        0
    } else {
        bs[i - 1].old_end as int
    }
}

/// Where the unchanged new lines before block `i` start.
pub open spec fn gap_new(bs: Seq<ChangedBlock>, i: int) -> int {
    if i == 0 {
        0
    } else {
        bs[i - 1].new_end as int
    }
}

/// Marker lines strictly increase.
pub open spec fn markers_sorted(ms: Seq<LineMarker>) -> bool {
    forall|i: int, j: int| 0 <= i < j < ms.len() ==> ms[i].line < ms[j].line
}

/// Ranges are ordered by start position.
pub open spec fn ranges_sorted(rs: Seq<ChangedRange>) -> bool {
    forall|i: int, j: int|
        0 <= i < j < rs.len() ==> (rs[i].start.row < rs[j].start.row || (rs[i].start.row
            == rs[j].start.row && rs[i].start.col <= rs[j].start.col))
}

/// The combined kind of all markers at `line`, in order, if any.
pub open spec fn merged_kind(ms: Seq<LineMarker>, line: int) -> Option<ChangeKind>
    decreases ms.len(),
{
    if ms.len() == 0 {
        None
    } else {
        let prev = merged_kind(ms.drop_last(), line);
        if ms.last().line == line {
            match prev {
                None => Some(ms.last().kind),
                Some(k) => Some(merge_kind_spec(k, ms.last().kind)),
            }
        } else {
            prev
        }
    }
}

/// Exactly one marker per marked line, carrying the merged kind.
pub open spec fn markers_merged(out: Seq<LineMarker>, input: Seq<LineMarker>) -> bool {
    &&& markers_sorted(out)
    &&& forall|i: int| 0 <= i < out.len() ==> merged_kind(input, #[trigger] out[i].line as int) == Some(out[i].kind)
    &&& forall|line: int| #[trigger] merged_kind(input, line) is Some ==> exists|i: int| 0 <= i < out.len() && out[i].line == line
}

impl ExternalChanges {
    pub open spec fn view(&self) -> ExternalChangesView {
        ExternalChangesView {
            position: self.history_position,
            added: self.added_ranges@,
            changed: self.changed_ranges@,
            markers: self.markers@,
        }
    }

    pub fn new() -> (res: ExternalChanges)
        ensures
            res.view() == (ExternalChangesView {
                position: None,
                added: Seq::empty(),
                changed: Seq::empty(),
                markers: Seq::empty(),
            }),
    {
        ExternalChanges {
            history_position: None,
            added_ranges: Vec::new(),
            changed_ranges: Vec::new(),
            markers: Vec::new(),
        }
    }

    pub fn clear(&mut self)
        ensures
            final(self).view() == ExternalChanges::new_view(),
    {
        *self = ExternalChanges::new();
    }

    pub open spec fn new_view() -> ExternalChangesView {
        ExternalChangesView {
            position: None,
            added: Seq::empty(),
            changed: Seq::empty(),
            markers: Seq::empty(),
        }
    }

    pub open spec fn is_empty_spec(&self) -> bool {
        self.added_ranges@.len() == 0 && self.changed_ranges@.len() == 0 && self.markers@.len() == 0
    }

    pub fn is_empty(&self) -> (res: bool)
        ensures
            res == self.is_empty_spec(),
    {
        self.added_ranges.len() == 0 && self.changed_ranges.len() == 0 && self.markers.len() == 0
    }

    /// The marks, if they describe exactly `history_position` and are not empty.
    pub fn visible(&self, history_position: u64) -> (res: Option<&ExternalChanges>)
        ensures
            res is Some <==> (self.history_position == Some(history_position) && !self.is_empty_spec()),
            res matches Some(r) ==> r == self,
    {
        let bound = match self.history_position {
            Some(p) => p == history_position,
            None => false,
        };
        if bound && !self.is_empty() {
            Some(self)
        } else {
            None
        }
    }

    /// Any other history position (a local edit, undo, or redo) invalidates the marks.
    pub fn reconcile(&mut self, history_position: u64)
        ensures
            (old(self).history_position is Some && old(self).history_position != Some(history_position))
                ==> final(self).view() == ExternalChanges::new_view(),
            !(old(self).history_position is Some && old(self).history_position != Some(
                history_position,
            )) ==> final(self).view() == old(self).view(),
    {
        let stale = match self.history_position {
            Some(p) => p != history_position,
            None => false,
        };
        if stale {
            self.clear();
        }
    }

    fn mark_line(&mut self, line: usize, kind: ChangeKind)
        ensures
            final(self).view() == with_marker(old(self).view(), line as int, kind),
    {
        self.markers.push(LineMarker { line, kind });
    }

    fn add_range(&mut self, row: usize, start: usize, end: usize, kind: ChangeKind)
        ensures
            final(self).view() == with_range(old(self).view(), row as int, start as int, end as int, kind),
    {
        self.mark_line(row, kind);
        if start >= end {
            return ;
        }
        let range = ChangedRange { start: Cursor { row, col: start }, end: Cursor { row, col: end } };
        match kind {
            ChangeKind::Added => self.added_ranges.push(range),
            ChangeKind::Changed => self.changed_ranges.push(range),
            ChangeKind::Deleted => {},
        }
    }

    /// Orders the ranges, merges markers per line, and binds the result to `history_position`.
    fn finish(self, history_position: u64) -> (res: ExternalChanges)
        ensures
            finished(res.view(), self.view(), history_position),
    {
        let added = sort_ranges(&self.added_ranges);
        let changed = sort_ranges(&self.changed_ranges);
        let markers = merge_markers(&self.markers);
        ExternalChanges {
            history_position: Some(history_position),
            added_ranges: added,
            changed_ranges: changed,
            markers,
        }
    }
}

impl DiffOutcome {
    /// The recorded changes, or none when the comparison was skipped.
    pub fn into_changes(self) -> (res: ExternalChanges)
        ensures
            (self matches DiffOutcome::Compared(c) ==> res.view() == c.view()),
            (self is Skipped ==> res.view() == ExternalChanges::new_view()),
    {
        match self {
            DiffOutcome::Compared(changes) => changes,
            DiffOutcome::Skipped(_) => ExternalChanges::new(),
        }
    }
}

pub fn merge_kind(left: ChangeKind, right: ChangeKind) -> (res: ChangeKind)
    ensures
        res == merge_kind_spec(left, right),
{
    if left == right {
        left
    } else {
        ChangeKind::Changed
    }
}

spec fn range_le(a: ChangedRange, b: ChangedRange) -> bool {
    a.start.row < b.start.row || (a.start.row == b.start.row && a.start.col <= b.start.col)
}

/// A stable ordering of ranges by start position.
fn sort_ranges(rs: &Vec<ChangedRange>) -> (res: Vec<ChangedRange>)
    ensures
        ranges_sorted(res@),
        res@.to_multiset() == rs@.to_multiset(),
{
    broadcast use vstd::seq_lib::to_multiset_insert, vstd::seq_lib::to_multiset_build;

    let mut out: Vec<ChangedRange> = Vec::new();
    let mut i: usize = 0;
    proof {
        assert(rs@.take(0) =~= Seq::<ChangedRange>::empty());
    }
    while i < rs.len()
        invariant
            0 <= i <= rs@.len(),
            ranges_sorted(out@),
            out@.to_multiset() == rs@.take(i as int).to_multiset(),
        decreases rs@.len() - i,
    {
        let r = rs[i];
        let mut pos: usize = out.len();
        while pos > 0 && !range_before_eq(&out[pos - 1], &r)
            invariant
                0 <= pos <= out@.len(),
                ranges_sorted(out@),
                forall|k: int| pos <= k < out@.len() ==> !range_le(#[trigger] out@[k], r),
            decreases pos,
        {
            pos -= 1;
        }
        let ghost before = out@;
        out.insert(pos, r);
        proof {
            assert(rs@.take(i + 1) =~= rs@.take(i as int).push(r));
            assert(out@ == before.insert(pos as int, r));
            vstd::seq_lib::to_multiset_insert(before, pos as int, r);
            vstd::seq_lib::to_multiset_build(rs@.take(i as int), r);
            assert forall|a: int, b: int| 0 <= a < b < out@.len() implies (out@[a].start.row
                < out@[b].start.row || (out@[a].start.row == out@[b].start.row && out@[a].start.col
                <= out@[b].start.col)) by {
                if a < pos && b == pos {
                    assert(range_le(before[pos - 1], r) || pos == 0);
                    if (pos as int) - 1 != a {
                        assert(range_le(before[a], before[pos - 1]));
                    }
                } else if a == pos && b > pos {
                    assert(out@[b] == before[b - 1]);
                    assert(!range_le(before[b - 1], r));
                }
            }
        }
        i += 1;
    }
    proof {
        assert(rs@.take(rs@.len() as int) =~= rs@);
    }
    out
}

fn range_before_eq(a: &ChangedRange, b: &ChangedRange) -> (res: bool)
    ensures
        res == range_le(*a, *b),
{
    a.start.row < b.start.row || (a.start.row == b.start.row && a.start.col <= b.start.col)
}

/// One marker per marked line, in line order, with the merged kind.
#[verifier::spinoff_prover]
#[verifier::rlimit(60)]
fn merge_markers(ms: &Vec<LineMarker>) -> (res: Vec<LineMarker>)
    ensures
        markers_merged(res@, ms@),
{
    let mut out: Vec<LineMarker> = Vec::new();
    let mut i: usize = 0;
    while i < ms.len()
        invariant
            0 <= i <= ms@.len(),
            markers_merged(out@, ms@.take(i as int)),
        decreases ms@.len() - i,
    {
        let m = ms[i];
        let ghost processed = ms@.take(i as int);
        proof {
            assert(ms@.take(i + 1).drop_last() =~= processed);
            assert(ms@.take(i + 1).last() == m);
        }
        let mut pos: usize = 0;
        while pos < out.len() && out[pos].line < m.line
            invariant
                0 <= pos <= out@.len(),
                forall|k: int| 0 <= k < pos ==> #[trigger] out@[k].line < m.line,
            decreases out@.len() - pos,
        {
            pos += 1;
        }
        let ghost before = out@;
        if pos < out.len() && out[pos].line == m.line {
            let merged = LineMarker { line: m.line, kind: merge_kind(out[pos].kind, m.kind) };
            out.set(pos, merged);
            proof {
                let now = ms@.take(i + 1);
                assert forall|k: int| 0 <= k < out@.len() implies merged_kind(now, #[trigger] out@[k].line as int)
                    == Some(out@[k].kind) by {
                    if k != pos {
                        assert(before[k].line != m.line);
                        assert(merged_kind(processed, before[k].line as int) == Some(before[k].kind));
                    }
                }
                assert forall|line: int| #[trigger] merged_kind(now, line) is Some implies exists|k: int|
                    0 <= k < out@.len() && out@[k].line == line by {
                    if line == m.line {
                        assert(out@[pos as int].line == line);
                    } else {
                        assert(merged_kind(processed, line) is Some);
                        let k = choose|k: int| 0 <= k < before.len() && before[k].line == line;
                        assert(out@[k].line == line);
                    }
                }
            }
        } else {
            out.insert(pos, m);
            proof {
                let now = ms@.take(i + 1);
                assert(merged_kind(processed, m.line as int) is None) by {
                    if merged_kind(processed, m.line as int) is Some {
                        let k = choose|k: int| 0 <= k < before.len() && before[k].line == m.line;
                        if k < pos {
                        } else {
                            assert(before[pos as int].line <= before[k].line);
                        }
                    }
                }
                assert forall|a: int, b: int| 0 <= a < b < out@.len() implies out@[a].line
                    < out@[b].line by {
                    if b == pos {
                    } else if a == pos {
                        assert(out@[b] == before[b - 1]);
                        assert(before[pos as int].line > m.line || b - 1 > pos);
                        if b - 1 > pos {
                            assert(before[pos as int].line < before[b - 1].line);
                        }
                    } else if a > pos {
                        assert(out@[a] == before[a - 1]);
                        assert(out@[b] == before[b - 1]);
                    } else if b > pos {
                        assert(out@[b] == before[b - 1]);
                    }
                }
                assert forall|k: int| 0 <= k < out@.len() implies merged_kind(now, #[trigger] out@[k].line as int)
                    == Some(out@[k].kind) by {
                    if k < pos {
                        assert(out@[k] == before[k]);
                        assert(merged_kind(processed, before[k].line as int) == Some(before[k].kind));
                    } else if k > pos {
                        assert(out@[k] == before[k - 1]);
                        assert(merged_kind(processed, before[k - 1].line as int) == Some(before[k - 1].kind));
                    }
                }
                assert forall|line: int| #[trigger] merged_kind(now, line) is Some implies exists|k: int|
                    0 <= k < out@.len() && out@[k].line == line by {
                    if line == m.line {
                        assert(out@[pos as int].line == line);
                    } else {
                        assert(merged_kind(processed, line) is Some);
                        let k = choose|k: int| 0 <= k < before.len() && before[k].line == line;
                        if k < pos {
                            assert(out@[k].line == line);
                        } else {
                            assert(out@[k + 1].line == line);
                        }
                    }
                }
            }
        }
        i += 1;
    }
    proof {
        assert(ms@.take(ms@.len() as int) =~= ms@);
    }
    out
}

/// Whether `s` encodes to more than `limit` UTF-8 bytes.
fn exceeds_utf8(s: &Vec<char>, limit: u64) -> (res: bool)
    ensures
        res == (utf8_len(s@) > limit),
{
    let mut total: u64 = 0;
    let mut i: usize = 0;
    while i < s.len()
        invariant
            0 <= i <= s@.len(),
            total == utf8_len(s@.take(i as int)),
            total <= limit,
        decreases s@.len() - i,
    {
        let c = s[i];
        let n: u64 = if (c as u32) < 0x80 {
            1
        } else if (c as u32) < 0x800 {
            2
        } else if (c as u32) < 0x10000 {
            3
        } else {
            4
        };
        proof {
            assert(s@.take(i + 1).drop_last() =~= s@.take(i as int));
        }
        if n > limit - total {
            proof {
                lemma_utf8_len_prefix_monotone(s@, i + 1);
            }
            return true;
        }
        total = total + n;
        i += 1;
    }
    proof {
        assert(s@.take(s@.len() as int) =~= s@);
    }
    false
}

proof fn lemma_utf8_len_prefix_monotone(s: Seq<char>, k: int)
    requires
        0 <= k <= s.len(),
    ensures
        utf8_len(s.take(k)) <= utf8_len(s),
    decreases s.len() - k,
{
    if k < s.len() {
        lemma_utf8_len_prefix_monotone(s, k + 1);
        assert(s.take(k + 1).drop_last() =~= s.take(k));
    } else {
        assert(s.take(k) =~= s);
    }
}

/// The extended grapheme clusters of `s` (unicode-segmentation's
/// `graphemes(s, true)`): consecutive non-empty slices that together spell `s`.
#[verifier::external_body]
pub(crate) fn graphemes_of(s: &Vec<char>) -> (res: Vec<Vec<char>>)
    ensures
        view_lines(res@) == extended_graphemes(s@),
        concat_all(view_lines(res@)) == s@,
        forall|i: int| 0 <= i < res@.len() ==> #[trigger] res@[i]@.len() > 0,
{
    let text = String::from_iter(s.iter());
    UnicodeSegmentation::graphemes(text.as_str(), true).map(|g| g.chars().collect()).collect()
}

/// Number of leading pieces the two lists share.
fn common_prefix(go: &Vec<Vec<char>>, gn: &Vec<Vec<char>>) -> (res: usize)
    ensures
        res == prefix_len(view_lines(go@), view_lines(gn@)),
        res <= go@.len(),
        res <= gn@.len(),
{
    let ghost a = view_lines(go@);
    let ghost b = view_lines(gn@);
    let mut prefix: usize = 0;
    proof {
        assert(a.skip(0) =~= a);
        assert(b.skip(0) =~= b);
    }
    while prefix < go.len() && prefix < gn.len() && crate::buffer::chars_equal(&go[prefix], &gn[prefix])
        invariant
            a == view_lines(go@),
            b == view_lines(gn@),
            0 <= prefix <= a.len(),
            prefix <= b.len(),
            prefix_len(a, b) == prefix + prefix_len(a.skip(prefix as int), b.skip(prefix as int)),
        decreases a.len() - prefix,
    {
        proof {
            assert(a.skip(prefix as int).drop_first() =~= a.skip(prefix + 1));
            assert(b.skip(prefix as int).drop_first() =~= b.skip(prefix + 1));
            assert(a.skip(prefix as int)[0] == a[prefix as int]);
            assert(b.skip(prefix as int)[0] == b[prefix as int]);
        }
        prefix += 1;
    }
    proof {
        if prefix < a.len() && prefix < b.len() {
            assert(a.skip(prefix as int)[0] == a[prefix as int]);
            assert(b.skip(prefix as int)[0] == b[prefix as int]);
        }
        assert(prefix_len(a.skip(prefix as int), b.skip(prefix as int)) == 0);
    }
    prefix
}

/// Number of trailing pieces the two lists share after their first `prefix` pieces.
fn common_suffix(go: &Vec<Vec<char>>, gn: &Vec<Vec<char>>, prefix: usize) -> (res: usize)
    requires
        prefix <= go@.len(),
        prefix <= gn@.len(),
    ensures
        res == suffix_len(view_lines(go@).skip(prefix as int), view_lines(gn@).skip(prefix as int)),
        prefix + res <= go@.len(),
        prefix + res <= gn@.len(),
{
    let ghost a = view_lines(go@);
    let ghost b = view_lines(gn@);
    let mut old_end: usize = go.len();
    let mut new_end: usize = gn.len();
    let ghost sa = a.skip(prefix as int);
    let ghost sb = b.skip(prefix as int);
    proof {
        assert(sa.take(old_end - prefix) =~= sa);
        assert(sb.take(new_end - prefix) =~= sb);
    }
    while old_end > prefix && new_end > prefix && crate::buffer::chars_equal(&go[old_end - 1], &gn[new_end - 1])
        invariant
            a == view_lines(go@),
            b == view_lines(gn@),
            sa == a.skip(prefix as int),
            sb == b.skip(prefix as int),
            prefix <= old_end <= a.len(),
            prefix <= new_end <= b.len(),
            a.len() - old_end == b.len() - new_end,
            suffix_len(sa, sb) == (a.len() - old_end) + suffix_len(
                sa.take(old_end - prefix),
                sb.take(new_end - prefix),
            ),
        decreases old_end,
    {
        proof {
            let ta = sa.take(old_end - prefix);
            let tb = sb.take(new_end - prefix);
            assert(ta.drop_last() =~= sa.take(old_end - prefix - 1));
            assert(tb.drop_last() =~= sb.take(new_end - prefix - 1));
            assert(ta.last() == a[old_end - 1]);
            assert(tb.last() == b[new_end - 1]);
        }
        old_end -= 1;
        new_end -= 1;
    }
    proof {
        let ta = sa.take(old_end - prefix);
        let tb = sb.take(new_end - prefix);
        if old_end > prefix && new_end > prefix {
            assert(ta.last() == a[old_end - 1]);
            assert(tb.last() == b[new_end - 1]);
        }
        assert(suffix_len(ta, tb) == 0);
    }
    go.len() - old_end
}

/// Compares one old line with the new line at `row`, by whole grapheme clusters.
fn compare_line(before: &Vec<char>, new: &Vec<char>, row: usize, changes: &mut ExternalChanges)
    ensures
        final(changes).view() == line_change(old(changes).view(), before@, new@, row as int),
{
    let old = before;
    if crate::buffer::chars_equal(old, new) {
        return ;
    }
    if exceeds_utf8(old, MAX_GRAPHEME_LINE_BYTES as u64) || exceeds_utf8(new, MAX_GRAPHEME_LINE_BYTES as u64) {
        changes.add_range(row, 0, new.len(), ChangeKind::Changed);
        return ;
    }
    let go = graphemes_of(old);
    let gn = graphemes_of(new);
    let _new_len = new.len();
    let ghost b = view_lines(gn@);
    let prefix = common_prefix(&go, &gn);
    let suffix = common_suffix(&go, &gn, prefix);
    let old_end = go.len() - suffix;
    let new_end = gn.len() - suffix;
    proof {
        lemma_concat_split(b, 0, prefix as int);
        lemma_concat_split(b, prefix as int, new_end as int);
        lemma_concat_split(b, new_end as int, b.len() as int);
        lemma_concat_split(b, 0, b.len() as int);
        assert(b.take(b.len() as int) =~= b);
        assert(b.subrange(0, b.len() as int) =~= b);
        assert(b.subrange(0, prefix as int) =~= b.take(prefix as int));
        assert(b.subrange(0, new_end as int) =~= b.take(new_end as int));
    }
    let start = total_len(&gn, 0, prefix);
    let middle = total_len(&gn, prefix, new_end);
    let end = start + middle;
    let old_changed = old_end > prefix;
    let new_changed = new_end > prefix;
    if !old_changed && new_changed {
        changes.add_range(row, start, end, ChangeKind::Added);
    } else if old_changed && new_changed {
        changes.add_range(row, start, end, ChangeKind::Changed);
    } else if old_changed && !new_changed {
        changes.mark_line(row, ChangeKind::Deleted);
    }
}

/// The concatenated pieces from `from` to `to` have this length.
proof fn lemma_concat_split(gs: Seq<Seq<char>>, from: int, to: int)
    requires
        0 <= from <= to <= gs.len(),
    ensures
        concat_all(gs.take(to)).len() == concat_all(gs.take(from)).len() + concat_all(gs.subrange(from, to)).len(),
    decreases to - from,
{
    if from < to {
        lemma_concat_split(gs, from, to - 1);
        assert(gs.take(to).drop_last() =~= gs.take(to - 1));
        assert(gs.subrange(from, to).drop_last() =~= gs.subrange(from, to - 1));
    } else {
        assert(gs.subrange(from, to) =~= Seq::<Seq<char>>::empty());
    }
}

/// Total scalars in pieces `from..to`.
fn total_len(gs: &Vec<Vec<char>>, from: usize, to: usize) -> (res: usize)
    requires
        from <= to <= gs@.len(),
        concat_all(view_lines(gs@)).len() <= usize::MAX,
    ensures
        res == concat_all(view_lines(gs@).subrange(from as int, to as int)).len(),
{
    let ghost g = view_lines(gs@);
    let mut total: usize = 0;
    let mut k: usize = from;
    proof {
        assert(g.subrange(from as int, from as int) =~= Seq::<Seq<char>>::empty());
    }
    while k < to
        invariant
            g == view_lines(gs@),
            from <= k <= to <= g.len(),
            concat_all(g).len() <= usize::MAX,
            total == concat_all(g.subrange(from as int, k as int)).len(),
        decreases to - k,
    {
        proof {
            assert(g.subrange(from as int, k + 1).drop_last() =~= g.subrange(from as int, k as int));
            lemma_concat_split(g, from as int, k + 1);
            lemma_concat_split(g, 0, g.len() as int);
            lemma_concat_split(g, k + 1, g.len() as int);
            assert(g.take(g.len() as int) =~= g);
            assert(g.subrange(0, g.len() as int) =~= g);
            lemma_concat_split(g, 0, from as int);
            assert(g.subrange(0, from as int) =~= g.take(from as int));
            assert(g.subrange(0, k + 1) =~= g.take(k + 1));
            lemma_concat_split(g, 0, k + 1);
        }
        total = total + gs[k].len();
        k += 1;
    }
    total
}


/// Extending the equal run after the last block by `k` equal lines keeps the cover.
proof fn lemma_extend_gap(old: Seq<Seq<char>>, new: Seq<Seq<char>>, bs: Seq<ChangedBlock>, oc: int, nc: int, k: int)
    requires
        covers_upto(old, new, bs, oc, nc),
        aligned(old, new, oc, nc, k),
    ensures
        covers_upto(old, new, bs, oc + k, nc + k),
{
    let go = gap_old(bs, bs.len() as int);
    let gn = gap_new(bs, bs.len() as int);
    assert(old.subrange(go, oc + k) =~= old.subrange(go, oc) + old.subrange(oc, oc + k));
    assert(new.subrange(gn, nc + k) =~= new.subrange(gn, nc) + new.subrange(nc, nc + k));
}

/// Appending a non-empty block that starts where the equal run ends keeps the cover.
proof fn lemma_push_block(old: Seq<Seq<char>>, new: Seq<Seq<char>>, bs: Seq<ChangedBlock>, b: ChangedBlock)
    requires
        covers_upto(old, new, bs, b.old_start as int, b.new_start as int),
        b.old_start <= b.old_end <= old.len(),
        b.new_start <= b.new_end <= new.len(),
        b.old_start < b.old_end || b.new_start < b.new_end,
    ensures
        covers_upto(old, new, bs.push(b), b.old_end as int, b.new_end as int),
{
    let nb = bs.push(b);
    assert forall|i: int| 0 <= i < nb.len() implies #[trigger] block_ok(old, new, nb, i) by {
        if i < bs.len() {
            assert(block_ok(old, new, bs, i));
            assert(nb[i] == bs[i]);
            assert(gap_old(nb, i) == gap_old(bs, i));
            assert(gap_new(nb, i) == gap_new(bs, i));
        } else {
            assert(gap_old(nb, i) == gap_old(bs, bs.len() as int));
            assert(gap_new(nb, i) == gap_new(bs, bs.len() as int));
        }
    }
    assert(old.subrange(b.old_end as int, b.old_end as int) =~= new.subrange(b.new_end as int, b.new_end as int));
}

/// Appends the block `old_start..old_end` / `new_start..new_end` unless both sides are empty.
fn push_block(blocks: &mut Vec<ChangedBlock>, old_start: usize, old_end: usize, new_start: usize, new_end: usize)
    ensures
        (old_start != old_end || new_start != new_end) ==> final(blocks)@ == old(blocks)@.push(
            ChangedBlock { old_start, old_end, new_start, new_end },
        ),
        !(old_start != old_end || new_start != new_end) ==> final(blocks)@ == old(blocks)@,
{
    if old_start != old_end || new_start != new_end {
        blocks.push(ChangedBlock { old_start, old_end, new_start, new_end });
    }
}

/// `i, j` pair a line that occurs exactly once in old lines `ol..oh` and exactly
/// once in new lines `nl..nh`.
pub open spec fn unique_pair(
    old: Seq<Seq<char>>,
    new: Seq<Seq<char>>,
    ol: int,
    oh: int,
    nl: int,
    nh: int,
    i: int,
    j: int,
) -> bool {
    &&& ol <= i < oh
    &&& nl <= j < nh
    &&& old[i] == new[j]
    &&& occurrences(old.subrange(ol, oh), old[i]) == 1
    &&& occurrences(new.subrange(nl, nh), new[j]) == 1
}

/// Both coordinates strictly increase along `ps`.
pub open spec fn pairs_increasing(ps: Seq<(usize, usize)>) -> bool {
    forall|a: int, b: int| 0 <= a < b < ps.len() ==> ps[a].0 < ps[b].0 && ps[a].1 < ps[b].1
}

/// How often `target` occurs among lines `lo..hi`.
fn count_line(lines: &Vec<Vec<char>>, lo: usize, hi: usize, target: &Vec<char>) -> (res: usize)
    requires
        lo <= hi <= lines@.len(),
    ensures
        res == occurrences(view_lines(lines@).subrange(lo as int, hi as int), target@),
{
    let ghost ls = view_lines(lines@);
    let mut count: usize = 0;
    let mut k: usize = lo;
    proof {
        assert(ls.subrange(lo as int, lo as int) =~= Seq::<Seq<char>>::empty());
    }
    while k < hi
        invariant
            ls == view_lines(lines@),
            lo <= k <= hi <= ls.len(),
            count == occurrences(ls.subrange(lo as int, k as int), target@),
            count <= k - lo,
        decreases hi - k,
    {
        proof {
            assert(ls.subrange(lo as int, k + 1).drop_last() =~= ls.subrange(lo as int, k as int));
        }
        if crate::buffer::chars_equal(&lines[k], target) {
            count += 1;
        }
        k += 1;
    }
    count
}

/// The first index in `lo..hi` whose line equals `target`.
fn find_line(lines: &Vec<Vec<char>>, lo: usize, hi: usize, target: &Vec<char>) -> (res: Option<usize>)
    requires
        lo <= hi <= lines@.len(),
    ensures
        res matches Some(j) ==> lo <= j < hi && lines@[j as int]@ == target@,
        res is None ==> forall|j: int| lo <= j < hi ==> lines@[j]@ != target@,
{
    let mut k: usize = lo;
    while k < hi
        invariant
            lo <= k <= hi <= lines@.len(),
            forall|j: int| lo <= j < k ==> lines@[j]@ != target@,
        decreases hi - k,
    {
        if crate::buffer::chars_equal(&lines[k], target) {
            return Some(k);
        }
        k += 1;
    }
    None
}

/// The lines unique to both ranges, paired, in old order.
/// A value at position `a` occurs at least once.
proof fn lemma_occurs_at<T>(s: Seq<T>, x: T, a: int)
    requires
        0 <= a < s.len(),
        s[a] == x,
    ensures
        occurrences(s, x) >= 1,
    decreases s.len(),
{
    if a < s.len() - 1 {
        lemma_occurs_at(s.drop_last(), x, a);
    }
}

/// A value at two positions occurs at least twice.
proof fn lemma_occurs_twice<T>(s: Seq<T>, x: T, a: int, b: int)
    requires
        0 <= a < b < s.len(),
        s[a] == x,
        s[b] == x,
    ensures
        occurrences(s, x) >= 2,
    decreases s.len(),
{
    if b < s.len() - 1 {
        lemma_occurs_twice(s.drop_last(), x, a, b);
    } else {
        lemma_occurs_at(s.drop_last(), x, a);
    }
}

/// A line that occurs once in a range sits at one position of it.
proof fn lemma_unique_position(lines: Seq<Seq<char>>, lo: int, hi: int, j1: int, j2: int)
    requires
        0 <= lo <= j1 < hi,
        lo <= j2 < hi,
        hi <= lines.len(),
        lines[j1] == lines[j2],
        occurrences(lines.subrange(lo, hi), lines[j1]) == 1,
    ensures
        j1 == j2,
{
    let t = lines.subrange(lo, hi);
    if j1 < j2 {
        assert(t[j1 - lo] == lines[j1] && t[j2 - lo] == lines[j2]);
        lemma_occurs_twice(t, lines[j1], j1 - lo, j2 - lo);
    } else if j2 < j1 {
        assert(t[j1 - lo] == lines[j1] && t[j2 - lo] == lines[j2]);
        lemma_occurs_twice(t, lines[j1], j2 - lo, j1 - lo);
    }
}

fn unique_candidates(old: &Vec<Vec<char>>, new: &Vec<Vec<char>>, ol: usize, oh: usize, nl: usize, nh: usize) -> (res: Vec<(usize, usize)>)
    requires
        ol <= oh <= old@.len(),
        nl <= nh <= new@.len(),
    ensures
        forall|k: int| 0 <= k < res@.len() ==> unique_pair(
            view_lines(old@),
            view_lines(new@),
            ol as int,
            oh as int,
            nl as int,
            nh as int,
            #[trigger] res@[k].0 as int,
            res@[k].1 as int,
        ),
        forall|a: int, b: int| 0 <= a < b < res@.len() ==> res@[a].0 < res@[b].0,
        forall|i: int, j: int| #[trigger] unique_pair(view_lines(old@), view_lines(new@), ol as int, oh as int, nl as int, nh as int, i, j)
            ==> exists|m: int| 0 <= m < res@.len() && res@[m].0 == i && res@[m].1 == j,
{
    let ghost o = view_lines(old@);
    let ghost n = view_lines(new@);
    let mut out: Vec<(usize, usize)> = Vec::new();
    let mut i: usize = ol;
    while i < oh
        invariant
            o == view_lines(old@),
            n == view_lines(new@),
            ol <= i <= oh <= o.len(),
            nl <= nh <= n.len(),
            forall|k: int| 0 <= k < out@.len() ==> unique_pair(o, n, ol as int, oh as int, nl as int, nh as int, #[trigger] out@[k].0 as int, out@[k].1 as int),
            forall|k: int| 0 <= k < out@.len() ==> #[trigger] out@[k].0 < i,
            forall|a: int, b: int| 0 <= a < b < out@.len() ==> out@[a].0 < out@[b].0,
            forall|i2: int, j: int| i2 < i && #[trigger] unique_pair(o, n, ol as int, oh as int, nl as int, nh as int, i2, j)
                ==> exists|m: int| 0 <= m < out@.len() && out@[m].0 == i2 && out@[m].1 == j,
        decreases oh - i,
    {
        let line = &old[i];
        let ghost before = out@;
        if count_line(old, ol, oh, line) == 1 {
            match find_line(new, nl, nh, line) {
                Some(j) => {
                    if count_line(new, nl, nh, line) == 1 {
                        out.push((i, j));
                        proof {
                            assert(o[i as int] == line@);
                            assert(n[j as int] == new@[j as int]@);
                            assert forall|j2: int| #[trigger] unique_pair(o, n, ol as int, oh as int, nl as int, nh as int, i as int, j2)
                                implies j2 == j by {
                                lemma_unique_position(n, nl as int, nh as int, j as int, j2);
                            }
                            assert(out@[out@.len() - 1] == (i, j));
                        }
                    }
                },
                None => {
                    proof {
                        assert forall|j2: int| !#[trigger] unique_pair(o, n, ol as int, oh as int, nl as int, nh as int, i as int, j2) by {
                            if nl <= j2 < nh {
                                assert(new@[j2]@ != line@);
                                assert(n[j2] == new@[j2]@);
                            }
                        }
                    }
                },
            }
        }
        proof {
            assert forall|i2: int, j: int| i2 < i + 1 && #[trigger] unique_pair(o, n, ol as int, oh as int, nl as int, nh as int, i2, j)
                implies exists|m: int| 0 <= m < out@.len() && out@[m].0 == i2 && out@[m].1 == j by {
                if i2 < i {
                    let m = choose|m: int| 0 <= m < before.len() && before[m].0 == i2 && before[m].1 == j;
                    assert(out@[m] == before[m]);
                } else {
                    assert(o[i as int] == line@);
                    assert(out@.len() == before.len() + 1);
                    assert(out@[before.len() as int].0 == i2 && out@[before.len() as int].1 == j);
                }
            }
        }
        i += 1;
    }
    out
}

/// `s` picks pairs at increasing positions whose second coordinates increase.
pub open spec fn increasing_choice(pairs: Seq<(usize, usize)>, s: Seq<int>) -> bool {
    &&& forall|k: int| 0 <= k < s.len() ==> 0 <= #[trigger] s[k] < pairs.len()
    &&& forall|a: int, b: int| 0 <= a < b < s.len() ==> s[a] < s[b] && pairs[s[a]].1 < pairs[s[b]].1
}

/// No increasing choice that ends at `s.last()` is longer than the length
/// recorded for its last pair, when every smaller earlier pair has a
/// shorter recorded length.
proof fn lemma_choice_bounded(pairs: Seq<(usize, usize)>, len_at: Seq<int>, s: Seq<int>)
    requires
        increasing_choice(pairs, s),
        s.len() > 0,
        len_at.len() == pairs.len(),
        forall|i: int| 0 <= i < len_at.len() ==> #[trigger] len_at[i] >= 1,
        forall|j: int, i: int| 0 <= j < i < len_at.len() && pairs[j].1 < pairs[i].1 ==> #[trigger] len_at[j] < #[trigger] len_at[i],
    ensures
        s.len() <= len_at[s.last()],
    decreases s.len(),
{
    if s.len() > 1 {
        let t = s.drop_last();
        assert(increasing_choice(pairs, t)) by {
            assert forall|k: int| 0 <= k < t.len() implies 0 <= #[trigger] t[k] < pairs.len() by {
                assert(t[k] == s[k]);
            }
            assert forall|a: int, b: int| 0 <= a < b < t.len() implies t[a] < t[b] && pairs[t[a]].1 < pairs[t[b]].1 by {
                assert(t[a] == s[a] && t[b] == s[b]);
            }
        }
        lemma_choice_bounded(pairs, len_at, t);
        assert(t.last() == s[s.len() - 2]);
        assert(s[s.len() - 2] < s[s.len() - 1] && pairs[s[s.len() - 2]].1 < pairs[s[s.len() - 1]].1);
        assert(len_at[t.last()] < len_at[s.last()]);
    } else {
        assert(0 <= s[0] < pairs.len());
    }
}

/// The pairs ordered by their first coordinates, which are all different.
fn sort_by_first(pairs: &Vec<(usize, usize)>) -> (res: Vec<(usize, usize)>)
    requires
        forall|a: int, b: int| 0 <= a < pairs@.len() && 0 <= b < pairs@.len() && a != b ==> pairs@[a].0 != pairs@[b].0,
    ensures
        forall|a: int, b: int| 0 <= a < b < res@.len() ==> res@[a].0 < res@[b].0,
        forall|y: (usize, usize)| res@.contains(y) <==> pairs@.contains(y),
{
    let mut out: Vec<(usize, usize)> = Vec::new();
    let mut i: usize = 0;
    while i < pairs.len()
        invariant
            0 <= i <= pairs@.len(),
            forall|a: int, b: int| 0 <= a < pairs@.len() && 0 <= b < pairs@.len() && a != b ==> pairs@[a].0 != pairs@[b].0,
            forall|a: int, b: int| 0 <= a < b < out@.len() ==> out@[a].0 < out@[b].0,
            forall|y: (usize, usize)| out@.contains(y) <==> pairs@.take(i as int).contains(y),
        decreases pairs@.len() - i,
    {
        let x = pairs[i];
        let mut j: usize = 0;
        while j < out.len() && out[j].0 < x.0
            invariant
                0 <= j <= out@.len(),
                forall|k: int| 0 <= k < j ==> out@[k].0 < x.0,
            decreases out@.len() - j,
        {
            j += 1;
        }
        let ghost before = out@;
        proof {
            if j < before.len() {
                assert(before.contains(before[j as int]));
                assert(pairs@.take(i as int).contains(before[j as int]));
                let m = choose|m: int| 0 <= m < i && pairs@.take(i as int)[m] == before[j as int];
                assert(pairs@[m] == before[j as int]);
                assert(before[j as int].0 != x.0);
            }
        }
        out.insert(j, x);
        proof {
            before.insert_ensures(j as int, x);
            let after = out@;
            assert forall|a: int, b: int| 0 <= a < b < after.len() implies after[a].0 < after[b].0 by {
                if b < j {
                } else if b == j {
                } else if a < j {
                    assert(after[b] == before[b - 1]);
                } else if a == j {
                    assert(after[b] == before[b - 1]);
                    if b - 1 > j {
                        assert(before[j as int].0 < before[b - 1].0);
                    }
                } else {
                    assert(after[a] == before[a - 1] && after[b] == before[b - 1]);
                }
            }
            let taken = pairs@.take(i + 1);
            assert(taken =~= pairs@.take(i as int).push(x));
            assert forall|y: (usize, usize)| after.contains(y) <==> taken.contains(y) by {
                if after.contains(y) {
                    let k = choose|k: int| 0 <= k < after.len() && after[k] == y;
                    if k < j {
                        assert(before[k] == y);
                        assert(before.contains(y));
                    } else if k == j {
                        assert(taken[i as int] == y);
                    } else {
                        assert(before[k - 1] == y);
                        assert(before.contains(y));
                    }
                    if y != x {
                        assert(pairs@.take(i as int).contains(y));
                        let m = choose|m: int| 0 <= m < i && pairs@.take(i as int)[m] == y;
                        assert(taken[m] == y);
                    }
                }
                if taken.contains(y) {
                    let m = choose|m: int| 0 <= m < taken.len() && taken[m] == y;
                    if m == i {
                        assert(after[j as int] == y);
                    } else {
                        assert(pairs@.take(i as int)[m] == y);
                        assert(pairs@.take(i as int).contains(y));
                        assert(before.contains(y));
                        let k = choose|k: int| 0 <= k < before.len() && before[k] == y;
                        if k < j {
                            assert(after[k] == y);
                        } else {
                            assert(after[k + 1] == y);
                        }
                    }
                }
            }
        }
        i += 1;
    }
    proof {
        assert(pairs@.take(pairs@.len() as int) =~= pairs@);
    }
    out
}

/// A longest run of pairs that increase in both coordinates: the pairs are
/// ordered by their first coordinates and the longest increasing run of their
/// second coordinates is found by patience sorting.
fn longest_increasing_pairs(pairs: &Vec<(usize, usize)>) -> (res: Vec<(usize, usize)>)
    requires
        forall|a: int, b: int| 0 <= a < pairs@.len() && 0 <= b < pairs@.len() && a != b ==> pairs@[a].0 != pairs@[b].0,
    ensures
        forall|k: int| 0 <= k < res@.len() ==> pairs@.contains(#[trigger] res@[k]),
        pairs_increasing(res@),
        forall|t: Seq<(usize, usize)>| pairs_increasing(t) && (forall|k: int| 0 <= k < t.len() ==> pairs@.contains(
            #[trigger] t[k],
        )) ==> t.len() <= res@.len(),
{
    let sorted = sort_by_first(pairs);
    let res = longest_increasing_sorted(&sorted);
    proof {
        assert forall|k: int| 0 <= k < res@.len() implies pairs@.contains(#[trigger] res@[k]) by {
            assert(sorted@.contains(res@[k]));
        }
        assert forall|t: Seq<(usize, usize)>| pairs_increasing(t) && (forall|k: int| 0 <= k < t.len() ==> pairs@.contains(
            #[trigger] t[k],
        )) implies t.len() <= res@.len() by {
            let q = sorted@;
            let idx = Seq::new(t.len(), |k: int| choose|m: int| 0 <= m < q.len() && q[m] == t[k]);
            assert forall|k: int| 0 <= k < t.len() implies 0 <= #[trigger] idx[k] < q.len() && q[idx[k]] == t[k] by {
                assert(pairs@.contains(t[k]));
                assert(q.contains(t[k]));
            }
            assert forall|a: int, b: int| 0 <= a < b < idx.len() implies idx[a] < idx[b] && q[idx[a]].1 < q[idx[b]].1 by {
                assert(0 <= idx[a] < q.len() && q[idx[a]] == t[a]);
                assert(0 <= idx[b] < q.len() && q[idx[b]] == t[b]);
                assert(t[a].0 < t[b].0 && t[a].1 < t[b].1);
                if idx[a] >= idx[b] {
                    if idx[a] > idx[b] {
                        assert(q[idx[b]].0 < q[idx[a]].0);
                    }
                }
            }
            assert(increasing_choice(q, idx));
        }
    }
    res
}

/// A longest run of pairs whose second coordinates increase, found by patience
/// sorting; the pairs come in increasing first coordinate.
fn longest_increasing_sorted(pairs: &Vec<(usize, usize)>) -> (res: Vec<(usize, usize)>)
    requires
        forall|a: int, b: int| 0 <= a < b < pairs@.len() ==> pairs@[a].0 < pairs@[b].0,
    ensures
        forall|k: int| 0 <= k < res@.len() ==> pairs@.contains(#[trigger] res@[k]),
        pairs_increasing(res@),
        forall|s: Seq<int>| #[trigger] increasing_choice(pairs@, s) ==> s.len() <= res@.len(),
{
    let n = pairs.len();
    if n == 0 {
        proof {
            assert forall|s: Seq<int>| #[trigger] increasing_choice(pairs@, s) implies s.len() <= 0 by {
                if s.len() > 0 {
                    assert(0 <= s[0] < pairs@.len());
                }
            }
        }
        return Vec::new();
    }
    let mut tails: Vec<usize> = Vec::new();
    let mut previous: Vec<Option<usize>> = Vec::new();
    let ghost mut len_at: Seq<int> = Seq::empty();
    let mut index: usize = 0;
    while index < n
        invariant
            n == pairs@.len(),
            0 <= index <= n,
            previous@.len() == index,
            len_at.len() == index,
            forall|k: int| 0 <= k < tails@.len() ==> #[trigger] tails@[k] < index,
            forall|k: int| 0 <= k < tails@.len() ==> len_at[#[trigger] tails@[k] as int] == k + 1,
            forall|a: int, b: int| 0 <= a < b < tails@.len() ==> pairs@[tails@[a] as int].1 < pairs@[tails@[b] as int].1,
            forall|i: int| 0 <= i < index ==> 1 <= #[trigger] len_at[i] <= tails@.len(),
            forall|i: int| 0 <= i < index ==> pairs@[tails@[#[trigger] len_at[i] - 1] as int].1 <= pairs@[i].1,
            forall|j: int, i: int| 0 <= j < i < index && pairs@[j].1 < pairs@[i].1 ==> #[trigger] len_at[j] < #[trigger] len_at[i],
            forall|i: int| 0 <= i < index ==> (#[trigger] previous@[i] matches Some(p) ==> p < i && pairs@[p as int].1 < pairs@[i].1
                && len_at[p as int] + 1 == len_at[i]),
            forall|i: int| 0 <= i < index ==> (#[trigger] previous@[i] is None <==> len_at[i] == 1),
            index > 0 ==> tails@.len() > 0,
        decreases n - index,
    {
        let value = pairs[index].1;
        let mut lo: usize = 0;
        let mut hi: usize = tails.len();
        while lo < hi
            invariant
                n == pairs@.len(),
                index < n,
                value == pairs@[index as int].1,
                0 <= lo <= hi <= tails@.len(),
                forall|k: int| 0 <= k < tails@.len() ==> #[trigger] tails@[k] < index,
                forall|a: int, b: int| 0 <= a < b < tails@.len() ==> pairs@[tails@[a] as int].1 < pairs@[tails@[b] as int].1,
                forall|k: int| 0 <= k < lo ==> pairs@[#[trigger] tails@[k] as int].1 < value,
                forall|k: int| hi <= k < tails@.len() ==> pairs@[#[trigger] tails@[k] as int].1 >= value,
            decreases hi - lo,
        {
            let mid = lo + (hi - lo) / 2;
            if pairs[tails[mid]].1 < value {
                lo = mid + 1;
            } else {
                hi = mid;
            }
        }
        let position = lo;
        if position > 0 {
            previous.push(Some(tails[position - 1]));
        } else {
            previous.push(None);
        }
        let ghost before = tails@;
        let ghost old_len = len_at;
        if position == tails.len() {
            tails.push(index);
        } else {
            tails.set(position, index);
        }
        proof {
            len_at = len_at.push(position + 1);
            assert forall|a: int, b: int| 0 <= a < b < tails@.len() implies pairs@[tails@[a] as int].1 < pairs@[tails@[b] as int].1 by {
                if b == position {
                    assert(pairs@[before[a] as int].1 < value);
                } else if a == position {
                    assert(pairs@[before[a] as int].1 >= value);
                    assert(pairs@[before[a] as int].1 < pairs@[before[b] as int].1);
                } else {
                    assert(pairs@[before[a] as int].1 < pairs@[before[b] as int].1);
                }
            }
            assert forall|k: int| 0 <= k < tails@.len() implies len_at[#[trigger] tails@[k] as int] == k + 1 by {
                if k != position {
                    assert(tails@[k] == before[k]);
                    assert(before[k] < index);
                    assert(len_at[before[k] as int] == old_len[before[k] as int]);
                }
            }
            assert forall|i: int| 0 <= i < index + 1 implies pairs@[tails@[#[trigger] len_at[i] - 1] as int].1 <= pairs@[i].1 by {
                if i < index {
                    assert(len_at[i] == old_len[i]);
                    if old_len[i] - 1 == position {
                        assert(pairs@[before[position as int] as int].1 >= value);
                        assert(pairs@[before[old_len[i] - 1] as int].1 <= pairs@[i].1);
                    } else {
                        assert(tails@[old_len[i] - 1] == before[old_len[i] - 1]);
                    }
                }
            }
            assert forall|j: int, i: int| 0 <= j < i < index + 1 && pairs@[j].1 < pairs@[i].1 implies #[trigger] len_at[j] < #[trigger] len_at[i] by {
                if i == index {
                    assert(len_at[j] == old_len[j]);
                    assert(pairs@[before[old_len[j] - 1] as int].1 <= pairs@[j].1);
                    if old_len[j] - 1 >= position {
                        assert(pairs@[before[old_len[j] - 1] as int].1 >= value);
                    }
                } else {
                    assert(len_at[j] == old_len[j] && len_at[i] == old_len[i]);
                }
            }
            assert forall|i: int| 0 <= i < index + 1 implies 1 <= #[trigger] len_at[i] <= tails@.len() by {
                if i < index {
                    assert(len_at[i] == old_len[i]);
                }
            }
            assert forall|i: int| 0 <= i < index + 1 implies (#[trigger] previous@[i] matches Some(p) ==> p < i && pairs@[p as int].1
                < pairs@[i].1 && len_at[p as int] + 1 == len_at[i]) by {
                if i == index && position > 0 {
                    assert(pairs@[before[position - 1] as int].1 < value);
                    assert(old_len[before[position - 1] as int] == position);
                } else if i < index {
                    assert(len_at[i] == old_len[i]);
                    if let Some(p) = previous@[i] {
                        assert(len_at[p as int] == old_len[p as int]);
                    }
                }
            }
            assert forall|i: int| 0 <= i < index + 1 implies (#[trigger] previous@[i] is None <==> len_at[i] == 1) by {
                if i < index {
                    assert(len_at[i] == old_len[i]);
                }
            }
        }
        index += 1;
    }
    let mut reversed: Vec<(usize, usize)> = Vec::new();
    let ghost mut origin: Seq<int> = Seq::empty();
    let mut cursor: Option<usize> = Some(tails[tails.len() - 1]);
    while cursor.is_some()
        invariant
            n == pairs@.len(),
            previous@.len() == n,
            len_at.len() == n,
            tails@.len() > 0,
            forall|i: int| 0 <= i < n ==> (#[trigger] previous@[i] matches Some(p) ==> p < i && pairs@[p as int].1 < pairs@[i].1
                && len_at[p as int] + 1 == len_at[i]),
            forall|i: int| 0 <= i < n ==> (#[trigger] previous@[i] is None <==> len_at[i] == 1),
            forall|a: int, b: int| 0 <= a < b < pairs@.len() ==> pairs@[a].0 < pairs@[b].0,
            cursor matches Some(c) ==> c < n && reversed@.len() + len_at[c as int] == tails@.len(),
            cursor is None ==> reversed@.len() == tails@.len(),
            cursor matches Some(c) ==> (reversed@.len() > 0 ==> pairs@[c as int].0 < reversed@.last().0 && pairs@[c as int].1 < reversed@.last().1),
            origin.len() == reversed@.len(),
            forall|k: int| 0 <= k < reversed@.len() ==> 0 <= #[trigger] origin[k] < n && reversed@[k] == pairs@[origin[k]],
            forall|a: int, b: int| 0 <= a < b < reversed@.len() ==> reversed@[b].0 < reversed@[a].0 && reversed@[b].1 < reversed@[a].1,
        decreases match cursor { Some(c) => c + 1, None => 0 },
    {
        let c = match cursor { Some(c) => c, None => 0 };
        reversed.push(pairs[c]);
        proof {
            origin = origin.push(c as int);
        }
        cursor = previous[c];
        proof {
            if let Some(p) = cursor {
                assert(previous@[c as int] matches Some(q) && q == p);
            }
        }
    }
    let mut selected: Vec<(usize, usize)> = Vec::new();
    let mut k: usize = reversed.len();
    while k > 0
        invariant
            0 <= k <= reversed@.len(),
            selected@.len() == reversed@.len() - k,
            forall|i: int| 0 <= i < selected@.len() ==> #[trigger] selected@[i] == reversed@[reversed@.len() - 1 - i],
            n == pairs@.len(),
            origin.len() == reversed@.len(),
            forall|j: int| 0 <= j < reversed@.len() ==> 0 <= #[trigger] origin[j] < n && reversed@[j] == pairs@[origin[j]],
            forall|a: int, b: int| 0 <= a < b < reversed@.len() ==> reversed@[b].0 < reversed@[a].0 && reversed@[b].1 < reversed@[a].1,
        decreases k,
    {
        k -= 1;
        selected.push(reversed[k]);
    }
    proof {
        assert forall|i: int| 0 <= i < selected@.len() implies pairs@.contains(#[trigger] selected@[i]) by {
            let j = reversed@.len() - 1 - i;
            assert(selected@[i] == reversed@[j]);
            assert(0 <= origin[j] < n && reversed@[j] == pairs@[origin[j]]);
        }
        assert forall|a: int, b: int| 0 <= a < b < selected@.len() implies selected@[a].0 < selected@[b].0 && selected@[a].1 < selected@[b].1 by {
            assert(selected@[a] == reversed@[reversed@.len() - 1 - a]);
            assert(selected@[b] == reversed@[reversed@.len() - 1 - b]);
        }
        assert forall|s: Seq<int>| #[trigger] increasing_choice(pairs@, s) implies s.len() <= selected@.len() by {
            if s.len() > 0 {
                lemma_choice_bounded(pairs@, len_at, s);
                assert(0 <= s.last() < n);
            }
        }
    }
    selected
}

/// An ordered chain of lines unique to both ranges: both positions increase.
pub open spec fn anchor_chain(
    old: Seq<Seq<char>>,
    new: Seq<Seq<char>>,
    ol: int,
    oh: int,
    nl: int,
    nh: int,
    c: Seq<(int, int)>,
) -> bool {
    &&& forall|k: int| 0 <= k < c.len() ==> #[trigger] unique_pair(old, new, ol, oh, nl, nh, c[k].0, c[k].1)
    &&& forall|a: int, b: int| 0 <= a < b < c.len() ==> c[a].0 < c[b].0 && c[a].1 < c[b].1
}

/// Pairs of lines unique to both ranges that stay in order, as anchors.
fn unique_anchors(old: &Vec<Vec<char>>, new: &Vec<Vec<char>>, ol: usize, oh: usize, nl: usize, nh: usize) -> (res: Vec<(usize, usize)>)
    requires
        ol <= oh <= old@.len(),
        nl <= nh <= new@.len(),
    ensures
        forall|k: int| 0 <= k < res@.len() ==> unique_pair(
            view_lines(old@),
            view_lines(new@),
            ol as int,
            oh as int,
            nl as int,
            nh as int,
            #[trigger] res@[k].0 as int,
            res@[k].1 as int,
        ),
        pairs_increasing(res@),
        forall|c: Seq<(int, int)>| #[trigger] anchor_chain(view_lines(old@), view_lines(new@), ol as int, oh as int, nl as int, nh as int, c)
            ==> c.len() <= res@.len(),
{
    let candidates = unique_candidates(old, new, ol, oh, nl, nh);
    proof {
        assert forall|a: int, b: int| 0 <= a < candidates@.len() && 0 <= b < candidates@.len() && a != b implies candidates@[a].0
            != candidates@[b].0 by {
            if a < b {
                assert(candidates@[a].0 < candidates@[b].0);
            } else {
                assert(candidates@[b].0 < candidates@[a].0);
            }
        }
    }
    let res = longest_increasing_pairs(&candidates);
    proof {
        let o = view_lines(old@);
        let n = view_lines(new@);
        assert forall|c: Seq<(int, int)>| #[trigger] anchor_chain(o, n, ol as int, oh as int, nl as int, nh as int, c)
            implies c.len() <= res@.len() by {
            let idx = Seq::new(c.len(), |k: int| choose|m: int| 0 <= m < candidates@.len() && candidates@[m].0 == c[k].0
                && candidates@[m].1 == c[k].1);
            assert forall|k: int| 0 <= k < c.len() implies 0 <= #[trigger] idx[k] < candidates@.len() && candidates@[idx[k]].0
                == c[k].0 && candidates@[idx[k]].1 == c[k].1 by {
                assert(unique_pair(o, n, ol as int, oh as int, nl as int, nh as int, c[k].0, c[k].1));
            }
            let t = Seq::new(c.len(), |k: int| candidates@[idx[k]]);
            assert forall|k: int| 0 <= k < t.len() implies candidates@.contains(#[trigger] t[k]) by {
                assert(0 <= idx[k] < candidates@.len());
            }
            assert forall|a: int, b: int| 0 <= a < b < t.len() implies t[a].0 < t[b].0 && t[a].1 < t[b].1 by {
                assert(0 <= idx[a] < candidates@.len() && candidates@[idx[a]].0 == c[a].0 && candidates@[idx[a]].1 == c[a].1);
                assert(0 <= idx[b] < candidates@.len() && candidates@[idx[b]].0 == c[b].0 && candidates@[idx[b]].1 == c[b].1);
                assert(c[a].0 < c[b].0 && c[a].1 < c[b].1);
            }
            assert(pairs_increasing(t));
        }
    }
    proof {
        assert forall|k: int| 0 <= k < res@.len() implies unique_pair(
            view_lines(old@),
            view_lines(new@),
            ol as int,
            oh as int,
            nl as int,
            nh as int,
            #[trigger] res@[k].0 as int,
            res@[k].1 as int,
        ) by {
            assert(candidates@.contains(res@[k]));
            let m = choose|m: int| 0 <= m < candidates@.len() && candidates@[m] == res@[k];
            assert(candidates@[m] == res@[k]);
        }
    }
    res
}

/// `bs` with the block from `(os, ns)` to `(oe, ne)` added when it is not empty.
pub open spec fn gap_block(bs: Seq<ChangedBlock>, os: int, oe: int, ns: int, ne: int) -> Seq<ChangedBlock> {
    if os != oe || ns != ne {
        bs.push(ChangedBlock { old_start: os as usize, old_end: oe as usize, new_start: ns as usize, new_end: ne as usize })
    } else {
        bs
    }
}

/// Where the old lines after the first `k` anchors resume.
pub open spec fn resume_old(p: int, c: Seq<(int, int)>, k: int) -> int {
    if k <= 0 {
        p
    } else {
        c[k - 1].0 + 1
    }
}

/// Where the new lines after the first `k` anchors resume.
pub open spec fn resume_new(p: int, c: Seq<(int, int)>, k: int) -> int {
    if k <= 0 {
        p
    } else {
        c[k - 1].1 + 1
    }
}

/// The blocks before each of the first `k` anchors, from `(p, p)` on.
pub open spec fn anchored_blocks(p: int, c: Seq<(int, int)>, k: int) -> Seq<ChangedBlock>
    decreases k,
{
    if k <= 0 {
        Seq::empty()
    } else {
        gap_block(anchored_blocks(p, c, k - 1), resume_old(p, c, k - 1), c[k - 1].0, resume_new(p, c, k - 1), c[k - 1].1)
    }
}

/// The non-empty gaps between the anchors `c` of the middle part that
/// starts at line `p` and ends at `oe` (old) and `ne` (new).
pub open spec fn gap_blocks(p: int, oe: int, ne: int, c: Seq<(int, int)>) -> Seq<ChangedBlock> {
    gap_block(anchored_blocks(p, c, c.len() as int), resume_old(p, c, c.len() as int), oe, resume_new(p, c, c.len() as int), ne)
}

/// `p` is the number of first lines both lists share.
pub open spec fn shared_prefix(old: Seq<Seq<char>>, new: Seq<Seq<char>>, p: int) -> bool {
    &&& 0 <= p <= old.len()
    &&& p <= new.len()
    &&& old.take(p) == new.take(p)
    &&& (p == old.len() || p == new.len() || old[p] != new[p])
}

/// Old lines from `oe` and new lines from `ne` are the last lines both share
/// after the common first `p`.
pub open spec fn shared_suffix(old: Seq<Seq<char>>, new: Seq<Seq<char>>, p: int, oe: int, ne: int) -> bool {
    &&& p <= oe <= old.len()
    &&& p <= ne <= new.len()
    &&& old.len() - oe == new.len() - ne
    &&& old.skip(oe) == new.skip(ne)
    &&& (oe == p || ne == p || old[oe - 1] != new[ne - 1])
}

/// The blocks of a comparison: the common first and last lines are left
/// out, and the middle is split at a longest ordered chain of lines that
/// occur exactly once in each middle part.
pub open spec fn diff_plan(old: Seq<Seq<char>>, new: Seq<Seq<char>>, bs: Seq<ChangedBlock>) -> bool {
    exists|p: int, oe: int, ne: int, c: Seq<(int, int)>|
        #![trigger gap_blocks(p, oe, ne, c)]
        {
            &&& shared_prefix(old, new, p)
            &&& shared_suffix(old, new, p, oe, ne)
            &&& anchor_chain(old, new, p, oe, p, ne, c)
            &&& forall|d: Seq<(int, int)>| #[trigger] anchor_chain(old, new, p, oe, p, ne, d) ==> d.len() <= c.len()
            &&& bs == gap_blocks(p, oe, ne, c)
        }
}

/// The regions where the two line lists differ: the common first and last lines
/// are trimmed, and lines unique to both middles that stay in order anchor the rest.
fn changed_blocks(old: &Vec<Vec<char>>, new: &Vec<Vec<char>>) -> (res: Vec<ChangedBlock>)
    ensures
        blocks_cover(view_lines(old@), view_lines(new@), res@),
        res@.len() == 0 <==> view_lines(old@) == view_lines(new@),
        diff_plan(view_lines(old@), view_lines(new@), res@),
{
    let ghost o = view_lines(old@);
    let ghost n = view_lines(new@);
    let mut prefix: usize = 0;
    while prefix < old.len() && prefix < new.len() && crate::buffer::chars_equal(&old[prefix], &new[prefix])
        invariant
            o == view_lines(old@),
            n == view_lines(new@),
            prefix <= o.len(),
            prefix <= n.len(),
            o.subrange(0, prefix as int) == n.subrange(0, prefix as int),
        decreases o.len() - prefix,
    {
        proof {
            assert(o.subrange(0, prefix + 1) =~= o.subrange(0, prefix as int).push(o[prefix as int]));
            assert(n.subrange(0, prefix + 1) =~= n.subrange(0, prefix as int).push(n[prefix as int]));
        }
        prefix += 1;
    }
    proof {
        if o == n && prefix < o.len() {
            assert(o[prefix as int] == old@[prefix as int]@);
            assert(n[prefix as int] == new@[prefix as int]@);
        }
        if prefix < o.len() && prefix < n.len() {
            assert(o[prefix as int] == old@[prefix as int]@);
            assert(n[prefix as int] == new@[prefix as int]@);
        }
        assert(o.take(prefix as int) =~= o.subrange(0, prefix as int));
        assert(n.take(prefix as int) =~= n.subrange(0, prefix as int));
        assert(shared_prefix(o, n, prefix as int));
    }
    let mut old_end: usize = old.len();
    let mut new_end: usize = new.len();
    proof {
        assert(o.subrange(old_end as int, o.len() as int) =~= n.subrange(new_end as int, n.len() as int));
    }
    while old_end > prefix && new_end > prefix && crate::buffer::chars_equal(&old[old_end - 1], &new[new_end - 1])
        invariant
            o == view_lines(old@),
            n == view_lines(new@),
            prefix <= old_end <= o.len(),
            prefix <= new_end <= n.len(),
            o.len() - old_end == n.len() - new_end,
            o.subrange(old_end as int, o.len() as int) == n.subrange(new_end as int, n.len() as int),
        decreases old_end,
    {
        proof {
            assert(o.subrange(old_end - 1, o.len() as int) =~= seq![o[old_end - 1]] + o.subrange(old_end as int, o.len() as int));
            assert(n.subrange(new_end - 1, n.len() as int) =~= seq![n[new_end - 1]] + n.subrange(new_end as int, n.len() as int));
        }
        old_end -= 1;
        new_end -= 1;
    }
    let ghost empty_blocks = Seq::<ChangedBlock>::empty();
    proof {
        if old_end > prefix && new_end > prefix {
            assert(o[old_end - 1] == old@[old_end - 1]@);
            assert(n[new_end - 1] == new@[new_end - 1]@);
        }
        assert(o.skip(old_end as int) =~= o.subrange(old_end as int, o.len() as int));
        assert(n.skip(new_end as int) =~= n.subrange(new_end as int, n.len() as int));
        assert(shared_suffix(o, n, prefix as int, old_end as int, new_end as int));
        assert(gap_old(empty_blocks, 0) == 0);
        assert(covers_upto(o, n, empty_blocks, prefix as int, prefix as int));
    }
    if prefix == old_end && prefix == new_end {
        proof {
            assert(o =~= o.subrange(0, prefix as int) + o.subrange(prefix as int, o.len() as int));
            assert(n =~= n.subrange(0, prefix as int) + n.subrange(prefix as int, n.len() as int));
            lemma_extend_gap(o, n, empty_blocks, prefix as int, prefix as int, o.len() - prefix);
            let c = Seq::<(int, int)>::empty();
            assert forall|d: Seq<(int, int)>| #[trigger] anchor_chain(o, n, prefix as int, old_end as int, prefix as int, new_end as int, d)
                implies d.len() <= c.len() by {
                if d.len() > 0 {
                    assert(unique_pair(o, n, prefix as int, old_end as int, prefix as int, new_end as int, d[0].0, d[0].1));
                }
            }
            assert(anchored_blocks(prefix as int, c, 0) == Seq::<ChangedBlock>::empty());
            assert(gap_blocks(prefix as int, old_end as int, new_end as int, c) =~= Seq::<ChangedBlock>::empty());
        }
        return Vec::new();
    }
    let anchors = unique_anchors(old, new, prefix, old_end, prefix, new_end);
    let ghost c = anchors@.map_values(|a: (usize, usize)| (a.0 as int, a.1 as int));
    let mut blocks: Vec<ChangedBlock> = Vec::new();
    let mut old_cursor: usize = prefix;
    let mut new_cursor: usize = prefix;
    let mut k: usize = 0;
    while k < anchors.len()
        invariant
            c == anchors@.map_values(|a: (usize, usize)| (a.0 as int, a.1 as int)),
            blocks@ == anchored_blocks(prefix as int, c, k as int),
            old_cursor == resume_old(prefix as int, c, k as int),
            new_cursor == resume_new(prefix as int, c, k as int),
            o == view_lines(old@),
            n == view_lines(new@),
            prefix <= old_cursor <= old_end <= o.len(),
            prefix <= new_cursor <= new_end <= n.len(),
            0 <= k <= anchors@.len(),
            forall|j: int| 0 <= j < anchors@.len() ==> unique_pair(o, n, prefix as int, old_end as int, prefix as int, new_end as int, #[trigger] anchors@[j].0 as int, anchors@[j].1 as int),
            pairs_increasing(anchors@),
            k < anchors@.len() ==> old_cursor <= anchors@[k as int].0 && new_cursor <= anchors@[k as int].1,
            covers_upto(o, n, blocks@, old_cursor as int, new_cursor as int),
        decreases anchors@.len() - k,
    {
        let (old_anchor, new_anchor) = anchors[k];
        proof {
            assert(unique_pair(o, n, prefix as int, old_end as int, prefix as int, new_end as int, anchors@[k as int].0 as int, anchors@[k as int].1 as int));
        }
        let ghost before = blocks@;
        push_block(&mut blocks, old_cursor, old_anchor, new_cursor, new_anchor);
        proof {
            if old_cursor != old_anchor || new_cursor != new_anchor {
                lemma_push_block(o, n, before, ChangedBlock { old_start: old_cursor, old_end: old_anchor, new_start: new_cursor, new_end: new_anchor });
            }
            assert(o.subrange(old_anchor as int, old_anchor + 1) =~= seq![o[old_anchor as int]]);
            assert(n.subrange(new_anchor as int, new_anchor + 1) =~= seq![n[new_anchor as int]]);
            lemma_extend_gap(o, n, blocks@, old_anchor as int, new_anchor as int, 1);
            if k + 1 < anchors@.len() {
                assert(anchors@[k as int].0 < anchors@[k + 1].0 && anchors@[k as int].1 < anchors@[k + 1].1);
            }
        }
        old_cursor = old_anchor + 1;
        new_cursor = new_anchor + 1;
        k += 1;
    }
    let ghost before = blocks@;
    push_block(&mut blocks, old_cursor, old_end, new_cursor, new_end);
    proof {
        assert(blocks@ == gap_blocks(prefix as int, old_end as int, new_end as int, c));
        assert(anchor_chain(o, n, prefix as int, old_end as int, prefix as int, new_end as int, c)) by {
            assert forall|j: int| 0 <= j < c.len() implies #[trigger] unique_pair(o, n, prefix as int, old_end as int, prefix as int,
                new_end as int, c[j].0, c[j].1) by {
                assert(c[j] == (anchors@[j].0 as int, anchors@[j].1 as int));
                assert(unique_pair(o, n, prefix as int, old_end as int, prefix as int, new_end as int, anchors@[j].0 as int,
                    anchors@[j].1 as int));
            }
        }
        if old_cursor != old_end || new_cursor != new_end {
            lemma_push_block(o, n, before, ChangedBlock { old_start: old_cursor, old_end, new_start: new_cursor, new_end });
        }
        lemma_extend_gap(o, n, blocks@, old_end as int, new_end as int, o.len() - old_end);
        if blocks@.len() == 0 {
            assert(o =~= o.subrange(0, o.len() as int));
            assert(n =~= n.subrange(0, n.len() as int));
        }
    }
    blocks
}


/// Comparing the first `k` paired lines of two runs starting at `os` and `ns`.
pub open spec fn pair_steps(c: ExternalChangesView, old: Seq<Seq<char>>, new: Seq<Seq<char>>, os: int, ns: int, k: int) -> ExternalChangesView
    decreases k,
{
    if k <= 0 {
        c
    } else {
        line_change(pair_steps(c, old, new, os, ns, k - 1), old[os + k - 1], new[ns + k - 1], ns + k - 1)
    }
}

/// Marking the first `k` new lines from `start` on as wholly added.
pub open spec fn add_steps(c: ExternalChangesView, new: Seq<Seq<char>>, start: int, k: int) -> ExternalChangesView
    decreases k,
{
    if k <= 0 {
        c
    } else {
        let row = start + k - 1;
        with_range(add_steps(c, new, start, k - 1), row, 0, new[row].len() as int, ChangeKind::Added)
    }
}

/// The new line that carries the marker of lines deleted before `at`: `at`,
/// or the last line when `at` lies past the end.
pub open spec fn deletion_row(new_len: int, at: int) -> int {
    let last = if new_len > 0 { new_len - 1 } else { 0 };
    if at < last { at } else { last }
}

/// What one changed block records: paired lines compared, surplus new lines
/// added, and surplus old lines marked as deleted.
pub open spec fn block_change(c: ExternalChangesView, old: Seq<Seq<char>>, new: Seq<Seq<char>>, b: ChangedBlock) -> ExternalChangesView {
    let old_count = b.old_end - b.old_start;
    let new_count = b.new_end - b.new_start;
    let paired = if old_count < new_count { old_count } else { new_count };
    let c1 = pair_steps(c, old, new, b.old_start as int, b.new_start as int, paired);
    let c2 = add_steps(c1, new, b.new_start + paired, new_count - paired);
    if old_count > paired {
        with_marker(c2, deletion_row(new.len() as int, b.new_start + paired), ChangeKind::Deleted)
    } else {
        c2
    }
}

/// What the first `k` blocks record.
pub open spec fn blocks_change(c: ExternalChangesView, old: Seq<Seq<char>>, new: Seq<Seq<char>>, bs: Seq<ChangedBlock>, k: int) -> ExternalChangesView
    decreases k,
{
    if k <= 0 {
        c
    } else {
        block_change(blocks_change(c, old, new, bs, k - 1), old, new, bs[k - 1])
    }
}

/// Encoded UTF-8 size of the text that the lines spell.
pub open spec fn lines_utf8_len(lines: Seq<Seq<char>>) -> nat
    decreases lines.len(),
{
    if lines.len() == 0 {
        0
    } else if lines.len() == 1 {
        utf8_len(lines[0])
    } else {
        lines_utf8_len(lines.drop_last()) + 1 + utf8_len(lines.last())
    }
}

/// `out` is `raw` with ranges ordered, markers merged per line, and bound to `position`.
pub open spec fn finished(out: ExternalChangesView, raw: ExternalChangesView, position: u64) -> bool {
    &&& out.position == Some(position)
    &&& ranges_sorted(out.added)
    &&& ranges_sorted(out.changed)
    &&& out.added.to_multiset() == raw.added.to_multiset()
    &&& out.changed.to_multiset() == raw.changed.to_multiset()
    &&& markers_merged(out.markers, raw.markers)
}

/// Records what one changed block differs by.
fn compare_block(old_lines: &Vec<Vec<char>>, new_lines: &Vec<Vec<char>>, block: ChangedBlock, changes: &mut ExternalChanges)
    requires
        block.old_start <= block.old_end <= old_lines@.len(),
        block.new_start <= block.new_end <= new_lines@.len(),
    ensures
        final(changes).view() == block_change(old(changes).view(), view_lines(old_lines@), view_lines(new_lines@), block),
{
    let ghost o = view_lines(old_lines@);
    let ghost n = view_lines(new_lines@);
    let ghost c0 = changes.view();
    let old_count = block.old_end - block.old_start;
    let new_count = block.new_end - block.new_start;
    let paired = if old_count < new_count { old_count } else { new_count };
    let mut offset: usize = 0;
    while offset < paired
        invariant
            o == view_lines(old_lines@),
            n == view_lines(new_lines@),
            block.old_start <= block.old_end <= o.len(),
            block.new_start <= block.new_end <= n.len(),
            paired <= block.old_end - block.old_start,
            paired <= block.new_end - block.new_start,
            0 <= offset <= paired,
            changes.view() == pair_steps(c0, o, n, block.old_start as int, block.new_start as int, offset as int),
        decreases paired - offset,
    {
        compare_line(&old_lines[block.old_start + offset], &new_lines[block.new_start + offset], block.new_start + offset, changes);
        offset += 1;
    }
    let ghost c1 = changes.view();
    let start = block.new_start + paired;
    let mut k: usize = 0;
    while k < new_count - paired
        invariant
            n == view_lines(new_lines@),
            block.new_start <= block.new_end <= n.len(),
            new_count == block.new_end - block.new_start,
            paired <= new_count,
            start == block.new_start + paired,
            0 <= k <= new_count - paired,
            changes.view() == add_steps(c1, n, start as int, k as int),
        decreases new_count - paired - k,
    {
        let row = start + k;
        changes.add_range(row, 0, new_lines[row].len(), ChangeKind::Added);
        k += 1;
    }
    if old_count > paired {
        let last = if new_lines.len() > 0 { new_lines.len() - 1 } else { 0 };
        let marker_line = if start < last { start } else { last };
        changes.mark_line(marker_line, ChangeKind::Deleted);
    }
}

/// Whether the text that `lines` spell encodes to more than `limit` UTF-8 bytes.
fn text_exceeds(lines: &Vec<Vec<char>>, limit: u64) -> (res: bool)
    ensures
        res == (lines_utf8_len(view_lines(lines@)) > limit),
{
    let ghost ls = view_lines(lines@);
    let mut total: u64 = 0;
    let mut i: usize = 0;
    proof {
        assert(ls.take(0) =~= Seq::<Seq<char>>::empty());
    }
    while i < lines.len()
        invariant
            ls == view_lines(lines@),
            0 <= i <= ls.len(),
            total == lines_utf8_len(ls.take(i as int)),
            total <= limit,
        decreases ls.len() - i,
    {
        let line = &lines[i];
        let ghost base = total;
        let sep: u64 = if i > 0 { 1 } else { 0 };
        if sep > limit - total {
            proof {
                lemma_lines_utf8_prefix(ls, i + 1);
                assert(ls.take(i + 1).drop_last() =~= ls.take(i as int));
            }
            return true;
        }
        total = total + sep;
        let mut j: usize = 0;
        proof {
            assert(line@.take(0) =~= Seq::<char>::empty());
        }
        while j < line.len()
            invariant
                ls == view_lines(lines@),
                i < ls.len(),
                line@ == ls[i as int],
                base == lines_utf8_len(ls.take(i as int)),
                sep == (if i > 0 { 1int } else { 0int }),
                0 <= j <= line@.len(),
                total == base + sep + utf8_len(line@.take(j as int)),
                total <= limit,
            decreases line@.len() - j,
        {
            let c = line[j];
            let n: u64 = if (c as u32) < 0x80 {
                1
            } else if (c as u32) < 0x800 {
                2
            } else if (c as u32) < 0x10000 {
                3
            } else {
                4
            };
            proof {
                assert(line@.take(j + 1).drop_last() =~= line@.take(j as int));
            }
            if n > limit - total {
                proof {
                    lemma_utf8_len_prefix_monotone(line@, j + 1);
                    lemma_lines_utf8_prefix(ls, i + 1);
                    assert(ls.take(i + 1).drop_last() =~= ls.take(i as int));
                    assert(ls.take(i + 1).last() == ls[i as int]);
                }
                return true;
            }
            total = total + n;
            j += 1;
        }
        proof {
            assert(line@.take(line@.len() as int) =~= line@);
            assert(ls.take(i + 1).drop_last() =~= ls.take(i as int));
            assert(ls.take(i + 1).last() == ls[i as int]);
            if i == 0 {
                assert(ls.take(1)[0] == ls[0]);
            }
        }
        i += 1;
    }
    proof {
        assert(ls.take(ls.len() as int) =~= ls);
    }
    false
}

proof fn lemma_lines_utf8_prefix(lines: Seq<Seq<char>>, k: int)
    requires
        0 <= k <= lines.len(),
    ensures
        lines_utf8_len(lines.take(k)) <= lines_utf8_len(lines),
    decreases lines.len() - k,
{
    if k < lines.len() {
        lemma_lines_utf8_prefix(lines, k + 1);
        assert(lines.take(k + 1).drop_last() =~= lines.take(k));
        if k == 0 {
            assert(lines.take(0).len() == 0);
        }
    } else {
        assert(lines.take(k) =~= lines);
    }
}

/// Compares a replaced revision `old` with the reloaded revision `new` that
/// replaces it, unless either is too large to compare.
pub fn compare(old: &TextBuffer, new: &TextBuffer) -> (res: DiffOutcome)
    requires
        old.wf(),
        new.wf(),
    ensures
        ({
            let too_large = lines_utf8_len(old.lines()) > SMALL_FILE_LIMIT_BYTES || lines_utf8_len(new.lines())
                > SMALL_FILE_LIMIT_BYTES;
            let too_many = old.lines().len() > MAX_DIFF_LINES || new.lines().len() > MAX_DIFF_LINES;
            &&& too_large ==> res == DiffOutcome::Skipped(SkipReason::TooLarge)
            &&& !too_large && too_many ==> res == DiffOutcome::Skipped(SkipReason::TooManyLines)
            &&& !too_large && !too_many ==> (res matches DiffOutcome::Compared(ch) && exists|bs: Seq<ChangedBlock>|
                #![trigger blocks_cover(old.lines(), new.lines(), bs)]
                {
                    &&& blocks_cover(old.lines(), new.lines(), bs)
                    &&& diff_plan(old.lines(), new.lines(), bs)
                    &&& (bs.len() == 0 <==> old.lines() == new.lines())
                    &&& finished(
                        ch.view(),
                        blocks_change(ExternalChanges::new_view(), old.lines(), new.lines(), bs, bs.len() as int),
                        new.history_position(),
                    )
                })
        }),
{
    let old_lines = old.line_vec();
    let new_lines = new.line_vec();
    if text_exceeds(old_lines, SMALL_FILE_LIMIT_BYTES) || text_exceeds(new_lines, SMALL_FILE_LIMIT_BYTES) {
        return DiffOutcome::Skipped(SkipReason::TooLarge);
    }
    if old_lines.len() > MAX_DIFF_LINES || new_lines.len() > MAX_DIFF_LINES {
        return DiffOutcome::Skipped(SkipReason::TooManyLines);
    }
    let ghost o = view_lines(old_lines@);
    let ghost n = view_lines(new_lines@);
    let blocks = changed_blocks(old_lines, new_lines);
    let mut changes = ExternalChanges::new();
    let mut k: usize = 0;
    while k < blocks.len()
        invariant
            o == view_lines(old_lines@),
            n == view_lines(new_lines@),
            blocks_cover(o, n, blocks@),
            0 <= k <= blocks@.len(),
            changes.view() == blocks_change(ExternalChanges::new_view(), o, n, blocks@, k as int),
        decreases blocks@.len() - k,
    {
        proof {
            assert(block_ok(o, n, blocks@, k as int));
        }
        compare_block(old_lines, new_lines, blocks[k], &mut changes);
        k += 1;
    }
    let ghost raw = changes.view();
    let done = changes.finish(new.edit_history_position());
    proof {
        assert(blocks_cover(old.lines(), new.lines(), blocks@));
    }
    DiffOutcome::Compared(done)
}


/// The element `k` places from the end of `s`.
pub open spec fn from_end<T>(s: Seq<T>, k: int) -> T {
    s[s.len() - 1 - k]
}

proof fn lemma_prefix_len<T>(a: Seq<T>, b: Seq<T>)
    ensures
        prefix_len(a, b) <= a.len(),
        prefix_len(a, b) <= b.len(),
        forall|k: int| 0 <= k < prefix_len(a, b) ==> a[k] == b[k],
        prefix_len(a, b) < a.len() && prefix_len(a, b) < b.len() ==> a[prefix_len(a, b) as int] != b[prefix_len(
            a,
            b,
        ) as int],
    decreases a.len(),
{
    if a.len() > 0 && b.len() > 0 && a[0] == b[0] {
        lemma_prefix_len(a.drop_first(), b.drop_first());
        assert forall|k: int| 0 <= k < prefix_len(a, b) implies a[k] == b[k] by {
            if k > 0 {
                assert(a[k] == a.drop_first()[k - 1]);
                assert(b[k] == b.drop_first()[k - 1]);
            }
        }
    }
}

proof fn lemma_suffix_len<T>(a: Seq<T>, b: Seq<T>)
    ensures
        suffix_len(a, b) <= a.len(),
        suffix_len(a, b) <= b.len(),
        forall|k: int| 0 <= k < suffix_len(a, b) ==> #[trigger] from_end(a, k) == from_end(b, k),
        suffix_len(a, b) < a.len() && suffix_len(a, b) < b.len() ==> from_end(a, suffix_len(a, b) as int) != from_end(
            b,
            suffix_len(a, b) as int,
        ),
    decreases a.len(),
{
    if a.len() > 0 && b.len() > 0 && a.last() == b.last() {
        let a2 = a.drop_last();
        let b2 = b.drop_last();
        lemma_suffix_len(a2, b2);
        assert forall|k: int| 0 <= k < suffix_len(a, b) implies from_end(a, k) == from_end(b, k) by {
            if k > 0 {
                assert(from_end(a, k) == from_end(a2, (k - 1)));
                assert(from_end(b, k) == from_end(b2, (k - 1)));
            }
        }
        if suffix_len(a, b) < a.len() && suffix_len(a, b) < b.len() {
            let s = suffix_len(a, b);
            assert(from_end(a, s as int) == from_end(a2, s - 1));
            assert(from_end(b, s as int) == from_end(b2, s - 1));
        }
    }
}

/// A line that changed is always marked, on its own row: comparing two
/// different lines records exactly one more marker, at `row`. (Each line is
/// spelled by its grapheme clusters, as the segmentation always gives.)
pub proof fn changed_line_gets_marker(c: ExternalChangesView, old: Seq<char>, new: Seq<char>, row: usize)
    requires
        old != new,
        concat_all(extended_graphemes(old)) == old,
        concat_all(extended_graphemes(new)) == new,
    ensures
        exists|k: ChangeKind| line_change(c, old, new, row as int).markers == c.markers.push(
            LineMarker { line: row, kind: k },
        ),
{
    if utf8_len(old) > MAX_GRAPHEME_LINE_BYTES || utf8_len(new) > MAX_GRAPHEME_LINE_BYTES {
        assert(line_change(c, old, new, row as int).markers == c.markers.push(
            LineMarker { line: row, kind: ChangeKind::Changed },
        ));
    } else {
        let go = extended_graphemes(old);
        let gn = extended_graphemes(new);
        let p = prefix_len(go, gn) as int;
        lemma_prefix_len(go, gn);
        let a = go.skip(p);
        let b = gn.skip(p);
        let q = suffix_len(a, b) as int;
        lemma_suffix_len(a, b);
        if !(go.len() - q > p) && !(gn.len() - q > p) {
            assert(go.len() == p + q && gn.len() == p + q);
            assert forall|k: int| 0 <= k < go.len() implies go[k] == gn[k] by {
                if k >= p {
                    let j = q - 1 - (k - p);
                    assert(from_end(a, j) == from_end(b, j));
                }
            }
            assert(go =~= gn);
            assert(false);
        }
        let r = line_change(c, old, new, row as int);
        if !(go.len() - q > p) {
            assert(r.markers == c.markers.push(LineMarker { line: row, kind: ChangeKind::Added }));
        } else if gn.len() - q > p {
            assert(r.markers == c.markers.push(LineMarker { line: row, kind: ChangeKind::Changed }));
        } else {
            assert(r.markers == c.markers.push(LineMarker { line: row, kind: ChangeKind::Deleted }));
        }
    }
}

/// A line that only lost grapheme clusters (the new line is the old one with
/// one stretch of clusters cut out) is marked Deleted on its row, and no
/// added or changed range is recorded for it.
pub proof fn cut_line_is_marked_deleted(c: ExternalChangesView, old: Seq<char>, new: Seq<char>, row: usize, i: int, j: int)
    requires
        0 <= i < j <= extended_graphemes(old).len(),
        extended_graphemes(new) == extended_graphemes(old).take(i) + extended_graphemes(old).skip(j),
        old != new,
        utf8_len(old) <= MAX_GRAPHEME_LINE_BYTES,
        utf8_len(new) <= MAX_GRAPHEME_LINE_BYTES,
    ensures
        line_change(c, old, new, row as int) == with_marker(c, row as int, ChangeKind::Deleted),
        line_change(c, old, new, row as int).added == c.added,
        line_change(c, old, new, row as int).changed == c.changed,
{
    let go = extended_graphemes(old);
    let gn = extended_graphemes(new);
    let d = j - i;
    assert(gn.len() == go.len() - d);
    assert forall|k: int| 0 <= k < gn.len() implies gn[k] == (if k < i { go[k] } else { go[k + d] }) by {
        if k < i {
            assert(gn[k] == go.take(i)[k]);
        } else {
            assert(gn[k] == go.skip(j)[k - i]);
        }
    }
    let p = prefix_len(go, gn) as int;
    lemma_prefix_len(go, gn);
    if p < i {
        assert(p < gn.len());
        assert(go[p] == gn[p]);
    }
    assert(p >= i);
    let a = go.skip(p);
    let b = gn.skip(p);
    let q = suffix_len(a, b) as int;
    lemma_suffix_len(a, b);
    assert forall|k: int| 0 <= k < b.len() implies #[trigger] from_end(b, k) == from_end(a, k) by {
        assert(from_end(b, k) == from_end(gn, k));
        assert(gn.len() - 1 - k >= i);
        assert(from_end(gn, k) == from_end(go, k));
        assert(from_end(a, k) == from_end(go, k));
    }
    if q < b.len() {
        assert(q < a.len());
        assert(from_end(a, q) == from_end(b, q));
    }
    assert(q == b.len());
    assert(gn.len() - q == p);
    assert(go.len() - q > p);
}

/// A line that only gained grapheme clusters (the new line is the old one
/// with a stretch of clusters put in) is marked Added on its row, and no
/// changed range or deleted marker is recorded for it.
pub proof fn grown_line_is_marked_added(
    c: ExternalChangesView,
    old: Seq<char>,
    new: Seq<char>,
    row: usize,
    i: int,
    ins: Seq<Seq<char>>,
)
    requires
        0 <= i <= extended_graphemes(old).len(),
        ins.len() > 0,
        extended_graphemes(new) == extended_graphemes(old).take(i) + ins + extended_graphemes(old).skip(i),
        old != new,
        utf8_len(old) <= MAX_GRAPHEME_LINE_BYTES,
        utf8_len(new) <= MAX_GRAPHEME_LINE_BYTES,
    ensures
        line_change(c, old, new, row as int).markers == c.markers.push(
            LineMarker { line: row, kind: ChangeKind::Added },
        ),
        line_change(c, old, new, row as int).changed == c.changed,
{
    let go = extended_graphemes(old);
    let gn = extended_graphemes(new);
    let m = ins.len() as int;
    assert(gn.len() == go.len() + m);
    assert forall|k: int| 0 <= k < gn.len() implies gn[k] == (if k < i {
        go[k]
    } else if k < i + m {
        ins[k - i]
    } else {
        go[k - m]
    }) by {
        if k < i {
            assert(gn[k] == go.take(i)[k]);
        } else if k < i + m {
            assert(gn[k] == (go.take(i) + ins)[k]);
        } else {
            assert(gn[k] == go.skip(i)[k - i - m]);
        }
    }
    let p = prefix_len(go, gn) as int;
    lemma_prefix_len(go, gn);
    if p < i {
        assert(p < gn.len());
        assert(go[p] == gn[p]);
    }
    assert(p >= i);
    let a = go.skip(p);
    let b = gn.skip(p);
    let q = suffix_len(a, b) as int;
    lemma_suffix_len(a, b);
    assert forall|k: int| 0 <= k < a.len() implies #[trigger] from_end(a, k) == from_end(b, k) by {
        assert(from_end(a, k) == from_end(go, k));
        assert(from_end(b, k) == from_end(gn, k));
        assert(go.len() - 1 - k >= i);
    }
    if q < a.len() {
        assert(q < b.len());
        assert(from_end(a, q) == from_end(b, q));
    }
    assert(q == a.len());
    assert(go.len() - q == p);
    assert(gn.len() - q > p);
}

} // verus!
