//! Moving and deleting by user-perceived character: a combining mark, a
//! joined emoji or a flag moves and goes away as one, as unicode-segmentation
//! divides a line into extended grapheme clusters.

use vstd::prelude::*;

use crate::app::App;
use crate::buffer::{left_of, replaced_text, right_of, Cursor};
use crate::external_diff::{concat_all, extended_graphemes};

verus! {

/// Where the first `k` clusters of line `l` end.
pub open spec fn cluster_end(l: Seq<char>, k: int) -> int {
    concat_all(extended_graphemes(l).take(k)).len() as int
}

/// Offset `b` of line `l` lies between two clusters (or at either end).
pub open spec fn on_boundary(l: Seq<char>, b: int) -> bool {
    exists|k: int| 0 <= k <= extended_graphemes(l).len() && #[trigger] cluster_end(l, k) == b
}

/// `p` is the last cluster boundary of `l` before offset `c`.
pub open spec fn is_boundary_before(l: Seq<char>, c: int, p: int) -> bool {
    &&& 0 <= p < c
    &&& on_boundary(l, p)
    &&& forall|b: int| #[trigger] on_boundary(l, b) && b < c ==> b <= p
}

/// `p` is the first cluster boundary of `l` after offset `c`.
pub open spec fn is_boundary_after(l: Seq<char>, c: int, p: int) -> bool {
    &&& c < p <= l.len()
    &&& on_boundary(l, p)
    &&& forall|b: int| #[trigger] on_boundary(l, b) && c < b ==> p <= b
}

pub open spec fn boundary_before(l: Seq<char>, c: int) -> int {
    choose|p: int| is_boundary_before(l, c, p)
}

pub open spec fn boundary_after(l: Seq<char>, c: int) -> int {
    choose|p: int| is_boundary_after(l, c, p)
}

/// One user-perceived character to the left: the start of the cluster
/// before the cursor, or the end of the previous line.
pub open spec fn grapheme_left_of(lines: Seq<Seq<char>>, c: Cursor) -> Cursor {
    if c.col > 0 {
        Cursor { row: c.row, col: boundary_before(lines[c.row as int], c.col as int) as usize }
    } else {
        left_of(lines, c)
    }
}

/// One user-perceived character to the right: the end of the cluster at the
/// cursor, or the start of the next line.
pub open spec fn grapheme_right_of(lines: Seq<Seq<char>>, c: Cursor) -> Cursor {
    if c.col < lines[c.row as int].len() {
        Cursor { row: c.row, col: boundary_after(lines[c.row as int], c.col as int) as usize }
    } else {
        right_of(lines, c)
    }
}

proof fn lemma_cluster_step(l: Seq<char>, k: int)
    requires
        0 <= k < extended_graphemes(l).len(),
    ensures
        cluster_end(l, k + 1) == cluster_end(l, k) + extended_graphemes(l)[k].len(),
{
    let g = extended_graphemes(l);
    let t = g.take(k + 1);
    assert(t.drop_last() =~= g.take(k));
    assert(t.last() == g[k]);
}

proof fn lemma_cluster_monotone(l: Seq<char>, i: int, j: int)
    requires
        0 <= i <= j <= extended_graphemes(l).len(),
        forall|k: int| 0 <= k < extended_graphemes(l).len() ==> #[trigger] extended_graphemes(l)[k].len() > 0,
    ensures
        cluster_end(l, i) <= cluster_end(l, j),
        i < j ==> cluster_end(l, i) < cluster_end(l, j),
    decreases j - i,
{
    if i < j {
        lemma_cluster_monotone(l, i, j - 1);
        lemma_cluster_step(l, j - 1);
    }
}

/// The last cluster boundary of `line` before column `col`.
fn prev_boundary(line: &Vec<char>, col: usize) -> (res: usize)
    requires
        0 < col <= line@.len(),
    ensures
        is_boundary_before(line@, col as int, res as int),
        res as int == boundary_before(line@, col as int),
{
    let gs = crate::external_diff::graphemes_of(line);
    let ghost l = line@;
    let ghost g = extended_graphemes(l);
    proof {
        assert(g.take(g.len() as int) =~= g);
        assert forall|k: int| 0 <= k < g.len() implies #[trigger] g[k].len() > 0 by {
            assert(g[k] == gs@[k]@);
        }
    }
    let total = line.len();
    let mut pos: usize = 0;
    let mut best: usize = 0;
    let mut k: usize = 0;
    let ghost mut best_k: int = 0;
    proof {
        assert(g.take(0) =~= Seq::<Seq<char>>::empty());
    }
    while k < gs.len()
        invariant
            g == extended_graphemes(l),
            l == line@,
            gs@.len() == g.len(),
            forall|i: int| 0 <= i < g.len() ==> #[trigger] g[i] == gs@[i]@,
            forall|i: int| 0 <= i < g.len() ==> #[trigger] g[i].len() > 0,
            cluster_end(l, g.len() as int) == l.len(),
            total == l.len(),
            0 < col <= l.len(),
            0 <= k <= g.len(),
            pos as int == cluster_end(l, k as int),
            0 <= best_k <= k,
            best as int == cluster_end(l, best_k),
            best < col,
            forall|j: int| 0 <= j < k && cluster_end(l, j) < col ==> cluster_end(l, j) <= best,
        decreases g.len() - k,
    {
        proof {
            lemma_cluster_step(l, k as int);
            lemma_cluster_monotone(l, k + 1, g.len() as int);
        }
        if pos < col {
            best = pos;
            proof {
                best_k = k as int;
                assert forall|j: int| 0 <= j < k && cluster_end(l, j) < col implies cluster_end(l, j) <= best by {
                    lemma_cluster_monotone(l, j, k as int);
                }
            }
        }
        assert(gs[k as int]@.len() == g[k as int].len());
        pos = pos + gs[k].len();
        k += 1;
    }
    proof {
        assert(on_boundary(l, best as int));
        assert forall|b: int| #[trigger] on_boundary(l, b) && b < col implies b <= best by {
            let j = choose|j: int| 0 <= j <= g.len() && #[trigger] cluster_end(l, j) == b;
        }
        assert(is_boundary_before(l, col as int, best as int));
        let q = boundary_before(l, col as int);
        assert(is_boundary_before(l, col as int, q));
        assert(q <= best && best <= q);
    }
    best
}

/// The first cluster boundary of `line` after column `col`.
fn next_boundary(line: &Vec<char>, col: usize) -> (res: usize)
    requires
        col < line@.len(),
    ensures
        is_boundary_after(line@, col as int, res as int),
        res as int == boundary_after(line@, col as int),
{
    let gs = crate::external_diff::graphemes_of(line);
    let ghost l = line@;
    let ghost g = extended_graphemes(l);
    proof {
        assert(g.take(g.len() as int) =~= g);
        assert forall|k: int| 0 <= k < g.len() implies #[trigger] g[k].len() > 0 by {
            assert(g[k] == gs@[k]@);
        }
        assert(g.take(0) =~= Seq::<Seq<char>>::empty());
    }
    let total = line.len();
    let mut pos: usize = 0;
    let mut k: usize = 0;
    while k < gs.len() && pos <= col
        invariant
            g == extended_graphemes(l),
            l == line@,
            gs@.len() == g.len(),
            forall|i: int| 0 <= i < g.len() ==> #[trigger] g[i] == gs@[i]@,
            forall|i: int| 0 <= i < g.len() ==> #[trigger] g[i].len() > 0,
            cluster_end(l, g.len() as int) == l.len(),
            total == l.len(),
            col < l.len(),
            0 <= k <= g.len(),
            pos as int == cluster_end(l, k as int),
            forall|j: int| 0 <= j < k ==> cluster_end(l, j) <= col,
        decreases g.len() - k,
    {
        proof {
            lemma_cluster_step(l, k as int);
            lemma_cluster_monotone(l, k + 1, g.len() as int);
            assert forall|j: int| 0 <= j < k + 1 implies cluster_end(l, j) <= col by {
                if j < k {
                } else {
                    assert(j == k);
                }
            }
        }
        assert(gs[k as int]@.len() == g[k as int].len());
        pos = pos + gs[k].len();
        k += 1;
    }
    proof {
        if k == gs.len() {
            assert(pos == l.len());
        }
        assert(pos > col);
        lemma_cluster_monotone(l, k as int, g.len() as int);
        assert(on_boundary(l, pos as int));
        assert forall|b: int| #[trigger] on_boundary(l, b) && col < b implies pos <= b by {
            let j = choose|j: int| 0 <= j <= g.len() && #[trigger] cluster_end(l, j) == b;
            if j < k {
            } else {
                lemma_cluster_monotone(l, k as int, j);
            }
        }
        assert(is_boundary_after(l, col as int, pos as int));
        let q = boundary_after(l, col as int);
        assert(is_boundary_after(l, col as int, q));
        assert(q <= pos && pos <= q);
    }
    pos
}

/// A column moved onto the start of the cluster it falls inside.
pub open spec fn snapped_col(l: Seq<char>, c: int) -> int {
    if 0 <= c < l.len() {
        boundary_before(l, c + 1)
    } else {
        c
    }
}

/// After a vertical move the cursor sits on the start of the cluster it
/// landed in, never inside one.
pub fn snap_to_cluster(app: &mut App)
    requires
        old(app).buffer.wf(),
    ensures
        final(app).buffer.wf(),
        final(app).buffer.same_but_cursor(&old(app).buffer),
        final(app).buffer.view_cursor() == (Cursor {
            row: old(app).buffer.view_cursor().row,
            col: snapped_col(
                old(app).buffer.lines()[old(app).buffer.view_cursor().row as int],
                old(app).buffer.view_cursor().col as int,
            ) as usize,
        }),
        *final(app) == (App { buffer: final(app).buffer, ..*old(app) }),
{
    let c = app.buffer.cursor();
    let line = match app.buffer.line(c.row) {
        Some(l) => l,
        None => Vec::new(),
    };
    if c.col < line.len() {
        let b = prev_boundary(&line, c.col + 1);
        app.buffer.set_cursor(Cursor { row: c.row, col: b });
    } else {
        app.buffer.set_cursor(c);
    }
}

/// Moves the cursor one user-perceived character left or right.
pub fn move_grapheme(app: &mut App, forward: bool)
    requires
        old(app).buffer.wf(),
    ensures
        final(app).buffer.wf(),
        final(app).buffer.same_but_cursor(&old(app).buffer),
        final(app).buffer.view_cursor() == if forward {
            grapheme_right_of(old(app).buffer.lines(), old(app).buffer.view_cursor())
        } else {
            grapheme_left_of(old(app).buffer.lines(), old(app).buffer.view_cursor())
        },
        *final(app) == (App { buffer: final(app).buffer, ..*old(app) }),
{
    let c = app.buffer.cursor();
    let line = match app.buffer.line(c.row) {
        Some(l) => l,
        None => Vec::new(),
    };
    if forward {
        if c.col < line.len() {
            let b = next_boundary(&line, c.col);
            app.buffer.set_cursor(Cursor { row: c.row, col: b });
        } else {
            app.buffer.move_right();
        }
    } else {
        if c.col > 0 {
            let b = prev_boundary(&line, c.col);
            app.buffer.set_cursor(Cursor { row: c.row, col: b });
        } else {
            app.buffer.move_left();
        }
    }
}

/// What Backspace (or Delete, going forward) removes at `c`.
pub open spec fn deleted_span(lines: Seq<Seq<char>>, c: Cursor, forward: bool) -> (Cursor, Cursor) {
    if forward {
        (c, grapheme_right_of(lines, c))
    } else {
        (grapheme_left_of(lines, c), c)
    }
}

/// Backspace (or Delete, going forward) removes one user-perceived
/// character, or joins the lines at a line's edge.
pub fn delete_grapheme(app: &mut App, forward: bool)
    requires
        old(app).buffer.wf(),
    ensures
        final(app).buffer.wf(),
        deleted_span(old(app).buffer.lines(), old(app).buffer.view_cursor(), forward).0 == deleted_span(
            old(app).buffer.lines(),
            old(app).buffer.view_cursor(),
            forward,
        ).1 ==> final(app).buffer.same(&old(app).buffer),
        ({
            let (start, end) = deleted_span(old(app).buffer.lines(), old(app).buffer.view_cursor(), forward);
            start != end ==> final(app).buffer.text() == replaced_text(old(app).buffer.lines(), start, end, Seq::empty())
        }),
        ({
            let (start, end) = deleted_span(old(app).buffer.lines(), old(app).buffer.view_cursor(), forward);
            start.row == end.row && start != end ==> final(app).buffer.undo_states() == old(app).buffer.undo_states().push(
                old(app).buffer.state(),
            ) && final(app).buffer.redo_states().len() == 0
        }),
        ({
            let (start, end) = deleted_span(old(app).buffer.lines(), old(app).buffer.view_cursor(), forward);
            start != end ==> final(app).buffer.view_cursor() == start
        }),
        *final(app) == (App { buffer: final(app).buffer, ..*old(app) }),
{
    let c = app.buffer.cursor();
    let line = match app.buffer.line(c.row) {
        Some(l) => l,
        None => Vec::new(),
    };
    let empty: Vec<char> = Vec::new();
    let ghost lines = old(app).buffer.lines();
    proof {
        assert(empty@ =~= Seq::<char>::empty());
    }
    if forward && c.col < line.len() {
        let b = next_boundary(&line, c.col);
        let end = Cursor { row: c.row, col: b };
        proof {
            crate::buffer::lemma_remove_nonempty_changes(old(app).buffer.lines(), c, end);
        }
        let r = app.buffer.replace_range(c, end, empty.as_slice());
        assert(r matches Ok(changed) && changed);
        assert(end == grapheme_right_of(old(app).buffer.lines(), c));
        assert(app.buffer.undo_states() == old(app).buffer.undo_states().push(old(app).buffer.state()));
        proof {
            crate::buffer::lemma_cursor_after_removal(lines, c, end, app.buffer.view_cursor());
        }
    } else if !forward && c.col > 0 {
        let b = prev_boundary(&line, c.col);
        let start = Cursor { row: c.row, col: b };
        proof {
            crate::buffer::lemma_remove_nonempty_changes(old(app).buffer.lines(), start, c);
        }
        let r = app.buffer.replace_range(start, c, empty.as_slice());
        assert(r matches Ok(changed) && changed);
        assert(start == grapheme_left_of(old(app).buffer.lines(), c));
        assert(app.buffer.undo_states() == old(app).buffer.undo_states().push(old(app).buffer.state()));
        proof {
            crate::buffer::lemma_cursor_after_removal(lines, start, c, app.buffer.view_cursor());
        }
    } else if forward {
        let _rows = app.buffer.line_count();
        assert(c.col == old(app).buffer.lines()[c.row as int].len());
        assert(grapheme_right_of(old(app).buffer.lines(), c) == right_of(old(app).buffer.lines(), c));
        let ghost span = deleted_span(old(app).buffer.lines(), c, forward);
        assert(span.0.row != span.1.row || span.0 == span.1);
        let changed = app.buffer.delete_forward();
        proof {
            if changed {
                crate::buffer::lemma_cursor_after_removal(lines, c, right_of(lines, c), app.buffer.view_cursor());
            }
        }
    } else {
        assert(grapheme_left_of(old(app).buffer.lines(), c) == left_of(old(app).buffer.lines(), c));
        let ghost span = deleted_span(old(app).buffer.lines(), c, forward);
        assert(span.0.row != span.1.row || span.0 == span.1);
        let changed = app.buffer.delete_back();
        proof {
            if changed {
                crate::buffer::lemma_cursor_after_removal(lines, left_of(lines, c), c, app.buffer.view_cursor());
            }
        }
    }
}

} // verus!
