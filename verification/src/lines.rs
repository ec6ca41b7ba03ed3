//! Line structure of editor text: splitting on '\n', joining back, and the
//! row/column coordinates of scalar offsets.

use vstd::prelude::*;

verus! {

/// A line holds no line separator.
pub open spec fn no_newline(s: Seq<char>) -> bool {
    forall|i: int| 0 <= i < s.len() ==> s[i] != '\n'
}

/// Every line of a well-formed line sequence is separator-free, and there is at least one.
pub open spec fn lines_wf(lines: Seq<Seq<char>>) -> bool {
    &&& lines.len() >= 1
    &&& forall|i: int| 0 <= i < lines.len() ==> no_newline(#[trigger] lines[i])
}

/// The text that a sequence of lines spells, with '\n' between consecutive lines.
pub open spec fn join_lines(lines: Seq<Seq<char>>) -> Seq<char>
    decreases lines.len(),
{
    if lines.len() == 0 {
        Seq::empty()
    } else if lines.len() == 1 {
        lines[0]
    } else {
        join_lines(lines.drop_last()) + seq!['\n'] + lines.last()
    }
}

/// The lines of a text: the pieces between '\n' separators (always at least one).
pub open spec fn split_lines(text: Seq<char>) -> Seq<Seq<char>>
    decreases text.len(),
{
    if text.len() == 0 {
        seq![Seq::<char>::empty()]
    } else {
        let prev = split_lines(text.drop_last());
        if text.last() == '\n' {
            prev.push(Seq::<char>::empty())
        } else {
            prev.update(prev.len() - 1, prev.last().push(text.last()))
        }
    }
}

/// Number of '\n' scalars in a text.
pub open spec fn newline_count(text: Seq<char>) -> nat
    decreases text.len(),
{
    if text.len() == 0 {
        0
    } else {
        newline_count(text.drop_last()) + if text.last() == '\n' { 1nat } else { 0nat }
    }
}

/// Row of the scalar offset `p` in `text`: the number of separators before it.
pub open spec fn row_at(text: Seq<char>, p: int) -> int {
    split_lines(text.take(p)).len() - 1
}

/// Column of the scalar offset `p` in `text`: the scalars since the last separator.
pub open spec fn col_at(text: Seq<char>, p: int) -> int {
    split_lines(text.take(p)).last().len() as int
}

/// Offset in `join_lines(lines)` of the position (row, col).
pub open spec fn offset_of(lines: Seq<Seq<char>>, row: int, col: int) -> int {
    if row == 0 {
        col
    } else {
        join_lines(lines.take(row)).len() + 1 + col
    }
}

pub proof fn lemma_split_wf(text: Seq<char>)
    ensures
        lines_wf(split_lines(text)),
        split_lines(text).len() == newline_count(text) + 1,
    decreases text.len(),
{
    if text.len() > 0 {
        lemma_split_wf(text.drop_last());
        let prev = split_lines(text.drop_last());
        let cur = split_lines(text);
        if text.last() == '\n' {
            assert forall|i: int| 0 <= i < cur.len() implies no_newline(#[trigger] cur[i]) by {
                if i < prev.len() {
                    assert(cur[i] == prev[i]);
                }
            }
        } else {
            assert forall|i: int| 0 <= i < cur.len() implies no_newline(#[trigger] cur[i]) by {
                if i < prev.len() - 1 {
                    assert(cur[i] == prev[i]);
                } else {
                    let l = prev.last();
                    assert(no_newline(prev[prev.len() - 1]));
                    assert forall|j: int| 0 <= j < cur[i].len() implies cur[i][j] != '\n' by {
                        if j < l.len() {
                            assert(cur[i][j] == l[j]);
                        }
                    }
                }
            }
        }
    }
}

pub proof fn lemma_join_split(text: Seq<char>)
    ensures
        join_lines(split_lines(text)) == text,
    decreases text.len(),
{
    if text.len() > 0 {
        let t = text.drop_last();
        lemma_join_split(t);
        lemma_split_wf(t);
        let prev = split_lines(t);
        let cur = split_lines(text);
        if text.last() == '\n' {
            assert(cur.drop_last() =~= prev);
            assert(join_lines(cur) == join_lines(prev) + seq!['\n'] + Seq::<char>::empty());
            assert(text =~= t + seq!['\n']);
        } else {
            let l = prev.last();
            if prev.len() == 1 {
                assert(cur[0] == l.push(text.last()));
                assert(join_lines(prev) == l);
                assert(text =~= t.push(text.last()));
            } else {
                assert(cur.drop_last() =~= prev.drop_last());
                assert(join_lines(prev) == join_lines(prev.drop_last()) + seq!['\n'] + l);
                assert(join_lines(cur) == join_lines(prev.drop_last()) + seq!['\n'] + l.push(
                    text.last(),
                ));
                assert(text =~= t.push(text.last()));
                assert(join_lines(cur) =~= join_lines(prev).push(text.last()));
            }
        }
    }
}

/// The lines of a prefix agree with the lines of the whole text: all but the
/// last are equal, and the last is a prefix of the corresponding whole line.
pub proof fn lemma_split_prefix(text: Seq<char>, p: int)
    requires
        0 <= p <= text.len(),
    ensures
        split_lines(text.take(p)).len() <= split_lines(text).len(),
        forall|i: int|
            0 <= i < split_lines(text.take(p)).len() - 1 ==> #[trigger] split_lines(text.take(p))[i]
                == split_lines(text)[i],
        split_lines(text.take(p)).last().len() <= split_lines(text)[split_lines(
            text.take(p),
        ).len() - 1].len(),
        split_lines(text.take(p)).last() == split_lines(text)[split_lines(text.take(p)).len()
            - 1].take(split_lines(text.take(p)).last().len() as int),
    decreases text.len(),
{
    lemma_split_wf(text.take(p));
    lemma_split_wf(text);
    if p == text.len() {
        assert(text.take(p) =~= text);
    } else {
        let t = text.drop_last();
        assert(t.take(p) =~= text.take(p));
        lemma_split_prefix(t, p);
        lemma_split_wf(t);
        let a = split_lines(text.take(p));
        let prev = split_lines(t);
        let cur = split_lines(text);
        let k = a.len() - 1;
        if text.last() == '\n' {
            assert(cur[k] == prev[k]);
        } else {
            if k < prev.len() - 1 {
                assert(cur[k] == prev[k]);
            } else {
                assert(cur[k] == prev[k].push(text.last()));
                assert(a.last() =~= cur[k].take(a.last().len() as int));
            }
            assert forall|i: int| 0 <= i < a.len() - 1 implies #[trigger] a[i] == cur[i] by {
                assert(a[i] == prev[i]);
            }
        }
    }
}

/// Joining one more line appends a separator and that line.
pub proof fn lemma_join_take_step(lines: Seq<Seq<char>>, r: int)
    requires
        1 <= r < lines.len(),
    ensures
        join_lines(lines.take(r + 1)) == join_lines(lines.take(r)) + seq!['\n'] + lines[r],
{
    assert(lines.take(r + 1).drop_last() =~= lines.take(r));
}

/// The text before row `r` is a prefix of the whole text, followed by a separator.
pub proof fn lemma_join_take_prefix(lines: Seq<Seq<char>>, r: int)
    requires
        1 <= r <= lines.len(),
    ensures
        join_lines(lines.take(r)).len() <= join_lines(lines).len(),
        join_lines(lines) .take(join_lines(lines.take(r)).len() as int) == join_lines(lines.take(r)),
        r < lines.len() ==> join_lines(lines)[join_lines(lines.take(r)).len() as int] == '\n',
        r < lines.len() ==> join_lines(lines).subrange(
            join_lines(lines.take(r)).len() + 1int,
            join_lines(lines.take(r)).len() + 1int + lines[r].len(),
        ) == lines[r],
    decreases lines.len() - r,
{
    if r == lines.len() {
        assert(lines.take(r) =~= lines);
        assert(join_lines(lines).take(join_lines(lines).len() as int) =~= join_lines(lines));
    } else {
        lemma_join_take_prefix(lines, r + 1);
        lemma_join_take_step(lines, r);
        let a = join_lines(lines.take(r));
        let b = join_lines(lines.take(r + 1));
        let all = join_lines(lines);
        assert(b == a + seq!['\n'] + lines[r]);
        assert(all.take(b.len() as int) == b);
        assert(all.take(a.len() as int) =~= b.take(a.len() as int));
        assert(b.take(a.len() as int) =~= a);
        assert(all[a.len() as int] == b[a.len() as int]);
        assert(all.subrange(a.len() + 1int, a.len() + 1int + lines[r].len()) =~= b.subrange(
            a.len() + 1int,
            b.len() as int,
        ));
    }
}

/// Offsets of valid positions lie within the text.
pub proof fn lemma_offset_bound(lines: Seq<Seq<char>>, row: int, col: int)
    requires
        0 <= row < lines.len(),
        0 <= col <= lines[row].len(),
    ensures
        0 <= offset_of(lines, row, col) <= join_lines(lines).len(),
        join_lines(lines).subrange(offset_of(lines, row, 0), offset_of(lines, row, 0)
            + lines[row].len()) == lines[row],
{
    if row == 0 {
        lemma_join_take_prefix(lines, 1);
        assert(lines.take(1) =~= seq![lines[0]]);
        assert(join_lines(lines).take(lines[0].len() as int) == lines[0]);
        assert(join_lines(lines).subrange(0, lines[0].len() as int) =~= join_lines(lines).take(
            lines[0].len() as int,
        ));
    } else {
        lemma_join_take_prefix(lines, row);
        lemma_join_take_prefix(lines, row + 1);
        lemma_join_take_step(lines, row);
    }
}

/// Positions in reading order have offsets in the same order.
pub proof fn lemma_offset_monotone(lines: Seq<Seq<char>>, r1: int, c1: int, r2: int, c2: int)
    requires
        0 <= r1 < lines.len(),
        0 <= r2 < lines.len(),
        0 <= c1 <= lines[r1].len(),
        0 <= c2 <= lines[r2].len(),
        r1 < r2 || (r1 == r2 && c1 <= c2),
    ensures
        offset_of(lines, r1, c1) <= offset_of(lines, r2, c2),
{
    if r1 < r2 {
        lemma_join_take_grows(lines, r1 + 1, r2);
        if r1 == 0 {
            assert(lines.take(1) =~= seq![lines[0]]);
        } else {
            lemma_join_take_step(lines, r1);
        }
    }
}

/// The joined prefix grows with the number of rows taken.
pub proof fn lemma_join_take_grows(lines: Seq<Seq<char>>, a: int, b: int)
    requires
        1 <= a <= b <= lines.len(),
    ensures
        join_lines(lines.take(a)).len() + (b - a) <= join_lines(lines.take(b)).len(),
    decreases b - a,
{
    if a < b {
        lemma_join_take_grows(lines, a, b - 1);
        lemma_join_take_step(lines, b - 1);
    }
}


proof fn lemma_split_plain(x: Seq<char>)
    requires
        no_newline(x),
    ensures
        split_lines(x) == seq![x],
    decreases x.len(),
{
    if x.len() > 0 {
        lemma_split_plain(x.drop_last());
        assert(x.drop_last().push(x.last()) =~= x);
        assert(seq![x.drop_last()].update(0, x.drop_last().push(x.last())) =~= seq![x]);
    } else {
        assert(x =~= Seq::<char>::empty());
    }
}

proof fn lemma_split_append_line(t: Seq<char>, x: Seq<char>)
    requires
        no_newline(x),
    ensures
        split_lines(t + seq!['\n'] + x) == split_lines(t).push(x),
    decreases x.len(),
{
    let u = t + seq!['\n'] + x;
    if x.len() == 0 {
        assert(u.drop_last() =~= t);
        assert(x =~= Seq::<char>::empty());
    } else {
        let x2 = x.drop_last();
        lemma_split_append_line(t, x2);
        assert(u.drop_last() =~= t + seq!['\n'] + x2);
        assert(u.last() == x.last());
        assert(x2.push(x.last()) =~= x);
        let prev = split_lines(t).push(x2);
        assert(prev.update(prev.len() - 1, prev.last().push(x.last())) =~= split_lines(t).push(x));
    }
}

/// Splitting the text that well-formed lines spell gives the lines back.
pub proof fn lemma_split_join(lines: Seq<Seq<char>>)
    requires
        lines_wf(lines),
    ensures
        split_lines(join_lines(lines)) == lines,
    decreases lines.len(),
{
    if lines.len() == 1 {
        lemma_split_plain(lines[0]);
        assert(seq![lines[0]] =~= lines);
    } else {
        let init = lines.drop_last();
        assert forall|i: int| 0 <= i < init.len() implies no_newline(#[trigger] init[i]) by {
            assert(init[i] == lines[i]);
        }
        lemma_split_join(init);
        lemma_split_append_line(join_lines(init), lines.last());
        assert(init.push(lines.last()) =~= lines);
    }
}

/// The text before a valid position spells the rows above it and the part of
/// its row before it.
pub proof fn lemma_text_before(lines: Seq<Seq<char>>, row: int, col: int)
    requires
        lines_wf(lines),
        0 <= row < lines.len(),
        0 <= col <= lines[row].len(),
    ensures
        join_lines(lines).take(offset_of(lines, row, col)) == join_lines(lines.take(row).push(lines[row].take(col))),
        row_at(join_lines(lines), offset_of(lines, row, col)) == row,
        col_at(join_lines(lines), offset_of(lines, row, col)) == col,
{
    let all = join_lines(lines);
    let l2 = lines.take(row).push(lines[row].take(col));
    if row == 0 {
        lemma_join_take_prefix(lines, 1);
        assert(lines.take(1) =~= seq![lines[0]]);
        assert(all.take(col) =~= lines[0].take(col)) by {
            assert(all.take(lines[0].len() as int) == lines[0]);
            assert(all.take(col) =~= all.take(lines[0].len() as int).take(col));
        }
        assert(l2 =~= seq![lines[0].take(col)]);
    } else {
        lemma_join_take_prefix(lines, row + 1);
        lemma_join_take_step(lines, row);
        let a = join_lines(lines.take(row));
        let b = join_lines(lines.take(row + 1));
        assert(b == a + seq!['\n'] + lines[row]);
        let off = offset_of(lines, row, col);
        assert(all.take(off) =~= b.take(off)) by {
            assert(all.take(b.len() as int) == b);
            assert(all.take(off) =~= all.take(b.len() as int).take(off));
        }
        assert(b.take(off) =~= a + seq!['\n'] + lines[row].take(col));
        assert(l2.drop_last() =~= lines.take(row));
        assert(l2.last() == lines[row].take(col));
    }
    assert forall|i: int| 0 <= i < l2.len() implies no_newline(#[trigger] l2[i]) by {
        if i < row {
            assert(l2[i] == lines[i]);
        } else {
            assert(l2[i] == lines[row].take(col));
            assert(no_newline(lines[row]));
        }
    }
    lemma_split_join(l2);
}

} // verus!
