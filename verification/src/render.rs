//! The terminal frame: the visible part of each content row, lint findings
//! underlined in red, the status line, and the cursor position, as the
//! escape sequences that draw them.

use vstd::prelude::*;

use crate::app::App;
use crate::lint::{finding_at, findings_visible, has_finding_at, message_at_cursor, message_at_cursor_spec, LintFinding};
use crate::buffer::{split_text, view_lines};
use crate::lines::split_lines;
use crate::screen::content_rows;
use crate::status::{decimal, push_chars, push_decimal, push_str};

verus! {

/// Moves the terminal cursor to the 1-based `row`, `col`.
pub open spec fn goto(row: nat, col: nat) -> Seq<char> {
    "\x1b["@ + decimal(row) + ";"@ + decimal(col) + "H"@
}

/// One scalar, underlined in red where a finding sits.
pub open spec fn cell(fs: Seq<LintFinding>, marked: bool, row: int, col: int, c: char) -> Seq<char> {
    if marked && finding_at(fs, row, col) {
        "\x1b[31;4m"@ + seq![c] + "\x1b[0m"@
    } else {
        seq![c]
    }
}

/// Scalars `from..to` of `line`, which is row `row`.
pub open spec fn cells(fs: Seq<LintFinding>, marked: bool, row: int, line: Seq<char>, from: int, to: int) -> Seq<char>
    decreases to - from,
{
    if from >= to {
        Seq::empty()
    } else {
        cells(fs, marked, row, line, from, to - 1) + cell(fs, marked, row, to - 1, line[to - 1])
    }
}

pub open spec fn min(a: int, b: int) -> int {
    if a < b {
        a
    } else {
        b
    }
}

/// The read-only text a surface shows in place of the buffer: help, the
/// autocomplete confirmation, a model proposal or explanation, or a
/// command's output.
pub open spec fn surface_text(app: &App) -> Option<Seq<char>> {
    match app.surfaces.help {
        Some(h) => Some(h.document@),
        None => match app.autocomplete.pending {
            Some(c) => Some(c.document@),
            None => match app.llm_preview {
                Some(p) => Some(p.preview_text@),
                None => match app.surfaces.llm_answer {
                    Some(a) => Some(a.text@),
                    None => match app.external_command.preview {
                        Some(p) => Some(p.shown@),
                        None => None,
                    },
                },
            },
        },
    }
}

/// The lines on screen: a surface's text, else the buffer.
pub open spec fn shown_lines(app: &App) -> Seq<Seq<char>> {
    match surface_text(app) {
        Some(t) => split_lines(t),
        None => app.buffer.lines(),
    }
}

/// Lint findings are drawn on the buffer only.
pub open spec fn marks_findings(app: &App) -> bool {
    surface_text(app) is None && findings_visible(app)
}

/// The visible part of screen row `r`.
pub open spec fn row_text(app: &App, r: int) -> Seq<char> {
    let lines = shown_lines(app);
    let row = app.screen.scroll_top + r;
    if row < lines.len() {
        let line = lines[row];
        let from = min(app.screen.scroll_left as int, line.len() as int);
        let to = min(line.len() as int, app.screen.scroll_left + app.screen.width);
        let marked = marks_findings(app);
        let fs = if marked { app.lint.results->0.findings@ } else { Seq::empty() };
        cells(fs, marked, row, line, from, to)
    } else {
        Seq::empty()
    }
}

/// Screen rows `0..k`, each positioned and cleared to its end.
pub open spec fn rows_text(app: &App, k: int) -> Seq<char>
    decreases k,
{
    if k <= 0 {
        Seq::empty()
    } else {
        rows_text(app, k - 1) + goto(k as nat, 1) + row_text(app, k - 1) + "\x1b[K"@
    }
}

/// A status message as shown: line breaks become `␊`.
pub open spec fn shown_message(m: Seq<char>) -> Seq<char> {
    m.map_values(|c: char| if c == '\n' { '\u{240a}' } else { c })
}

/// The status line: the message, else the finding under the cursor, else nothing.
pub open spec fn status_text(app: &App) -> Seq<char> {
    match app.message {
        Some(m) => shown_message(m@),
        None => match message_at_cursor_spec(app) {
            Some(t) => t,
            None => Seq::empty(),
        },
    }
}

/// 1-based screen position of a buffer coordinate scrolled by `offset`.
pub open spec fn screen_pos(pos: int, offset: int) -> nat {
    if pos >= offset {
        (pos - offset + 1) as nat
    } else {
        1
    }
}

/// The whole frame.
pub open spec fn frame(app: &App) -> Seq<char> {
    let c = app.buffer.view_cursor();
    rows_text(app, content_rows(app.screen)) + goto(app.screen.height as nat, 1) + status_text(app) + "\x1b[K"@
        + if surface_text(app) is Some {
        goto(1, 1)
    } else {
        goto(screen_pos(c.row as int, app.screen.scroll_top as int), screen_pos(c.col as int, app.screen.scroll_left as int))
    }
}

fn push_goto(out: &mut Vec<char>, row: u128, col: u128)
    ensures
        final(out)@ == old(out)@ + goto(row as nat, col as nat),
{
    let ghost start = out@;
    push_str(out, "\x1b[");
    push_decimal(out, row);
    push_str(out, ";");
    push_decimal(out, col);
    push_str(out, "H");
    proof {
        assert(out@ =~= start + goto(row as nat, col as nat));
    }
}

fn push_row(out: &mut Vec<char>, app: &App, lines: &Vec<Vec<char>>, r: usize)
    requires
        view_lines(lines@) == shown_lines(app),
    ensures
        final(out)@ == old(out)@ + row_text(app, r as int),
{
    let ghost start = out@;
    let row = app.screen.scroll_top as u128 + r as u128;
    if row >= lines.len() as u128 {
        return;
    }
    let row = app.screen.scroll_top + r;
    let line = &lines[row];
    let from = if app.screen.scroll_left < line.len() { app.screen.scroll_left } else { line.len() };
    let right = app.screen.scroll_left as u128 + app.screen.width as u128;
    let to = if (line.len() as u128) < right { line.len() } else { (app.screen.scroll_left + app.screen.width as usize) };
    let fs = if shows_buffer(app) { crate::lint::visible_findings(app) } else { None };
    let ghost marked = marks_findings(app);
    let ghost gfs = if marked { app.lint.results->0.findings@ } else { Seq::<LintFinding>::empty() };
    let mut k: usize = from;
    proof {
        assert(line@ == shown_lines(app)[row as int]);
    }
    while k < to
        invariant
            from <= k <= to <= line@.len(),
            out@ == start + cells(gfs, marked, row as int, line@, from as int, k as int),
            marked ==> fs == Some(&app.lint.results->0.findings),
            !marked ==> fs is None,
            gfs == (if marked { app.lint.results->0.findings@ } else { Seq::<LintFinding>::empty() }),
        decreases to - k,
    {
        let c = line[k];
        let hit = match fs {
            Some(v) => has_finding_at(v, row, k),
            None => false,
        };
        if hit {
            push_str(out, "\x1b[31;4m");
            out.push(c);
            push_str(out, "\x1b[0m");
        } else {
            out.push(c);
        }
        proof {
            assert(out@ =~= start + cells(gfs, marked, row as int, line@, from as int, k + 1));
        }
        k += 1;
    }
}

fn push_shown_message(out: &mut Vec<char>, m: &String)
    ensures
        final(out)@ == old(out)@ + shown_message(m@),
{
    let ghost start = out@;
    let chars = crate::text::chars_of(m.as_str());
    let mut i: usize = 0;
    while i < chars.len()
        invariant
            0 <= i <= chars@.len(),
            chars@ == m@,
            out@ == start + shown_message(m@.take(i as int)),
        decreases chars@.len() - i,
    {
        let c = chars[i];
        if c == '\n' {
            out.push('\u{240a}');
        } else {
            out.push(c);
        }
        i += 1;
        proof {
            assert(shown_message(m@.take(i as int)) =~= shown_message(m@.take(i - 1)).push(
                if c == '\n' { '\u{240a}' } else { c },
            ));
        }
    }
    proof {
        assert(m@.take(m@.len() as int) =~= m@);
    }
}

/// No surface covers the buffer.
fn shows_buffer(app: &App) -> (res: bool)
    ensures
        res == (surface_text(app) is None),
{
    app.surfaces.help.is_none() && app.autocomplete.pending.is_none() && app.llm_preview.is_none()
        && app.surfaces.llm_answer.is_none() && app.external_command.preview.is_none()
}

/// The content rows of the frame, drawn from `lines`.
fn push_rows(app: &App, lines: &Vec<Vec<char>>) -> (res: Vec<char>)
    requires
        view_lines(lines@) == shown_lines(app),
    ensures
        res@ == rows_text(app, content_rows(app.screen) as int),
{
    let mut out: Vec<char> = Vec::new();
    let rows = app.screen.visible_height();
    let mut r: usize = 0;
    while r < rows
        invariant
            view_lines(lines@) == shown_lines(app),
            rows == content_rows(app.screen),
            0 <= r <= rows,
            out@ == rows_text(app, r as int),
        decreases rows - r,
    {
        push_goto(&mut out, r as u128 + 1, 1);
        push_row(&mut out, app, lines, r);
        push_str(&mut out, "\x1b[K");
        r += 1;
    }
    out
}

/// The frame that draws `app`.
pub fn frame_chars(app: &App) -> (res: Vec<char>)
    requires
        app.buffer.wf(),
    ensures
        res@ == frame(app),
{
    let surface: Option<&Vec<char>> = match &app.surfaces.help {
        Some(h) => Some(&h.document),
        None => match &app.autocomplete.pending {
            Some(c) => Some(&c.document),
            None => match &app.llm_preview {
                Some(p) => Some(&p.preview_text),
                None => match &app.surfaces.llm_answer {
                    Some(a) => Some(&a.text),
                    None => match &app.external_command.preview {
                        Some(p) => Some(&p.shown),
                        None => None,
                    },
                },
            },
        },
    };
    let mut out: Vec<char> = match surface {
        Some(t) => {
            let (lines, _) = split_text(t, 0);
            push_rows(app, &lines)
        },
        None => push_rows(app, app.buffer.line_vec()),
    };
    let ghost before_status = out@;
    push_goto(&mut out, app.screen.height as u128, 1);
    let ghost status_start = out@;
    match &app.message {
        Some(m) => push_shown_message(&mut out, m),
        None => match message_at_cursor(app) {
            Some(t) => push_chars(&mut out, &t),
            None => {},
        },
    }
    proof {
        assert(out@ =~= status_start + status_text(app));
    }
    push_str(&mut out, "\x1b[K");
    if !shows_buffer(app) {
        push_goto(&mut out, 1, 1);
        proof {
            assert(out@ =~= frame(app));
        }
        return out;
    }
    let c = app.buffer.cursor();
    let cy: u128 = if c.row >= app.screen.scroll_top { (c.row - app.screen.scroll_top) as u128 + 1 } else { 1 };
    let cx: u128 = if c.col >= app.screen.scroll_left { (c.col - app.screen.scroll_left) as u128 + 1 } else { 1 };
    push_goto(&mut out, cy, cx);
    proof {
        assert(out@ =~= frame(app));
    }
    out
}

/// The frame that draws `app`, as text.
pub fn render(app: &App) -> (res: String)
    requires
        app.buffer.wf(),
    ensures
        res@ == frame(app),
{
    let chars = frame_chars(app);
    crate::text::string_of(&chars)
}

} // verus!
