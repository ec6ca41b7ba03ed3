//! Linter findings: parsing `file:line:col: message` output, and keeping
//! results only while they describe the exact buffer they were made for.

use vstd::prelude::*;

use crate::app::App;
use crate::lines::split_lines;
use crate::status::{decimal, push_chars, push_decimal, push_str};

verus! {

/// One finding at a 0-based position of the buffer.
pub struct LintFinding {
    pub row: usize,
    pub col: usize,
    pub message: String,
}

/// Findings bound to the path, buffer and content generation they describe.
pub struct LintResults {
    pub source: String,
    pub buffer_id: u64,
    pub content_generation: u64,
    pub findings: Vec<LintFinding>,
}

/// A linter that was started for the active buffer, and what its findings
/// must still match to be installed.
pub struct LintRun {
    pub source: String,
    pub absolute: String,
    pub buffer_id: u64,
    pub content_generation: u64,
}

pub struct LintState {
    pub results: Option<LintResults>,
    pub running: Option<LintRun>,
}

impl LintState {
    pub fn new() -> (res: LintState)
        ensures
            res.results is None,
            res.running is None,
    {
        LintState { results: None, running: None }
    }
}

/// The command that lints files with one extension; `{file}` stands for the file.
pub struct LinterCommand {
    pub extension: String,
    pub template: String,
}

pub struct LinterConfig {
    pub commands: Vec<LinterCommand>,
}

/// How a linter run ended.
pub enum LinterResult {
    Finished { output: String, code: Option<i32> },
    Cancelled,
    Failed(String),
}

/// A location and message read from one line of linter output (1-based).
pub struct ParsedFinding {
    pub file: String,
    pub line: usize,
    pub col: usize,
    pub message: String,
}

/// Unicode `White_Space`, the property `str::trim` strips.
pub open spec fn white_space(c: char) -> bool {
    let u = c as u32;
    (0x9 <= u && u <= 0xd) || u == 0x20 || u == 0x85 || u == 0xa0 || u == 0x1680 || (0x2000 <= u && u <= 0x200a)
        || u == 0x2028 || u == 0x2029 || u == 0x202f || u == 0x205f || u == 0x3000
}

pub fn is_white_space(c: char) -> (res: bool)
    ensures
        res == white_space(c),
{
    let u = c as u32;
    (0x9 <= u && u <= 0xd) || u == 0x20 || u == 0x85 || u == 0xa0 || u == 0x1680 || (0x2000 <= u && u <= 0x200a)
        || u == 0x2028 || u == 0x2029 || u == 0x202f || u == 0x205f || u == 0x3000
}

/// Leading white space count.
pub open spec fn lead_ws(s: Seq<char>) -> nat
    decreases s.len(),
{
    if s.len() > 0 && white_space(s[0]) {
        1 + lead_ws(s.drop_first())
    } else {
        0
    }
}

/// Trailing white space count.
pub open spec fn trail_ws(s: Seq<char>) -> nat
    decreases s.len(),
{
    if s.len() > 0 && white_space(s.last()) {
        1 + trail_ws(s.drop_last())
    } else {
        0
    }
}

/// `s` without leading and trailing white space.
pub open spec fn trim(s: Seq<char>) -> Seq<char> {
    let t = s.skip(lead_ws(s) as int);
    t.take(t.len() - trail_ws(t))
}

/// The value of a decimal digit string with an optional leading `+`, if it fits in `usize`.
pub open spec fn digits_value(s: Seq<char>) -> nat
    decreases s.len(),
{
    if s.len() == 0 {
        0
    } else {
        digits_value(s.drop_last()) * 10 + ((s.last() as u32) - ('0' as u32)) as nat
    }
}

pub open spec fn all_digits(s: Seq<char>) -> bool {
    forall|i: int| 0 <= i < s.len() ==> '0' <= #[trigger] s[i] && s[i] <= '9'
}

/// What `str::parse::<usize>` accepts: an optional `+`, then at least one digit.
pub open spec fn parse_usize_spec(s: Seq<char>) -> Option<nat> {
    let d = if s.len() > 0 && s[0] == '+' { s.drop_first() } else { s };
    if d.len() > 0 && all_digits(d) && digits_value(d) <= usize::MAX {
        Some(digits_value(d))
    } else {
        None
    }
}

/// Index of the first `c` at or after `from`, or `s.len()` when there is none.
pub open spec fn find_from(s: Seq<char>, c: char, from: int) -> int
    decreases s.len() - from,
{
    if from >= s.len() {
        s.len() as int
    } else if s[from] == c {
        from
    } else {
        find_from(s, c, from + 1)
    }
}

/// `root` joined with a relative `file`, as a Unix path.
pub open spec fn join_path(root: Seq<char>, file: Seq<char>) -> Seq<char> {
    if file.len() > 0 && file[0] == '/' {
        file
    } else if root.len() == 0 {
        file
    } else if root.last() == '/' {
        root + file
    } else {
        root + seq!['/'] + file
    }
}

/// A parsed finding as plain values: path, line, column, message.
pub struct FindingView {
    pub file: Seq<char>,
    pub line: nat,
    pub col: nat,
    pub message: Seq<char>,
}

/// One output line read as `file:line:col:message`, each field trimmed; the
/// message may hold further colons. Empty fields and zero coordinates are refused.
pub open spec fn parse_line_spec(line: Seq<char>, root: Seq<char>) -> Option<FindingView> {
    let c1 = find_from(line, ':', 0);
    let c2 = find_from(line, ':', c1 + 1);
    let c3 = find_from(line, ':', c2 + 1);
    if c3 >= line.len() {
        None
    } else {
        let file = trim(line.subrange(0, c1));
        let l = parse_usize_spec(trim(line.subrange(c1 + 1, c2)));
        let c = parse_usize_spec(trim(line.subrange(c2 + 1, c3)));
        let message = trim(line.subrange(c3 + 1, line.len() as int));
        if l is None || c is None {
            None
        } else if file.len() == 0 || l->0 == 0 || c->0 == 0 || message.len() == 0 {
            None
        } else {
            Some(FindingView { file: join_path(root, file), line: l->0, col: c->0, message })
        }
    }
}

/// A line without one trailing carriage return.
pub open spec fn strip_cr(s: Seq<char>) -> Seq<char> {
    if s.len() > 0 && s.last() == '\r' {
        s.drop_last()
    } else {
        s
    }
}

/// The lines `str::lines` yields: pieces between '\n', one trailing '\r'
/// removed from each, and no empty piece after a final '\n'.
pub open spec fn text_lines(s: Seq<char>) -> Seq<Seq<char>> {
    let parts = split_lines(s);
    let kept = if s.len() == 0 || s.last() == '\n' { parts.drop_last() } else { parts };
    kept.map_values(|p: Seq<char>| strip_cr(p))
}

/// The findings of each line that parses, in order.
pub open spec fn parse_lines_spec(ls: Seq<Seq<char>>, root: Seq<char>) -> Seq<FindingView>
    decreases ls.len(),
{
    if ls.len() == 0 {
        Seq::empty()
    } else {
        let prev = parse_lines_spec(ls.drop_last(), root);
        match parse_line_spec(ls.last(), root) {
            Some(f) => prev.push(f),
            None => prev,
        }
    }
}

pub open spec fn finding_view(f: ParsedFinding) -> FindingView {
    FindingView { file: f.file@, line: f.line as nat, col: f.col as nat, message: f.message@ }
}

pub fn trim_range(s: &Vec<char>, from: usize, to: usize) -> (res: Vec<char>)
    requires
        from <= to <= s@.len(),
    ensures
        res@ == trim(s@.subrange(from as int, to as int)),
{
    let ghost sub = s@.subrange(from as int, to as int);
    let mut a: usize = from;
    proof {
        assert(sub.skip(0) =~= sub);
    }
    while a < to && is_white_space(s[a])
        invariant
            from <= a <= to <= s@.len(),
            sub == s@.subrange(from as int, to as int),
            lead_ws(sub) == (a - from) + lead_ws(sub.skip(a - from)),
        decreases to - a,
    {
        proof {
            assert(sub.skip(a - from).drop_first() =~= sub.skip(a - from + 1));
            assert(sub.skip(a - from)[0] == s@[a as int]);
        }
        a += 1;
    }
    proof {
        if a < to {
            assert(sub.skip(a - from)[0] == s@[a as int]);
        }
    }
    let ghost t = sub.skip(a - from);
    let mut b: usize = to;
    proof {
        assert(t.take(t.len() as int) =~= t);
    }
    while b > a && is_white_space(s[b - 1])
        invariant
            from <= a <= b <= to <= s@.len(),
            t == s@.subrange(a as int, to as int),
            trail_ws(t) == (to - b) + trail_ws(t.take(b - a)),
        decreases b,
    {
        proof {
            assert(t.take(b - a).drop_last() =~= t.take(b - a - 1));
            assert(t.take(b - a).last() == s@[b - 1]);
        }
        b -= 1;
    }
    proof {
        if b > a {
            assert(t.take(b - a).last() == s@[b - 1]);
        }
        assert(t =~= s@.subrange(a as int, to as int));
    }
    let mut out: Vec<char> = Vec::new();
    let mut k: usize = a;
    while k < b
        invariant
            a <= k <= b <= s@.len(),
            out@ == s@.subrange(a as int, k as int),
        decreases b - k,
    {
        out.push(s[k]);
        k += 1;
        proof {
            assert(s@.subrange(a as int, k as int) =~= s@.subrange(a as int, k - 1).push(s@[k - 1]));
        }
    }
    proof {
        assert(t.take(t.len() - trail_ws(t)) =~= s@.subrange(a as int, b as int));
    }
    out
}

/// What `str::parse::<usize>` gives for `s`.
pub fn parse_usize(s: &Vec<char>) -> (res: Option<usize>)
    ensures
        res matches Some(v) ==> parse_usize_spec(s@) == Some(v as nat),
        res is None ==> parse_usize_spec(s@) is None,
{
    let start: usize = if s.len() > 0 && s[0] == '+' { 1 } else { 0 };
    let ghost d = if s@.len() > 0 && s@[0] == '+' { s@.drop_first() } else { s@ };
    proof {
        assert(d =~= s@.skip(start as int));
    }
    if start >= s.len() {
        return None;
    }
    let mut value: usize = 0;
    let mut i: usize = start;
    proof {
        assert(d.take(0) =~= Seq::<char>::empty());
    }
    while i < s.len()
        invariant
            start <= i <= s@.len(),
            start < s@.len(),
            d =~= s@.skip(start as int),
            d == (if s@.len() > 0 && s@[0] == '+' { s@.drop_first() } else { s@ }),
            all_digits(d.take(i - start)),
            value == digits_value(d.take(i - start)),
        decreases s@.len() - i,
    {
        let c = s[i];
        proof {
            assert(d.take(i - start + 1).drop_last() =~= d.take(i - start));
            assert(d.take(i - start + 1).last() == c);
        }
        if c < '0' || c > '9' {
            proof {
                assert(d[i - start] == c);
                assert(!all_digits(d));
            }
            return None;
        }
        let digit: usize = ((c as u32) - ('0' as u32)) as usize;
        if value > (usize::MAX - digit) / 10 {
            proof {
                if all_digits(d) {
                    lemma_digits_prefix_grows(d, i - start + 1);
                }
                assert(digits_value(d.take(i - start + 1)) == value * 10 + digit) by (nonlinear_arith)
                    requires
                        digits_value(d.take(i - start + 1)) == digits_value(d.take(i - start)) * 10 + digit,
                        value == digits_value(d.take(i - start)),
                ;
                assert(value * 10 + digit > usize::MAX) by (nonlinear_arith)
                    requires
                        value > (usize::MAX - digit) / 10,
                        digit <= 9,
                ;
            }
            return None;
        }
        proof {
            assert(value * 10 + digit <= usize::MAX) by (nonlinear_arith)
                requires
                    value <= (usize::MAX - digit) / 10,
                    digit <= 9,
            ;
        }
        value = value * 10 + digit;
        i += 1;
    }
    proof {
        assert(d.take(d.len() as int) =~= d);
    }
    Some(value)
}

/// A longer digit prefix never has a smaller value.
proof fn lemma_digits_prefix_grows(d: Seq<char>, k: int)
    requires
        0 <= k <= d.len(),
        all_digits(d),
    ensures
        digits_value(d.take(k)) <= digits_value(d),
    decreases d.len() - k,
{
    if k < d.len() {
        lemma_digits_prefix_grows(d, k + 1);
        assert(d.take(k + 1).drop_last() =~= d.take(k));
        assert(d.take(k + 1).last() == d[k]);
    } else {
        assert(d.take(k) =~= d);
    }
}

/// The index of the first `c` at or after `from`, or the length.
fn find_char(s: &Vec<char>, c: char, from: usize) -> (res: usize)
    requires
        from <= s@.len(),
    ensures
        res == find_from(s@, c, from as int),
        from <= res <= s@.len(),
{
    let mut i: usize = from;
    while i < s.len() && s[i] != c
        invariant
            from <= i <= s@.len(),
            find_from(s@, c, from as int) == find_from(s@, c, i as int),
        decreases s@.len() - i,
    {
        i += 1;
    }
    i
}

/// Every parsed finding has positive coordinates.
proof fn lemma_findings_positive(ls: Seq<Seq<char>>, root: Seq<char>)
    ensures
        forall|j: int| 0 <= j < parse_lines_spec(ls, root).len() ==> (#[trigger] parse_lines_spec(ls, root)[j]).line >= 1
            && parse_lines_spec(ls, root)[j].col >= 1,
    decreases ls.len(),
{
    if ls.len() > 0 {
        lemma_findings_positive(ls.drop_last(), root);
        let prev = parse_lines_spec(ls.drop_last(), root);
        match parse_line_spec(ls.last(), root) {
            Some(f) => {
                assert(f.line >= 1 && f.col >= 1);
                assert forall|j: int| 0 <= j < prev.push(f).len() implies (#[trigger] prev.push(f)[j]).line >= 1 && prev.push(
                    f,
                )[j].col >= 1 by {
                    if j < prev.len() {
                        assert(prev.push(f)[j] == prev[j]);
                    }
                }
            },
            None => {},
        }
    }
}

/// `root` joined with `file`.
fn join(root: &Vec<char>, file: Vec<char>) -> (res: Vec<char>)
    ensures
        res@ == join_path(root@, file@),
{
    if file.len() > 0 && file[0] == '/' {
        file
    } else if root.len() == 0 {
        file
    } else {
        let mut out: Vec<char> = Vec::new();
        push_chars(&mut out, root);
        if root[root.len() - 1] != '/' {
            out.push('/');
        }
        push_chars(&mut out, &file);
        proof {
            if root@.last() == '/' {
                assert(out@ =~= root@ + file@);
            } else {
                assert(out@ =~= root@ + seq!['/'] + file@);
            }
        }
        out
    }
}

/// One line of linter output as a finding, if it is one.
pub fn parse_common_line(line: &Vec<char>, root: &Vec<char>) -> (res: Option<ParsedFinding>)
    ensures
        res matches Some(f) ==> parse_line_spec(line@, root@) == Some(finding_view(f)),
        res is None ==> parse_line_spec(line@, root@) is None,
{
    let c1 = find_char(line, ':', 0);
    if c1 >= line.len() {
        return None;
    }
    let c2 = find_char(line, ':', c1 + 1);
    if c2 >= line.len() {
        return None;
    }
    let c3 = find_char(line, ':', c2 + 1);
    if c3 >= line.len() {
        return None;
    }
    let file = trim_range(line, 0, c1);
    let line_field = trim_range(line, c1 + 1, c2);
    let col_field = trim_range(line, c2 + 1, c3);
    let message = trim_range(line, c3 + 1, line.len());
    let l = match parse_usize(&line_field) {
        Some(v) => v,
        None => return None,
    };
    let c = match parse_usize(&col_field) {
        Some(v) => v,
        None => return None,
    };
    if file.len() == 0 || l == 0 || c == 0 || message.len() == 0 {
        return None;
    }
    let path = join(root, file);
    Some(ParsedFinding {
        file: crate::text::string_of(&path),
        line: l,
        col: c,
        message: crate::text::string_of(&message),
    })
}

/// Splits text as `str::lines` does.
fn split_text_lines(s: &Vec<char>) -> (res: Vec<Vec<char>>)
    ensures
        crate::buffer::view_lines(res@) == text_lines(s@),
{
    let (pieces, _c) = crate::buffer::split_text(s, 0);
    proof {
        crate::lines::lemma_split_wf(s@);
    }
    let mut out: Vec<Vec<char>> = Vec::new();
    let keep = if s.len() == 0 || s[s.len() - 1] == '\n' { pieces.len() - 1 } else { pieces.len() };
    let ghost parts = split_lines(s@);
    proof {
        crate::lines::lemma_split_wf(s@);
    }
    let mut i: usize = 0;
    while i < keep
        invariant
            parts == split_lines(s@),
            crate::buffer::view_lines(pieces@) == parts,
            keep <= pieces@.len(),
            keep == (if s@.len() == 0 || s@.last() == '\n' { parts.len() - 1 } else { parts.len() as int }),
            0 <= i <= keep,
            out@.len() == i,
            forall|k: int| 0 <= k < i ==> (#[trigger] out@[k])@ == strip_cr(parts[k]),
        decreases keep - i,
    {
        let p = &pieces[i];
        let mut piece: Vec<char> = Vec::new();
        let n = if p.len() > 0 && p[p.len() - 1] == '\r' { p.len() - 1 } else { p.len() };
        let mut k: usize = 0;
        while k < n
            invariant
                n <= p@.len(),
                0 <= k <= n,
                piece@ == p@.take(k as int),
            decreases n - k,
        {
            piece.push(p[k]);
            k += 1;
            proof {
                assert(p@.take(k as int) =~= p@.take(k - 1).push(p@[k - 1]));
            }
        }
        proof {
            assert(parts[i as int] == p@);
            if p@.len() > 0 && p@.last() == '\r' {
                assert(piece@ =~= p@.drop_last());
            } else {
                assert(piece@ =~= p@);
            }
        }
        out.push(piece);
        i += 1;
    }
    proof {
        let kept = if s@.len() == 0 || s@.last() == '\n' { parts.drop_last() } else { parts };
        assert(crate::buffer::view_lines(out@) =~= kept.map_values(|p: Seq<char>| strip_cr(p)));
    }
    out
}

/// The findings of every line of `output` that parses, in order; relative
/// paths are taken from `root`.
pub fn parse_common_output(output: &str, root: &str) -> (res: Vec<ParsedFinding>)
    ensures
        res@.map_values(|f: ParsedFinding| finding_view(f)) == parse_lines_spec(text_lines(output@), root@),
{
    let text = crate::text::chars_of(output);
    let root_chars = crate::text::chars_of(root);
    let ls = split_text_lines(&text);
    let ghost lv = text_lines(output@);
    let mut out: Vec<ParsedFinding> = Vec::new();
    let mut i: usize = 0;
    proof {
        assert(lv.take(0) =~= Seq::<Seq<char>>::empty());
        assert(out@.map_values(|f: ParsedFinding| finding_view(f)) =~= Seq::<FindingView>::empty());
    }
    while i < ls.len()
        invariant
            lv == text_lines(output@),
            crate::buffer::view_lines(ls@) == lv,
            root_chars@ == root@,
            0 <= i <= ls@.len(),
            out@.map_values(|f: ParsedFinding| finding_view(f)) == parse_lines_spec(lv.take(i as int), root@),
        decreases ls@.len() - i,
    {
        let ghost before = out@;
        proof {
            assert(lv.take(i + 1).drop_last() =~= lv.take(i as int));
            assert(lv.take(i + 1).last() == ls@[i as int]@);
        }
        match parse_common_line(&ls[i], &root_chars) {
            Some(f) => {
                out.push(f);
                proof {
                    assert(out@.map_values(|f: ParsedFinding| finding_view(f)) =~= before.map_values(
                        |f: ParsedFinding| finding_view(f),
                    ).push(finding_view(out@.last())));
                }
            },
            None => {},
        }
        i += 1;
    }
    proof {
        assert(lv.take(lv.len() as int) =~= lv);
    }
    out
}

/// The findings shown for the active buffer: only those made for its exact
/// path, buffer and content generation.
pub open spec fn findings_visible(app: &App) -> bool {
    app.lint.results matches Some(r) && app.file.path matches Some(p) && r.source@ == p@ && r.buffer_id
        == app.file.buffer_id && r.content_generation == app.file.content_generation
}

pub fn visible_findings(app: &App) -> (res: Option<&Vec<LintFinding>>)
    ensures
        findings_visible(app) ==> res == Some(&app.lint.results->0.findings),
        !findings_visible(app) ==> res is None,
{
    match &app.lint.results {
        Some(r) => match &app.file.path {
            Some(p) => {
                if r.source == *p && r.buffer_id == app.file.buffer_id && r.content_generation
                    == app.file.content_generation {
                    Some(&r.findings)
                } else {
                    None
                }
            },
            None => None,
        },
        None => None,
    }
}

/// Whether some finding sits at `row`, `col`.
pub open spec fn finding_at(fs: Seq<LintFinding>, row: int, col: int) -> bool {
    exists|i: int| 0 <= i < fs.len() && fs[i].row == row && fs[i].col == col
}

/// The first finding at `row`, `col`, if any.
pub open spec fn first_finding_at(fs: Seq<LintFinding>, row: int, col: int) -> Option<int>
    decreases fs.len(),
{
    if fs.len() == 0 {
        None
    } else {
        match first_finding_at(fs.drop_last(), row, col) {
            Some(i) => Some(i),
            None => if fs.last().row == row && fs.last().col == col {
                Some(fs.len() - 1)
            } else {
                None
            },
        }
    }
}

pub fn has_finding_at(fs: &Vec<LintFinding>, row: usize, col: usize) -> (res: bool)
    ensures
        res == finding_at(fs@, row as int, col as int),
{
    let mut i: usize = 0;
    while i < fs.len()
        invariant
            0 <= i <= fs@.len(),
            forall|j: int| 0 <= j < i ==> !(fs@[j].row == row && fs@[j].col == col),
        decreases fs@.len() - i,
    {
        if fs[i].row == row && fs[i].col == col {
            return true;
        }
        i += 1;
    }
    false
}

fn first_at(fs: &Vec<LintFinding>, row: usize, col: usize) -> (res: Option<usize>)
    ensures
        res matches Some(i) ==> first_finding_at(fs@, row as int, col as int) == Some(i as int) && i < fs@.len(),
        res is None ==> first_finding_at(fs@, row as int, col as int) is None,
{
    let mut i: usize = 0;
    proof {
        assert(fs@.take(0) =~= Seq::<LintFinding>::empty());
    }
    while i < fs.len()
        invariant
            0 <= i <= fs@.len(),
            first_finding_at(fs@.take(i as int), row as int, col as int) is None,
        decreases fs@.len() - i,
    {
        proof {
            assert(fs@.take(i + 1).drop_last() =~= fs@.take(i as int));
        }
        if fs[i].row == row && fs[i].col == col {
            proof {
                lemma_first_extends(fs@, i + 1, row as int, col as int);
            }
            return Some(i);
        }
        i += 1;
    }
    proof {
        assert(fs@.take(fs@.len() as int) =~= fs@);
    }
    None
}

/// A first match found in a prefix stays the first match of the whole list.
proof fn lemma_first_extends(fs: Seq<LintFinding>, k: int, row: int, col: int)
    requires
        0 <= k <= fs.len(),
        first_finding_at(fs.take(k), row, col) is Some,
    ensures
        first_finding_at(fs, row, col) == first_finding_at(fs.take(k), row, col),
    decreases fs.len() - k,
{
    if k < fs.len() {
        assert(fs.take(k + 1).drop_last() =~= fs.take(k));
        lemma_first_extends(fs, k + 1, row, col);
    } else {
        assert(fs.take(k) =~= fs);
    }
}

/// `Lint {line}:{col}: {message}`, 1-based.
pub open spec fn finding_message(f: LintFinding) -> Seq<char> {
    "Lint "@ + decimal(f.row as nat + 1) + ":"@ + decimal(f.col as nat + 1) + ": "@ + f.message@
}

/// The message of the first visible finding under the cursor.
pub open spec fn message_at_cursor_spec(app: &App) -> Option<Seq<char>> {
    if findings_visible(app) {
        let fs = app.lint.results->0.findings@;
        let c = app.buffer.view_cursor();
        match first_finding_at(fs, c.row as int, c.col as int) {
            Some(i) => Some(finding_message(fs[i])),
            None => None,
        }
    } else {
        None
    }
}

pub fn message_at_cursor(app: &App) -> (res: Option<Vec<char>>)
    ensures
        res matches Some(m) ==> message_at_cursor_spec(app) == Some(m@),
        res is None ==> message_at_cursor_spec(app) is None,
{
    let fs = match visible_findings(app) {
        Some(fs) => fs,
        None => return None,
    };
    let c = app.buffer.cursor();
    match first_at(fs, c.row, c.col) {
        Some(i) => {
            let f = &fs[i];
            let mut out: Vec<char> = Vec::new();
            push_str(&mut out, "Lint ");
            push_decimal(&mut out, f.row as u128 + 1);
            push_str(&mut out, ":");
            push_decimal(&mut out, f.col as u128 + 1);
            push_str(&mut out, ": ");
            let m = crate::text::chars_of(f.message.as_str());
            push_chars(&mut out, &m);
            proof {
                assert(out@ =~= finding_message(fs@[i as int]));
            }
            Some(out)
        },
        None => None,
    }
}

/// Findings describe one content generation of one buffer: once a content
/// edit has moved the generation on, they are no longer shown.
pub proof fn edit_hides_findings(before: &App, after: &App)
    requires
        after.lint == before.lint,
        after.file.content_generation == crate::input::next_gen(before.file.content_generation),
    ensures
        !(findings_visible(before) && findings_visible(after)),
{
}

/// The last position of `c` in `s`, or -1.
pub open spec fn rfind(s: Seq<char>, c: char) -> int
    decreases s.len(),
{
    if s.len() == 0 {
        -1
    } else if s.last() == c {
        s.len() - 1
    } else {
        rfind(s.drop_last(), c)
    }
}

/// The extension of a path's last component: what follows its last dot,
/// unless the name has no dot but a leading one or is `..`.
pub open spec fn extension_of(path: Seq<char>) -> Option<Seq<char>> {
    let name = path.skip(rfind(path, '/') + 1);
    let dot = rfind(name, '.');
    if name == ".."@ || dot <= 0 {
        None
    } else {
        Some(name.skip(dot + 1))
    }
}

fn rfind_exec(s: &Vec<char>, c: char) -> (res: usize)
    ensures
        rfind(s@, c) == -1 ==> res == s@.len(),
        rfind(s@, c) >= 0 ==> res == rfind(s@, c),
        -1 <= rfind(s@, c) < s@.len(),
{
    let mut k: usize = s.len();
    proof {
        assert(s@.take(k as int) =~= s@);
    }
    while k > 0 && s[k - 1] != c
        invariant
            0 <= k <= s@.len(),
            rfind(s@, c) == rfind(s@.take(k as int), c),
        decreases k,
    {
        proof {
            assert(s@.take(k as int).drop_last() =~= s@.take(k - 1));
            assert(s@.take(k as int).last() == s@[k - 1]);
        }
        k -= 1;
    }
    proof {
        if k > 0 {
            assert(s@.take(k as int).last() == s@[k - 1]);
        }
        lemma_rfind_bound(s@, c);
    }
    if k == 0 {
        s.len()
    } else {
        k - 1
    }
}

proof fn lemma_rfind_bound(s: Seq<char>, c: char)
    ensures
        -1 <= rfind(s, c) < s.len(),
        rfind(s, c) >= 0 ==> s[rfind(s, c)] == c,
    decreases s.len(),
{
    if s.len() > 0 && s.last() != c {
        lemma_rfind_bound(s.drop_last(), c);
    }
}

pub fn extension(path: &Vec<char>) -> (res: Option<Vec<char>>)
    ensures
        res matches Some(e) ==> extension_of(path@) == Some(e@),
        res is None ==> extension_of(path@) is None,
{
    let slash = rfind_exec(path, '/');
    let start: usize = if slash == path.len() { 0 } else { slash + 1 };
    let name = crate::autocomplete::subrange_chars(path, start, path.len());
    proof {
        lemma_rfind_bound(path@, '/');
        assert(name@ =~= path@.skip(rfind(path@, '/') + 1));
    }
    let dot = rfind_exec(&name, '.');
    proof {
        lemma_rfind_bound(name@, '.');
        reveal_strlit("..");
    }
    let is_parent = name.len() == 2 && name[0] == '.' && name[1] == '.';
    proof {
        assert(is_parent == (name@ == ".."@)) by {
            if name@.len() == 2 && name@[0] == '.' && name@[1] == '.' {
                assert(name@ =~= ".."@);
            }
        }
    }
    if is_parent || dot == name.len() || dot == 0 {
        return None;
    }
    let e = crate::autocomplete::subrange_chars(&name, dot + 1, name.len());
    proof {
        assert(e@ =~= name@.skip(rfind(name@, '.') + 1));
    }
    Some(e)
}

/// The findings among `fs` that are about `file`.
pub open spec fn own_findings(fs: Seq<FindingView>, file: Seq<char>) -> Seq<FindingView>
    decreases fs.len(),
{
    if fs.len() == 0 {
        Seq::empty()
    } else {
        let prev = own_findings(fs.drop_last(), file);
        if fs.last().file == file {
            prev.push(fs.last())
        } else {
            prev
        }
    }
}

/// A finding at its 1-based position.
pub open spec fn installed_view(f: LintFinding) -> FindingView {
    FindingView { file: Seq::empty(), line: f.row as nat + 1, col: f.col as nat + 1, message: f.message@ }
}

/// What the status line says when a linter finished.
pub open spec fn finish_text(file: Seq<char>, count: nat, code: Option<i32>) -> Seq<char> {
    if count > 0 {
        "Lint for "@ + file + " finished with "@ + decimal(count) + " diagnostic(s). Use :dnext or :diagnostics."@
    } else if code == Some(0i32) {
        "Lint clean for "@ + file + ": no diagnostics."@
    } else {
        "Linter for "@ + file + " exited "@ + (match code {
            Some(c) => "with code "@ + (if c < 0 { "-"@ + decimal((0 - c) as nat) } else { decimal(c as nat) }),
            None => "by signal"@,
        }) + " without parseable diagnostics."@
    }
}

/// Starts linting the active buffer with the command configured for its
/// extension, run on its absolute path (relative paths are taken from
/// `cwd`). A dirty or untitled buffer, or one without a configured
/// linter, starts nothing and says why. Returns the command to run.
pub fn start_with_config(app: &mut App, config: &LinterConfig, cwd: &str) -> (res: Option<String>)
    ensures
        final(app).buffer == old(app).buffer,
        final(app).file == old(app).file,
        res is None ==> final(app).lint.results == old(app).lint.results,
        res is Some ==> final(app).lint.results is None,
        old(app).file.dirty ==> res is None && final(app).lint.running == old(app).lint.running && (final(app).message matches Some(m)
            && m@ == "Save the active buffer before linting it."@),
        !old(app).file.dirty && old(app).file.path is None ==> res is None && final(app).lint.running
            == old(app).lint.running && (final(app).message matches Some(m)
            && m@ == "Save the active buffer to a file before linting it."@),
        !old(app).file.dirty && (old(app).file.path matches Some(p) && extension_of(p@) is None) ==> res is None
            && final(app).lint.running == old(app).lint.running && (final(app).message matches Some(m)
            && m@ == "No linter is configured for a file without an extension."@),
        res matches Some(command) ==> {
            &&& !old(app).file.dirty
            &&& old(app).file.path matches Some(p)
            &&& extension_of(p@) matches Some(ext)
            &&& exists|k: int| 0 <= k < config.commands@.len() && config.commands@[k].extension@ == ext
                && command@ == crate::external_command::substitute_file(
                config.commands@[k].template@,
                crate::external_command::shell_quote(join_path(cwd@, p@)),
            )
            &&& final(app).lint.running matches Some(r)
            &&& r.source == p && r.absolute@ == join_path(cwd@, p@) && r.buffer_id == old(app).file.buffer_id
                && r.content_generation == old(app).file.content_generation
        },
        res is None && !old(app).file.dirty && old(app).file.path is Some && extension_of(old(app).file.path->0@) is Some
            ==> forall|k: int| 0 <= k < config.commands@.len() ==> config.commands@[k].extension@ != extension_of(
            old(app).file.path->0@,
        )->0,
{
    if app.file.dirty {
        app.message_info(String::from_str("Save the active buffer before linting it."));
        return None;
    }
    let path = match &app.file.path {
        Some(p) => p.clone(),
        None => {
            app.message_info(String::from_str("Save the active buffer to a file before linting it."));
            return None;
        },
    };
    let path_chars = crate::text::chars_of(path.as_str());
    let ext = match extension(&path_chars) {
        Some(e) => e,
        None => {
            app.message_info(String::from_str("No linter is configured for a file without an extension."));
            return None;
        },
    };
    let mut k: usize = 0;
    while k < config.commands.len() && !crate::buffer::chars_equal(
        &crate::text::chars_of(config.commands[k].extension.as_str()),
        &ext,
    )
        invariant
            0 <= k <= config.commands@.len(),
            forall|j: int| 0 <= j < k ==> config.commands@[j].extension@ != ext@,
        decreases config.commands@.len() - k,
    {
        k += 1;
    }
    if k == config.commands.len() {
        let mut m: Vec<char> = Vec::new();
        push_str(&mut m, "No linter configured for .");
        push_chars(&mut m, &ext);
        push_str(&mut m, ".");
        app.message_info(crate::text::string_of(&m));
        return None;
    }
    let index = k;
    let cwd_chars = crate::text::chars_of(cwd);
    let absolute = join_chars(&cwd_chars, &path_chars);
    let quoted = crate::external_command::quote(&absolute);
    let template = crate::text::chars_of(config.commands[index].template.as_str());
    let command = crate::external_command::substitute(&template, &quoted);
    let absolute_text = crate::text::string_of(&absolute);
    let mut m: Vec<char> = Vec::new();
    push_str(&mut m, "Running linter for ");
    push_chars(&mut m, &absolute);
    push_str(&mut m, "...");
    app.lint.results = None;
    app.lint.running = Some(LintRun {
        source: path,
        absolute: absolute_text,
        buffer_id: app.file.buffer_id,
        content_generation: app.file.content_generation,
    });
    app.message_info(crate::text::string_of(&m));
    Some(crate::text::string_of(&command))
}

/// `root` joined with `file`.
pub fn join_chars(root: &Vec<char>, file: &Vec<char>) -> (res: Vec<char>)
    ensures
        res@ == join_path(root@, file@),
{
    let mut out: Vec<char> = Vec::new();
    if file.len() > 0 && file[0] == '/' {
        push_chars(&mut out, file);
    } else if root.len() == 0 {
        push_chars(&mut out, file);
    } else {
        push_chars(&mut out, root);
        if root[root.len() - 1] != '/' {
            out.push('/');
        }
        push_chars(&mut out, file);
    }
    proof {
        assert(out@ =~= join_path(root@, file@));
    }
    out
}

fn push_code(out: &mut Vec<char>, code: Option<i32>)
    ensures
        final(out)@ == old(out)@ + (match code {
            Some(c) => "with code "@ + (if c < 0 { "-"@ + decimal((0 - c) as nat) } else { decimal(c as nat) }),
            None => "by signal"@,
        }),
{
    let ghost start = out@;
    match code {
        Some(c) => {
            push_str(out, "with code ");
            if c < 0 {
                push_str(out, "-");
                let n: i64 = 0i64 - c as i64;
                push_decimal(out, n as u128);
            } else {
                push_decimal(out, c as u128);
            }
        },
        None => push_str(out, "by signal"),
    }
    proof {
        assert(out@ =~= start + (match code {
            Some(c) => "with code "@ + (if c < 0 { "-"@ + decimal((0 - c) as nat) } else { decimal(c as nat) }),
            None => "by signal"@,
        }));
    }
}

/// The running linter ended. Its findings for the file it checked are
/// installed only while the buffer is the one, with the content, it ran on;
/// `root` resolves relative paths in its output.
pub fn finish(app: &mut App, result: LinterResult, root: &str)
    ensures
        final(app).buffer == old(app).buffer,
        final(app).file == old(app).file,
        final(app).lint.running is None,
        old(app).lint.running is None ==> *final(app) == *old(app),
        old(app).lint.running matches Some(r) ==> match result {
            LinterResult::Cancelled => final(app).message is None && final(app).lint.results == old(app).lint.results,
            LinterResult::Failed(e) => final(app).lint.results == old(app).lint.results && (final(app).message matches Some(m)
                && m@ == "Linter error for "@ + r.absolute@ + ": "@ + e@),
            LinterResult::Finished { output, code } => {
                let current = r.buffer_id == old(app).file.buffer_id && r.content_generation
                    == old(app).file.content_generation;
                let all = parse_lines_spec(text_lines(output@), root@);
                &&& !current ==> final(app).lint.results == old(app).lint.results
                &&& current ==> (final(app).lint.results matches Some(res) && res.source == r.source && res.buffer_id
                    == r.buffer_id && res.content_generation == r.content_generation && res.findings@.map_values(
                    |f: LintFinding| installed_view(f),
                ) == own_findings(all, r.absolute@).map_values(
                    |v: FindingView| FindingView { file: Seq::empty(), ..v },
                ) && (final(app).message matches Some(m) && m@ == finish_text(r.absolute@, all.len(), code)))
            },
        },
{
    let run = match app.lint.running.take() {
        Some(r) => r,
        None => return,
    };
    match result {
        LinterResult::Cancelled => {
            app.message = None;
        },
        LinterResult::Failed(e) => {
            let mut m: Vec<char> = Vec::new();
            push_str(&mut m, "Linter error for ");
            push_str(&mut m, run.absolute.as_str());
            push_str(&mut m, ": ");
            push_str(&mut m, e.as_str());
            app.message_info(crate::text::string_of(&m));
        },
        LinterResult::Finished { output, code } => {
            if run.buffer_id != app.file.buffer_id || run.content_generation != app.file.content_generation {
                return;
            }
            let parsed = parse_common_output(output.as_str(), root);
            let target = crate::text::chars_of(run.absolute.as_str());
            let ghost all = parse_lines_spec(text_lines(output@), root@);
            let mut findings: Vec<LintFinding> = Vec::new();
            let mut i: usize = 0;
            proof {
                assert(all.take(0) =~= Seq::<FindingView>::empty());
                assert(findings@.map_values(|f: LintFinding| installed_view(f)) =~= Seq::<FindingView>::empty());
                assert(parsed@.len() == all.len());
                lemma_findings_positive(text_lines(output@), root@);
                assert forall|j: int| 0 <= j < parsed@.len() implies finding_view(#[trigger] parsed@[j]) == all[j] by {
                    assert(parsed@.map_values(|f: ParsedFinding| finding_view(f))[j] == finding_view(parsed@[j]));
                }
            }
            while i < parsed.len()
                invariant
                    0 <= i <= parsed@.len(),
                    parsed@.len() == all.len(),
                    target@ == run.absolute@,
                    forall|j: int| 0 <= j < parsed@.len() ==> finding_view(#[trigger] parsed@[j]) == all[j],
                    forall|j: int| 0 <= j < all.len() ==> (#[trigger] all[j]).line >= 1 && all[j].col >= 1,
                    findings@.map_values(|f: LintFinding| installed_view(f)) == own_findings(all.take(i as int), run.absolute@).map_values(
                        |v: FindingView| FindingView { file: Seq::empty(), ..v },
                    ),
                decreases parsed@.len() - i,
            {
                let ghost before = findings@;
                let f = &parsed[i];
                let file = crate::text::chars_of(f.file.as_str());
                proof {
                    assert(all.take(i + 1).drop_last() =~= all.take(i as int));
                    assert(all.take(i + 1).last() == all[i as int]);
                    assert(finding_view(parsed@[i as int]) == all[i as int]);
                }
                if crate::buffer::chars_equal(&file, &target) {
                    findings.push(LintFinding { row: f.line - 1, col: f.col - 1, message: f.message.clone() });
                    proof {
                        assert(findings@.map_values(|f: LintFinding| installed_view(f)) =~= before.map_values(
                            |f: LintFinding| installed_view(f),
                        ).push(installed_view(findings@.last())));
                        assert(own_findings(all.take(i + 1), run.absolute@) == own_findings(all.take(i as int), run.absolute@).push(
                            all[i as int],
                        ));
                        assert(own_findings(all.take(i + 1), run.absolute@).map_values(
                            |v: FindingView| FindingView { file: Seq::empty(), ..v },
                        ) =~= own_findings(all.take(i as int), run.absolute@).map_values(
                            |v: FindingView| FindingView { file: Seq::empty(), ..v },
                        ).push(FindingView { file: Seq::empty(), ..all[i as int] }));
                    }
                }
                i += 1;
            }
            proof {
                assert(all.take(all.len() as int) =~= all);
            }
            let count = parsed.len();
            let mut m: Vec<char> = Vec::new();
            let exited_zero = match code {
                Some(c) => c == 0,
                None => false,
            };
            if count > 0 {
                push_str(&mut m, "Lint for ");
                push_str(&mut m, run.absolute.as_str());
                push_str(&mut m, " finished with ");
                push_decimal(&mut m, count as u128);
                push_str(&mut m, " diagnostic(s). Use :dnext or :diagnostics.");
            } else if exited_zero {
                push_str(&mut m, "Lint clean for ");
                push_str(&mut m, run.absolute.as_str());
                push_str(&mut m, ": no diagnostics.");
            } else {
                push_str(&mut m, "Linter for ");
                push_str(&mut m, run.absolute.as_str());
                push_str(&mut m, " exited ");
                push_code(&mut m, code);
                push_str(&mut m, " without parseable diagnostics.");
            }
            proof {
                assert(exited_zero == (code == Some(0i32)));
                assert(m@ =~= finish_text(run.absolute@, all.len(), code));
            }
            app.lint.results = Some(LintResults {
                source: run.source,
                buffer_id: run.buffer_id,
                content_generation: run.content_generation,
                findings,
            });
            app.message_info(crate::text::string_of(&m));
        },
    }
}

/// Esc while a linter runs cancels it; other keys are not taken.
pub fn handle_key(app: &mut App, key: crate::keys::KeyEvent) -> (handled: bool)
    ensures
        handled == (old(app).lint.running is Some && key.code == crate::keys::KeyCode::Esc),
        !handled ==> *final(app) == *old(app),
        handled ==> *final(app) == (App {
            lint: LintState { running: None, ..old(app).lint },
            message: None,
            ..*old(app)
        }),
{
    if app.lint.running.is_some() && key.code == crate::keys::KeyCode::Esc {
        app.lint.running = None;
        app.message = None;
        true
    } else {
        false
    }
}


proof fn lemma_rfind_last(s: Seq<char>, c: char)
    ensures
        forall|k: int| rfind(s, c) < k < s.len() ==> #[trigger] s[k] != c,
    decreases s.len(),
{
    lemma_rfind_bound(s, c);
    if s.len() > 0 && s.last() != c {
        lemma_rfind_last(s.drop_last(), c);
        lemma_rfind_bound(s.drop_last(), c);
        assert forall|k: int| rfind(s, c) < k < s.len() implies #[trigger] s[k] != c by {
            if k < s.len() - 1 {
                assert(s[k] == s.drop_last()[k]);
            }
        }
    }
}

proof fn lemma_rfind_append_free(a: Seq<char>, b: Seq<char>, c: char)
    requires
        forall|k: int| 0 <= k < b.len() ==> #[trigger] b[k] != c,
    ensures
        rfind(a + b, c) == rfind(a, c),
    decreases b.len(),
{
    if b.len() > 0 {
        assert((a + b).drop_last() =~= a + b.drop_last());
        assert((a + b).last() == b.last());
        lemma_rfind_append_free(a, b.drop_last(), c);
    } else {
        assert(a + b =~= a);
    }
}

/// An extension never holds a dot or a slash: it is what follows the last
/// dot of the path's last component.
pub proof fn extension_has_no_dot(path: Seq<char>)
    ensures
        extension_of(path) matches Some(e) ==> forall|k: int| 0 <= k < e.len() ==> #[trigger] e[k] != '.' && e[k] != '/',
{
    let r = rfind(path, '/');
    lemma_rfind_bound(path, '/');
    lemma_rfind_last(path, '/');
    let name = path.skip(r + 1);
    let dot = rfind(name, '.');
    lemma_rfind_bound(name, '.');
    lemma_rfind_last(name, '.');
    if let Some(e) = extension_of(path) {
        assert forall|k: int| 0 <= k < e.len() implies #[trigger] e[k] != '.' && e[k] != '/' by {
            assert(e[k] == name[dot + 1 + k]);
            assert(name[dot + 1 + k] == path[r + 1 + dot + 1 + k]);
        }
    }
}

/// The extension of `dir/stem.ext` is `ext` when `ext` holds no dot or slash
/// and `stem` is a non-empty name: the last dot decides, however many dots
/// the stem holds (`app.test.js` has extension `js`).
pub proof fn extension_is_after_the_last_dot(dir: Seq<char>, stem: Seq<char>, ext: Seq<char>)
    requires
        dir.len() == 0 || dir.last() == '/',
        stem.len() > 0,
        forall|k: int| 0 <= k < stem.len() ==> #[trigger] stem[k] != '/',
        forall|k: int| 0 <= k < ext.len() ==> #[trigger] ext[k] != '.' && ext[k] != '/',
        !(stem == "."@ && ext.len() == 0),
    ensures
        extension_of(dir + stem + seq!['.'] + ext) == Some(ext),
{
    reveal_strlit("..");
    reveal_strlit(".");
    let name = stem + seq!['.'] + ext;
    let path = dir + stem + seq!['.'] + ext;
    assert(path =~= dir + name);
    assert forall|k: int| 0 <= k < name.len() implies #[trigger] name[k] != '/' by {
        if k < stem.len() {
            assert(name[k] == stem[k]);
        } else if k > stem.len() {
            assert(name[k] == ext[k - stem.len() - 1]);
        }
    }
    lemma_rfind_append_free(dir, name, '/');
    if dir.len() > 0 {
        assert(rfind(dir, '/') == dir.len() - 1);
    }
    assert(path.skip(rfind(path, '/') + 1) =~= name);
    lemma_rfind_append_free(stem + seq!['.'], ext, '.');
    assert(name =~= (stem + seq!['.']) + ext);
    assert(rfind(stem + seq!['.'], '.') == stem.len()) by {
        assert((stem + seq!['.']).last() == '.');
    }
    assert(name.skip(stem.len() + 1 as int) =~= ext);
    if name == ".."@ {
        assert(name.len() == 2);
        assert(stem.len() == 1 && ext.len() == 0);
        assert(stem[0] == name[0]);
        assert(stem =~= "."@);
    }
}

} // verus!
