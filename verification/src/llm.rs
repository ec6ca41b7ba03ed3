//! Current-buffer model requests: the draft that is confirmed before any
//! sending, the prompt built from it, and the read-only preview of a
//! proposed replacement that applies only on confirmation.

use vstd::prelude::*;

use crate::app::App;
use crate::buffer::{cursor_le, cursor_offset, cursor_valid, view_lines, Cursor};
use crate::lines::join_lines;
use crate::lint::{trim, white_space};
use crate::status::{decimal, push_chars, push_decimal, push_str, StatusRole};

verus! {

/// Which current-buffer request the user asked for.
#[derive(Clone, Copy, Debug, PartialEq, Eq, Structural)]
pub enum CurrentLlmCommand {
    Meow,
    BigMeow,
}

/// Which part of the buffer a request carries.
#[derive(Clone, Copy, Debug, PartialEq, Eq, Structural)]
pub enum ContextScope {
    Selection,
    InstructionBlock,
    CurrentFile,
}

/// The buffer text a request carries, from its first line (0-based).
pub struct RequestContext {
    pub scope: ContextScope,
    pub first_line: usize,
    pub text: Vec<char>,
}

/// A request waiting for the user's confirmation.
pub struct LlmDraft {
    pub command: CurrentLlmCommand,
    pub instruction: Vec<char>,
    pub context: RequestContext,
}

pub struct PendingLlmRequest {
    pub draft: LlmDraft,
    /// The whole text the request was drafted from.
    pub source_text: Vec<char>,
    pub file_path: Option<String>,
    pub target: Option<RegionTarget>,
}

/// A request that was confirmed and handed to a worker, with what its
/// answer must still match to be previewed.
pub struct LlmTask {
    pub source_text: Vec<char>,
    pub file_path: Option<String>,
    pub target: Option<RegionTarget>,
    pub purpose: RequestPurpose,
}

/// How a confirmed request ended.
pub enum LlmTaskResult {
    Finished(String),
    Cancelled,
    Failed(String),
}

/// What a key did to a pending or running request.
pub enum RequestKeyOutcome {
    /// The key is not for the request.
    Ignored,
    /// The key was taken; draw a new frame.
    Handled,
    /// The request was confirmed: send it.
    Send(OutgoingRequest),
}

/// What a confirmed request sends: the instructions for its purpose and the prompt.
pub struct OutgoingRequest {
    pub system: String,
    pub user: String,
}

/// Two optional paths name the same file.
pub open spec fn same_path(a: Option<String>, b: Option<String>) -> bool {
    match (a, b) {
        (Some(x), Some(y)) => x@ == y@,
        (None, None) => true,
        _ => false,
    }
}

pub fn paths_equal(a: &Option<String>, b: &Option<String>) -> (res: bool)
    ensures
        res == same_path(*a, *b),
{
    match (a, b) {
        (Some(x), Some(y)) => *x == *y,
        (None, None) => true,
        _ => false,
    }
}

/// The text a region proposal will replace.
pub struct RegionTarget {
    pub start: Cursor,
    pub end: Cursor,
    pub original: Vec<char>,
}

/// A proposed replacement on screen, read-only until confirmed.
pub struct PatchPreview {
    pub target: RegionTarget,
    pub replacement: Vec<char>,
    pub preview_text: Vec<char>,
    pub source_revision: u64,
    pub source_scroll_top: usize,
    pub source_scroll_left: usize,
}

/// A model answer shown read-only, with the view it replaced.
pub struct AnswerView {
    pub text: Vec<char>,
    pub source_scroll_top: usize,
    pub source_scroll_left: usize,
}

/// The line that opens an instruction block.
pub open spec fn is_block_open(line: Seq<char>) -> bool {
    trim(line) == ">>> catomic"@
}

/// The line that closes an instruction block.
pub open spec fn is_block_close(line: Seq<char>) -> bool {
    trim(line) == "<<<"@
}

/// The nearest opening line at or above `row`.
pub open spec fn open_above(lines: Seq<Seq<char>>, row: int) -> Option<int>
    decreases row + 1,
{
    if row < 0 || row >= lines.len() {
        None
    } else if is_block_open(lines[row]) {
        Some(row)
    } else {
        open_above(lines, row - 1)
    }
}

/// The nearest closing line at or below `row`.
pub open spec fn close_below(lines: Seq<Seq<char>>, row: int) -> Option<int>
    decreases lines.len() - row,
{
    if row < 0 || row >= lines.len() {
        None
    } else if is_block_close(lines[row]) {
        Some(row)
    } else {
        close_below(lines, row + 1)
    }
}

/// The instruction of the block around `row`: the trimmed text between the
/// nearest opening line at or above it and the next closing line below that.
pub open spec fn block_instruction(lines: Seq<Seq<char>>, row: int) -> Option<Seq<char>> {
    match open_above(lines, row) {
        Some(s) => {
            let from = if row > s { row } else { s + 1 };
            match close_below(lines, from) {
                Some(e) => Some(trim(join_lines(lines.subrange(s + 1, e)))),
                None => None,
            }
        },
        None => None,
    }
}

pub fn trimmed_chars(s: &Vec<char>) -> (res: Vec<char>)
    ensures
        res@ == trim(s@),
{
    let n = s.len();
    let t = crate::lint::trim_range(s, 0, n);
    proof {
        assert(s@.subrange(0, n as int) =~= s@);
    }
    t
}

fn equals_str(s: &Vec<char>, t: &str) -> (res: bool)
    ensures
        res == (s@ == t@),
{
    let v = crate::text::chars_of(t);
    crate::buffer::chars_equal(s, &v)
}

fn find_open_above(lines: &Vec<Vec<char>>, row: usize) -> (res: Option<usize>)
    requires
        row < lines@.len(),
    ensures
        res matches Some(s) ==> open_above(view_lines(lines@), row as int) == Some(s as int) && s <= row,
        res is None ==> open_above(view_lines(lines@), row as int) is None,
{
    let ghost ls = view_lines(lines@);
    let mut r: usize = row;
    loop
        invariant
            ls == view_lines(lines@),
            r <= row < lines@.len(),
            open_above(ls, row as int) == open_above(ls, r as int),
        decreases r,
    {
        let t = trimmed_chars(&lines[r]);
        if equals_str(&t, ">>> catomic") {
            return Some(r);
        }
        if r == 0 {
            return None;
        }
        r -= 1;
    }
}

fn find_close_below(lines: &Vec<Vec<char>>, from: usize) -> (res: Option<usize>)
    ensures
        res matches Some(e) ==> close_below(view_lines(lines@), from as int) == Some(e as int) && from <= e < lines@.len(),
        res is None ==> close_below(view_lines(lines@), from as int) is None,
{
    let ghost ls = view_lines(lines@);
    let mut r: usize = from;
    while r < lines.len()
        invariant
            ls == view_lines(lines@),
            from <= r,
            close_below(ls, from as int) == close_below(ls, r as int),
        decreases lines@.len() - r,
    {
        let t = trimmed_chars(&lines[r]);
        if equals_str(&t, "<<<") {
            return Some(r);
        }
        r += 1;
    }
    None
}

/// Lines `from..to` joined with '\n'.
pub fn join_range(lines: &Vec<Vec<char>>, from: usize, to: usize) -> (res: Vec<char>)
    requires
        from <= to <= lines@.len(),
    ensures
        res@ == join_lines(view_lines(lines@).subrange(from as int, to as int)),
{
    let ghost ls = view_lines(lines@);
    let mut out: Vec<char> = Vec::new();
    let mut k: usize = from;
    proof {
        assert(ls.subrange(from as int, from as int) =~= Seq::<Seq<char>>::empty());
    }
    while k < to
        invariant
            ls == view_lines(lines@),
            from <= k <= to <= ls.len(),
            out@ == join_lines(ls.subrange(from as int, k as int)),
        decreases to - k,
    {
        let ghost before = out@;
        if k > from {
            out.push('\n');
        }
        push_chars(&mut out, &lines[k]);
        proof {
            let t = ls.subrange(from as int, k + 1);
            assert(t.drop_last() =~= ls.subrange(from as int, k as int));
            assert(t.last() == ls[k as int]);
            if k == from {
                assert(t.len() == 1);
                assert(join_lines(t) == t[0]);
                assert(out@ =~= t[0]);
            } else {
                assert(out@ =~= join_lines(t.drop_last()) + seq!['\n'] + t.last());
            }
        }
        k += 1;
    }
    out
}

/// The instruction of the block around `row`, if there is one.
pub fn instruction_block(lines: &Vec<Vec<char>>, row: usize) -> (res: Option<Vec<char>>)
    requires
        row < lines@.len(),
    ensures
        res matches Some(t) ==> block_instruction(view_lines(lines@), row as int) == Some(t@),
        res is None ==> block_instruction(view_lines(lines@), row as int) is None,
{
    let _n = lines.len();
    let s = match find_open_above(lines, row) {
        Some(s) => s,
        None => return None,
    };
    let from = if row > s { row } else { s + 1 };
    let e = match find_close_below(lines, from) {
        Some(e) => e,
        None => return None,
    };
    let body = join_range(lines, s + 1, e);
    Some(trimmed_chars(&body))
}

/// What a request can be built from, or why it cannot.
pub open spec fn draft_spec(app: &App, command: CurrentLlmCommand, instruction: Seq<char>) -> Result<(ContextScope, Seq<char>), Seq<char>> {
    let given = trim(instruction);
    let lines = app.buffer.lines();
    let row = app.buffer.view_cursor().row as int;
    let block = block_instruction(lines, row);
    if command == CurrentLlmCommand::Meow && app.selection.anchor is Some {
        if given.len() == 0 {
            Err("an instruction is required for a selection"@)
        } else {
            Ok((ContextScope::Selection, given))
        }
    } else {
        let scope = if command == CurrentLlmCommand::Meow { ContextScope::InstructionBlock } else { ContextScope::CurrentFile };
        if given.len() > 0 && (command == CurrentLlmCommand::BigMeow || block is Some) {
            Ok((scope, given))
        } else {
            match block {
                Some(b) => if b.len() > 0 {
                    Ok((scope, b))
                } else {
                    Err("the instruction block is empty"@)
                },
                None => Err("no instruction block surrounds the cursor"@),
            }
        }
    }
}

fn make_draft(app: &App, command: CurrentLlmCommand, instruction: &str) -> (res: Result<LlmDraft, Vec<char>>)
    requires
        app.buffer.wf(),
    ensures
        res matches Ok(d) ==> draft_spec(app, command, instruction@) == Ok::<(ContextScope, Seq<char>), Seq<char>>((d.context.scope, d.instruction@)) && d.command == command,
        res matches Err(e) ==> draft_spec(app, command, instruction@) == Err::<(ContextScope, Seq<char>), Seq<char>>(e@),
{
    let raw = crate::text::chars_of(instruction);
    let given = trimmed_chars(&raw);
    let lines = app.buffer.line_vec();
    let cursor = app.buffer.cursor();
    let row = cursor.row;
    let block = instruction_block(lines, row);
    let selection = app.selection.active(cursor);
    if command == CurrentLlmCommand::Meow && selection.is_some() {
        if given.len() == 0 {
            let mut e: Vec<char> = Vec::new();
            push_str(&mut e, "an instruction is required for a selection");
            return Err(e);
        }
        let (a, b) = match selection {
            Some(p) => p,
            None => (cursor, cursor),
        };
        let text = match app.buffer.text_range(a, b) {
            Ok(t) => t,
            Err(_) => Vec::new(),
        };
        return Ok(LlmDraft { command, instruction: given, context: RequestContext { scope: ContextScope::Selection, first_line: a.row, text } });
    }
    let scope = if command == CurrentLlmCommand::Meow { ContextScope::InstructionBlock } else { ContextScope::CurrentFile };
    let text = app.buffer.to_chars();
    if given.len() > 0 && (command == CurrentLlmCommand::BigMeow || block.is_some()) {
        return Ok(LlmDraft { command, instruction: given, context: RequestContext { scope, first_line: 0, text } });
    }
    match block {
        Some(b) => {
            if b.len() > 0 {
                Ok(LlmDraft { command, instruction: b, context: RequestContext { scope, first_line: 0, text } })
            } else {
                let mut e: Vec<char> = Vec::new();
                push_str(&mut e, "the instruction block is empty");
                Err(e)
            }
        },
        None => {
            let mut e: Vec<char> = Vec::new();
            push_str(&mut e, "no instruction block surrounds the cursor");
            Err(e)
        },
    }
}

pub open spec fn scope_name(s: ContextScope) -> Seq<char> {
    match s {
        ContextScope::Selection => "selection"@,
        ContextScope::InstructionBlock => "instruction block"@,
        ContextScope::CurrentFile => "current file"@,
    }
}

/// What asking for a current-buffer request did: while another request is
/// pending or running nothing new is prepared; otherwise the request waits for
/// its confirmation, or the reason it cannot be prepared is shown.
pub open spec fn request_begun(before: &App, after: &App, command: CurrentLlmCommand, instruction: Seq<char>) -> bool {
    &&& after.inactive_buffers == before.inactive_buffers
    &&& after.buffer == before.buffer
    &&& after.llm_task == before.llm_task
    &&& after.hooks == before.hooks
    &&& after.external_command == before.external_command
    &&& (before.pending_llm_request is Some || before.llm_task is Some) ==> after.pending_llm_request
        == before.pending_llm_request
    &&& (before.pending_llm_request is None && before.llm_task is None) ==> {
        match draft_spec(before, command, instruction) {
            Ok((scope, instr)) => {
                &&& after.pending_llm_request matches Some(p) && p.draft.context.scope == scope
                    && p.draft.instruction@ == instr && p.source_text@ == before.buffer.text()
                    && p.file_path == before.file.path
                    && (scope == ContextScope::Selection ==> (p.target matches Some(t)
                        && crate::external_command::app_selection(before) == Some((t.start, t.end))
                        && t.original@ == p.draft.context.text@))
                    && (scope != ContextScope::Selection ==> p.target is None)
                &&& after.message_role == StatusRole::Info
            },
            Err(e) => {
                &&& after.pending_llm_request is None
                &&& after.message_role == StatusRole::Warning
                &&& after.message matches Some(m) && m@ == "Cannot prepare LLM request: "@ + e
            },
        }
    }
}

/// Prepares a request and asks for confirmation; nothing is sent here.
pub fn begin_request(app: &mut App, command: CurrentLlmCommand, instruction: &str)
    requires
        old(app).buffer.wf(),
    ensures
        request_begun(old(app), final(app), command, instruction@),
{
    if app.pending_llm_request.is_some() || app.llm_task.is_some() {
        app.message_info(String::from_str("An LLM request is already pending or running; Esc cancels."));
        return;
    }
    match make_draft(app, command, instruction) {
        Ok(draft) => {
            let mut m: Vec<char> = Vec::new();
            push_str(&mut m, "Send the ");
            match draft.context.scope {
                ContextScope::Selection => push_str(&mut m, "selection"),
                ContextScope::InstructionBlock => push_str(&mut m, "instruction block"),
                ContextScope::CurrentFile => push_str(&mut m, "current file"),
            }
            push_str(&mut m, " to the model? Enter confirms; Esc cancels.");
            let source_text = app.buffer.to_chars();
            let file_path = match &app.file.path {
                Some(p) => Some(p.clone()),
                None => None,
            };
            let target = match draft.context.scope {
                ContextScope::Selection => match app.selection.active(app.buffer.cursor()) {
                    Some((a, b)) => Some(
                        RegionTarget { start: a, end: b, original: crate::buffer::copy_chars(&draft.context.text) },
                    ),
                    None => None,
                },
                _ => None,
            };
            app.pending_llm_request = Some(PendingLlmRequest { draft, source_text, file_path, target });
            app.message_info(crate::text::string_of(&m));
        },
        Err(e) => {
            let mut m: Vec<char> = Vec::new();
            push_str(&mut m, "Cannot prepare LLM request: ");
            push_chars(&mut m, &e);
            app.message_warning(crate::text::string_of(&m));
        },
    }
}

/// Drops the pending request and the running one; says whether there was one.
pub fn cancel_all(app: &mut App) -> (res: bool)
    ensures
        res == (old(app).pending_llm_request is Some || old(app).llm_task is Some),
        *final(app) == (App { pending_llm_request: None, llm_task: None, ..*old(app) }),
{
    let pending = app.pending_llm_request.is_some();
    let running = app.llm_task.is_some();
    app.pending_llm_request = None;
    app.llm_task = None;
    pending || running
}

/// What a request asks of the model.
#[derive(Clone, Copy, Debug, PartialEq, Eq, Structural)]
pub enum RequestPurpose {
    Edit,
    Explain,
}

pub open spec fn word_punct(c: char) -> bool {
    c == ':' || c == ',' || c == '.' || c == ';'
}

/// `w` without the `: , . ;` it ends with.
pub open spec fn strip_punct(w: Seq<char>) -> Seq<char>
    decreases w.len(),
{
    if w.len() > 0 && word_punct(w.last()) {
        strip_punct(w.drop_last())
    } else {
        w
    }
}

/// `w` is "explain" in any ASCII case.
pub open spec fn is_explain(w: Seq<char>) -> bool {
    w.len() == 7 && forall|i: int| 0 <= i < 7 ==> crate::keys::upper_ascii(#[trigger] w[i]) == "EXPLAIN"@[i]
}

/// Only an instruction whose first word is "explain" asks for an explanation.
pub open spec fn purpose_of(instruction: Seq<char>) -> RequestPurpose {
    let t = trim(instruction);
    if is_explain(strip_punct(t.take(crate::command_prompt::name_end(t, 0)))) {
        RequestPurpose::Explain
    } else {
        RequestPurpose::Edit
    }
}

pub fn purpose(instruction: &Vec<char>) -> (res: RequestPurpose)
    ensures
        res == purpose_of(instruction@),
{
    let t = trimmed_chars(instruction);
    let mut e: usize = 0;
    while e < t.len() && !crate::lint::is_white_space(t[e])
        invariant
            0 <= e <= t@.len(),
            crate::command_prompt::name_end(t@, 0) == crate::command_prompt::name_end(t@, e as int),
        decreases t@.len() - e,
    {
        e += 1;
    }
    let ghost word = t@.take(e as int);
    let mut k: usize = e;
    proof {
        assert(word.take(k as int) =~= word);
    }
    while k > 0 && (t[k - 1] == ':' || t[k - 1] == ',' || t[k - 1] == '.' || t[k - 1] == ';')
        invariant
            0 <= k <= e <= t@.len(),
            word == t@.take(e as int),
            strip_punct(word) == strip_punct(word.take(k as int)),
        decreases k,
    {
        proof {
            assert(word.take(k as int).drop_last() =~= word.take(k - 1));
            assert(word.take(k as int).last() == t@[k - 1]);
        }
        k -= 1;
    }
    proof {
        if k > 0 {
            assert(word.take(k as int).last() == t@[k - 1]);
        }
        assert(strip_punct(word.take(k as int)) == word.take(k as int));
    }
    if k != 7 {
        return RequestPurpose::Edit;
    }
    let target = "EXPLAIN";
    proof {
        reveal_strlit("EXPLAIN");
    }
    let mut i: usize = 0;
    while i < 7
        invariant
            0 <= i <= 7,
            k == 7 <= e <= t@.len(),
            word == t@.take(e as int),
            strip_punct(word) == word.take(k as int),
            crate::command_prompt::name_end(t@, 0) == e,
            t@ == trim(instruction@),
            target@ == "EXPLAIN"@,
            target@.len() == 7,
            forall|j: int| 0 <= j < i ==> crate::keys::upper_ascii(#[trigger] t@[j]) == "EXPLAIN"@[j],
        decreases 7 - i,
    {
        if crate::keys::ascii_upper(t[i]) != target.get_char(i) {
            proof {
                assert(word.take(k as int)[i as int] == t@[i as int]);
            }
            return RequestPurpose::Edit;
        }
        i += 1;
    }
    proof {
        assert forall|j: int| 0 <= j < 7 implies crate::keys::upper_ascii(#[trigger] word.take(k as int)[j]) == "EXPLAIN"@[j] by {
            assert(word.take(k as int)[j] == t@[j]);
        }
    }
    RequestPurpose::Explain
}

/// The instructions sent with every request of a purpose.
pub open spec fn system_text(p: RequestPurpose) -> Seq<char> {
    match p {
        RequestPurpose::Edit => "You edit one current Catomic buffer. Prefer one valid single-file unified diff against the supplied path and context. If and only if the context is a marked selection and a diff is unsuitable, return exactly one JSON object with one string field named catomic_replacement. Do not use markdown fences or prose. Preserve text outside the requested scope. Never claim that a change was applied."@,
        RequestPurpose::Explain => "Explain only the supplied current-buffer context in concise plain text. Do not propose or claim edits. Do not use a patch or a catomic_replacement object."@,
    }
}

pub fn system_prompt(p: RequestPurpose) -> (res: &'static str)
    ensures
        res@ == system_text(p),
{
    match p {
        RequestPurpose::Edit => "You edit one current Catomic buffer. Prefer one valid single-file unified diff against the supplied path and context. If and only if the context is a marked selection and a diff is unsuitable, return exactly one JSON object with one string field named catomic_replacement. Do not use markdown fences or prose. Preserve text outside the requested scope. Never claim that a change was applied.",
        RequestPurpose::Explain => "Explain only the supplied current-buffer context in concise plain text. Do not propose or claim edits. Do not use a patch or a catomic_replacement object.",
    }
}

/// The path a request names: the file's, or `untitled.txt`.
pub open spec fn display_path_spec(path: Option<String>) -> Seq<char> {
    match path {
        Some(p) => p@,
        None => "untitled.txt"@,
    }
}

/// Enter on a pending request: it is sent only while the buffer and its
/// path are what the user confirmed; the prompt to send is returned.
pub fn confirm_request(app: &mut App) -> (res: Option<OutgoingRequest>)
    requires
        old(app).buffer.wf(),
    ensures
        final(app).pending_llm_request is None,
        final(app).buffer == old(app).buffer,
        final(app).file == old(app).file,
        final(app).inactive_buffers == old(app).inactive_buffers,
        old(app).pending_llm_request is None ==> res is None && *final(app) == *old(app),
        old(app).pending_llm_request matches Some(p) ==> {
            let current = p.source_text@ == old(app).buffer.text() && same_path(p.file_path, old(app).file.path);
            &&& current ==> (res matches Some(r) && r.user@ == user_prompt_text(&p.draft, display_path_spec(p.file_path))
                && r.system@ == system_text(purpose_of(p.draft.instruction@))
                && final(app).llm_task == Some(LlmTask {
                    source_text: p.source_text,
                    file_path: p.file_path,
                    target: p.target,
                    purpose: purpose_of(p.draft.instruction@),
                })
                && final(app).message_role == StatusRole::Info
                && (final(app).message matches Some(m) && m@ == "Sending the request to the model... Esc cancels."@))
            &&& !current ==> res is None && final(app).llm_task == old(app).llm_task && final(app).message_role
                == StatusRole::Warning
            &&& p.source_text@ != old(app).buffer.text() ==> (final(app).message matches Some(m) && m@
                == "Buffer changed before confirmation; LLM request cancelled."@)
            &&& p.source_text@ == old(app).buffer.text() && !same_path(p.file_path, old(app).file.path) ==> (
            final(app).message matches Some(m) && m@ == "Active file path changed before confirmation; LLM request cancelled."@)
        },
{
    let pending = match app.pending_llm_request.take() {
        Some(p) => p,
        None => return None,
    };
    let now = app.buffer.to_chars();
    if !crate::buffer::chars_equal(&now, &pending.source_text) {
        app.message_warning(String::from_str("Buffer changed before confirmation; LLM request cancelled."));
        return None;
    }
    if !paths_equal(&pending.file_path, &app.file.path) {
        app.message_warning(String::from_str("Active file path changed before confirmation; LLM request cancelled."));
        return None;
    }
    let path = match &pending.file_path {
        Some(p) => p.clone(),
        None => String::from_str("untitled.txt"),
    };
    let prompt = user_prompt(&pending.draft, path.as_str());
    let system = String::from_str(system_prompt(purpose(&pending.draft.instruction)));
    let asked = purpose(&pending.draft.instruction);
    app.llm_task = Some(LlmTask {
        source_text: pending.source_text,
        file_path: pending.file_path,
        target: pending.target,
        purpose: asked,
    });
    app.message_info(String::from_str("Sending the request to the model... Esc cancels."));
    Some(OutgoingRequest { system, user: crate::text::string_of(&prompt) })
}

/// A key while a request waits for confirmation or runs: Enter confirms,
/// Esc cancels, Ctrl+Q passes through, anything else only reminds.
pub fn handle_request_key(app: &mut App, key: crate::keys::KeyEvent) -> (res: RequestKeyOutcome)
    requires
        old(app).buffer.wf(),
    ensures
        final(app).buffer == old(app).buffer,
        final(app).file == old(app).file,
        final(app).inactive_buffers == old(app).inactive_buffers,
        old(app).pending_llm_request is None && old(app).llm_task is None ==> res is Ignored && *final(app) == *old(app),
        old(app).pending_llm_request is Some && crate::keys::is_quit_key(key) ==> res is Ignored && *final(app) == *old(app),
        old(app).pending_llm_request is Some && !crate::keys::is_quit_key(key) ==> !(res is Ignored),
        old(app).pending_llm_request is Some && !crate::keys::is_quit_key(key) && key.code == crate::keys::KeyCode::Esc ==> res is Handled
            && final(app).pending_llm_request is None && final(app).message is None && final(app).llm_task
            == old(app).llm_task,
        old(app).pending_llm_request matches Some(p) ==> (!crate::keys::is_quit_key(key) && key.code == crate::keys::KeyCode::Enter) ==> {
            &&& final(app).pending_llm_request is None
            &&& (res is Send <==> (p.source_text@ == old(app).buffer.text() && same_path(p.file_path, old(app).file.path)))
            &&& (res matches RequestKeyOutcome::Send(r) ==> final(app).llm_task is Some
                && r.user@ == user_prompt_text(&p.draft, display_path_spec(p.file_path))
                && r.system@ == system_text(purpose_of(p.draft.instruction@)))
        },
        old(app).pending_llm_request is Some && !crate::keys::is_quit_key(key) && key.code != crate::keys::KeyCode::Esc && key.code
            != crate::keys::KeyCode::Enter ==> res is Handled && final(app).pending_llm_request == old(app).pending_llm_request
            && final(app).llm_task == old(app).llm_task,
        old(app).pending_llm_request is None && old(app).llm_task is Some && key.code == crate::keys::KeyCode::Esc ==> res is Handled
            && final(app).llm_task is None && final(app).message is None,
        old(app).pending_llm_request is None && old(app).llm_task is Some && key.code != crate::keys::KeyCode::Esc ==> res is Ignored
            && *final(app) == *old(app),
{
    if app.pending_llm_request.is_some() {
        if key.code == crate::keys::KeyCode::Char('q') && key.ctrl && !key.alt && !key.shift {
            return RequestKeyOutcome::Ignored;
        }
        match key.code {
            crate::keys::KeyCode::Enter => {
                match confirm_request(app) {
                    Some(r) => RequestKeyOutcome::Send(r),
                    None => RequestKeyOutcome::Handled,
                }
            },
            crate::keys::KeyCode::Esc => {
                app.pending_llm_request = None;
                app.message = None;
                RequestKeyOutcome::Handled
            },
            _ => {
                app.message_info(String::from_str("LLM send not confirmed. Enter sends; Esc cancels."));
                RequestKeyOutcome::Handled
            },
        }
    } else if key.code == crate::keys::KeyCode::Esc && app.llm_task.is_some() {
        app.llm_task = None;
        app.message = None;
        RequestKeyOutcome::Handled
    } else {
        RequestKeyOutcome::Ignored
    }
}

/// The running request ended: an answer is previewed only while the buffer
/// and its path are what was sent; a failure is reported as an error.
pub fn finish_task(app: &mut App, result: LlmTaskResult)
    requires
        old(app).buffer.wf(),
    ensures
        final(app).buffer == old(app).buffer,
        final(app).file == old(app).file,
        final(app).llm_task is None,
        old(app).llm_task is None ==> *final(app) == *old(app),
        old(app).llm_task matches Some(t) ==> match result {
            LlmTaskResult::Cancelled => final(app).message is None && final(app).llm_preview == old(app).llm_preview,
            LlmTaskResult::Failed(e) => final(app).message_role == StatusRole::Error && final(app).llm_preview
                == old(app).llm_preview && (final(app).message matches Some(m) && m@ == "LLM request failed: "@ + e@),
            LlmTaskResult::Finished(output) => {
                let current = t.source_text@ == old(app).buffer.text() && same_path(t.file_path, old(app).file.path);
                &&& !current ==> final(app).message_role == StatusRole::Warning && final(app).llm_preview == old(app).llm_preview
                &&& current && t.purpose == RequestPurpose::Edit ==> region_offered(old(app), final(app), output@, t.target)
                &&& current && t.purpose == RequestPurpose::Explain ==> answer_shown(old(app), final(app), output@)
            },
        },
{
    let task = match app.llm_task.take() {
        Some(t) => t,
        None => return,
    };
    match result {
        LlmTaskResult::Cancelled => {
            app.message = None;
        },
        LlmTaskResult::Failed(e) => {
            let mut m: Vec<char> = Vec::new();
            push_str(&mut m, "LLM request failed: ");
            push_str(&mut m, e.as_str());
            app.message_error(crate::text::string_of(&m));
        },
        LlmTaskResult::Finished(output) => {
            let now = app.buffer.to_chars();
            if !crate::buffer::chars_equal(&now, &task.source_text) {
                app.message_warning(
                    String::from_str("Buffer changed while the model was working; response was not previewed."),
                );
                return;
            }
            if !paths_equal(&task.file_path, &app.file.path) {
                app.message_warning(
                    String::from_str("Active file path changed while the model was working; response was not previewed."),
                );
                return;
            }
            match task.purpose {
                RequestPurpose::Explain => show_answer(app, output.as_str()),
                RequestPurpose::Edit => show_with_region_fallback(app, output.as_str(), task.target),
            }
        },
    }
}

/// What showing an explanation did: an empty one is only reported; otherwise
/// it opens read-only in place of any proposal preview, remembering the view.
pub open spec fn answer_shown(before: &App, after: &App, answer: Seq<char>) -> bool {
    &&& after.buffer == before.buffer
    &&& after.file == before.file
    &&& after.inactive_buffers == before.inactive_buffers
    &&& trim(answer).len() == 0 ==> after.surfaces.llm_answer == before.surfaces.llm_answer && (after.message matches Some(
        m,
    ) && m@ == "The model returned an empty explanation."@)
    &&& trim(answer).len() > 0 ==> {
        &&& after.surfaces.llm_answer matches Some(v) && v.text@ == answer && v.source_scroll_top
            == before.screen.scroll_top && v.source_scroll_left == before.screen.scroll_left
        &&& after.llm_preview is None
        &&& after.screen == (crate::screen::Screen { scroll_top: 0, scroll_left: 0, ..before.screen })
        &&& after.selection.anchor is None
        &&& after.message matches Some(m) && m@ == "LLM explanation (read-only). Esc closes."@
    }
}

/// Shows a model explanation read-only; an empty one is only reported.
pub fn show_answer(app: &mut App, answer: &str)
    ensures
        answer_shown(old(app), final(app), answer@),
        final(app).llm_task == old(app).llm_task,
{
    let text = crate::text::chars_of(answer);
    let t = trimmed_chars(&text);
    if t.len() == 0 {
        app.message_info(String::from_str("The model returned an empty explanation."));
        return;
    }
    app.llm_preview = None;
    app.surfaces.llm_answer = Some(AnswerView {
        text,
        source_scroll_top: app.screen.scroll_top,
        source_scroll_left: app.screen.scroll_left,
    });
    app.screen.scroll_top = 0;
    app.screen.scroll_left = 0;
    app.selection.clear();
    app.message_info(String::from_str("LLM explanation (read-only). Esc closes."));
}

/// A key on an explanation: Esc closes it and gives back the view, arrows,
/// pages, Home and End scroll it, and other keys only say it is read-only.
/// Ctrl+Q and keys without an explanation open are not taken.
pub fn handle_answer_key(app: &mut App, key: crate::keys::KeyEvent) -> (handled: bool)
    ensures
        handled == (old(app).surfaces.llm_answer is Some && !crate::keys::is_quit_key(key)),
        !handled ==> *final(app) == *old(app),
        final(app).buffer == old(app).buffer,
        final(app).file == old(app).file,
        final(app).inactive_buffers == old(app).inactive_buffers,
        handled && key.code == crate::keys::KeyCode::Esc ==> {
            &&& final(app).surfaces.llm_answer is None
            &&& final(app).message is None
            &&& final(app).screen == (crate::screen::Screen {
                scroll_top: old(app).surfaces.llm_answer->0.source_scroll_top,
                scroll_left: old(app).surfaces.llm_answer->0.source_scroll_left,
                ..old(app).screen
            })
        },
        handled && key.code != crate::keys::KeyCode::Esc ==> final(app).surfaces.llm_answer == old(app).surfaces.llm_answer,
        handled && crate::screen::scroll_key(key.code) ==> final(app).screen == (crate::screen::Screen {
            scroll_top: crate::screen::scrolled(
                old(app).screen.scroll_top as int,
                crate::lines::split_lines(old(app).surfaces.llm_answer->0.text@).len() as int,
                crate::screen::content_rows(old(app).screen),
                key.code,
            ) as usize,
            ..old(app).screen
        }) && final(app).message == old(app).message,
        handled && key.code != crate::keys::KeyCode::Esc && !crate::screen::scroll_key(key.code) ==> final(app).screen
            == old(app).screen && (final(app).message matches Some(m) && m@
            == "LLM explanation is read-only; Esc closes."@),
{
    if crate::keys::quit_key(key) {
        return false;
    }
    let lines = match &app.surfaces.llm_answer {
        Some(a) => crate::buffer::split_text(&a.text, 0).0.len(),
        None => return false,
    };
    match key.code {
        crate::keys::KeyCode::Esc => {
            match app.surfaces.llm_answer.take() {
                Some(a) => {
                    app.screen.scroll_top = a.source_scroll_top;
                    app.screen.scroll_left = a.source_scroll_left;
                },
                None => {},
            }
            app.message = None;
        },
        crate::keys::KeyCode::Up | crate::keys::KeyCode::Down | crate::keys::KeyCode::PageUp | crate::keys::KeyCode::PageDown
        | crate::keys::KeyCode::Home | crate::keys::KeyCode::End => {
            app.screen.scroll_view(lines, key.code);
        },
        _ => app.message_info(String::from_str("LLM explanation is read-only; Esc closes.")),
    }
    true
}

/// The request text sent to the model: path, first line, instruction, context.
pub open spec fn user_prompt_text(d: &LlmDraft, path: Seq<char>) -> Seq<char> {
    "Path: "@ + path + "\nContext starts at 1-based line: "@ + decimal(d.context.first_line as nat + 1) + "\nInstruction:\n"@
        + d.instruction@ + "\n\nContext:\n"@ + d.context.text@
}

pub fn user_prompt(d: &LlmDraft, path: &str) -> (res: Vec<char>)
    ensures
        res@ == user_prompt_text(d, path@),
{
    let mut out: Vec<char> = Vec::new();
    push_str(&mut out, "Path: ");
    push_str(&mut out, path);
    push_str(&mut out, "\nContext starts at 1-based line: ");
    push_decimal(&mut out, d.context.first_line as u128 + 1);
    push_str(&mut out, "\nInstruction:\n");
    push_chars(&mut out, &d.instruction);
    push_str(&mut out, "\n\nContext:\n");
    push_chars(&mut out, &d.context.text);
    proof {
        assert(out@ =~= user_prompt_text(d, path@));
    }
    out
}

/// The path a request names: the file's, or `untitled.txt`.
pub fn display_path(app: &App) -> (res: String)
    ensures
        app.file.path matches Some(p) ==> res@ == p@,
        app.file.path is None ==> res@ == "untitled.txt"@,
{
    match &app.file.path {
        Some(p) => p.clone(),
        None => String::from_str("untitled.txt"),
    }
}


/// JSON white space.
pub open spec fn json_ws(c: char) -> bool {
    c == ' ' || c == '\t' || c == '\n' || c == '\r'
}

/// The first index at or after `i` that is not JSON white space.
pub open spec fn skip_ws(s: Seq<char>, i: int) -> int
    decreases s.len() - i,
{
    if i < s.len() && i >= 0 && json_ws(s[i]) {
        skip_ws(s, i + 1)
    } else {
        i
    }
}

/// The value of a hexadecimal digit.
pub open spec fn hex_value(c: char) -> Option<nat> {
    if '0' <= c && c <= '9' {
        Some(((c as u32) - 48) as nat)
    } else if 'a' <= c && c <= 'f' {
        Some(((c as u32) - 87) as nat)
    } else if 'A' <= c && c <= 'F' {
        Some(((c as u32) - 55) as nat)
    } else {
        None
    }
}

/// The code point of four hex digits at `i`.
pub open spec fn hex4(s: Seq<char>, i: int) -> Option<nat> {
    if i + 4 <= s.len() && hex_value(s[i]) is Some && hex_value(s[i + 1]) is Some && hex_value(s[i + 2]) is Some
        && hex_value(s[i + 3]) is Some {
        Some(hex_value(s[i])->0 * 4096 + hex_value(s[i + 1])->0 * 256 + hex_value(s[i + 2])->0 * 16 + hex_value(s[i + 3])->0)
    } else {
        None
    }
}

/// A scalar value: not a surrogate.
pub open spec fn scalar_value(v: nat) -> bool {
    v < 0xd800 || (0xe000 <= v && v <= 0x10ffff)
}

/// The escape `\c` stands for, and how many scalars the escape spans.
pub open spec fn escape_at(s: Seq<char>, i: int) -> Option<(char, int)> {
    if i + 1 >= s.len() {
        None
    } else {
        let c = s[i + 1];
        if c == '"' {
            Some(('"', 2))
        } else if c == '\\' {
            Some(('\\', 2))
        } else if c == '/' {
            Some(('/', 2))
        } else if c == 'b' {
            Some(('\u{8}', 2))
        } else if c == 'f' {
            Some(('\u{c}', 2))
        } else if c == 'n' {
            Some(('\n', 2))
        } else if c == 'r' {
            Some(('\r', 2))
        } else if c == 't' {
            Some(('\t', 2))
        } else if c == 'u' && hex4(s, i + 2) is Some && scalar_value(hex4(s, i + 2)->0) {
            Some(((hex4(s, i + 2)->0) as char, 6))
        } else {
            None
        }
    }
}

/// The rest of a JSON string starting after its opening quote at `i`:
/// its value and the index after the closing quote.
pub open spec fn json_string_from(s: Seq<char>, i: int) -> Option<(Seq<char>, int)>
    decreases s.len() - i,
{
    if i < 0 || i >= s.len() {
        None
    } else if s[i] == '"' {
        Some((Seq::empty(), i + 1))
    } else if s[i] == '\\' {
        match escape_at(s, i) {
            Some((c, n)) => match json_string_from(s, i + n) {
                Some((v, e)) => Some((seq![c] + v, e)),
                None => None,
            },
            None => None,
        }
    } else if (s[i] as u32) < 0x20 {
        None
    } else {
        match json_string_from(s, i + 1) {
            Some((v, e)) => Some((seq![s[i]] + v, e)),
            None => None,
        }
    }
}

/// The value of `{"catomic_replacement": "..."}` and nothing else but white space.
pub open spec fn replacement_spec(s: Seq<char>) -> Option<Seq<char>> {
    let i0 = skip_ws(s, 0);
    if !(i0 < s.len() && s[i0] == '{') {
        None
    } else {
        let i1 = skip_ws(s, i0 + 1);
        if !(i1 < s.len() && s[i1] == '"') {
            None
        } else {
            match json_string_from(s, i1 + 1) {
                Some((key, i2)) => {
                    let i3 = skip_ws(s, i2);
                    if key != "catomic_replacement"@ || !(i3 < s.len() && s[i3] == ':') {
                        None
                    } else {
                        let i4 = skip_ws(s, i3 + 1);
                        if !(i4 < s.len() && s[i4] == '"') {
                            None
                        } else {
                            match json_string_from(s, i4 + 1) {
                                Some((v, i5)) => {
                                    let i6 = skip_ws(s, i5);
                                    if i6 < s.len() && s[i6] == '}' && skip_ws(s, i6 + 1) == s.len() {
                                        Some(v)
                                    } else {
                                        None
                                    }
                                },
                                None => None,
                            }
                        }
                    }
                },
                None => None,
            }
        }
    }
}

fn skip_ws_exec(s: &Vec<char>, i: usize) -> (res: usize)
    requires
        i <= s@.len(),
    ensures
        res == skip_ws(s@, i as int),
        i <= res <= s@.len(),
{
    let mut k: usize = i;
    while k < s.len() && (s[k] == ' ' || s[k] == '\t' || s[k] == '\n' || s[k] == '\r')
        invariant
            i <= k <= s@.len(),
            skip_ws(s@, i as int) == skip_ws(s@, k as int),
        decreases s@.len() - k,
    {
        k += 1;
    }
    k
}

fn hex_digit(c: char) -> (res: Option<u32>)
    ensures
        res matches Some(v) ==> hex_value(c) == Some(v as nat),
        res is None ==> hex_value(c) is None,
{
    if '0' <= c && c <= '9' {
        Some((c as u32) - 48)
    } else if 'a' <= c && c <= 'f' {
        Some((c as u32) - 87)
    } else if 'A' <= c && c <= 'F' {
        Some((c as u32) - 55)
    } else {
        None
    }
}

/// The scalar with code point `v`: std's `char::from_u32`, which gives
/// None exactly for surrogates and values above 0x10FFFF.
#[verifier::external_body]
fn char_from_u32(v: u32) -> (res: Option<char>)
    ensures
        scalar_value(v as nat) ==> res == Some(v as char),
        !scalar_value(v as nat) ==> res is None,
{
    char::from_u32(v)
}

#[verifier::rlimit(40)]
fn escape_exec(s: &Vec<char>, i: usize) -> (res: Option<(char, usize)>)
    requires
        i < s@.len(),
    ensures
        res matches Some((c, n)) ==> escape_at(s@, i as int) == Some((c, n as int)),
        res is None ==> escape_at(s@, i as int) is None,
{
    if s.len() - i <= 1 {
        return None;
    }
    let c = s[i + 1];
    if c == '"' {
        Some(('"', 2))
    } else if c == '\\' {
        Some(('\\', 2))
    } else if c == '/' {
        Some(('/', 2))
    } else if c == 'b' {
        Some(('\u{8}', 2))
    } else if c == 'f' {
        Some(('\u{c}', 2))
    } else if c == 'n' {
        Some(('\n', 2))
    } else if c == 'r' {
        Some(('\r', 2))
    } else if c == 't' {
        Some(('\t', 2))
    } else if c == 'u' {
        if s.len() - i < 6 {
            return None;
        }
        let a = hex_digit(s[i + 2]);
        let b = hex_digit(s[i + 3]);
        let d = hex_digit(s[i + 4]);
        let e = hex_digit(s[i + 5]);
        match (a, b, d, e) {
            (Some(a), Some(b), Some(d), Some(e)) => {
                let v = a * 4096 + b * 256 + d * 16 + e;
                match char_from_u32(v) {
                    Some(ch) => Some((ch, 6)),
                    None => None,
                }
            },
            _ => None,
        }
    } else {
        None
    }
}

/// Reads a JSON string whose opening quote precedes `start`.
fn json_string(s: &Vec<char>, start: usize) -> (res: Option<(Vec<char>, usize)>)
    requires
        start <= s@.len(),
    ensures
        res matches Some((v, e)) ==> json_string_from(s@, start as int) == Some((v@, e as int)) && e <= s@.len(),
        res is None ==> json_string_from(s@, start as int) is None,
{
    let mut acc: Vec<char> = Vec::new();
    let mut i: usize = start;
    while i < s.len()
        invariant
            start <= i <= s@.len(),
            json_string_from(s@, start as int) == match json_string_from(s@, i as int) {
                Some((v, e)) => Some((acc@ + v, e)),
                None => None,
            },
        decreases s@.len() - i,
    {
        let c = s[i];
        if c == '"' {
            proof {
                assert(acc@ + Seq::<char>::empty() =~= acc@);
            }
            return Some((acc, i + 1));
        }
        if c == '\\' {
            match escape_exec(s, i) {
                Some((ch, n)) => {
                    let ghost before = acc@;
                    acc.push(ch);
                    proof {
                        match json_string_from(s@, i + n) {
                            Some((v, e)) => {
                                assert(before + (seq![ch] + v) =~= acc@ + v);
                            },
                            None => {},
                        }
                    }
                    i = i + n;
                },
                None => return None,
            }
        } else if (c as u32) < 0x20 {
            return None;
        } else {
            let ghost before = acc@;
            acc.push(c);
            proof {
                match json_string_from(s@, i + 1) {
                    Some((v, e)) => {
                        assert(before + (seq![c] + v) =~= acc@ + v);
                    },
                    None => {},
                }
            }
            i = i + 1;
        }
    }
    None
}

/// The replacement text of a `{"catomic_replacement": "..."}` answer.
pub fn parse_replacement(output: &str) -> (res: Option<Vec<char>>)
    ensures
        res matches Some(v) ==> replacement_spec(output@) == Some(v@),
        res is None ==> replacement_spec(output@) is None,
{
    let s = crate::text::chars_of(output);
    let i0 = skip_ws_exec(&s, 0);
    if !(i0 < s.len() && s[i0] == '{') {
        return None;
    }
    let i1 = skip_ws_exec(&s, i0 + 1);
    if !(i1 < s.len() && s[i1] == '"') {
        return None;
    }
    let (key, i2) = match json_string(&s, i1 + 1) {
        Some(r) => r,
        None => return None,
    };
    let i3 = skip_ws_exec(&s, i2);
    let key_ok = {
        let expected = crate::text::chars_of("catomic_replacement");
        crate::buffer::chars_equal(&key, &expected)
    };
    if !key_ok || !(i3 < s.len() && s[i3] == ':') {
        return None;
    }
    let i4 = skip_ws_exec(&s, i3 + 1);
    if !(i4 < s.len() && s[i4] == '"') {
        return None;
    }
    let (value, i5) = match json_string(&s, i4 + 1) {
        Some(r) => r,
        None => return None,
    };
    let i6 = skip_ws_exec(&s, i5);
    if !(i6 < s.len() && s[i6] == '}') {
        return None;
    }
    let end = skip_ws_exec(&s, i6 + 1);
    if end != s.len() {
        return None;
    }
    Some(value)
}

/// `s` with `mark` at the start of each of its lines.
pub open spec fn marked_lines(s: Seq<char>, mark: char) -> Seq<char>
    decreases s.len(),
{
    if s.len() == 0 {
        Seq::empty()
    } else {
        let prev = marked_lines(s.drop_last(), mark);
        let starts_line = s.len() == 1 || s[s.len() - 2] == '\n';
        (if starts_line { prev.push(mark) } else { prev }).push(s.last())
    }
}

/// The read-only preview of a region replacement, in unified-diff style.
pub open spec fn region_preview_text(original: Seq<char>, replacement: Seq<char>) -> Seq<char> {
    "--- selected region\n+++ proposed region\n@@ marked region @@\n"@ + marked_lines(original, '-') + (if original.len() > 0
        && original.last() != '\n' {
        seq!['\n']
    } else {
        Seq::empty()
    }) + marked_lines(replacement, '+')
}

fn push_marked(out: &mut Vec<char>, s: &Vec<char>, mark: char)
    ensures
        final(out)@ == old(out)@ + marked_lines(s@, mark),
{
    let ghost start = out@;
    let mut i: usize = 0;
    proof {
        assert(s@.take(0) =~= Seq::<char>::empty());
        assert(start + marked_lines(s@.take(0), mark) =~= start);
    }
    while i < s.len()
        invariant
            0 <= i <= s@.len(),
            out@ == start + marked_lines(s@.take(i as int), mark),
        decreases s@.len() - i,
    {
        let ghost before = out@;
        if i == 0 || s[i - 1] == '\n' {
            out.push(mark);
        }
        out.push(s[i]);
        proof {
            let t = s@.take(i + 1);
            assert(t.drop_last() =~= s@.take(i as int));
            assert(t.last() == s@[i as int]);
            if i >= 1 {
                assert(t[t.len() - 2] == s@[i - 1]);
            }
            assert(out@ =~= start + marked_lines(t, mark));
        }
        i += 1;
    }
    proof {
        assert(s@.take(s@.len() as int) =~= s@);
    }
}

pub fn region_preview(original: &Vec<char>, replacement: &Vec<char>) -> (res: Vec<char>)
    ensures
        res@ == region_preview_text(original@, replacement@),
{
    let mut out: Vec<char> = Vec::new();
    push_str(&mut out, "--- selected region\n+++ proposed region\n@@ marked region @@\n");
    push_marked(&mut out, original, '-');
    if original.len() > 0 && original[original.len() - 1] != '\n' {
        out.push('\n');
    }
    push_marked(&mut out, replacement, '+');
    proof {
        assert(out@ =~= region_preview_text(original@, replacement@));
    }
    out
}

/// The marked region still holds the text it was taken from.
pub open spec fn region_unchanged(app: &App, t: RegionTarget) -> bool {
    let lines = app.buffer.lines();
    &&& cursor_valid(lines, t.start)
    &&& cursor_valid(lines, t.end)
    &&& cursor_le(t.start, t.end)
    &&& app.buffer.text().subrange(cursor_offset(lines, t.start), cursor_offset(lines, t.end)) == t.original@
}

/// What offering `output` as a replacement of `target` did: a preview opens
/// only for a `catomic_replacement` object while the region is unchanged;
/// otherwise the previous preview stays and the message says why.
pub open spec fn region_offered(before: &App, after: &App, output: Seq<char>, target: Option<RegionTarget>) -> bool {
    match target {
        None => after.llm_preview == before.llm_preview && after.message_role == StatusRole::Error
            && (after.message matches Some(m) && m@ == "Invalid LLM patch; no marked selection fallback was available."@),
        Some(t) => match replacement_spec(output) {
            None => after.llm_preview == before.llm_preview && after.message_role == StatusRole::Error
                && (after.message matches Some(m) && m@
                == "Invalid LLM patch and marked-region replacement: expected one JSON object with a catomic_replacement string."@),
            Some(r) => {
                &&& region_unchanged(before, t) ==> (after.llm_preview matches Some(p) && p.target == t
                    && p.replacement@ == r && p.preview_text@ == region_preview_text(t.original@, r)
                    && p.source_revision == before.buffer.revision() && after.message_role == StatusRole::Info)
                &&& !region_unchanged(before, t) ==> after.llm_preview == before.llm_preview
                    && after.message_role == StatusRole::Warning
                    && (after.message matches Some(m) && m@ == "Selected text changed; LLM replacement was not previewed."@)
            },
        },
    }
}

/// Offers a model answer as a replacement of the marked region: only a
/// `catomic_replacement` object is accepted, and only while the region still
/// holds the text it was taken from. Nothing is applied here.
pub fn show_with_region_fallback(app: &mut App, output: &str, target: Option<RegionTarget>)
    requires
        old(app).buffer.wf(),
    ensures
        final(app).buffer == old(app).buffer,
        final(app).file == old(app).file,
        final(app).inactive_buffers == old(app).inactive_buffers,
        final(app).llm_task == old(app).llm_task,
        region_offered(old(app), final(app), output@, target),
{
    let target = match target {
        Some(t) => t,
        None => {
            app.message_error(String::from_str("Invalid LLM patch; no marked selection fallback was available."));
            return;
        },
    };
    let current = app.buffer.text_range(target.start, target.end);
    let unchanged = match &current {
        Ok(t) => crate::buffer::chars_equal(t, &target.original),
        Err(_) => false,
    };
    let replacement = match parse_replacement(output) {
        Some(r) => r,
        None => {
            app.message_error(String::from_str(
                "Invalid LLM patch and marked-region replacement: expected one JSON object with a catomic_replacement string.",
            ));
            return;
        },
    };
    if !unchanged {
        app.message_warning(String::from_str("Selected text changed; LLM replacement was not previewed."));
        return;
    }
    let preview_text = region_preview(&target.original, &replacement);
    app.llm_preview = Some(PatchPreview {
        target,
        replacement,
        preview_text,
        source_revision: app.buffer.content_revision(),
        source_scroll_top: app.screen.scroll_top,
        source_scroll_left: app.screen.scroll_left,
    });
    app.screen.scroll_top = 0;
    app.screen.scroll_left = 0;
    app.selection.clear();
    app.message_info(String::from_str("LLM marked-region preview (read-only). Enter applies; Esc cancels."));
}

/// Enter on the preview: applies the replacement as one undoable edit,
/// unless the buffer changed since the preview was made.
pub fn apply_preview(app: &mut App) -> (applied: bool)
    requires
        old(app).buffer.wf(),
    ensures
        final(app).buffer.wf(),
        final(app).llm_preview is None,
        !applied ==> final(app).buffer.same(&old(app).buffer),
        old(app).llm_preview is None ==> !applied,
        old(app).llm_preview matches Some(p) ==> {
            let lines = old(app).buffer.lines();
            let t = crate::buffer::replaced_text(lines, p.target.start, p.target.end, p.replacement@);
            &&& applied <==> (p.source_revision == old(app).buffer.revision() && cursor_valid(lines, p.target.start)
                && cursor_valid(lines, p.target.end) && cursor_le(p.target.start, p.target.end))
            &&& applied ==> final(app).buffer.text() == t
            &&& applied && t != old(app).buffer.text() ==> final(app).buffer.undo_states()
                == old(app).buffer.undo_states().push(old(app).buffer.state())
        },
        final(app).inactive_buffers == old(app).inactive_buffers,
{
    let preview = match app.llm_preview.take() {
        Some(p) => p,
        None => return false,
    };
    app.screen.scroll_top = preview.source_scroll_top;
    app.screen.scroll_left = preview.source_scroll_left;
    if preview.source_revision != app.buffer.content_revision() {
        app.message_warning(String::from_str("Buffer changed; LLM replacement was not applied."));
        return false;
    }
    match app.buffer.replace_range(preview.target.start, preview.target.end, preview.replacement.as_slice()) {
        Ok(_) => {
            crate::input::finish_content_edit(app);
            true
        },
        Err(_) => {
            app.message_warning(String::from_str("LLM replacement no longer fits the buffer; it was not applied."));
            false
        },
    }
}

/// Closes the preview, if any, and restores the view it replaced.
pub fn close_preview(app: &mut App) -> (closed: bool)
    ensures
        closed == old(app).llm_preview is Some,
        old(app).llm_preview matches Some(p) ==> *final(app) == (App {
            llm_preview: None,
            screen: crate::screen::Screen {
                scroll_top: p.source_scroll_top,
                scroll_left: p.source_scroll_left,
                ..old(app).screen
            },
            ..*old(app)
        }),
        old(app).llm_preview is None ==> *final(app) == *old(app),
{
    match app.llm_preview.take() {
        Some(p) => {
            app.screen.scroll_top = p.source_scroll_top;
            app.screen.scroll_left = p.source_scroll_left;
            true
        },
        None => false,
    }
}

/// Esc on the preview: closes it and restores the view; nothing changes.
pub fn cancel_preview(app: &mut App) -> (closed: bool)
    ensures
        closed == old(app).llm_preview is Some,
        final(app).llm_preview is None,
        final(app).buffer == old(app).buffer,
        final(app).file == old(app).file,
        final(app).inactive_buffers == old(app).inactive_buffers,
{
    match app.llm_preview.take() {
        Some(p) => {
            app.screen.scroll_top = p.source_scroll_top;
            app.screen.scroll_left = p.source_scroll_left;
            app.message = None;
            true
        },
        None => false,
    }
}

/// A key on a proposal preview: Enter applies, Esc cancels, arrows and
/// pages scroll, and other keys only say it is read-only. Ctrl+Q is not taken.
pub fn handle_preview_key(app: &mut App, key: crate::keys::KeyEvent) -> (handled: bool)
    requires
        old(app).buffer.wf(),
    ensures
        final(app).buffer.wf(),
        final(app).inactive_buffers == old(app).inactive_buffers,
        handled == (old(app).llm_preview is Some && !crate::keys::is_quit_key(key)),
        !handled ==> *final(app) == *old(app),
        handled && key.code != crate::keys::KeyCode::Enter ==> final(app).buffer == old(app).buffer,
        handled && (key.code == crate::keys::KeyCode::Enter || key.code == crate::keys::KeyCode::Esc)
            ==> final(app).llm_preview is None,
        handled && key.code != crate::keys::KeyCode::Enter && key.code != crate::keys::KeyCode::Esc
            ==> final(app).llm_preview == old(app).llm_preview,
        handled && crate::screen::scroll_key(key.code) ==> final(app).screen.scroll_top == crate::screen::scrolled(
            old(app).screen.scroll_top as int,
            crate::lines::split_lines(old(app).llm_preview->0.preview_text@).len() as int,
            crate::screen::content_rows(old(app).screen),
            key.code,
        ),
{
    if crate::keys::quit_key(key) {
        return false;
    }
    let lines = match &app.llm_preview {
        Some(p) => crate::buffer::split_text(&p.preview_text, 0).0.len(),
        None => return false,
    };
    match key.code {
        crate::keys::KeyCode::Enter => {
            apply_preview(app);
        },
        crate::keys::KeyCode::Esc => {
            cancel_preview(app);
        },
        crate::keys::KeyCode::Up | crate::keys::KeyCode::Down | crate::keys::KeyCode::PageUp
        | crate::keys::KeyCode::PageDown | crate::keys::KeyCode::Home | crate::keys::KeyCode::End => {
            app.screen.scroll_view(lines, key.code);
        },
        _ => app.message_info(String::from_str("LLM patch preview is read-only. Enter applies; Esc cancels.")),
    }
    true
}

} // verus!
