//! Named external commands: preparing a run from the configuration and the
//! buffer, the preview of what it printed, and applying that output only on
//! confirmation and only to the revision it was made from.

use vstd::prelude::*;

use crate::app::App;
use crate::buffer::{cursor_le, cursor_offset, cursor_valid, replaced_text, Cursor, TextBuffer};
use crate::keys::{is_quit_key, quit_key, KeyCode, KeyEvent};
use crate::lines::split_lines;
use crate::screen::{content_rows, scroll_key, scrolled};
use crate::config::{CommandInput, CommandOutput, CommandSpec};
use crate::selection::ordered;
use crate::status::{decimal, push_chars, push_decimal, push_str, StatusRole};

verus! {

/// Commands read at most this many scalars.
pub const MAX_INPUT_CHARS: usize = 16_777_216;

/// Where confirmed output goes.
#[derive(Clone, Copy, Debug, PartialEq, Eq, Structural)]
pub enum ApplyTarget {
    Insert(Cursor),
    ReplaceSelection(Cursor, Cursor),
    ReplaceBuffer,
}

/// A command that was started: what runs, what it reads, and what its output may replace.
pub struct RunningCommand {
    pub name: String,
    pub command: String,
    pub input: Vec<char>,
    pub target: Option<ApplyTarget>,
    pub source_revision: Option<u64>,
    pub source_path: Option<String>,
}

/// A finished command's output, shown read-only until confirmed or dismissed.
pub struct CommandPreview {
    pub name: String,
    /// What the command printed, which Enter may apply.
    pub proposed: Vec<char>,
    /// What the preview shows: the output, standard error and the exit status.
    pub shown: Vec<char>,
    pub succeeded: bool,
    pub target: Option<ApplyTarget>,
    pub source_revision: Option<u64>,
    pub source_path: Option<String>,
    pub source_scroll_top: usize,
    pub source_scroll_left: usize,
}

/// How a started command ended.
pub enum CommandResult {
    Finished { stdout: String, stderr: String, code: Option<i32>, truncated: bool },
    TimedOut,
    Cancelled,
    Failed(String),
}

pub struct ExternalCommandState {
    pub running: Option<RunningCommand>,
    pub preview: Option<CommandPreview>,
}

impl ExternalCommandState {
    pub fn new() -> (res: ExternalCommandState)
        ensures
            res.running is None,
            res.preview is None,
    {
        ExternalCommandState { running: None, preview: None }
    }
}

pub open spec fn busy_spec(app: &App) -> bool {
    app.external_command.running is Some || app.external_command.preview is Some
}

/// A command runs or its output is on screen.
pub fn is_busy(app: &App) -> (res: bool)
    ensures
        res == busy_spec(app),
{
    app.external_command.running.is_some() || app.external_command.preview.is_some()
}

pub fn is_running(app: &App) -> (res: bool)
    ensures
        res == app.external_command.running is Some,
{
    app.external_command.running.is_some()
}

pub fn is_viewing(app: &App) -> (res: bool)
    ensures
        res == app.external_command.preview is Some,
{
    app.external_command.preview.is_some()
}

/// Drops the running command and any preview; says whether there was one.
pub fn cancel_all(app: &mut App) -> (res: bool)
    ensures
        res == busy_spec(old(app)),
        *final(app) == (App {
            external_command: ExternalCommandState { running: None, preview: None },
            ..*old(app)
        }),
{
    let had = is_busy(app);
    app.external_command = ExternalCommandState::new();
    had
}

/// `path` in single quotes for a POSIX shell.
pub open spec fn shell_quote(path: Seq<char>) -> Seq<char>
    decreases path.len(),
{
    if path.len() == 0 {
        seq!['\'', '\'']
    } else {
        let prev = shell_quote(path.drop_last());
        let body = prev.drop_last();
        if path.last() == '\'' {
            body + "'\\''"@ + seq!['\'']
        } else {
            body.push(path.last()).push('\'')
        }
    }
}

/// `cmd` with every `{file}` replaced by the quoted path.
pub open spec fn substitute_file(cmd: Seq<char>, quoted: Seq<char>) -> Seq<char>
    decreases cmd.len(),
{
    if cmd.len() == 0 {
        Seq::empty()
    } else if cmd.len() >= 6 && cmd.take(6) == "{file}"@ {
        quoted + substitute_file(cmd.skip(6), quoted)
    } else {
        seq![cmd[0]] + substitute_file(cmd.skip(1), quoted)
    }
}

pub open spec fn mentions_file(cmd: Seq<char>) -> bool {
    exists|i: int| 0 <= i && i + 6 <= cmd.len() && #[trigger] cmd.subrange(i, i + 6) == "{file}"@
}

pub(crate) fn quote(path: &Vec<char>) -> (res: Vec<char>)
    ensures
        res@ == shell_quote(path@),
{
    let mut out: Vec<char> = Vec::new();
    out.push('\'');
    let mut i: usize = 0;
    proof {
        assert(path@.take(0) =~= Seq::<char>::empty());
    }
    while i < path.len()
        invariant
            0 <= i <= path@.len(),
            out@.push('\'') == shell_quote(path@.take(i as int)),
        decreases path@.len() - i,
    {
        let ghost before = out@;
        if path[i] == '\'' {
            push_str(&mut out, "'\\''");
        } else {
            out.push(path[i]);
        }
        proof {
            let t = path@.take(i + 1);
            assert(t.drop_last() =~= path@.take(i as int));
            assert(shell_quote(path@.take(i as int)).drop_last() =~= before);
            assert(out@.push('\'') =~= shell_quote(t));
        }
        i += 1;
    }
    out.push('\'');
    proof {
        assert(path@.take(path@.len() as int) =~= path@);
    }
    out
}

pub(crate) fn substitute(cmd: &Vec<char>, quoted: &Vec<char>) -> (res: Vec<char>)
    ensures
        res@ == substitute_file(cmd@, quoted@),
{
    let mut out: Vec<char> = Vec::new();
    let mut i: usize = 0;
    proof {
        assert(cmd@.skip(0) =~= cmd@);
    }
    while i < cmd.len()
        invariant
            0 <= i <= cmd@.len(),
            out@ + substitute_file(cmd@.skip(i as int), quoted@) == substitute_file(cmd@, quoted@),
        decreases cmd@.len() - i,
    {
        let ghost rest = cmd@.skip(i as int);
        let is_file = cmd.len() - i >= 6 && cmd[i] == '{' && cmd[i + 1] == 'f' && cmd[i + 2] == 'i' && cmd[i + 3]
            == 'l' && cmd[i + 4] == 'e' && cmd[i + 5] == '}';
        proof {
            reveal_strlit("{file}");
            if is_file {
                assert(rest.take(6) =~= "{file}"@);
            } else if rest.len() >= 6 {
                if rest.take(6) == "{file}"@ {
                    assert(rest.take(6)[0] == rest[0]);
                    assert(rest.take(6)[1] == rest[1]);
                    assert(rest.take(6)[2] == rest[2]);
                    assert(rest.take(6)[3] == rest[3]);
                    assert(rest.take(6)[4] == rest[4]);
                    assert(rest.take(6)[5] == rest[5]);
                }
            }
        }
        if is_file {
            push_chars(&mut out, quoted);
            proof {
                assert(rest.skip(6) =~= cmd@.skip(i + 6));
            }
            i += 6;
        } else {
            out.push(cmd[i]);
            proof {
                assert(rest.skip(1) =~= cmd@.skip(i + 1));
                assert(seq![cmd@[i as int]] + substitute_file(cmd@.skip(i + 1), quoted@) == substitute_file(rest, quoted@));
            }
            i += 1;
        }
    }
    out
}

/// Whether `{file}` occurs in `cmd`.
fn has_file_placeholder(cmd: &Vec<char>) -> (res: bool)
    ensures
        res == mentions_file(cmd@),
{
    let mut i: usize = 0;
    while i < cmd.len() && cmd.len() - i >= 6
        invariant
            0 <= i <= cmd@.len(),
            forall|j: int| 0 <= j < i && j + 6 <= cmd@.len() ==> #[trigger] cmd@.subrange(j, j + 6) != "{file}"@,
        decreases cmd@.len() - i,
    {
        proof {
            reveal_strlit("{file}");
        }
        if cmd[i] == '{' && cmd[i + 1] == 'f' && cmd[i + 2] == 'i' && cmd[i + 3] == 'l' && cmd[i + 4] == 'e' && cmd[i
            + 5] == '}' {
            proof {
                assert(cmd@.subrange(i as int, i + 6) =~= "{file}"@);
            }
            return true;
        }
        proof {
            assert(cmd@.subrange(i as int, i + 6) != "{file}"@) by {
                if cmd@.subrange(i as int, i + 6) == "{file}"@ {
                    assert(cmd@.subrange(i as int, i + 6)[0] == cmd@[i as int]);
                    assert(cmd@.subrange(i as int, i + 6)[1] == cmd@[i + 1]);
                    assert(cmd@.subrange(i as int, i + 6)[2] == cmd@[i + 2]);
                    assert(cmd@.subrange(i as int, i + 6)[3] == cmd@[i + 3]);
                    assert(cmd@.subrange(i as int, i + 6)[4] == cmd@[i + 4]);
                    assert(cmd@.subrange(i as int, i + 6)[5] == cmd@[i + 5]);
                }
            }
        }
        i += 1;
    }
    false
}

/// Where a command's output would go, given the cursor and the selection.
pub open spec fn target_for(output: CommandOutput, cursor: Cursor, selection: Option<(Cursor, Cursor)>) -> Option<Option<ApplyTarget>> {
    match output {
        CommandOutput::Show => Some(None),
        CommandOutput::Insert => Some(Some(ApplyTarget::Insert(cursor))),
        CommandOutput::ReplaceBuffer => Some(Some(ApplyTarget::ReplaceBuffer)),
        CommandOutput::ReplaceSelection => match selection {
            Some((a, b)) => Some(Some(ApplyTarget::ReplaceSelection(a, b))),
            None => None,
        },
    }
}

/// The active selection of `app`, in document order.
pub open spec fn app_selection(app: &App) -> Option<(Cursor, Cursor)> {
    match app.selection.anchor {
        Some(a) => Some(ordered(a, app.buffer.view_cursor())),
        None => None,
    }
}

/// What a command reads: nothing, the whole text, or the selected text
/// (None where it reads a selection and there is none inside the buffer).
pub open spec fn command_input(app: &App, input: CommandInput) -> Option<Seq<char>> {
    match input {
        CommandInput::Nothing => Some(Seq::empty()),
        CommandInput::Buffer => Some(app.buffer.text()),
        CommandInput::Selection => match app_selection(app) {
            Some((a, b)) => if cursor_valid(app.buffer.lines(), a) && cursor_valid(app.buffer.lines(), b) {
                Some(app.buffer.text().subrange(cursor_offset(app.buffer.lines(), a), cursor_offset(app.buffer.lines(), b)))
            } else {
                None
            },
            None => None,
        },
    }
}

/// The shell text that runs: `{file}` replaced by the quoted path (None
/// where the command names `{file}` and the buffer has no path).
pub open spec fn command_text(cmd: Seq<char>, path: Option<String>) -> Option<Seq<char>> {
    if mentions_file(cmd) {
        match path {
            Some(p) => Some(substitute_file(cmd, shell_quote(p@))),
            None => None,
        }
    } else {
        Some(cmd)
    }
}

/// `i` is the first configured command called `name`.
pub open spec fn first_named(cmds: Seq<CommandSpec>, name: Seq<char>, i: int) -> bool {
    &&& 0 <= i < cmds.len()
    &&& cmds[i].name@ == name
    &&& forall|j: int| 0 <= j < i ==> cmds[j].name@ != name
}

/// The configured command `spec` can start on `app` as it stands.
#[verifier::opaque]
pub open spec fn start_condition(app: &App, spec: CommandSpec) -> bool {
    &&& target_for(spec.output, app.buffer.view_cursor(), app_selection(app)) is Some
    &&& command_input(app, spec.input) matches Some(input) && input.len() <= MAX_INPUT_CHARS
    &&& command_text(spec.command@, app.file.path) is Some
}

/// The command called `name` would start on `app`, were nothing busy.
pub open spec fn start_possible(app: &App, name: Seq<char>) -> bool {
    exists|i: int| #[trigger] first_named(app.command_config.commands@, name, i) && start_condition(
        app,
        app.command_config.commands@[i],
    )
}

/// Exactly when the first command called `name` can start, some command
/// called `name` can: the first one is unique.
proof fn lemma_started_iff_possible(app: &App, name: Seq<char>, started: bool)
    requires
        (forall|i: int| 0 <= i < app.command_config.commands@.len() ==> app.command_config.commands@[i].name@ != name)
            ==> !started,
        forall|i: int| #[trigger]
            first_named(app.command_config.commands@, name, i) ==> (started <==> start_condition(
                app,
                app.command_config.commands@[i],
            )),
    ensures
        started <==> start_possible(app, name),
{
    let cmds = app.command_config.commands@;
    if started {
        let k = choose|i: int| 0 <= i < cmds.len() && cmds[i].name@ == name;
        lemma_first_named_exists(cmds, name, k);
        let f = choose|i: int| first_named(cmds, name, i);
        assert(first_named(cmds, name, f) && start_condition(app, cmds[f]));
    } else if start_possible(app, name) {
        let f = choose|i: int| #[trigger] first_named(cmds, name, i) && start_condition(app, cmds[i]);
        assert(first_named(cmds, name, f));
    }
}

/// Whether a command can start depends only on the buffer, the selection,
/// the file and the configured commands.
pub proof fn lemma_start_possible_frame(a: &App, b: &App, name: Seq<char>)
    requires
        a.buffer == b.buffer,
        a.selection == b.selection,
        a.file == b.file,
        a.command_config == b.command_config,
    ensures
        start_possible(a, name) == start_possible(b, name),
{
    reveal(start_condition);
    assert forall|c: CommandSpec| start_condition(a, c) == start_condition(b, c) by {}
}

proof fn lemma_first_named_exists(cmds: Seq<CommandSpec>, name: Seq<char>, k: int)
    requires
        0 <= k < cmds.len(),
        cmds[k].name@ == name,
    ensures
        exists|i: int| first_named(cmds, name, i),
    decreases k,
{
    if forall|j: int| 0 <= j < k ==> cmds[j].name@ != name {
        assert(first_named(cmds, name, k));
    } else {
        let j = choose|j: int| 0 <= j < k && cmds[j].name@ == name;
        lemma_first_named_exists(cmds, name, j);
    }
}

/// What starting the configured command `spec` does: it starts exactly when
/// its output has a target, its input can be read and fits the limit, and its
/// text can be completed; then it records that text, input and target.
pub open spec fn start_outcome(before: &App, after: &App, spec: CommandSpec, started: bool) -> bool {
    let target = target_for(spec.output, before.buffer.view_cursor(), app_selection(before));
    let input = command_input(before, spec.input);
    let command = command_text(spec.command@, before.file.path);
    &&& started <==> start_condition(before, spec)
    &&& started ==> (after.external_command.running matches Some(r) && r.command@ == command->0 && r.input@
        == input->0 && r.target == target->0 && crate::llm::same_path(r.source_path, before.file.path)
        && (after.message matches Some(m) && m@ == "Running command "@ + spec.name@ + "... Esc cancels."@))
    &&& !started ==> after.message_role == StatusRole::Error
}

/// Starts the command called `name`: records what runs, on what input, and
/// where its output may go; the process itself is started by the caller.
pub fn start(app: &mut App, name: &str) -> (started: bool)
    requires
        old(app).buffer.wf(),
    ensures
        final(app).inactive_buffers == old(app).inactive_buffers,
        final(app).buffer == old(app).buffer,
        final(app).file == old(app).file,
        final(app).hooks == old(app).hooks,
        final(app).command_config == old(app).command_config,
        final(app).pending_llm_request == old(app).pending_llm_request,
        final(app).llm_task == old(app).llm_task,
        busy_spec(old(app)) ==> !started && final(app).external_command == old(app).external_command
            && final(app).message_role == StatusRole::Info,
        !busy_spec(old(app)) && (forall|i: int| 0 <= i < old(app).command_config.commands@.len() ==> old(app).command_config.commands@[i].name@ != name@)
            ==> !started && final(app).message_role == StatusRole::Error && final(app).external_command.running is None,
        started ==> {
            &&& final(app).external_command.running matches Some(r) && r.name@ == name@ && (r.target is Some
                ==> r.source_revision == Some(old(app).buffer.revision())) && (r.target is None ==> r.source_revision is None)
            &&& final(app).message_role == StatusRole::Info
            &&& final(app).external_command.preview is None
        },
        !started ==> final(app).external_command.running == old(app).external_command.running,
        !busy_spec(old(app)) ==> forall|i: int| #[trigger]
            first_named(old(app).command_config.commands@, name@, i) ==> (started <==> start_condition(
                old(app),
                old(app).command_config.commands@[i],
            )) && start_outcome(old(app), final(app), old(app).command_config.commands@[i], started),
        !busy_spec(old(app)) ==> (started <==> start_possible(old(app), name@)),
{
    let started = start_command(app, name);
    proof {
        if !busy_spec(old(app)) {
            lemma_started_iff_possible(old(app), name@, started);
        }
    }
    started
}

fn start_command(app: &mut App, name: &str) -> (started: bool)
    requires
        old(app).buffer.wf(),
    ensures
        final(app).inactive_buffers == old(app).inactive_buffers,
        final(app).buffer == old(app).buffer,
        final(app).file == old(app).file,
        final(app).hooks == old(app).hooks,
        final(app).command_config == old(app).command_config,
        final(app).pending_llm_request == old(app).pending_llm_request,
        final(app).llm_task == old(app).llm_task,
        busy_spec(old(app)) ==> !started && final(app).external_command == old(app).external_command
            && final(app).message_role == StatusRole::Info,
        !busy_spec(old(app)) && (forall|i: int| 0 <= i < old(app).command_config.commands@.len() ==> old(app).command_config.commands@[i].name@ != name@)
            ==> !started && final(app).message_role == StatusRole::Error && final(app).external_command.running is None,
        started ==> {
            &&& final(app).external_command.running matches Some(r) && r.name@ == name@ && (r.target is Some
                ==> r.source_revision == Some(old(app).buffer.revision())) && (r.target is None ==> r.source_revision is None)
            &&& final(app).message_role == StatusRole::Info
            &&& final(app).external_command.preview is None
        },
        !started ==> final(app).external_command.running == old(app).external_command.running,
        !busy_spec(old(app)) ==> forall|i: int| #[trigger]
            first_named(old(app).command_config.commands@, name@, i) ==> (started <==> start_condition(
                old(app),
                old(app).command_config.commands@[i],
            )) && start_outcome(old(app), final(app), old(app).command_config.commands@[i], started),
{
    if is_busy(app) {
        app.message_info(String::from_str("An external command is already running or previewed."));
        return false;
    }
    let found = app.command_config.get(name);
    proof {
        reveal(start_condition);
        if let Some(sp) = found {
            let cmds = old(app).command_config.commands@;
            let i0 = choose|i: int|
                0 <= i < cmds.len() && cmds[i] == *sp && sp.name@ == name@ && forall|j: int|
                    0 <= j < i ==> cmds[j].name@ != name@;
            assert forall|i: int|
                0 <= i < cmds.len() && (#[trigger] cmds[i]).name@ == name@ && (forall|j: int|
                    0 <= j < i ==> cmds[j].name@ != name@) implies cmds[i] == *sp by {
                if i < i0 {
                } else if i > i0 {
                    assert(cmds[i0].name@ == name@);
                }
            }
        }
    }
    let spec = match found {
        Some(spec) => spec,
        None => {
            let mut m: Vec<char> = Vec::new();
            push_str(&mut m, "Unknown configured command: ");
            push_str(&mut m, name);
            app.message_error(crate::text::string_of(&m));
            return false;
        },
    };
    let cursor = app.buffer.cursor();
    let selection = app.selection.active(cursor);
    let target: Option<ApplyTarget> = match spec.output {
        CommandOutput::Show => None,
        CommandOutput::Insert => Some(ApplyTarget::Insert(cursor)),
        CommandOutput::ReplaceBuffer => Some(ApplyTarget::ReplaceBuffer),
        CommandOutput::ReplaceSelection => match selection {
            Some((a, b)) => Some(ApplyTarget::ReplaceSelection(a, b)),
            None => {
                app.message_error(String::from_str("Command input error: select text to replace first."));
                return false;
            },
        },
    };
    let input: Vec<char> = match spec.input {
        CommandInput::Nothing => Vec::new(),
        CommandInput::Buffer => app.buffer.to_chars(),
        CommandInput::Selection => match selection {
            Some((a, b)) => match app.buffer.text_range(a, b) {
                Ok(t) => t,
                Err(_) => {
                    app.message_error(String::from_str("Command input error: the selection is outside the buffer."));
                    return false;
                },
            },
            None => {
                app.message_error(String::from_str("Command input error: the command reads the selection; select text first."));
                return false;
            },
        },
    };
    if input.len() > MAX_INPUT_CHARS {
        app.message_error(String::from_str("Command input error: input exceeds the 16 MiB safety limit."));
        return false;
    }
    let cmd = crate::text::chars_of(spec.command.as_str());
    let command = if has_file_placeholder(&cmd) {
        match &app.file.path {
            Some(p) => {
                let path = crate::text::chars_of(p.as_str());
                let quoted = quote(&path);
                substitute(&cmd, &quoted)
            },
            None => {
                app.message_error(String::from_str("Command input error: the command needs {file}; save the buffer first."));
                return false;
            },
        }
    } else {
        cmd
    };
    let source_revision = match target {
        Some(_) => Some(app.buffer.content_revision()),
        None => None,
    };
    let source_path = match &app.file.path {
        Some(p) => Some(p.clone()),
        None => None,
    };
    app.external_command.running = Some(RunningCommand {
        name: String::from_str(name),
        command: crate::text::string_of(&command),
        input,
        target,
        source_revision,
        source_path,
    });
    let mut m: Vec<char> = Vec::new();
    push_str(&mut m, "Running command ");
    push_str(&mut m, name);
    push_str(&mut m, "... Esc cancels.");
    app.message_info(crate::text::string_of(&m));
    true
}

/// The command called `name` ended without output to preview (`what` says how).
pub fn finish_error(app: &mut App, name: &str, what: &str)
    ensures
        final(app).message_role == StatusRole::Error,
        final(app).message matches Some(m) && m@ == "Command "@ + name@ + " "@ + what@ + "."@,
        final(app).external_command.running is None,
        final(app).external_command.preview == old(app).external_command.preview,
        old(app).hooks.active is Some ==> final(app).hooks.active is None && final(app).hooks.queue@.len() == 0,
        old(app).hooks.active is None ==> final(app).hooks == old(app).hooks,
        final(app).buffer == old(app).buffer,
        final(app).file == old(app).file,
{
    app.external_command.running = None;
    crate::hooks::finish_command(app, false);
    let mut m: Vec<char> = Vec::new();
    push_str(&mut m, "Command ");
    push_str(&mut m, name);
    push_str(&mut m, " ");
    push_str(&mut m, what);
    push_str(&mut m, ".");
    app.message_error(crate::text::string_of(&m));
}

/// An exit status as shown: `Some(code)` or `None`.
pub open spec fn code_text(code: Option<i32>) -> Seq<char> {
    match code {
        Some(c) => "Some("@ + (if c < 0 { "-"@ + decimal((0 - c) as nat) } else { decimal(c as nat) }) + ")"@,
        None => "None"@,
    }
}

/// What a command's preview shows: its output (or `[no stdout]`), what it
/// wrote to standard error, and its exit status unless it succeeded with
/// its whole output.
pub open spec fn result_text(stdout: Seq<char>, stderr: Seq<char>, code: Option<i32>, truncated: bool) -> Seq<char> {
    let base = if stdout.len() == 0 { "[no stdout]\n"@ } else { stdout };
    let with_err = if stderr.len() == 0 {
        base
    } else {
        (if base.last() == '\n' { base } else { base.push('\n') }) + "\n[stderr]\n"@ + stderr
    };
    if code != Some(0i32) || truncated {
        with_err + "\n\n[catomic: exit="@ + code_text(code) + (if truncated { ", output truncated"@ } else { ""@ }) + "]\n"@
    } else {
        with_err
    }
}

fn push_code(out: &mut Vec<char>, code: Option<i32>)
    ensures
        final(out)@ == old(out)@ + code_text(code),
{
    let ghost start = out@;
    match code {
        Some(c) => {
            push_str(out, "Some(");
            if c < 0 {
                push_str(out, "-");
                let n: i64 = 0i64 - c as i64;
                push_decimal(out, n as u128);
            } else {
                push_decimal(out, c as u128);
            }
            push_str(out, ")");
        },
        None => push_str(out, "None"),
    }
    proof {
        assert(out@ =~= start + code_text(code));
    }
}

pub fn result_text_of(stdout: &str, stderr: &str, code: Option<i32>, truncated: bool) -> (res: Vec<char>)
    ensures
        res@ == result_text(stdout@, stderr@, code, truncated),
{
    let mut out: Vec<char> = Vec::new();
    let out_chars = crate::text::chars_of(stdout);
    let ghost base = if stdout@.len() == 0 { "[no stdout]\n"@ } else { stdout@ };
    if out_chars.len() == 0 {
        push_str(&mut out, "[no stdout]\n");
        proof {
            reveal_strlit("[no stdout]\n");
        }
    } else {
        push_chars(&mut out, &out_chars);
    }
    proof {
        assert(out@ =~= base);
        assert(out@.len() > 0);
    }
    let err_chars = crate::text::chars_of(stderr);
    let ghost with_err = if stderr@.len() == 0 {
        base
    } else {
        (if base.last() == '\n' { base } else { base.push('\n') }) + "\n[stderr]\n"@ + stderr@
    };
    if err_chars.len() > 0 {
        if out[out.len() - 1] != '\n' {
            out.push('\n');
        }
        push_str(&mut out, "\n[stderr]\n");
        push_chars(&mut out, &err_chars);
    }
    proof {
        assert(out@ =~= with_err);
    }
    let exited_zero = match code {
        Some(c) => c == 0,
        None => false,
    };
    proof {
        assert(exited_zero == (code == Some(0i32)));
    }
    if !exited_zero || truncated {
        push_str(&mut out, "\n\n[catomic: exit=");
        push_code(&mut out, code);
        if truncated {
            push_str(&mut out, ", output truncated");
        } else {
            proof {
                reveal_strlit("");
                assert(out@ =~= out@ + ""@);
            }
        }
        push_str(&mut out, "]\n");
        proof {
            assert(out@ =~= with_err + "\n\n[catomic: exit="@ + code_text(code) + (if truncated {
                ", output truncated"@
            } else {
                ""@
            }) + "]\n"@);
        }
    }
    proof {
        assert(out@ =~= result_text(stdout@, stderr@, code, truncated));
    }
    out
}

/// The message while a preview is open.
pub open spec fn read_only_text(name: Seq<char>, applies: bool) -> Seq<char> {
    if applies {
        "Command "@ + name + " output (read-only). Enter applies; Esc cancels."@
    } else {
        "Command "@ + name + " output (read-only). Enter or Esc closes."@
    }
}

fn read_only_message(app: &mut App)
    ensures
        *final(app) == (App { message: final(app).message, message_role: StatusRole::Info, ..*old(app) }),
        old(app).external_command.preview matches Some(p) ==> (final(app).message matches Some(m) && m@ == read_only_text(
            p.name@,
            p.target is Some,
        )),
        old(app).external_command.preview is None ==> final(app).message == old(app).message,
{
    let text = match &app.external_command.preview {
        Some(p) => {
            let mut m: Vec<char> = Vec::new();
            push_str(&mut m, "Command ");
            push_str(&mut m, p.name.as_str());
            if p.target.is_some() {
                push_str(&mut m, " output (read-only). Enter applies; Esc cancels.");
            } else {
                push_str(&mut m, " output (read-only). Enter or Esc closes.");
            }
            m
        },
        None => {
            app.message_role = StatusRole::Info;
            return;
        },
    };
    app.message_info(crate::text::string_of(&text));
}

/// What previewing a finished run's output did: `stdout` is what Enter may
/// apply, the shown text adds stderr and how the run ended.
pub open spec fn output_previewed(before: &App, after: &App, r: RunningCommand, stdout: Seq<char>, stderr: Seq<char>, code: Option<i32>, truncated: bool) -> bool {
    let succeeded = code == Some(0i32) && !truncated;
    &&& after.external_command.running is None
    &&& after.external_command.preview == Some(CommandPreview {
        name: r.name,
        proposed: after.external_command.preview->0.proposed,
        shown: after.external_command.preview->0.shown,
        succeeded,
        target: if succeeded { r.target } else { None },
        source_revision: r.source_revision,
        source_path: r.source_path,
        source_scroll_top: before.screen.scroll_top,
        source_scroll_left: before.screen.scroll_left,
    })
    &&& after.external_command.preview->0.proposed@ == stdout
    &&& after.external_command.preview->0.shown@ == result_text(stdout, stderr, code, truncated)
    &&& after.llm_preview is None
    &&& after.surfaces.llm_answer is None
    &&& after.screen == (crate::screen::Screen { scroll_top: 0, scroll_left: 0, ..before.screen })
    &&& after.selection.anchor is None
    &&& after.message matches Some(m) && m@ == read_only_text(r.name@, succeeded && r.target is Some)
    &&& after.buffer == before.buffer
    &&& after.file == before.file
    &&& after.hooks == before.hooks
}

/// The running command ended with output: it becomes a read-only preview
/// in place of other previews; output of a failed or cut-off run can only
/// be looked at, never applied.
pub fn finish_output(app: &mut App, stdout: &str, stderr: &str, code: Option<i32>, truncated: bool)
    ensures
        old(app).external_command.running is None ==> *final(app) == *old(app),
        old(app).external_command.running matches Some(r) ==> output_previewed(old(app), final(app), r, stdout@, stderr@, code, truncated),
{
    let running = match app.external_command.running.take() {
        Some(r) => r,
        None => return,
    };
    let succeeded = match code {
        Some(c) => c == 0 && !truncated,
        None => false,
    };
    let shown = result_text_of(stdout, stderr, code, truncated);
    app.llm_preview = None;
    app.surfaces.llm_answer = None;
    app.external_command.preview = Some(CommandPreview {
        name: running.name,
        proposed: crate::text::chars_of(stdout),
        shown,
        succeeded,
        target: if succeeded { running.target } else { None },
        source_revision: running.source_revision,
        source_path: running.source_path,
        source_scroll_top: app.screen.scroll_top,
        source_scroll_left: app.screen.scroll_left,
    });
    app.screen.scroll_top = 0;
    app.screen.scroll_left = 0;
    app.selection.clear();
    read_only_message(app);
}

/// What the end of the run `r` did: output is previewed; a timeout, a
/// cancellation or a failure is reported.
pub open spec fn run_finished(before: &App, after: &App, r: RunningCommand, result: CommandResult) -> bool {
    match result {
        CommandResult::Finished { stdout: o, stderr: e, code: c, truncated: t } => output_previewed(
            before,
            after,
            r,
            o@,
            e@,
            c,
            t,
        ),
        CommandResult::TimedOut => after.message matches Some(m) && m@ == "Command "@ + r.name@ + " "@ + "timed out"@ + "."@,
        CommandResult::Cancelled => after.message matches Some(m) && m@ == "Command "@ + r.name@ + " "@ + "cancelled"@ + "."@,
        CommandResult::Failed(f) => after.message matches Some(m) && m@ == "Command "@ + r.name@ + " "@ + ("failed: "@ + f@)
            + "."@,
    }
}

/// The running command ended: with output it is previewed, otherwise the
/// way it ended is reported as an error and a running hook chain stops.
pub fn finish_run(app: &mut App, result: CommandResult)
    ensures
        old(app).external_command.running is None ==> *final(app) == *old(app),
        final(app).external_command.running is None,
        final(app).buffer == old(app).buffer,
        final(app).file == old(app).file,
        old(app).external_command.running is Some && !(result is Finished) ==> final(app).message_role == StatusRole::Error
            && final(app).external_command.preview == old(app).external_command.preview,
        old(app).external_command.running matches Some(r) ==> run_finished(old(app), final(app), r, result),
{
    let name = match &app.external_command.running {
        Some(r) => r.name.clone(),
        None => return,
    };
    assert(name@ == old(app).external_command.running->0.name@);
    match result {
        CommandResult::Finished { stdout, stderr, code, truncated } => {
            let out = stdout.as_str();
            let err = stderr.as_str();
            finish_output(app, out, err, code, truncated);
            assert(out@ == stdout@ && err@ == stderr@);
            assert(output_previewed(old(app), app, old(app).external_command.running->0, stdout@, stderr@, code, truncated));
        },
        CommandResult::TimedOut => finish_error(app, name.as_str(), "timed out"),
        CommandResult::Cancelled => finish_error(app, name.as_str(), "cancelled"),
        CommandResult::Failed(e) => {
            let mut m: Vec<char> = Vec::new();
            push_str(&mut m, "failed: ");
            push_str(&mut m, e.as_str());
            let what = crate::text::string_of(&m);
            proof {
                reveal_strlit("failed: ");
            }
            finish_error(app, name.as_str(), what.as_str());
        },
    }
}

/// The source a preview's output applies to is still the one it was made from.
pub open spec fn preview_current(app: &App, p: CommandPreview) -> bool {
    p.source_revision == Some(app.buffer.revision()) && crate::llm::same_path(p.source_path, app.file.path)
}

/// Enter on a preview: output with a target is applied, as one undoable
/// edit, only to the source it was made from; output without one is
/// closed. Either way the view comes back and a running hook chain goes
/// on when the output was applied or only looked at after a success.
pub fn apply_preview(app: &mut App) -> (applied: bool)
    requires
        old(app).buffer.wf(),
    ensures
        final(app).buffer.wf(),
        final(app).inactive_buffers == old(app).inactive_buffers,
        final(app).external_command.preview is None,
        final(app).external_command.running == old(app).external_command.running,
        !applied ==> final(app).buffer.same(&old(app).buffer),
        old(app).external_command.preview is None ==> !applied && *final(app) == *old(app),
        old(app).external_command.preview matches Some(p) ==> {
            let lines = old(app).buffer.lines();
            let (start, end) = match p.target {
                Some(ApplyTarget::Insert(c)) => (c, c),
                Some(ApplyTarget::ReplaceSelection(a, b)) => (a, b),
                _ => (Cursor { row: 0, col: 0 }, Cursor {
                    row: (lines.len() - 1) as usize,
                    col: lines.last().len() as usize,
                }),
            };
            let t = replaced_text(lines, start, end, p.proposed@);
            &&& applied <==> (p.target is Some && preview_current(old(app), p) && cursor_valid(lines, start)
                && cursor_valid(lines, end) && cursor_le(start, end))
            &&& applied ==> final(app).buffer.text() == t
            &&& applied && t != old(app).buffer.text() ==> final(app).buffer.undo_states() == old(app).buffer.undo_states().push(
                old(app).buffer.state(),
            )
            &&& p.target is None && (old(app).hooks.active is None || p.succeeded) ==> (final(app).message matches Some(m)
                && m@ == "Closed command "@ + p.name@ + " output."@)
            &&& p.target is Some && !preview_current(old(app), p) && old(app).hooks.active is None ==> (
            final(app).message matches Some(m) && m@ == "Source changed since command start; output was not applied."@)
            &&& old(app).hooks.active is Some ==> final(app).hooks.active is None
        },
{
    let preview = match app.external_command.preview.take() {
        Some(p) => p,
        None => return false,
    };
    app.screen.scroll_top = preview.source_scroll_top;
    app.screen.scroll_left = preview.source_scroll_left;
    let target = match preview.target {
        Some(t) => t,
        None => {
            let mut m: Vec<char> = Vec::new();
            push_str(&mut m, "Closed command ");
            push_str(&mut m, preview.name.as_str());
            push_str(&mut m, " output.");
            app.message_info(crate::text::string_of(&m));
            crate::hooks::finish_command(app, preview.succeeded);
            app.reveal_cursor();
            return false;
        },
    };
    if preview.source_revision != Some(app.buffer.content_revision()) || !crate::llm::paths_equal(
        &preview.source_path,
        &app.file.path,
    ) {
        app.message_warning(String::from_str("Source changed since command start; output was not applied."));
        crate::hooks::finish_command(app, false);
        app.reveal_cursor();
        return false;
    }
    let (start, end) = match target {
        ApplyTarget::Insert(c) => (c, c),
        ApplyTarget::ReplaceSelection(a, b) => (a, b),
        ApplyTarget::ReplaceBuffer => buffer_bounds(&app.buffer),
    };
    match app.buffer.replace_range(start, end, preview.proposed.as_slice()) {
        Ok(changed) => {
            crate::hooks::finish_command(app, true);
            if changed {
                let mut m: Vec<char> = Vec::new();
                push_str(&mut m, "Command ");
                push_str(&mut m, preview.name.as_str());
                push_str(&mut m, " applied; Ctrl+Z undoes it.");
                crate::input::finish_content_edit(app);
                app.message_info(crate::text::string_of(&m));
            } else {
                app.message_info(String::from_str("Command output made no change."));
                app.reveal_cursor();
            }
            true
        },
        Err(_) => {
            app.message_warning(String::from_str("Command output no longer fits the buffer; it was not applied."));
            crate::hooks::finish_command(app, false);
            app.reveal_cursor();
            false
        },
    }
}

/// Esc on a preview: closes it without applying anything; a running hook
/// chain stops.
pub fn cancel_preview(app: &mut App) -> (closed: bool)
    ensures
        closed == old(app).external_command.preview is Some,
        !closed ==> *final(app) == *old(app),
        final(app).inactive_buffers == old(app).inactive_buffers,
        final(app).external_command.preview is None,
        final(app).buffer == old(app).buffer,
        final(app).file == old(app).file,
        closed ==> {
            &&& old(app).hooks.active is None ==> (final(app).message matches Some(m) && m@ == "Command "@ + old(
                app,
            ).external_command.preview->0.name@ + " output cancelled; no changes applied."@)
            &&& old(app).hooks.active is Some ==> final(app).hooks.active is None && final(app).hooks.queue@.len() == 0
                && final(app).message_role == StatusRole::Error
        },
{
    let preview = match app.external_command.preview.take() {
        Some(p) => p,
        None => return false,
    };
    app.screen.scroll_top = preview.source_scroll_top;
    app.screen.scroll_left = preview.source_scroll_left;
    let mut m: Vec<char> = Vec::new();
    push_str(&mut m, "Command ");
    push_str(&mut m, preview.name.as_str());
    push_str(&mut m, " output cancelled; no changes applied.");
    app.message_info(crate::text::string_of(&m));
    crate::hooks::finish_command(app, false);
    app.reveal_cursor();
    true
}

/// A key for a running command or its preview: Esc stops a running command;
/// on a preview Enter applies or closes, Esc cancels, arrows and pages
/// scroll, and other keys only say it is read-only. Ctrl+Q is not taken.
pub fn handle_key(app: &mut App, key: KeyEvent) -> (handled: bool)
    requires
        old(app).buffer.wf(),
    ensures
        final(app).buffer.wf(),
        final(app).inactive_buffers == old(app).inactive_buffers,
        handled == ((old(app).external_command.running is Some && key.code == KeyCode::Esc)
            || (old(app).external_command.preview is Some && !is_quit_key(key))),
        !handled ==> *final(app) == *old(app),
        old(app).external_command.running is Some && key.code == KeyCode::Esc ==> {
            &&& final(app).external_command.running is None
            &&& final(app).buffer == old(app).buffer
            &&& old(app).hooks.active is Some ==> final(app).hooks.active is None && final(app).hooks.queue@.len() == 0
        },
        !(old(app).external_command.running is Some && key.code == KeyCode::Esc) && handled && key.code != KeyCode::Enter
            ==> final(app).buffer == old(app).buffer,
        !(old(app).external_command.running is Some && key.code == KeyCode::Esc) && handled && (key.code == KeyCode::Enter
            || key.code == KeyCode::Esc) ==> final(app).external_command.preview is None,
        !(old(app).external_command.running is Some && key.code == KeyCode::Esc) && handled && scroll_key(key.code)
            ==> final(app).external_command.preview == old(app).external_command.preview && final(app).screen.scroll_top
            == scrolled(
            old(app).screen.scroll_top as int,
            split_lines(old(app).external_command.preview->0.shown@).len() as int,
            content_rows(old(app).screen),
            key.code,
        ),
{
    if app.external_command.running.is_some() && key.code == KeyCode::Esc {
        app.external_command.running = None;
        app.message = None;
        crate::hooks::finish_command(app, false);
        return true;
    }
    if quit_key(key) {
        return false;
    }
    let lines = match &app.external_command.preview {
        Some(p) => crate::buffer::split_text(&p.shown, 0).0.len(),
        None => return false,
    };
    match key.code {
        KeyCode::Enter => {
            apply_preview(app);
        },
        KeyCode::Esc => {
            cancel_preview(app);
        },
        KeyCode::Up | KeyCode::Down | KeyCode::PageUp | KeyCode::PageDown | KeyCode::Home | KeyCode::End => {
            app.screen.scroll_view(lines, key.code);
        },
        _ => read_only_message(app),
    }
    true
}

/// The start and the end of the whole buffer.
pub fn buffer_bounds(b: &TextBuffer) -> (res: (Cursor, Cursor))
    requires
        b.wf(),
    ensures
        res.0 == (Cursor { row: 0, col: 0 }),
        res.1 == (Cursor { row: (b.lines().len() - 1) as usize, col: b.lines().last().len() as usize }),
{
    let last = b.line_count() - 1;
    let len = match b.line_char_count(last) {
        Some(n) => n,
        None => 0,
    };
    (Cursor { row: 0, col: 0 }, Cursor { row: last, col: len })
}

} // verus!
