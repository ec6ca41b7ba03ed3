//! The one-line prompts: goto line, command palette, Save As, Open, and
//! confirmations; their text editing and the parsing of commands.

use vstd::prelude::*;

use crate::app::App;
use crate::buffer::Cursor;
use crate::keys::{KeyCode, KeyEvent};
use crate::lint::{parse_usize_spec, trim, white_space};
use crate::status::{decimal, push_chars, push_decimal, push_str, StatusRole};

verus! {

/// What a prompt asks for.
pub enum PromptKind {
    GotoLine,
    Command,
    SaveAs,
    OpenFile,
    CreateConfig { path: String, exit_on_decline: bool },
    InlineWarning,
}

/// The prompt on screen and what has been typed into it.
pub struct ActivePrompt {
    pub kind: PromptKind,
    pub text: String,
}

pub struct CommandPromptState {
    pub active: Option<ActivePrompt>,
}

impl CommandPromptState {
    pub fn new() -> (res: CommandPromptState)
        ensures
            res.active is None,
    {
        CommandPromptState { active: None }
    }
}

/// The label a prompt is shown with, or None for the confirmations that
/// write their own message.
pub open spec fn prompt_label(k: PromptKind) -> Option<Seq<char>> {
    match k {
        PromptKind::GotoLine => Some("Goto line"@),
        PromptKind::Command => Some("Command"@),
        PromptKind::SaveAs => Some("Save as"@),
        PromptKind::OpenFile => Some("Open file"@),
        _ => None,
    }
}

/// The status message while a prompt other than the inline warning is
/// open (that one asks the inline workflow's question).
pub open spec fn prompt_message(k: PromptKind, text: Seq<char>) -> Seq<char> {
    match k {
        PromptKind::CreateConfig { path, .. } => "Create "@ + path@ + " from the documented template? Type yes to confirm: "@ + text,
        _ => prompt_label(k)->0 + ": "@ + text,
    }
}

/// The status message while the prompt `p` is open.
pub open spec fn prompt_shown(before: &App, after: &App, p: ActivePrompt) -> bool {
    if p.kind is InlineWarning {
        &&& match crate::inline_clanker::warning_prompt_text(before, p.text@) {
            Some(t) => after.message matches Some(m) && m@ == t,
            None => after.message is None,
        }
        &&& after.message_role == before.message_role
    } else {
        after.message matches Some(m) && m@ == prompt_message(p.kind, p.text@)
    }
}

fn update_message(app: &mut App)
    ensures
        old(app).command_prompt.active matches Some(p) ==> prompt_shown(old(app), final(app), p),
        old(app).command_prompt.active is None ==> *final(app) == *old(app),
        *final(app) == (App { message: final(app).message, message_role: final(app).message_role, ..*old(app) }),
{
    let prompt = match &app.command_prompt.active {
        Some(p) => p,
        None => return,
    };
    if let PromptKind::InlineWarning = prompt.kind {
        let m = crate::inline_clanker::warning_prompt_message(app, prompt.text.as_str());
        app.message = m;
        return;
    }
    let mut m: Vec<char> = Vec::new();
    match &prompt.kind {
        PromptKind::GotoLine => {
            push_str(&mut m, "Goto line");
            push_str(&mut m, ": ");
        },
        PromptKind::Command => {
            push_str(&mut m, "Command");
            push_str(&mut m, ": ");
        },
        PromptKind::SaveAs => {
            push_str(&mut m, "Save as");
            push_str(&mut m, ": ");
        },
        PromptKind::OpenFile => {
            push_str(&mut m, "Open file");
            push_str(&mut m, ": ");
        },
        PromptKind::CreateConfig { path, .. } => {
            push_str(&mut m, "Create ");
            push_str(&mut m, path.as_str());
            push_str(&mut m, " from the documented template? Type yes to confirm: ");
        },
        PromptKind::InlineWarning => {},
    }
    push_str(&mut m, prompt.text.as_str());
    proof {
        assert(m@ =~= prompt_message(prompt.kind, prompt.text@));
    }
    app.message_info(crate::text::string_of(&m));
}

/// Opens a prompt of `kind` with empty text; all but the command palette
/// drop the selection.
pub fn open_prompt(app: &mut App, kind: PromptKind)
    ensures
        final(app).command_prompt.active matches Some(p) && p.kind == kind && p.text@.len() == 0,
        prompt_shown(old(app), final(app), ActivePrompt { kind, text: final(app).command_prompt.active->0.text }),
        (kind is Command) ==> final(app).selection == old(app).selection,
        !(kind is Command) ==> final(app).selection.anchor is None,
        *final(app) == (App {
            autocomplete: final(app).autocomplete,
            selection: final(app).selection,
            command_prompt: final(app).command_prompt,
            message: final(app).message,
            message_role: final(app).message_role,
            ..*old(app)
        }),
{
    crate::autocomplete::invalidate(app);
    let is_command = match kind {
        PromptKind::Command => true,
        _ => false,
    };
    if !is_command {
        app.selection.clear();
    }
    app.command_prompt.active = Some(ActivePrompt { kind, text: String::new() });
    update_message(app);
}

/// Paste into a prompt: line breaks become '\n' (a "\r\n" pair counts once)
/// and other control scalars but tab are dropped.
pub open spec fn paste_filtered(s: Seq<char>) -> Seq<char>
    decreases s.len(),
{
    if s.len() == 0 {
        Seq::empty()
    } else {
        let prev = paste_filtered(s.drop_last());
        let c = s.last();
        if c == '\r' {
            prev.push('\n')
        } else if c == '\n' {
            if s.len() >= 2 && s[s.len() - 2] == '\r' {
                prev
            } else {
                prev.push('\n')
            }
        } else if c == '\t' || !crate::autocomplete::control(c) {
            prev.push(c)
        } else {
            prev
        }
    }
}

fn filter_paste(s: &Vec<char>) -> (res: Vec<char>)
    ensures
        res@ == paste_filtered(s@),
{
    let mut out: Vec<char> = Vec::new();
    let mut i: usize = 0;
    proof {
        assert(s@.take(0) =~= Seq::<char>::empty());
    }
    while i < s.len()
        invariant
            0 <= i <= s@.len(),
            out@ == paste_filtered(s@.take(i as int)),
        decreases s@.len() - i,
    {
        let c = s[i];
        proof {
            let t = s@.take(i + 1);
            assert(t.drop_last() =~= s@.take(i as int));
            assert(t.last() == c);
            if i >= 1 {
                assert(t[t.len() - 2] == s@[i - 1]);
            }
        }
        if c == '\r' {
            out.push('\n');
        } else if c == '\n' {
            if !(i >= 1 && s[i - 1] == '\r') {
                out.push('\n');
            }
        } else if c == '\t' || !crate::autocomplete::is_control(c) {
            out.push(c);
        }
        i += 1;
    }
    proof {
        assert(s@.take(s@.len() as int) =~= s@);
    }
    out
}

/// A paste while a prompt is open goes into the prompt; says whether it did.
pub fn handle_paste(app: &mut App, text: &str) -> (handled: bool)
    ensures
        handled == old(app).command_prompt.active is Some,
        handled ==> {
            &&& final(app).command_prompt.active matches Some(p) && p.text@ == old(app).command_prompt.active->0.text@
                + paste_filtered(text@) && p.kind == old(app).command_prompt.active->0.kind
        },
        final(app).buffer == old(app).buffer,
        final(app).file == old(app).file,
        final(app).selection == old(app).selection,
        !handled ==> *final(app) == *old(app),
{
    if app.command_prompt.active.is_none() {
        return false;
    }
    let raw = crate::text::chars_of(text);
    let filtered = crate::text::string_of(&filter_paste(&raw));
    match &mut app.command_prompt.active {
        Some(p) => p.text.append(filtered.as_str()),
        None => {},
    }
    update_message(app);
    true
}

/// Removes the last scalar of a string.
fn pop_last(s: &String) -> (res: String)
    ensures
        s@.len() == 0 ==> res@ == s@,
        s@.len() > 0 ==> res@ == s@.drop_last(),
{
    let chars = crate::text::chars_of(s.as_str());
    if chars.len() == 0 {
        return s.clone();
    }
    let mut out: Vec<char> = Vec::new();
    let mut i: usize = 0;
    while i < chars.len() - 1
        invariant
            chars@ == s@,
            chars@.len() > 0,
            0 <= i <= chars@.len() - 1,
            out@ == chars@.take(i as int),
        decreases chars@.len() - i,
    {
        out.push(chars[i]);
        i += 1;
        proof {
            assert(chars@.take(i as int) =~= chars@.take(i - 1).push(chars@[i - 1]));
        }
    }
    proof {
        assert(chars@.take(i as int) =~= chars@.drop_last());
    }
    crate::text::string_of(&out)
}

/// What a key does while a prompt is open.
pub enum PromptKeyOutcome {
    /// The prompt does not take this key.
    NotHandled,
    /// The prompt changed or closed.
    Handled,
    /// Enter: the prompt closed and its text is to be acted on.
    Submitted(ActivePrompt),
}

/// Esc cancels, Enter submits, Backspace deletes, printable keys type;
/// Ctrl+Q is left to the quit handling.
pub fn handle_active_key(app: &mut App, key: KeyEvent) -> (res: PromptKeyOutcome)
    ensures
        old(app).command_prompt.active is None ==> res is NotHandled && *final(app) == *old(app),
        old(app).command_prompt.active is Some && key.code == KeyCode::Char('q') && key.ctrl ==> res is NotHandled
            && *final(app) == *old(app),
        old(app).command_prompt.active is Some && !(key.code == KeyCode::Char('q') && key.ctrl) ==> (res is Handled
            || res is Submitted),
        key.code == KeyCode::Enter && old(app).command_prompt.active is Some ==> final(app).command_prompt.active is None
            && (res matches PromptKeyOutcome::Submitted(p) && p == old(app).command_prompt.active->0),
        key.code == KeyCode::Esc && old(app).command_prompt.active is Some ==> final(app).command_prompt.active is None,
        (key.code is Char && !key.ctrl && !crate::autocomplete::control(key.code->Char_0)) && old(app).command_prompt.active is Some
            ==> {
            &&& final(app).command_prompt.active matches Some(p) && p.text@ == old(app).command_prompt.active->0.text@.push(
                key.code->Char_0,
            )
        },
        final(app).buffer == old(app).buffer,
        final(app).file == old(app).file,
        final(app).inactive_buffers == old(app).inactive_buffers,
        res is Submitted ==> key.code == KeyCode::Enter,
{
    if app.command_prompt.active.is_none() {
        return PromptKeyOutcome::NotHandled;
    }
    if key.code == KeyCode::Char('q') && key.ctrl {
        return PromptKeyOutcome::NotHandled;
    }
    match key.code {
        KeyCode::Esc => {
            let inline_warning = match &app.command_prompt.active {
                Some(p) => match p.kind {
                    PromptKind::InlineWarning => true,
                    _ => false,
                },
                None => false,
            };
            if inline_warning {
                crate::inline_clanker::cancel_warning(app);
            } else {
                app.message_info(String::from_str("Prompt cancelled."));
            }
            app.command_prompt.active = None;
            PromptKeyOutcome::Handled
        },
        KeyCode::Enter => {
            let prompt = app.command_prompt.active.take();
            match prompt {
                Some(p) => PromptKeyOutcome::Submitted(p),
                None => PromptKeyOutcome::Handled,
            }
        },
        KeyCode::Backspace => {
            match &mut app.command_prompt.active {
                Some(p) => {
                    let shorter = pop_last(&p.text);
                    p.text = shorter;
                },
                None => {},
            }
            update_message(app);
            PromptKeyOutcome::Handled
        },
        KeyCode::Char(ch) => {
            if !key.ctrl {
                if !crate::autocomplete::is_control(ch) {
                    match &mut app.command_prompt.active {
                        Some(p) => {
                            let mut one: Vec<char> = Vec::new();
                            one.push(ch);
                            let s = crate::text::string_of(&one);
                            p.text.append(s.as_str());
                        },
                        None => {},
                    }
                }
                update_message(app);
            }
            PromptKeyOutcome::Handled
        },
        _ => PromptKeyOutcome::Handled,
    }
}

/// Goto: a 1-based line number; past the end moves to the last line.
pub open spec fn goto_row(line: nat, line_count: nat) -> nat {
    let last = if line_count > 0 { (line_count - 1) as nat } else { 0 };
    let want = (line - 1) as nat;
    if want < last {
        want
    } else {
        last
    }
}

/// What a goto with `input` did: a positive line number moves the cursor
/// to the start of that line (the last line when past the end) and says so;
/// anything else leaves the buffer and says why.
pub open spec fn goto_outcome(before: &App, after: &App, input: Seq<char>) -> bool {
    &&& after.inactive_buffers == before.inactive_buffers
    &&& after.file == before.file
    &&& parse_usize_spec(trim(input)) is None ==> after.buffer == before.buffer && (after.message matches Some(m)
        && m@ == "Goto line requires a positive line number."@)
    &&& parse_usize_spec(trim(input)) == Some(0nat) ==> after.buffer == before.buffer && (after.message matches Some(m)
        && m@ == "Line numbers start at 1."@)
    &&& parse_usize_spec(trim(input)) is Some && parse_usize_spec(trim(input))->0 > 0 ==> {
        let l = parse_usize_spec(trim(input))->0;
        let row = goto_row(l, before.buffer.lines().len());
        &&& after.buffer.same_but_cursor(&before.buffer)
        &&& after.buffer.view_cursor() == (Cursor { row: row as usize, col: 0 })
        &&& after.message matches Some(m) && m@ == (if row + 1 == l {
            "Moved to line "@ + decimal(l) + "."@
        } else {
            "Line "@ + decimal(l) + " is past end of file; moved to line "@ + decimal(row + 1) + "."@
        })
    }
}

/// Moves to the 1-based line in `input`, or says why it cannot.
pub fn execute_goto(app: &mut App, input: &str)
    requires
        old(app).buffer.wf(),
    ensures
        final(app).buffer.wf(),
        goto_outcome(old(app), final(app), input@),
{
    let raw = crate::text::chars_of(input);
    let n = raw.len();
    let t = crate::lint::trim_range(&raw, 0, n);
    proof {
        assert(raw@.subrange(0, n as int) =~= raw@);
    }
    let line = match crate::lint::parse_usize(&t) {
        Some(l) => l,
        None => {
            app.message_info(String::from_str("Goto line requires a positive line number."));
            return;
        },
    };
    if line == 0 {
        app.message_info(String::from_str("Line numbers start at 1."));
        return;
    }
    let last = app.buffer.line_count() - 1;
    let want = line - 1;
    let row = if want < last { want } else { last };
    app.buffer.set_cursor(Cursor { row, col: 0 });
    app.reveal_cursor();
    let mut m: Vec<char> = Vec::new();
    if row + 1 == line {
        push_str(&mut m, "Moved to line ");
        push_decimal(&mut m, line as u128);
        push_str(&mut m, ".");
    } else {
        push_str(&mut m, "Line ");
        push_decimal(&mut m, line as u128);
        push_str(&mut m, " is past end of file; moved to line ");
        push_decimal(&mut m, row as u128 + 1);
        push_str(&mut m, ".");
    }
    app.message_info(crate::text::string_of(&m));
}

/// A command of the palette, generic over how its text argument is held.
pub enum CommandAction<T> {
    Goto(T),
    Save,
    SaveAsPrompt,
    SaveAs(T),
    OpenPrompt,
    Open(T),
    New,
    Close,
    CloseDiscard,
    Config,
    Help,
    Replace,
    ReplaceAll,
    Quit,
    Project,
    Plain,
    Lint,
    Diagnostics,
    DiagnosticNext,
    DiagnosticPrevious,
    Files,
    SelectModel,
    Recover,
    AutocompleteToggle,
    AutocompleteOn,
    AutocompleteOff,
    Run(T),
    Meow(T),
    BigMeow(T),
    GitMeow(T),
    MegaMeow(T),
    RunClanker,
    ClearClankerChanges,
    Unknown,
}

/// The argument held as plain scalars.
pub open spec fn action_view(a: CommandAction<Vec<char>>) -> CommandAction<Seq<char>> {
    match a {
        CommandAction::Goto(t) => CommandAction::Goto(t@),
        CommandAction::Save => CommandAction::Save,
        CommandAction::SaveAsPrompt => CommandAction::SaveAsPrompt,
        CommandAction::SaveAs(t) => CommandAction::SaveAs(t@),
        CommandAction::OpenPrompt => CommandAction::OpenPrompt,
        CommandAction::Open(t) => CommandAction::Open(t@),
        CommandAction::New => CommandAction::New,
        CommandAction::Close => CommandAction::Close,
        CommandAction::CloseDiscard => CommandAction::CloseDiscard,
        CommandAction::Config => CommandAction::Config,
        CommandAction::Help => CommandAction::Help,
        CommandAction::Replace => CommandAction::Replace,
        CommandAction::ReplaceAll => CommandAction::ReplaceAll,
        CommandAction::Quit => CommandAction::Quit,
        CommandAction::Project => CommandAction::Project,
        CommandAction::Plain => CommandAction::Plain,
        CommandAction::Lint => CommandAction::Lint,
        CommandAction::Diagnostics => CommandAction::Diagnostics,
        CommandAction::DiagnosticNext => CommandAction::DiagnosticNext,
        CommandAction::DiagnosticPrevious => CommandAction::DiagnosticPrevious,
        CommandAction::Files => CommandAction::Files,
        CommandAction::SelectModel => CommandAction::SelectModel,
        CommandAction::Recover => CommandAction::Recover,
        CommandAction::AutocompleteToggle => CommandAction::AutocompleteToggle,
        CommandAction::AutocompleteOn => CommandAction::AutocompleteOn,
        CommandAction::AutocompleteOff => CommandAction::AutocompleteOff,
        CommandAction::Run(t) => CommandAction::Run(t@),
        CommandAction::Meow(t) => CommandAction::Meow(t@),
        CommandAction::BigMeow(t) => CommandAction::BigMeow(t@),
        CommandAction::GitMeow(t) => CommandAction::GitMeow(t@),
        CommandAction::MegaMeow(t) => CommandAction::MegaMeow(t@),
        CommandAction::RunClanker => CommandAction::RunClanker,
        CommandAction::ClearClankerChanges => CommandAction::ClearClankerChanges,
        CommandAction::Unknown => CommandAction::Unknown,
    }
}

/// Where the command name ends: the first white space, or the end.
pub open spec fn name_end(s: Seq<char>, from: int) -> int
    decreases s.len() - from,
{
    if from >= s.len() {
        s.len() as int
    } else if white_space(s[from]) {
        from
    } else {
        name_end(s, from + 1)
    }
}

/// The command's action from its name and trimmed argument.
pub open spec fn action_for(name: Seq<char>, arg: Seq<char>) -> CommandAction<Seq<char>> {
    if name == "goto"@ {
        if arg.len() > 0 { CommandAction::Goto(arg) } else { CommandAction::Unknown }
    } else if name == "save"@ {
        if arg.len() == 0 {
            CommandAction::Save
        } else if arg == "as"@ {
            CommandAction::SaveAsPrompt
        } else if arg.len() >= 3 && arg.take(3) == "as "@ {
            CommandAction::SaveAs(trim(arg.skip(3)))
        } else {
            CommandAction::Unknown
        }
    } else if name == "saveas"@ {
        if arg.len() == 0 { CommandAction::SaveAsPrompt } else { CommandAction::SaveAs(arg) }
    } else if name == "open"@ {
        if arg.len() == 0 { CommandAction::OpenPrompt } else { CommandAction::Open(arg) }
    } else if name == "run"@ {
        if arg.len() > 0 { CommandAction::Run(arg) } else { CommandAction::Unknown }
    } else if name == "meow"@ {
        CommandAction::Meow(arg)
    } else if name == "bigmeow"@ {
        CommandAction::BigMeow(arg)
    } else if name == "gitmeow"@ {
        CommandAction::GitMeow(arg)
    } else if name == "megameow"@ {
        CommandAction::MegaMeow(arg)
    } else if name == "autocomplete"@ {
        if arg.len() == 0 {
            CommandAction::AutocompleteToggle
        } else if arg == "on"@ || arg == "enable"@ || arg == "enabled"@ {
            CommandAction::AutocompleteOn
        } else if arg == "off"@ || arg == "disable"@ || arg == "disabled"@ {
            CommandAction::AutocompleteOff
        } else {
            CommandAction::Unknown
        }
    } else if arg.len() > 0 {
        CommandAction::Unknown
    } else if name == "new"@ {
        CommandAction::New
    } else if name == "close"@ {
        CommandAction::Close
    } else if name == "close!"@ {
        CommandAction::CloseDiscard
    } else if name == "config"@ {
        CommandAction::Config
    } else if name == "help"@ {
        CommandAction::Help
    } else if name == "replace"@ {
        CommandAction::Replace
    } else if name == "replaceall"@ {
        CommandAction::ReplaceAll
    } else if name == "quit"@ || name == "q"@ {
        CommandAction::Quit
    } else if name == "project"@ {
        CommandAction::Project
    } else if name == "plain"@ {
        CommandAction::Plain
    } else if name == "lint"@ {
        CommandAction::Lint
    } else if name == "diagnostics"@ {
        CommandAction::Diagnostics
    } else if name == "dnext"@ {
        CommandAction::DiagnosticNext
    } else if name == "dprev"@ {
        CommandAction::DiagnosticPrevious
    } else if name == "files"@ {
        CommandAction::Files
    } else if name == "model"@ {
        CommandAction::SelectModel
    } else if name == "recover"@ {
        CommandAction::Recover
    } else if name == "clanker"@ {
        CommandAction::RunClanker
    } else if name == "clearclanker"@ {
        CommandAction::ClearClankerChanges
    } else {
        CommandAction::Unknown
    }
}

/// A palette command: the trimmed text's first word names it and the
/// trimmed rest is its argument.
pub open spec fn parse_command_spec(text: Seq<char>) -> CommandAction<Seq<char>> {
    let t = trim(text);
    let e = name_end(t, 0);
    let name = t.take(e);
    let arg = if e < t.len() { trim(t.skip(e + 1)) } else { Seq::empty() };
    action_for(name, arg)
}

fn eq(s: &Vec<char>, t: &str) -> (res: bool)
    ensures
        res == (s@ == t@),
{
    let v = crate::text::chars_of(t);
    crate::buffer::chars_equal(s, &v)
}

fn action_of(name: &Vec<char>, arg: Vec<char>) -> (res: CommandAction<Vec<char>>)
    ensures
        action_view(res) == action_for(name@, arg@),
{
    if eq(name, "goto") {
        if arg.len() > 0 { CommandAction::Goto(arg) } else { CommandAction::Unknown }
    } else if eq(name, "save") {
        if arg.len() == 0 {
            CommandAction::Save
        } else if eq(&arg, "as") {
            CommandAction::SaveAsPrompt
        } else if arg.len() >= 3 && arg[0] == 'a' && arg[1] == 's' && arg[2] == ' ' {
            proof {
                reveal_strlit("as ");
                assert(arg@.take(3) =~= "as "@);
            }
            let rest = crate::autocomplete::subrange_chars(&arg, 3, arg.len());
            proof {
                assert(rest@ =~= arg@.skip(3));
            }
            CommandAction::SaveAs(crate::llm::trimmed_chars(&rest))
        } else {
            proof {
                reveal_strlit("as ");
                if arg@.len() >= 3 && arg@.take(3) == "as "@ {
                    assert(arg@.take(3)[0] == arg@[0]);
                    assert(arg@.take(3)[1] == arg@[1]);
                    assert(arg@.take(3)[2] == arg@[2]);
                }
            }
            CommandAction::Unknown
        }
    } else if eq(name, "saveas") {
        if arg.len() == 0 { CommandAction::SaveAsPrompt } else { CommandAction::SaveAs(arg) }
    } else if eq(name, "open") {
        if arg.len() == 0 { CommandAction::OpenPrompt } else { CommandAction::Open(arg) }
    } else if eq(name, "run") {
        if arg.len() > 0 { CommandAction::Run(arg) } else { CommandAction::Unknown }
    } else if eq(name, "meow") {
        CommandAction::Meow(arg)
    } else if eq(name, "bigmeow") {
        CommandAction::BigMeow(arg)
    } else if eq(name, "gitmeow") {
        CommandAction::GitMeow(arg)
    } else if eq(name, "megameow") {
        CommandAction::MegaMeow(arg)
    } else if eq(name, "autocomplete") {
        if arg.len() == 0 {
            CommandAction::AutocompleteToggle
        } else if eq(&arg, "on") || eq(&arg, "enable") || eq(&arg, "enabled") {
            CommandAction::AutocompleteOn
        } else if eq(&arg, "off") || eq(&arg, "disable") || eq(&arg, "disabled") {
            CommandAction::AutocompleteOff
        } else {
            CommandAction::Unknown
        }
    } else if arg.len() > 0 {
        CommandAction::Unknown
    } else if eq(name, "new") {
        CommandAction::New
    } else if eq(name, "close") {
        CommandAction::Close
    } else if eq(name, "close!") {
        CommandAction::CloseDiscard
    } else if eq(name, "config") {
        CommandAction::Config
    } else if eq(name, "help") {
        CommandAction::Help
    } else if eq(name, "replace") {
        CommandAction::Replace
    } else if eq(name, "replaceall") {
        CommandAction::ReplaceAll
    } else if eq(name, "quit") || eq(name, "q") {
        CommandAction::Quit
    } else if eq(name, "project") {
        CommandAction::Project
    } else if eq(name, "plain") {
        CommandAction::Plain
    } else if eq(name, "lint") {
        CommandAction::Lint
    } else if eq(name, "diagnostics") {
        CommandAction::Diagnostics
    } else if eq(name, "dnext") {
        CommandAction::DiagnosticNext
    } else if eq(name, "dprev") {
        CommandAction::DiagnosticPrevious
    } else if eq(name, "files") {
        CommandAction::Files
    } else if eq(name, "model") {
        CommandAction::SelectModel
    } else if eq(name, "recover") {
        CommandAction::Recover
    } else if eq(name, "clanker") {
        CommandAction::RunClanker
    } else if eq(name, "clearclanker") {
        CommandAction::ClearClankerChanges
    } else {
        CommandAction::Unknown
    }
}

/// Reads a palette command.
pub fn parse_command(text: &str) -> (res: CommandAction<Vec<char>>)
    ensures
        action_view(res) == parse_command_spec(text@),
{
    let raw = crate::text::chars_of(text);
    let t = crate::llm::trimmed_chars(&raw);
    let mut e: usize = 0;
    while e < t.len() && !crate::lint::is_white_space(t[e])
        invariant
            0 <= e <= t@.len(),
            name_end(t@, 0) == name_end(t@, e as int),
        decreases t@.len() - e,
    {
        e += 1;
    }
    let name = crate::autocomplete::subrange_chars(&t, 0, e);
    proof {
        assert(name@ =~= t@.take(e as int));
    }
    let arg = if e < t.len() {
        let rest = crate::autocomplete::subrange_chars(&t, e + 1, t.len());
        proof {
            assert(rest@ =~= t@.skip(e + 1));
        }
        crate::llm::trimmed_chars(&rest)
    } else {
        Vec::new()
    };
    action_of(&name, arg)
}


/// What a palette command leaves to the caller: writing, opening, or a
/// feature that needs the terminal, a file, or a service.
pub enum CommandEffect {
    Done,
    Save(crate::app::SaveRequest),
    SaveAs { path: Vec<char>, text: String },
    Open(Vec<char>),
    NeedsCatalog,
    Other(CommandAction<Vec<char>>),
    /// A typed confirmation the caller answers.
    Answer(ActivePrompt),
}

/// What running the palette command `text` did and handed back.
pub open spec fn command_outcome(before: &App, after: &App, text: Seq<char>, res: CommandEffect) -> bool {
    let action = parse_command_spec(text);
    &&& action is Unknown ==> {
        &&& after.message matches Some(m) && m@ == "Unknown command: "@ + trim(text)
        &&& *after == (App { message: after.message, message_role: crate::status::StatusRole::Info, ..*before })
        &&& res is Done
    }
    &&& action is Quit ==> res is Done && {
        &&& (crate::buffers::dirty_count_spec(before) == 0 || before.pending_quit_confirm) ==> *after == (App {
            should_quit: true,
            ..*before
        })
        &&& !(crate::buffers::dirty_count_spec(before) == 0 || before.pending_quit_confirm) ==> {
            &&& after.pending_quit_confirm
            &&& after.should_quit == before.should_quit
            &&& after.buffer == before.buffer
            &&& after.file == before.file
            &&& after.message_role == crate::status::StatusRole::Warning
            &&& crate::buffers::dirty_count_spec(before) < usize::MAX ==> (after.message matches Some(m) && m@
                == crate::app::quit_warning(crate::buffers::dirty_count_spec(before)))
        }
    }
    &&& action is New ==> res is Done && {
        &&& after.buffer.text() == Seq::<char>::empty()
        &&& after.file.path is None
        &&& !after.file.dirty
        &&& after.inactive_buffers@.len() == before.inactive_buffers@.len() + 1
        &&& after.message matches Some(m) && m@ == "New untitled buffer."@
    }
    &&& (action is Close || action is CloseDiscard) ==> res is Done && {
        &&& action is Close && before.file.dirty ==> {
            &&& after.buffer == before.buffer
            &&& after.file == before.file
            &&& after.inactive_buffers == before.inactive_buffers
            &&& after.message matches Some(m) && m@ == "Buffer has unsaved changes. Save it or use close! to discard."@
        }
        &&& !(action is Close && before.file.dirty) ==> {
            &&& before.inactive_buffers@.len() > 0 ==> after.buffer == before.inactive_buffers@[0].buffer
                && after.file == before.inactive_buffers@[0].file
                && after.inactive_buffers@ == before.inactive_buffers@.drop_first()
            &&& before.inactive_buffers@.len() == 0 ==> after.buffer.text() == Seq::<char>::empty()
                && after.file.path is None && !after.file.dirty && after.inactive_buffers@.len() == 0
            &&& after.message matches Some(m) && m@ == "Buffer closed."@
            &&& after.active_buffer_index < crate::buffers::buffer_count_spec(after)
        }
    }
    &&& action is AutocompleteOff ==> res is Done && !after.autocomplete.enabled && after.autocomplete.pending is None
        && after.autocomplete.suggestion is None && after.buffer == before.buffer
    &&& action is AutocompleteToggle ==> {
        &&& (before.autocomplete.enabled || before.autocomplete.pending is Some) ==> res is Done
            && !after.autocomplete.enabled && after.autocomplete.pending is None
            && after.autocomplete.suggestion is None && after.buffer == before.buffer
        &&& !(before.autocomplete.enabled || before.autocomplete.pending is Some) ==> res is NeedsCatalog
            && *after == *before
    }
    &&& action is Goto ==> goto_outcome(before, after, action->Goto_0) && res is Done
    &&& action is Save ==> (res matches CommandEffect::Save(r) && r.text@ == before.buffer.text()
        && r.path@ == crate::llm::display_path_spec(before.file.path)) && *after == *before
    &&& action is SaveAsPrompt ==> res is Done && crate::input::prompt_opened(after, PromptKind::SaveAs)
        && after.buffer == before.buffer
    &&& action is OpenPrompt ==> res is Done && crate::input::prompt_opened(after, PromptKind::OpenFile)
        && after.buffer == before.buffer
    &&& action is Meow ==> res is Done && crate::hooks::current_llm_asked(
        before,
        after,
        crate::llm::CurrentLlmCommand::Meow,
        action->Meow_0,
    )
    &&& action is BigMeow ==> res is Done && crate::hooks::current_llm_asked(
        before,
        after,
        crate::llm::CurrentLlmCommand::BigMeow,
        action->BigMeow_0,
    )
    &&& action is Run ==> res is Done && after.buffer == before.buffer && (crate::external_command::busy_spec(before)
        ==> after.external_command == before.external_command) && (!crate::external_command::busy_spec(before)
        ==> (after.external_command.running is Some <==> crate::external_command::start_possible(before, action->Run_0)))
    &&& action is SaveAs ==> (res matches CommandEffect::SaveAs { path, text: t } && path@ == action->SaveAs_0
        && t@ == before.buffer.text())
    &&& action is Open ==> (res matches CommandEffect::Open(p) && p@ == action->Open_0)
    &&& action is Help ==> after.surfaces.help is Some && res is Done
    &&& action is AutocompleteOn ==> res is NeedsCatalog
    &&& action is ClearClankerChanges ==> res is Done && after.message is None && forall|p: u64|
        after.clanker_changes.at(p) is None
}


proof fn lemma_single_word(t: Seq<char>)
    requires
        forall|k: int| 0 <= k < t.len() ==> !white_space(#[trigger] t[k]),
    ensures
        name_end(t, 0) == t.len(),
{
    lemma_name_end_from(t, 0);
}

proof fn lemma_name_end_from(t: Seq<char>, from: int)
    requires
        0 <= from <= t.len(),
        forall|k: int| 0 <= k < t.len() ==> !white_space(#[trigger] t[k]),
    ensures
        name_end(t, from) == t.len(),
    decreases t.len() - from,
{
    if from < t.len() {
        lemma_name_end_from(t, from + 1);
    }
}

proof fn lemma_parse_close(text: Seq<char>, bang: bool)
    requires
        trim(text) == (if bang { "close!"@ } else { "close"@ }),
    ensures
        parse_command_spec(text) == (if bang { CommandAction::<Seq<char>>::CloseDiscard } else { CommandAction::<Seq<char>>::Close }),
{
    reveal_strlit("close!");
    reveal_strlit("close");
    reveal_strlit("goto");
    reveal_strlit("save");
    reveal_strlit("saveas");
    reveal_strlit("open");
    reveal_strlit("run");
    reveal_strlit("meow");
    reveal_strlit("bigmeow");
    reveal_strlit("gitmeow");
    reveal_strlit("megameow");
    reveal_strlit("autocomplete");
    reveal_strlit("new");
    let t = trim(text);
    lemma_single_word(t);
    assert(t.take(t.len() as int) =~= t);
}

/// `close!` closes the active buffer even when it has unsaved changes: the
/// next buffer (or a fresh empty one) becomes active and the status says so.
pub proof fn close_bang_discards(before: &App, after: &App, text: Seq<char>, res: CommandEffect)
    requires
        trim(text) == "close!"@,
        command_outcome(before, after, text, res),
    ensures
        after.message matches Some(m) && m@ == "Buffer closed."@,
        before.inactive_buffers@.len() > 0 ==> after.buffer == before.inactive_buffers@[0].buffer && after.file
            == before.inactive_buffers@[0].file,
        before.inactive_buffers@.len() == 0 ==> after.buffer.text() == Seq::<char>::empty() && !after.file.dirty,
{
    lemma_parse_close(text, true);
}

/// `close` refuses a buffer with unsaved changes: it stays active, as it was,
/// and the status points at `close!`.
pub proof fn close_keeps_dirty(before: &App, after: &App, text: Seq<char>, res: CommandEffect)
    requires
        trim(text) == "close"@,
        before.file.dirty,
        command_outcome(before, after, text, res),
    ensures
        after.buffer == before.buffer,
        after.file == before.file,
        after.message matches Some(m) && m@ == "Buffer has unsaved changes. Save it or use close! to discard."@,
{
    lemma_parse_close(text, false);
}

/// Runs a palette command: the ones that only change editor state happen
/// here; an unknown command says so.
pub fn execute_command(app: &mut App, text: &str) -> (res: CommandEffect)
    requires
        old(app).wf(),
    ensures
        final(app).wf(),
        command_outcome(old(app), final(app), text@, res),
{
    let action = parse_command(text);
    match action {
        CommandAction::Goto(line) => {
            let l = crate::text::string_of(&line);
            execute_goto(app, l.as_str());
            CommandEffect::Done
        },
        CommandAction::Save => CommandEffect::Save(app.save_request()),
        CommandAction::SaveAsPrompt => {
            open_prompt(app, PromptKind::SaveAs);
            CommandEffect::Done
        },
        CommandAction::SaveAs(path) => CommandEffect::SaveAs { path, text: app.buffer.to_string() },
        CommandAction::OpenPrompt => {
            open_prompt(app, PromptKind::OpenFile);
            CommandEffect::Done
        },
        CommandAction::Open(path) => CommandEffect::Open(path),
        CommandAction::New => {
            app.new_file_buffer();
            CommandEffect::Done
        },
        CommandAction::Close => {
            app.close_active_buffer(false);
            CommandEffect::Done
        },
        CommandAction::CloseDiscard => {
            app.close_active_buffer(true);
            CommandEffect::Done
        },
        CommandAction::Help => {
            crate::help::show(app);
            CommandEffect::Done
        },
        CommandAction::Quit => {
            app.handle_quit();
            CommandEffect::Done
        },
        CommandAction::AutocompleteOff => {
            crate::autocomplete::disable(app);
            CommandEffect::Done
        },
        CommandAction::AutocompleteToggle => {
            if app.autocomplete.enabled || app.autocomplete.pending.is_some() {
                crate::autocomplete::disable(app);
                CommandEffect::Done
            } else {
                CommandEffect::NeedsCatalog
            }
        },
        CommandAction::AutocompleteOn => CommandEffect::NeedsCatalog,
        CommandAction::Run(name) => {
            let n = crate::text::string_of(&name);
            crate::external_command::start(app, n.as_str());
            CommandEffect::Done
        },
        CommandAction::Meow(instruction) => {
            let i = crate::text::string_of(&instruction);
            crate::hooks::before_current_llm(app, crate::llm::CurrentLlmCommand::Meow, i.as_str());
            CommandEffect::Done
        },
        CommandAction::BigMeow(instruction) => {
            let i = crate::text::string_of(&instruction);
            crate::hooks::before_current_llm(app, crate::llm::CurrentLlmCommand::BigMeow, i.as_str());
            CommandEffect::Done
        },
        CommandAction::Unknown => {
            let raw = crate::text::chars_of(text);
            let t = crate::llm::trimmed_chars(&raw);
            let mut m: Vec<char> = Vec::new();
            push_str(&mut m, "Unknown command: ");
            push_chars(&mut m, &t);
            app.message_info(crate::text::string_of(&m));
            CommandEffect::Done
        },
        CommandAction::ClearClankerChanges => {
            crate::inline_clanker::clear_changes(app);
            CommandEffect::Done
        },
        other => CommandEffect::Other(other),
    }
}

/// Enter on a prompt: a goto moves, a palette command runs, a file name
/// is handed back to save or open, and a typed confirmation goes back to
/// the caller.
pub fn submit_prompt(app: &mut App, prompt: ActivePrompt) -> (res: CommandEffect)
    requires
        old(app).wf(),
    ensures
        final(app).wf(),
        prompt.kind is GotoLine ==> goto_outcome(old(app), final(app), prompt.text@) && res is Done,
        prompt.kind is Command ==> command_outcome(old(app), final(app), prompt.text@, res),
        prompt.kind is SaveAs ==> *final(app) == *old(app) && (res matches CommandEffect::SaveAs { path, text }
            && path@ == trim(prompt.text@) && text@ == old(app).buffer.text()),
        prompt.kind is OpenFile ==> *final(app) == *old(app) && (res matches CommandEffect::Open(p) && p@ == trim(
            prompt.text@,
        )),
        prompt.kind is CreateConfig ==> *final(app) == *old(app) && res == CommandEffect::Answer(prompt),
        prompt.kind is InlineWarning ==> {
            &&& res is Done
            &&& final(app).buffer == old(app).buffer
            &&& final(app).file == old(app).file
            &&& final(app).inactive_buffers == old(app).inactive_buffers
            &&& old(app).inline_clanker.phase() matches Some(crate::inline_clanker::ClankerPhase::Warning(w)) ==> {
                let word = crate::inline_clanker::answer_word(prompt.text@);
                &&& word == "yes"@ ==> crate::inline_clanker::confirmation_shown(old(app), w, final(app))
                &&& word == "no"@ ==> final(app).inline_clanker.phase() is None && final(app).message is None
                &&& word != "yes"@ && word != "no"@ ==> final(app).inline_clanker.phase() == old(app).inline_clanker.phase()
                    && (final(app).command_prompt.active matches Some(ap) && ap.kind is InlineWarning && ap.text@.len()
                    == 0)
            }
        },
{
    match prompt.kind {
        PromptKind::GotoLine => {
            execute_goto(app, prompt.text.as_str());
            CommandEffect::Done
        },
        PromptKind::Command => execute_command(app, prompt.text.as_str()),
        PromptKind::SaveAs => {
            let raw = crate::text::chars_of(prompt.text.as_str());
            CommandEffect::SaveAs { path: crate::llm::trimmed_chars(&raw), text: app.buffer.to_string() }
        },
        PromptKind::OpenFile => {
            let raw = crate::text::chars_of(prompt.text.as_str());
            CommandEffect::Open(crate::llm::trimmed_chars(&raw))
        },
        PromptKind::InlineWarning => {
            let done = crate::inline_clanker::answer_warning(app, prompt.text.as_str());
            if !done {
                app.command_prompt.active = Some(ActivePrompt { kind: PromptKind::InlineWarning, text: String::new() });
            }
            CommandEffect::Done
        },
        _ => CommandEffect::Answer(prompt),
    }
}

} // verus!
