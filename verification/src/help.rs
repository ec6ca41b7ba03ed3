//! The built-in help page: a short, task-oriented Markdown reference that
//! names each action with the chords currently bound to it.

use vstd::prelude::*;

use crate::app::App;
use crate::keys::{bound_chords, is_quit_key, quit_key, upper_ascii, Action, Chord, KeyBindings, KeyCode, KeyEvent, KeyName};
use crate::lines::split_lines;
use crate::screen::{content_rows, scroll_key, scrolled};
use crate::status::{decimal, push_decimal, push_str};

verus! {

/// The help page on screen, and the view to return to.
pub struct HelpView {
    pub document: Vec<char>,
    pub source_scroll_top: usize,
    pub source_scroll_left: usize,
    pub source_wrap_col: usize,
}

/// The name a key is shown with.
pub open spec fn key_text(k: KeyName) -> Seq<char> {
    match k {
        KeyName::Char(c) => seq![upper_ascii(c)],
        KeyName::F(n) => "F"@ + decimal(n as nat),
        KeyName::Left => "Left"@,
        KeyName::Right => "Right"@,
        KeyName::PageUp => "PageUp"@,
        KeyName::PageDown => "PageDown"@,
    }
}

/// A chord as shown to users, such as `Ctrl+Shift+P`.
pub open spec fn chord_text(c: Chord) -> Seq<char> {
    (if c.ctrl { "Ctrl+"@ } else { Seq::empty() }) + (if c.alt { "Alt+"@ } else { Seq::empty() }) + (if c.shift {
        "Shift+"@
    } else {
        Seq::empty()
    }) + key_text(c.key)
}

/// The chords, each in backticks, separated by ` / `.
pub open spec fn chords_text(cs: Seq<Chord>) -> Seq<char>
    decreases cs.len(),
{
    if cs.len() == 0 {
        Seq::empty()
    } else if cs.len() == 1 {
        "`"@ + chord_text(cs[0]) + "`"@
    } else {
        chords_text(cs.drop_last()) + " / "@ + "`"@ + chord_text(cs.last()) + "`"@
    }
}

/// The label an action is listed under.
pub open spec fn action_label(a: Action) -> Seq<char> {
    match a {
        Action::Save => "Save"@,
        Action::SaveAs => "Save As"@,
        Action::Open => "Open"@,
        Action::New => "New"@,
        Action::Close => "Close"@,
        Action::PreviousBuffer => "Previous buffer"@,
        Action::NextBuffer => "Next buffer"@,
        Action::Quit => "Quit"@,
        Action::Interrupt => "Interrupt"@,
        Action::Undo => "Undo"@,
        Action::Redo => "Redo"@,
        Action::CutLine => "Cut line"@,
        Action::Search => "Find"@,
        Action::Replace => "Replace"@,
        Action::GotoLine => "Go to line"@,
        Action::CommandPrompt => "Command palette"@,
        Action::ToggleExternalDiff => "External change marks"@,
        Action::MarkdownPreview => "Markdown preview"@,
        Action::SelectModel => "Select model"@,
        Action::Help => "Help"@,
        Action::Reload => "Reload"@,
    }
}

/// What an action is for.
pub open spec fn action_purpose(a: Action) -> Seq<char> {
    match a {
        Action::Save => "Write the buffer to its file"@,
        Action::SaveAs => "Write the buffer to a new path"@,
        Action::Open => "Open a file in another buffer"@,
        Action::New => "Start an empty buffer"@,
        Action::Close => "Close the current buffer"@,
        Action::PreviousBuffer => "Show the previous buffer"@,
        Action::NextBuffer => "Show the next buffer"@,
        Action::Quit => "Leave; asks again while buffers are dirty"@,
        Action::Interrupt => "Stop the running task"@,
        Action::Undo => "Undo the last edit"@,
        Action::Redo => "Redo the last undone edit"@,
        Action::CutLine => "Cut the current line"@,
        Action::Search => "Find text in the buffer"@,
        Action::Replace => "Replace text in the buffer"@,
        Action::GotoLine => "Jump to a line number"@,
        Action::CommandPrompt => "Run a named command"@,
        Action::ToggleExternalDiff => "Show or hide what the last external reload changed"@,
        Action::MarkdownPreview => "Render Markdown read-only"@,
        Action::SelectModel => "Choose the model preset"@,
        Action::Help => "Show this page"@,
        Action::Reload => "Load the file again from disk"@,
    }
}

/// One list entry: the label, the bound chords if any, and the purpose.
pub open spec fn action_line(b: &KeyBindings, a: Action) -> Seq<char> {
    let cs = bound_chords(b.bindings@, a);
    if cs.len() == 0 {
        "- **"@ + action_label(a) + "** — "@ + action_purpose(a) + "\n"@
    } else {
        "- **"@ + action_label(a) + "** ("@ + chords_text(cs) + ") — "@ + action_purpose(a) + "\n"@
    }
}

/// Entries for a list of actions.
pub open spec fn action_lines(b: &KeyBindings, actions: Seq<Action>) -> Seq<char>
    decreases actions.len(),
{
    if actions.len() == 0 {
        Seq::empty()
    } else {
        action_lines(b, actions.drop_last()) + action_line(b, actions.last())
    }
}

pub open spec fn file_actions() -> Seq<Action> {
    seq![
        Action::Save,
        Action::SaveAs,
        Action::Open,
        Action::New,
        Action::Close,
        Action::PreviousBuffer,
        Action::NextBuffer,
        Action::Quit,
        Action::Interrupt,
    ]
}

pub open spec fn edit_actions() -> Seq<Action> {
    seq![Action::Undo, Action::Redo, Action::CutLine, Action::Search, Action::Replace, Action::GotoLine]
}

pub open spec fn command_actions() -> Seq<Action> {
    seq![Action::CommandPrompt, Action::ToggleExternalDiff, Action::MarkdownPreview]
}

pub open spec fn external_change_help() -> Seq<char> {
    "\n## External changes and recovery\n\n"@
        + "- Clean buffers reload automatically after an external change unless auto-reload is disabled.\n"@
        + "- Dirty buffers are never replaced automatically. Use the reload action twice to accept the same observed disk revision.\n"@
        + "- Saves are atomic. If the file changed on disk, the second save succeeds only while that observed state is unchanged.\n"@
        + "- When crash recovery is enabled, run `recover` to preview a newer `.catnap`; applying it is explicit and undoable.\n"@
}

pub open spec fn model_help(b: &KeyBindings) -> Seq<char> {
    "\n## Models\n\n"@ + action_line(b, Action::SelectModel)
        + "- Model requests show the destination and bounded context before sending. Proposals are read-only until separately applied and are never auto-saved.\n\n"@
}

/// The opening sentence, naming the find chords when any are bound.
pub open spec fn help_intro(b: &KeyBindings) -> Seq<char> {
    let cs = bound_chords(b.bindings@, Action::Search);
    "# Catomic help\n\n"@ + "A compact reference for the workflows worth remembering. "@ + (if cs.len() == 0 {
        Seq::empty()
    } else {
        "Search this page with "@ + chords_text(cs) + ". "@
    }) + "Press `Esc` to close it.\n\n## Files and buffers\n\n"@
}

/// The whole help page for the given bindings.
pub open spec fn help_document(b: &KeyBindings) -> Seq<char> {
    help_intro(b) + action_lines(b, file_actions()) + "\n## Edit and navigate\n\n"@ + action_lines(b, edit_actions())
        + "\n## Commands and views\n\n"@ + action_lines(b, command_actions()) + external_change_help() + model_help(b)
        + "Configuration, model setup, Project commands, mobile controls, and troubleshooting live in the [user guide](https://github.com/maelguimet/catomic/blob/master/docs/user-guide.md).\n"@
}

fn push_key(out: &mut Vec<char>, k: KeyName)
    ensures
        final(out)@ == old(out)@ + key_text(k),
{
    match k {
        KeyName::Char(c) => {
            out.push(crate::keys::ascii_upper(c));
            proof {
                assert(old(out)@ + key_text(k) =~= old(out)@.push(upper_ascii(c)));
            }
        },
        KeyName::F(n) => {
            push_str(out, "F");
            push_decimal(out, n as u128);
            proof {
                assert(old(out)@ + key_text(k) =~= old(out)@ + "F"@ + decimal(n as nat));
            }
        },
        KeyName::Left => push_str(out, "Left"),
        KeyName::Right => push_str(out, "Right"),
        KeyName::PageUp => push_str(out, "PageUp"),
        KeyName::PageDown => push_str(out, "PageDown"),
    }
}

/// Appends a chord as shown to users.
pub fn push_chord(out: &mut Vec<char>, c: Chord)
    ensures
        final(out)@ == old(out)@ + chord_text(c),
{
    let ghost start = out@;
    if c.ctrl {
        push_str(out, "Ctrl+");
    }
    let ghost a = out@;
    if c.alt {
        push_str(out, "Alt+");
    }
    let ghost b = out@;
    if c.shift {
        push_str(out, "Shift+");
    }
    let ghost d = out@;
    push_key(out, c.key);
    proof {
        assert(a == start + (if c.ctrl { "Ctrl+"@ } else { Seq::<char>::empty() }));
        assert(b == a + (if c.alt { "Alt+"@ } else { Seq::<char>::empty() }));
        assert(d == b + (if c.shift { "Shift+"@ } else { Seq::<char>::empty() }));
        assert(out@ =~= start + chord_text(c));
    }
}

fn push_chords(out: &mut Vec<char>, cs: &Vec<Chord>)
    ensures
        final(out)@ == old(out)@ + chords_text(cs@),
{
    let ghost start = out@;
    let mut i: usize = 0;
    proof {
        assert(cs@.take(0) =~= Seq::<Chord>::empty());
        assert(start + chords_text(cs@.take(0)) =~= start);
    }
    while i < cs.len()
        invariant
            0 <= i <= cs@.len(),
            out@ == start + chords_text(cs@.take(i as int)),
        decreases cs@.len() - i,
    {
        let ghost before = out@;
        if i > 0 {
            push_str(out, " / ");
        }
        push_str(out, "`");
        push_chord(out, cs[i]);
        push_str(out, "`");
        proof {
            let t = cs@.take(i + 1);
            assert(t.drop_last() =~= cs@.take(i as int));
            assert(t.last() == cs@[i as int]);
            if i == 0 {
                assert(t.len() == 1);
                assert(out@ =~= start + chords_text(t));
            } else {
                assert(out@ =~= start + chords_text(t));
            }
        }
        i += 1;
    }
    proof {
        assert(cs@.take(cs@.len() as int) =~= cs@);
    }
}

fn label_of(a: Action) -> (res: &'static str)
    ensures
        res@ == action_label(a),
{
    match a {
        Action::Save => "Save",
        Action::SaveAs => "Save As",
        Action::Open => "Open",
        Action::New => "New",
        Action::Close => "Close",
        Action::PreviousBuffer => "Previous buffer",
        Action::NextBuffer => "Next buffer",
        Action::Quit => "Quit",
        Action::Interrupt => "Interrupt",
        Action::Undo => "Undo",
        Action::Redo => "Redo",
        Action::CutLine => "Cut line",
        Action::Search => "Find",
        Action::Replace => "Replace",
        Action::GotoLine => "Go to line",
        Action::CommandPrompt => "Command palette",
        Action::ToggleExternalDiff => "External change marks",
        Action::MarkdownPreview => "Markdown preview",
        Action::SelectModel => "Select model",
        Action::Help => "Help",
        Action::Reload => "Reload",
    }
}

fn purpose_of(a: Action) -> (res: &'static str)
    ensures
        res@ == action_purpose(a),
{
    match a {
        Action::Save => "Write the buffer to its file",
        Action::SaveAs => "Write the buffer to a new path",
        Action::Open => "Open a file in another buffer",
        Action::New => "Start an empty buffer",
        Action::Close => "Close the current buffer",
        Action::PreviousBuffer => "Show the previous buffer",
        Action::NextBuffer => "Show the next buffer",
        Action::Quit => "Leave; asks again while buffers are dirty",
        Action::Interrupt => "Stop the running task",
        Action::Undo => "Undo the last edit",
        Action::Redo => "Redo the last undone edit",
        Action::CutLine => "Cut the current line",
        Action::Search => "Find text in the buffer",
        Action::Replace => "Replace text in the buffer",
        Action::GotoLine => "Jump to a line number",
        Action::CommandPrompt => "Run a named command",
        Action::ToggleExternalDiff => "Show or hide what the last external reload changed",
        Action::MarkdownPreview => "Render Markdown read-only",
        Action::SelectModel => "Choose the model preset",
        Action::Help => "Show this page",
        Action::Reload => "Load the file again from disk",
    }
}

/// Appends the list entry for `a`.
fn push_action(out: &mut Vec<char>, b: &KeyBindings, a: Action)
    ensures
        final(out)@ == old(out)@ + action_line(b, a),
{
    let ghost start = out@;
    let cs = b.keyboard_chords(a);
    push_str(out, "- **");
    push_str(out, label_of(a));
    if cs.len() == 0 {
        push_str(out, "** — ");
    } else {
        push_str(out, "** (");
        push_chords(out, &cs);
        push_str(out, ") — ");
    }
    push_str(out, purpose_of(a));
    push_str(out, "\n");
    proof {
        assert(out@ =~= start + action_line(b, a));
    }
}

fn push_actions(out: &mut Vec<char>, b: &KeyBindings, actions: &Vec<Action>)
    ensures
        final(out)@ == old(out)@ + action_lines(b, actions@),
{
    let ghost start = out@;
    let mut i: usize = 0;
    proof {
        assert(actions@.take(0) =~= Seq::<Action>::empty());
        assert(start + action_lines(b, actions@.take(0)) =~= start);
    }
    while i < actions.len()
        invariant
            0 <= i <= actions@.len(),
            out@ == start + action_lines(b, actions@.take(i as int)),
        decreases actions@.len() - i,
    {
        push_action(out, b, actions[i]);
        proof {
            let t = actions@.take(i + 1);
            assert(t.drop_last() =~= actions@.take(i as int));
            assert(out@ =~= start + action_lines(b, t));
        }
        i += 1;
    }
    proof {
        assert(actions@.take(actions@.len() as int) =~= actions@);
    }
}

/// The help page for the given bindings.
pub fn help_markdown(b: &KeyBindings) -> (res: Vec<char>)
    ensures
        res@ == help_document(b),
{
    let mut out: Vec<char> = Vec::new();
    push_str(&mut out, "# Catomic help\n\n");
    push_str(&mut out, "A compact reference for the workflows worth remembering. ");
    let search = b.keyboard_chords(Action::Search);
    if search.len() > 0 {
        push_str(&mut out, "Search this page with ");
        push_chords(&mut out, &search);
        push_str(&mut out, ". ");
    }
    push_str(&mut out, "Press `Esc` to close it.\n\n## Files and buffers\n\n");
    let ghost intro = out@;
    proof {
        assert(intro =~= help_intro(b));
    }
    let files: Vec<Action> = vec![
        Action::Save,
        Action::SaveAs,
        Action::Open,
        Action::New,
        Action::Close,
        Action::PreviousBuffer,
        Action::NextBuffer,
        Action::Quit,
        Action::Interrupt,
    ];
    proof {
        assert(files@ =~= file_actions());
    }
    push_actions(&mut out, b, &files);
    push_str(&mut out, "\n## Edit and navigate\n\n");
    let edits: Vec<Action> = vec![Action::Undo, Action::Redo, Action::CutLine, Action::Search, Action::Replace, Action::GotoLine];
    proof {
        assert(edits@ =~= edit_actions());
    }
    push_actions(&mut out, b, &edits);
    push_str(&mut out, "\n## Commands and views\n\n");
    let commands: Vec<Action> = vec![Action::CommandPrompt, Action::ToggleExternalDiff, Action::MarkdownPreview];
    proof {
        assert(commands@ =~= command_actions());
    }
    push_actions(&mut out, b, &commands);
    push_str(&mut out, "\n## External changes and recovery\n\n");
    push_str(&mut out, "- Clean buffers reload automatically after an external change unless auto-reload is disabled.\n");
    push_str(&mut out, "- Dirty buffers are never replaced automatically. Use the reload action twice to accept the same observed disk revision.\n");
    push_str(&mut out, "- Saves are atomic. If the file changed on disk, the second save succeeds only while that observed state is unchanged.\n");
    push_str(&mut out, "- When crash recovery is enabled, run `recover` to preview a newer `.catnap`; applying it is explicit and undoable.\n");
    push_str(&mut out, "\n## Models\n\n");
    push_action(&mut out, b, Action::SelectModel);
    push_str(&mut out, "- Model requests show the destination and bounded context before sending. Proposals are read-only until separately applied and are never auto-saved.\n\n");
    push_str(&mut out, "Configuration, model setup, Project commands, mobile controls, and troubleshooting live in the [user guide](https://github.com/maelguimet/catomic/blob/master/docs/user-guide.md).\n");
    proof {
        assert(out@ =~= help_document(b));
    }
    out
}


/// Help was opened for the current bindings: the view it covers is
/// remembered, the page starts at its top, and nothing else changed.
pub open spec fn help_shown(before: &App, after: &App) -> bool {
    &&& after.surfaces.help matches Some(h) && h.document@ == help_document(&before.keybindings)
        && h.source_scroll_top == before.screen.scroll_top && h.source_scroll_left == before.screen.scroll_left
        && h.source_wrap_col == before.screen.wrap_col
    &&& after.screen == (crate::screen::Screen { scroll_top: 0, scroll_left: 0, wrap_col: 0, ..before.screen })
    &&& after.selection.anchor is None
    &&& after.message matches Some(m) && m@ == "Help; Esc closes."@
    &&& *after == (App {
        surfaces: crate::app::Surfaces { help: after.surfaces.help, ..before.surfaces },
        screen: after.screen,
        selection: after.selection,
        message: after.message,
        message_role: after.message_role,
        ..*before
    })
}

/// Help was closed: the view it covered is back and nothing else changed.
pub open spec fn help_closed(before: &App, after: &App) -> bool {
    &&& after.surfaces.help is None
    &&& before.surfaces.help matches Some(h) ==> after.screen == (crate::screen::Screen {
        scroll_top: h.source_scroll_top,
        scroll_left: h.source_scroll_left,
        wrap_col: h.source_wrap_col,
        ..before.screen
    })
    &&& before.surfaces.help is None ==> after.screen == before.screen
    &&& *after == (App {
        surfaces: crate::app::Surfaces { help: None, ..before.surfaces },
        screen: after.screen,
        ..*before
    })
}

/// Opening help and closing it again gives back the buffer, the file, and
/// the view exactly as they were; only the selection and the message may
/// differ.
pub proof fn help_round_trip(before: &App, shown: &App, closed: &App)
    requires
        before.surfaces.help is None,
        help_shown(before, shown),
        help_closed(shown, closed),
    ensures
        closed.buffer == before.buffer,
        closed.file == before.file,
        closed.screen == before.screen,
        closed.surfaces == before.surfaces,
        closed.inactive_buffers == before.inactive_buffers,
        closed.keybindings == before.keybindings,
{
}

pub fn is_viewing(app: &App) -> (res: bool)
    ensures
        res == app.surfaces.help is Some,
{
    app.surfaces.help.is_some()
}

/// Opens the help page for the current bindings, remembering the view to return to.
pub fn show(app: &mut App)
    ensures
        help_shown(old(app), final(app)),
{
    let document = help_markdown(&app.keybindings);
    app.surfaces.help = Some(HelpView {
        document,
        source_scroll_top: app.screen.scroll_top,
        source_scroll_left: app.screen.scroll_left,
        source_wrap_col: app.screen.wrap_col,
    });
    app.screen.scroll_top = 0;
    app.screen.scroll_left = 0;
    app.screen.wrap_col = 0;
    app.selection.clear();
    app.message_info(String::from_str("Help; Esc closes."));
}

/// Closes the help page and restores the view; says whether it was open.
pub fn close(app: &mut App) -> (res: bool)
    ensures
        res == old(app).surfaces.help is Some,
        help_closed(old(app), final(app)),
{
    match app.surfaces.help.take() {
        Some(h) => {
            app.screen.scroll_top = h.source_scroll_top;
            app.screen.scroll_left = h.source_scroll_left;
            app.screen.wrap_col = h.source_wrap_col;
            true
        },
        None => false,
    }
}

/// Opens help, or closes it when it is open.
pub fn toggle(app: &mut App)
    ensures
        old(app).surfaces.help is Some ==> help_closed(old(app), final(app)),
        old(app).surfaces.help is None ==> help_shown(old(app), final(app)),
{
    if !close(app) {
        show(app);
    }
}

/// A key while help is open: Esc closes it and restores the view; arrows,
/// pages, Home and End scroll it; any other key only says that it is
/// read-only. Ctrl+Q and keys without help open are not taken.
pub fn handle_key(app: &mut App, key: KeyEvent) -> (handled: bool)
    ensures
        handled == (old(app).surfaces.help is Some && !is_quit_key(key)),
        !handled ==> *final(app) == *old(app),
        final(app).buffer == old(app).buffer,
        final(app).file == old(app).file,
        final(app).inactive_buffers == old(app).inactive_buffers,
        handled && key.code == KeyCode::Esc ==> {
            &&& final(app).surfaces.help is None
            &&& final(app).message is None
            &&& final(app).screen == (crate::screen::Screen {
                scroll_top: old(app).surfaces.help->0.source_scroll_top,
                scroll_left: old(app).surfaces.help->0.source_scroll_left,
                wrap_col: old(app).surfaces.help->0.source_wrap_col,
                ..old(app).screen
            })
        },
        handled && key.code != KeyCode::Esc ==> final(app).surfaces.help == old(app).surfaces.help,
        handled && scroll_key(key.code) ==> final(app).screen == (crate::screen::Screen {
            scroll_top: scrolled(
                old(app).screen.scroll_top as int,
                split_lines(old(app).surfaces.help->0.document@).len() as int,
                content_rows(old(app).screen),
                key.code,
            ) as usize,
            ..old(app).screen
        }) && final(app).message == old(app).message,
        handled && key.code != KeyCode::Esc && !scroll_key(key.code) ==> final(app).screen == old(app).screen
            && (final(app).message matches Some(m) && m@ == "Shortcut help is read-only; Esc closes."@),
{
    if quit_key(key) {
        return false;
    }
    let lines = match &app.surfaces.help {
        Some(h) => crate::buffer::split_text(&h.document, 0).0.len(),
        None => return false,
    };
    match key.code {
        KeyCode::Esc => {
            close(app);
            app.message = None;
        },
        KeyCode::Up | KeyCode::Down | KeyCode::PageUp | KeyCode::PageDown | KeyCode::Home | KeyCode::End => {
            app.screen.scroll_view(lines, key.code);
        },
        _ => app.message_info(String::from_str("Shortcut help is read-only; Esc closes.")),
    }
    true
}

} // verus!
