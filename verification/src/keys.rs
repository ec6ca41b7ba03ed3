//! Editor actions and the key chords bound to them.

use vstd::prelude::*;

verus! {

/// A user-facing editor action that key chords can be bound to.
#[derive(Clone, Copy, Debug, PartialEq, Eq, Structural)]
pub enum Action {
    Save,
    SaveAs,
    Open,
    New,
    Close,
    PreviousBuffer,
    NextBuffer,
    Quit,
    Interrupt,
    Undo,
    Redo,
    CutLine,
    Search,
    Replace,
    GotoLine,
    CommandPrompt,
    ToggleExternalDiff,
    MarkdownPreview,
    SelectModel,
    Help,
    Reload,
}

/// The key of a chord.
#[derive(Clone, Copy, Debug, PartialEq, Eq, Structural)]
pub enum KeyName {
    Char(char),
    F(u8),
    Left,
    Right,
    PageUp,
    PageDown,
}

/// A key with its modifiers.
#[derive(Clone, Copy, Debug, PartialEq, Eq, Structural)]
pub struct Chord {
    pub key: KeyName,
    pub ctrl: bool,
    pub alt: bool,
    pub shift: bool,
}

/// The chords bound to one action.
pub struct Binding {
    pub action: Action,
    pub chords: Vec<Chord>,
}

/// Every action with the chords bound to it.
pub struct KeyBindings {
    pub bindings: Vec<Binding>,
}


/// ASCII letters in upper case; everything else unchanged.
pub open spec fn upper_ascii(c: char) -> char {
    if 'a' <= c && c <= 'z' {
        ((c as u32) - 32) as char
    } else {
        c
    }
}

pub fn ascii_upper(c: char) -> (res: char)
    ensures
        res == upper_ascii(c),
{
    if 'a' <= c && c <= 'z' {
        let b: u8 = ((c as u32) - 32) as u8;
        b as char
    } else {
        c
    }
}

pub open spec fn chord(key: KeyName, ctrl: bool, alt: bool, shift: bool) -> Chord {
    Chord { key, ctrl, alt, shift }
}

/// The chords each action is bound to out of the box.
pub open spec fn default_chords(a: Action) -> Seq<Chord> {
    match a {
        Action::Save => seq![chord(KeyName::Char('s'), true, false, false)],
        Action::SaveAs => seq![chord(KeyName::Char('s'), true, false, true)],
        Action::Open => seq![chord(KeyName::Char('o'), true, false, false)],
        Action::New => seq![chord(KeyName::Char('n'), true, false, false)],
        Action::Close => seq![chord(KeyName::Char('w'), true, false, false)],
        Action::PreviousBuffer => seq![chord(KeyName::PageUp, true, false, false)],
        Action::NextBuffer => seq![chord(KeyName::PageDown, true, false, false)],
        Action::Quit => seq![chord(KeyName::Char('q'), true, false, false)],
        Action::Interrupt => seq![chord(KeyName::Char('c'), true, false, false)],
        Action::Undo => seq![chord(KeyName::Char('z'), true, false, false)],
        Action::Redo => seq![chord(KeyName::Char('y'), true, false, false), chord(KeyName::Char('z'), true, false, true)],
        Action::CutLine => seq![chord(KeyName::Char('k'), true, false, false)],
        Action::Search => seq![chord(KeyName::Char('f'), true, false, false)],
        Action::Replace => seq![chord(KeyName::Char('r'), true, false, false)],
        Action::GotoLine => seq![chord(KeyName::Char('g'), true, false, false)],
        Action::CommandPrompt => seq![chord(KeyName::Char('p'), true, false, true), chord(KeyName::F(2), false, false, false)],
        Action::ToggleExternalDiff => seq![chord(KeyName::F(6), false, false, false)],
        Action::MarkdownPreview => seq![chord(KeyName::F(8), false, false, false)],
        Action::SelectModel => seq![chord(KeyName::F(9), false, false, false)],
        Action::Help => seq![chord(KeyName::F(1), false, false, false), chord(KeyName::Char('h'), true, false, false)],
        Action::Reload => seq![chord(KeyName::Char('r'), true, true, false)],
    }
}

/// Every action, in the order the default table lists them.
pub open spec fn all_actions() -> Seq<Action> {
    seq![
        Action::Save,
        Action::SaveAs,
        Action::Open,
        Action::New,
        Action::Close,
        Action::PreviousBuffer,
        Action::NextBuffer,
        Action::Quit,
        Action::Interrupt,
        Action::Undo,
        Action::Redo,
        Action::CutLine,
        Action::Search,
        Action::Replace,
        Action::GotoLine,
        Action::CommandPrompt,
        Action::ToggleExternalDiff,
        Action::MarkdownPreview,
        Action::SelectModel,
        Action::Help,
        Action::Reload,
    ]
}

/// The chords bound to `a`: those of its first binding, or none.
pub open spec fn bound_chords(bs: Seq<Binding>, a: Action) -> Seq<Chord>
    decreases bs.len(),
{
    if bs.len() == 0 {
        Seq::empty()
    } else if bs[0].action == a {
        bs[0].chords@
    } else {
        bound_chords(bs.drop_first(), a)
    }
}

fn chord_of(key: KeyName, ctrl: bool, alt: bool, shift: bool) -> (res: Chord)
    ensures
        res == chord(key, ctrl, alt, shift),
{
    Chord { key, ctrl, alt, shift }
}

/// The chords an action is bound to out of the box.
pub fn default_chords_of(a: Action) -> (res: Vec<Chord>)
    ensures
        res@ == default_chords(a),
{
    let mut v: Vec<Chord> = Vec::new();
    match a {
        Action::Save => v.push(chord_of(KeyName::Char('s'), true, false, false)),
        Action::SaveAs => v.push(chord_of(KeyName::Char('s'), true, false, true)),
        Action::Open => v.push(chord_of(KeyName::Char('o'), true, false, false)),
        Action::New => v.push(chord_of(KeyName::Char('n'), true, false, false)),
        Action::Close => v.push(chord_of(KeyName::Char('w'), true, false, false)),
        Action::PreviousBuffer => v.push(chord_of(KeyName::PageUp, true, false, false)),
        Action::NextBuffer => v.push(chord_of(KeyName::PageDown, true, false, false)),
        Action::Quit => v.push(chord_of(KeyName::Char('q'), true, false, false)),
        Action::Interrupt => v.push(chord_of(KeyName::Char('c'), true, false, false)),
        Action::Undo => v.push(chord_of(KeyName::Char('z'), true, false, false)),
        Action::Redo => {
            v.push(chord_of(KeyName::Char('y'), true, false, false));
            v.push(chord_of(KeyName::Char('z'), true, false, true));
        },
        Action::CutLine => v.push(chord_of(KeyName::Char('k'), true, false, false)),
        Action::Search => v.push(chord_of(KeyName::Char('f'), true, false, false)),
        Action::Replace => v.push(chord_of(KeyName::Char('r'), true, false, false)),
        Action::GotoLine => v.push(chord_of(KeyName::Char('g'), true, false, false)),
        Action::CommandPrompt => {
            v.push(chord_of(KeyName::Char('p'), true, false, true));
            v.push(chord_of(KeyName::F(2), false, false, false));
        },
        Action::ToggleExternalDiff => v.push(chord_of(KeyName::F(6), false, false, false)),
        Action::MarkdownPreview => v.push(chord_of(KeyName::F(8), false, false, false)),
        Action::SelectModel => v.push(chord_of(KeyName::F(9), false, false, false)),
        Action::Help => {
            v.push(chord_of(KeyName::F(1), false, false, false));
            v.push(chord_of(KeyName::Char('h'), true, false, false));
        },
        Action::Reload => v.push(chord_of(KeyName::Char('r'), true, true, false)),
    }
    proof {
        assert(v@ =~= default_chords(a));
    }
    v
}

impl KeyBindings {
    /// Every action bound to its default chords.
    pub fn new() -> (res: KeyBindings)
        ensures
            forall|a: Action| bound_chords(res.bindings@, a) == default_chords(a),
    {
        let actions: Vec<Action> = vec![
            Action::Save,
            Action::SaveAs,
            Action::Open,
            Action::New,
            Action::Close,
            Action::PreviousBuffer,
            Action::NextBuffer,
            Action::Quit,
            Action::Interrupt,
            Action::Undo,
            Action::Redo,
            Action::CutLine,
            Action::Search,
            Action::Replace,
            Action::GotoLine,
            Action::CommandPrompt,
            Action::ToggleExternalDiff,
            Action::MarkdownPreview,
            Action::SelectModel,
            Action::Help,
            Action::Reload,
        ];
        let mut bindings: Vec<Binding> = Vec::new();
        let mut i: usize = 0;
        while i < actions.len()
            invariant
                0 <= i <= actions@.len(),
                actions@ == all_actions(),
                bindings@.len() == i,
                forall|k: int| 0 <= k < i ==> (#[trigger] bindings@[k]).action == all_actions()[k] && bindings@[k].chords@ == default_chords(all_actions()[k]),
            decreases actions@.len() - i,
        {
            let a = actions[i];
            bindings.push(Binding { action: a, chords: default_chords_of(a) });
            i += 1;
        }
        let res = KeyBindings { bindings };
        proof {
            assert forall|a: Action| bound_chords(res.bindings@, a) == default_chords(a) by {
                lemma_bound_in_table(res.bindings@, a);
            }
        }
        res
    }

    /// The chords bound to `action`.
    pub fn keyboard_chords(&self, action: Action) -> (res: Vec<Chord>)
        ensures
            res@ == bound_chords(self.bindings@, action),
    {
        let mut i: usize = 0;
        proof {
            assert(self.bindings@.skip(0) =~= self.bindings@);
        }
        while i < self.bindings.len()
            invariant
                0 <= i <= self.bindings@.len(),
                bound_chords(self.bindings@, action) == bound_chords(self.bindings@.skip(i as int), action),
            decreases self.bindings@.len() - i,
        {
            proof {
                assert(self.bindings@.skip(i as int).drop_first() =~= self.bindings@.skip(i + 1));
            }
            if self.bindings[i].action == action {
                return copy_chords(&self.bindings[i].chords);
            }
            i += 1;
        }
        Vec::new()
    }

    /// Rebinds `action` to exactly `chords` (none unbinds it).
    pub fn set(&mut self, action: Action, chords: Vec<Chord>)
        ensures
            bound_chords(final(self).bindings@, action) == chords@,
            forall|a: Action| a != action ==> bound_chords(final(self).bindings@, a) == bound_chords(old(self).bindings@, a),
    {
        let ghost before = self.bindings@;
        self.bindings.insert(0, Binding { action, chords });
        proof {
            assert(self.bindings@.drop_first() =~= before);
        }
    }
}

fn copy_chords(v: &Vec<Chord>) -> (res: Vec<Chord>)
    ensures
        res@ == v@,
{
    let mut out: Vec<Chord> = Vec::new();
    let mut i: usize = 0;
    while i < v.len()
        invariant
            0 <= i <= v@.len(),
            out@ == v@.take(i as int),
        decreases v@.len() - i,
    {
        out.push(v[i]);
        i += 1;
        proof {
            assert(v@.take(i as int) =~= v@.take(i - 1).push(v@[i - 1]));
        }
    }
    proof {
        assert(v@.take(v@.len() as int) =~= v@);
    }
    out
}

/// The first binding of `a` decides its chords.
proof fn lemma_bound_first(bs: Seq<Binding>, a: Action, k: int)
    requires
        0 <= k < bs.len(),
        bs[k].action == a,
        forall|j: int| 0 <= j < k ==> bs[j].action != a,
    ensures
        bound_chords(bs, a) == bs[k].chords@,
    decreases k,
{
    if k > 0 {
        lemma_bound_first(bs.drop_first(), a, k - 1);
    }
}

proof fn lemma_bound_in_table(bs: Seq<Binding>, a: Action)
    requires
        bs.len() == all_actions().len(),
        forall|k: int| 0 <= k < bs.len() ==> (#[trigger] bs[k]).action == all_actions()[k] && bs[k].chords@ == default_chords(all_actions()[k]),
    ensures
        bound_chords(bs, a) == default_chords(a),
{
    let t = all_actions();
    let k: int = match a {
        Action::Save => 0,
        Action::SaveAs => 1,
        Action::Open => 2,
        Action::New => 3,
        Action::Close => 4,
        Action::PreviousBuffer => 5,
        Action::NextBuffer => 6,
        Action::Quit => 7,
        Action::Interrupt => 8,
        Action::Undo => 9,
        Action::Redo => 10,
        Action::CutLine => 11,
        Action::Search => 12,
        Action::Replace => 13,
        Action::GotoLine => 14,
        Action::CommandPrompt => 15,
        Action::ToggleExternalDiff => 16,
        Action::MarkdownPreview => 17,
        Action::SelectModel => 18,
        Action::Help => 19,
        Action::Reload => 20,
    };
    assert(t[k] == a);
    assert forall|j: int| 0 <= j < k implies bs[j].action != a by {
        assert(bs[j].action == t[j]);
    }
    lemma_bound_first(bs, a, k);
}


/// A key as the terminal reports it.
#[derive(Clone, Copy, Debug, PartialEq, Eq, Structural)]
pub enum KeyCode {
    Char(char),
    Enter,
    Backspace,
    Delete,
    Left,
    Right,
    Up,
    Down,
    Tab,
    BackTab,
    Esc,
    Home,
    End,
    PageUp,
    PageDown,
    F(u8),
}

/// A key press with its modifiers.
#[derive(Clone, Copy, Debug, PartialEq, Eq, Structural)]
pub struct KeyEvent {
    pub code: KeyCode,
    pub ctrl: bool,
    pub alt: bool,
    pub shift: bool,
}

/// Ctrl+Q, which read-only surfaces and confirmations leave to the quit action.
pub open spec fn is_quit_key(key: KeyEvent) -> bool {
    key.code == KeyCode::Char('q') && key.ctrl && !key.alt && !key.shift
}

pub fn quit_key(key: KeyEvent) -> (res: bool)
    ensures
        res == is_quit_key(key),
{
    key.code == KeyCode::Char('q') && key.ctrl && !key.alt && !key.shift
}

impl KeyEvent {
    /// A press of `code` without modifiers.
    pub fn plain(code: KeyCode) -> (res: KeyEvent)
        ensures
            res == (KeyEvent { code, ctrl: false, alt: false, shift: false }),
    {
        KeyEvent { code, ctrl: false, alt: false, shift: false }
    }

    /// A press of `code` with Ctrl held.
    pub fn ctrl(code: KeyCode) -> (res: KeyEvent)
        ensures
            res == (KeyEvent { code, ctrl: true, alt: false, shift: false }),
    {
        KeyEvent { code, ctrl: true, alt: false, shift: false }
    }
}

/// A chord's key names the key the terminal reported; letters match in either case.
pub open spec fn key_matches(k: KeyName, code: KeyCode) -> bool {
    match (k, code) {
        (KeyName::Char(a), KeyCode::Char(b)) => upper_ascii(a) == upper_ascii(b),
        (KeyName::F(n), KeyCode::F(m)) => n == m,
        (KeyName::Left, KeyCode::Left) => true,
        (KeyName::Right, KeyCode::Right) => true,
        (KeyName::PageUp, KeyCode::PageUp) => true,
        (KeyName::PageDown, KeyCode::PageDown) => true,
        _ => false,
    }
}

/// The key press is the chord: same key and the same modifiers.
pub open spec fn chord_matches(c: Chord, e: KeyEvent) -> bool {
    key_matches(c.key, e.code) && c.ctrl == e.ctrl && c.alt == e.alt && c.shift == e.shift
}

pub open spec fn any_chord_matches(cs: Seq<Chord>, e: KeyEvent) -> bool {
    exists|i: int| 0 <= i < cs.len() && chord_matches(#[trigger] cs[i], e)
}

/// The first of `actions` whose chords include the key press.
pub open spec fn action_among(bs: Seq<Binding>, actions: Seq<Action>, e: KeyEvent) -> Option<Action>
    decreases actions.len(),
{
    if actions.len() == 0 {
        None
    } else if any_chord_matches(bound_chords(bs, actions[0]), e) {
        Some(actions[0])
    } else {
        action_among(bs, actions.drop_first(), e)
    }
}

proof fn lemma_skip_unmatched(bs: Seq<Binding>, actions: Seq<Action>, e: KeyEvent, k: int, stop: int)
    requires
        0 <= k <= stop <= actions.len(),
        forall|i: int| k <= i < stop ==> !any_chord_matches(#[trigger] bound_chords(bs, actions[i]), e),
    ensures
        action_among(bs, actions.skip(k), e) == action_among(bs, actions.skip(stop), e),
    decreases stop - k,
{
    if k < stop {
        assert(actions.skip(k)[0] == actions[k]);
        assert(actions.skip(k).drop_first() =~= actions.skip(k + 1));
        lemma_skip_unmatched(bs, actions, e, k + 1, stop);
    }
}

proof fn lemma_no_match(c: Chord, e: KeyEvent)
    requires
        !chord_matches(c, e),
    ensures
        !any_chord_matches(seq![c], e),
{
}

proof fn lemma_no_match2(c: Chord, d: Chord, e: KeyEvent)
    requires
        !chord_matches(c, e),
        !chord_matches(d, e),
    ensures
        !any_chord_matches(seq![c, d], e),
{
}

/// With every action bound to its default chords, the usual editor chords
/// reach Save, Quit, Undo and Redo.
pub proof fn lemma_default_routing(bs: Seq<Binding>)
    requires
        forall|a: Action| bound_chords(bs, a) == default_chords(a),
    ensures
        bound_action(bs, KeyEvent { code: KeyCode::Char('s'), ctrl: true, alt: false, shift: false }) == Some(Action::Save),
        bound_action(bs, KeyEvent { code: KeyCode::Char('q'), ctrl: true, alt: false, shift: false }) == Some(Action::Quit),
        bound_action(bs, KeyEvent { code: KeyCode::Char('z'), ctrl: true, alt: false, shift: false }) == Some(Action::Undo),
        bound_action(bs, KeyEvent { code: KeyCode::Char('z'), ctrl: true, alt: false, shift: true }) == Some(Action::Redo),
        bound_action(bs, KeyEvent { code: KeyCode::Char('Z'), ctrl: true, alt: false, shift: true }) == Some(Action::Redo),
        bound_action(bs, KeyEvent { code: KeyCode::Char('y'), ctrl: true, alt: false, shift: false }) == Some(Action::Redo),
{
    let all = all_actions();
    assert(all.skip(0) =~= all);
    let es = KeyEvent { code: KeyCode::Char('s'), ctrl: true, alt: false, shift: false };
    let eq = KeyEvent { code: KeyCode::Char('q'), ctrl: true, alt: false, shift: false };
    let ez = KeyEvent { code: KeyCode::Char('z'), ctrl: true, alt: false, shift: false };
    let esz = KeyEvent { code: KeyCode::Char('z'), ctrl: true, alt: false, shift: true };
    let esZ = KeyEvent { code: KeyCode::Char('Z'), ctrl: true, alt: false, shift: true };
    let ey = KeyEvent { code: KeyCode::Char('y'), ctrl: true, alt: false, shift: false };
    // Save comes first.
    assert(all[0] == Action::Save);
    assert(chord_matches(default_chords(Action::Save)[0], es));
    // Quit after seven other actions.
    assert forall|i: int| 0 <= i < 7 implies !any_chord_matches(#[trigger] bound_chords(bs, all[i]), eq) by {
        no_earlier(bs, all, eq, i);
    }
    lemma_skip_unmatched(bs, all, eq, 0, 7);
    assert(all.skip(7)[0] == Action::Quit);
    assert(chord_matches(default_chords(Action::Quit)[0], eq));
    // Undo after nine.
    assert forall|i: int| 0 <= i < 9 implies !any_chord_matches(#[trigger] bound_chords(bs, all[i]), ez) by {
        no_earlier(bs, all, ez, i);
    }
    lemma_skip_unmatched(bs, all, ez, 0, 9);
    assert(all.skip(9)[0] == Action::Undo);
    assert(chord_matches(default_chords(Action::Undo)[0], ez));
    // Redo after ten.
    assert forall|i: int| 0 <= i < 10 implies !any_chord_matches(#[trigger] bound_chords(bs, all[i]), esz) by {
        no_earlier(bs, all, esz, i);
    }
    lemma_skip_unmatched(bs, all, esz, 0, 10);
    assert forall|i: int| 0 <= i < 10 implies !any_chord_matches(#[trigger] bound_chords(bs, all[i]), esZ) by {
        no_earlier(bs, all, esZ, i);
    }
    lemma_skip_unmatched(bs, all, esZ, 0, 10);
    assert forall|i: int| 0 <= i < 10 implies !any_chord_matches(#[trigger] bound_chords(bs, all[i]), ey) by {
        no_earlier(bs, all, ey, i);
    }
    lemma_skip_unmatched(bs, all, ey, 0, 10);
    assert(all.skip(10)[0] == Action::Redo);
    assert(chord_matches(default_chords(Action::Redo)[1], esz));
    assert(chord_matches(default_chords(Action::Redo)[1], esZ));
    assert(chord_matches(default_chords(Action::Redo)[0], ey));
}

/// The ten chords that come before Redo's in the default table, none of
/// which is Ctrl+Q (beyond Quit's own), Ctrl+Z, Ctrl+Shift+Z or Ctrl+Y.
proof fn no_earlier(bs: Seq<Binding>, all: Seq<Action>, e: KeyEvent, i: int)
    requires
        forall|a: Action| bound_chords(bs, a) == default_chords(a),
        all == all_actions(),
        0 <= i < 10,
        e == (KeyEvent { code: KeyCode::Char('q'), ctrl: true, alt: false, shift: false }) && i < 7 || e == (KeyEvent {
            code: KeyCode::Char('z'),
            ctrl: true,
            alt: false,
            shift: false,
        }) && i < 9 || e == (KeyEvent { code: KeyCode::Char('z'), ctrl: true, alt: false, shift: true }) || e == (KeyEvent {
            code: KeyCode::Char('Z'),
            ctrl: true,
            alt: false,
            shift: true,
        }) || e == (KeyEvent { code: KeyCode::Char('y'), ctrl: true, alt: false, shift: false }),
    ensures
        !any_chord_matches(bound_chords(bs, all[i]), e),
{
    let a = all[i];
    let cs = default_chords(a);
    if i == 0 || i == 1 || i == 2 || i == 3 || i == 4 || i == 5 || i == 6 || i == 7 || i == 8 || i == 9 {
        if cs.len() == 1 {
            lemma_no_match(cs[0], e);
            assert(cs =~= seq![cs[0]]);
        } else {
            lemma_no_match2(cs[0], cs[1], e);
            assert(cs =~= seq![cs[0], cs[1]]);
        }
    }
}

/// The action a key press is bound to, taking actions in the table's order.
pub open spec fn bound_action(bs: Seq<Binding>, e: KeyEvent) -> Option<Action> {
    action_among(bs, all_actions(), e)
}

pub fn key_matches_code(k: KeyName, code: KeyCode) -> (res: bool)
    ensures
        res == key_matches(k, code),
{
    match (k, code) {
        (KeyName::Char(a), KeyCode::Char(b)) => ascii_upper(a) == ascii_upper(b),
        (KeyName::F(n), KeyCode::F(m)) => n == m,
        (KeyName::Left, KeyCode::Left) => true,
        (KeyName::Right, KeyCode::Right) => true,
        (KeyName::PageUp, KeyCode::PageUp) => true,
        (KeyName::PageDown, KeyCode::PageDown) => true,
        _ => false,
    }
}

fn chords_match(cs: &Vec<Chord>, e: KeyEvent) -> (res: bool)
    ensures
        res == any_chord_matches(cs@, e),
{
    let mut i: usize = 0;
    while i < cs.len()
        invariant
            0 <= i <= cs@.len(),
            forall|j: int| 0 <= j < i ==> !chord_matches(#[trigger] cs@[j], e),
        decreases cs@.len() - i,
    {
        let c = cs[i];
        if key_matches_code(c.key, e.code) && c.ctrl == e.ctrl && c.alt == e.alt && c.shift == e.shift {
            return true;
        }
        i += 1;
    }
    false
}

impl KeyBindings {
    /// The action a key press is bound to, if any.
    pub fn action_for_key(&self, e: KeyEvent) -> (res: Option<Action>)
        ensures
            res == bound_action(self.bindings@, e),
    {
        let actions: Vec<Action> = vec![
            Action::Save,
            Action::SaveAs,
            Action::Open,
            Action::New,
            Action::Close,
            Action::PreviousBuffer,
            Action::NextBuffer,
            Action::Quit,
            Action::Interrupt,
            Action::Undo,
            Action::Redo,
            Action::CutLine,
            Action::Search,
            Action::Replace,
            Action::GotoLine,
            Action::CommandPrompt,
            Action::ToggleExternalDiff,
            Action::MarkdownPreview,
            Action::SelectModel,
            Action::Help,
            Action::Reload,
        ];
        proof {
            assert(actions@ =~= all_actions());
            assert(actions@.skip(0) =~= actions@);
        }
        let mut i: usize = 0;
        while i < actions.len()
            invariant
                0 <= i <= actions@.len(),
                actions@ == all_actions(),
                bound_action(self.bindings@, e) == action_among(self.bindings@, actions@.skip(i as int), e),
            decreases actions@.len() - i,
        {
            let a = actions[i];
            proof {
                assert(actions@.skip(i as int)[0] == a);
                assert(actions@.skip(i as int).drop_first() =~= actions@.skip(i + 1));
            }
            let cs = self.keyboard_chords(a);
            if chords_match(&cs, e) {
                return Some(a);
            }
            i += 1;
        }
        None
    }
}

} // verus!
