//! Opt-in inline autocomplete: session confirmation, request identity pins,
//! debounce and retry backoff, stale-result rejection, and status labels.
//! Times are milliseconds on a monotonic clock that the caller reads.

use vstd::prelude::*;

use crate::app::{App, Mode};
use crate::buffer::{cursor_at, cursor_offset, replaced_text, Cursor};
use crate::keys::{is_quit_key, quit_key, KeyCode, KeyEvent};
use crate::config::{AutocompleteConfig, BackendAdapter, BackendPreset};
use crate::status::{decimal, push_chars, push_decimal, push_str, StatusRole};

verus! {

/// What the user confirmed: this preset, at this destination, with these settings.
pub struct ConfirmedPolicy {
    pub preset: BackendPreset,
    pub destination: String,
    pub autocomplete: AutocompleteConfig,
}

/// A confirmation page on screen, and the view to return to.
pub struct PendingConfirmation {
    pub policy: ConfirmedPolicy,
    pub document: Vec<char>,
    pub source_scroll_top: usize,
    pub source_scroll_left: usize,
    pub source_wrap_col: usize,
}

/// Everything a suggestion must still match to be shown.
pub struct RequestIdentity {
    pub revision: u64,
    pub cursor: Cursor,
    pub mode: Mode,
    pub generation: u64,
    pub preset: String,
    pub destination: String,
    pub model: String,
}

/// A request in flight, pinned to the state it was made for.
pub struct RunningRequest {
    pub identity: RequestIdentity,
}

/// Ghost text that is not part of the buffer.
pub struct Suggestion {
    pub text: String,
    pub identity: RequestIdentity,
}

/// How a request ended.
pub enum TaskResult {
    Finished(String),
    Cancelled,
    Error(String),
}

pub struct AutocompleteState {
    pub config: AutocompleteConfig,
    pub enabled: bool,
    pub pending: Option<PendingConfirmation>,
    pub confirmed: Option<ConfirmedPolicy>,
    pub running: Option<RunningRequest>,
    pub suggestion: Option<Suggestion>,
    pub generation: u64,
    pub last_edit: Option<u64>,
    pub backoff_until: Option<u64>,
    pub failures: u8,
    pub error: Option<String>,
}

impl AutocompleteState {
    /// Disabled, with nothing pending, running or shown.
    pub fn new(config: AutocompleteConfig) -> (res: AutocompleteState)
        ensures
            res.config == config,
            !res.enabled,
            res.pending is None,
            res.confirmed is None,
            res.running is None,
            res.suggestion is None,
            res.generation == 0,
            res.last_edit is None,
            res.backoff_until is None,
            res.failures == 0,
            res.error is None,
    {
        AutocompleteState {
            config,
            enabled: false,
            pending: None,
            confirmed: None,
            running: None,
            suggestion: None,
            generation: 0,
            last_edit: None,
            backoff_until: None,
            failures: 0,
            error: None,
        }
    }
}

/// The next generation: earlier requests and suggestions no longer match.
pub open spec fn next_generation(g: u64) -> u64 {
    if g == u64::MAX {
        0
    } else {
        (g + 1) as u64
    }
}

/// Drops any request in flight and any suggestion, and forgets the last edit.
pub fn invalidate(app: &mut App)
    ensures
        *final(app) == (App {
            autocomplete: AutocompleteState {
                generation: next_generation(old(app).autocomplete.generation),
                running: None,
                suggestion: None,
                last_edit: None,
                ..old(app).autocomplete
            },
            ..*old(app)
        }),
{
    app.autocomplete.generation = app.autocomplete.generation.wrapping_add(1);
    app.autocomplete.running = None;
    app.autocomplete.suggestion = None;
    app.autocomplete.last_edit = None;
}

/// After a content edit: stale work is dropped and, when enabled, the idle timer restarts.
pub fn note_content_edit(app: &mut App, now: u64)
    ensures
        final(app).autocomplete.generation == next_generation(old(app).autocomplete.generation),
        final(app).autocomplete.running is None,
        final(app).autocomplete.suggestion is None,
        final(app).autocomplete.last_edit == (if old(app).autocomplete.enabled { Some(now) } else { None }),
        final(app).autocomplete.enabled == old(app).autocomplete.enabled,
        final(app).buffer == old(app).buffer,
{
    invalidate(app);
    if app.autocomplete.enabled {
        app.autocomplete.last_edit = Some(now);
    }
}

/// The host of an `http://` or `https://` URL: up to the port, path, or end;
/// a bracketed IPv6 host keeps its brackets.
pub open spec fn url_host(url: Seq<char>) -> Seq<char> {
    let rest = if url.len() >= 7 && url.take(7) == "http://"@ {
        url.skip(7)
    } else if url.len() >= 8 && url.take(8) == "https://"@ {
        url.skip(8)
    } else {
        url
    };
    if rest.len() > 0 && rest[0] == '[' {
        rest.take(min_end(host_end(rest, ']', 0) + 1, rest.len() as int))
    } else {
        rest.take(min_end(host_end(rest, ':', 0), host_end(rest, '/', 0)))
    }
}

pub open spec fn min_end(a: int, b: int) -> int {
    if a < b {
        a
    } else {
        b
    }
}

/// Index of the first `c`, or the length.
pub open spec fn host_end(s: Seq<char>, c: char, from: int) -> int
    decreases s.len() - from,
{
    if from >= s.len() {
        s.len() as int
    } else if s[from] == c {
        from
    } else {
        host_end(s, c, from + 1)
    }
}

/// The endpoint is this machine: `localhost`, a `127.` address, or `[::1]`.
pub open spec fn loopback_host(host: Seq<char>) -> bool {
    host == "localhost"@ || (host.len() >= 4 && host.take(4) == "127."@) || host == "[::1]"@
}

/// A preset that sends context over HTTP to another machine.
pub open spec fn remote_http(p: &BackendPreset) -> bool {
    match p.adapter {
        BackendAdapter::OpenAiCompatible { base_url } => !loopback_host(url_host(base_url@)),
        BackendAdapter::Command { .. } => false,
    }
}

fn starts_with(s: &Vec<char>, prefix: &str) -> (res: bool)
    ensures
        res == (s@.len() >= prefix@.len() && s@.take(prefix@.len() as int) == prefix@),
{
    let p = crate::text::chars_of(prefix);
    if s.len() < p.len() {
        return false;
    }
    let mut i: usize = 0;
    while i < p.len()
        invariant
            p@ == prefix@,
            p@.len() <= s@.len(),
            0 <= i <= p@.len(),
            forall|j: int| 0 <= j < i ==> s@[j] == p@[j],
        decreases p@.len() - i,
    {
        if s[i] != p[i] {
            return false;
        }
        i += 1;
    }
    proof {
        assert(s@.take(p@.len() as int) =~= p@);
    }
    true
}

fn find_or_len(s: &Vec<char>, c: char) -> (res: usize)
    ensures
        res == host_end(s@, c, 0),
        res <= s@.len(),
{
    let mut i: usize = 0;
    while i < s.len() && s[i] != c
        invariant
            0 <= i <= s@.len(),
            host_end(s@, c, 0) == host_end(s@, c, i as int),
        decreases s@.len() - i,
    {
        i += 1;
    }
    i
}

fn chars_equal_str(s: &Vec<char>, t: &str) -> (res: bool)
    ensures
        res == (s@ == t@),
{
    let v = crate::text::chars_of(t);
    crate::buffer::chars_equal(s, &v)
}

/// Whether `url` names this machine.
pub fn endpoint_is_loopback(url: &str) -> (res: bool)
    ensures
        res == loopback_host(url_host(url@)),
{
    let u = crate::text::chars_of(url);
    proof {
        reveal_strlit("http://");
        reveal_strlit("https://");
    }
    let rest: Vec<char> = if starts_with(&u, "http://") {
        subrange_chars(&u, 7, u.len())
    } else if starts_with(&u, "https://") {
        subrange_chars(&u, 8, u.len())
    } else {
        subrange_chars(&u, 0, u.len())
    };
    proof {
        assert(u@.skip(0) =~= u@);
    }
    let host: Vec<char> = if rest.len() > 0 && rest[0] == '[' {
        let e = find_or_len(&rest, ']');
        let stop = if e < rest.len() { e + 1 } else { rest.len() };
        subrange_chars(&rest, 0, stop)
    } else {
        let a = find_or_len(&rest, ':');
        let b = find_or_len(&rest, '/');
        let stop = if a < b { a } else { b };
        subrange_chars(&rest, 0, stop)
    };
    proof {
        reveal_strlit("127.");
        assert(u@.skip(7) =~= u@.subrange(7, u@.len() as int));
        assert(u@.skip(8) =~= u@.subrange(8, u@.len() as int));
    }
    let local = chars_equal_str(&host, "localhost") || starts_with(&host, "127.") || chars_equal_str(&host, "[::1]");
    local
}

/// Scalars `from..to` of `s`.
pub fn subrange_chars(s: &Vec<char>, from: usize, to: usize) -> (res: Vec<char>)
    requires
        from <= to <= s@.len(),
    ensures
        res@ == s@.subrange(from as int, to as int),
{
    let mut out: Vec<char> = Vec::new();
    let mut i: usize = from;
    while i < to
        invariant
            from <= i <= to <= s@.len(),
            out@ == s@.subrange(from as int, i as int),
        decreases to - i,
    {
        out.push(s[i]);
        i += 1;
        proof {
            assert(s@.subrange(from as int, i as int) =~= s@.subrange(from as int, i - 1).push(s@[i - 1]));
        }
    }
    out
}

/// Whether the preset sends context over HTTP to another machine.
pub fn is_remote_http(p: &BackendPreset) -> (res: bool)
    ensures
        res == remote_http(p),
{
    match &p.adapter {
        BackendAdapter::OpenAiCompatible { base_url } => !endpoint_is_loopback(base_url.as_str()),
        BackendAdapter::Command { .. } => false,
    }
}

/// Where a preset sends its requests, as shown to the user.
pub open spec fn destination_of(p: &BackendPreset) -> Seq<char> {
    match p.adapter {
        BackendAdapter::OpenAiCompatible { base_url } => base_url@,
        BackendAdapter::Command { program } => program@,
    }
}

pub fn display_destination(p: &BackendPreset) -> (res: String)
    ensures
        res@ == destination_of(p),
{
    match &p.adapter {
        BackendAdapter::OpenAiCompatible { base_url } => base_url.clone(),
        BackendAdapter::Command { program } => program.clone(),
    }
}

/// The policy a confirmation is about: the preset with the configured model
/// override, its destination, and the autocomplete settings.
pub fn resolved_policy(config: &AutocompleteConfig, preset: BackendPreset) -> (res: ConfirmedPolicy)
    ensures
        res.preset.name == preset.name,
        res.preset.adapter == preset.adapter,
        res.preset.model == (match config.model {
            Some(m) => m,
            None => preset.model,
        }),
        res.destination@ == destination_of(&preset),
        res.autocomplete == *config,
{
    let model = match &config.model {
        Some(m) => m.clone(),
        None => preset.model,
    };
    let preset = BackendPreset { name: preset.name, model, adapter: preset.adapter };
    let destination = display_destination(&preset);
    ConfirmedPolicy { preset, destination, autocomplete: config.copy() }
}

/// How the confirmation names the kind of destination.
pub open spec fn destination_kind(p: &BackendPreset) -> Seq<char> {
    match p.adapter {
        BackendAdapter::OpenAiCompatible { base_url } => if loopback_host(url_host(base_url@)) {
            "loopback HTTP"@
        } else {
            "REMOTE HTTP"@
        },
        BackendAdapter::Command { .. } => "configured command (may contact services)"@,
    }
}

pub open spec fn adapter_label(p: &BackendPreset) -> Seq<char> {
    match p.adapter {
        BackendAdapter::OpenAiCompatible { .. } => "OpenAI-compatible HTTP"@,
        BackendAdapter::Command { .. } => "headless command"@,
    }
}

/// The read-only page that discloses what enabling sends, and where.
pub open spec fn confirmation_text(p: &ConfirmedPolicy) -> Seq<char> {
    "Autocomplete session confirmation\n\nPreset: "@ + p.preset.name@ + "\nModel: "@ + p.preset.model@ + "\nAdapter: "@
        + adapter_label(&p.preset) + "\nDestination: "@ + p.destination@ + " ("@ + destination_kind(&p.preset)
        + ")\n\nAutomatic trigger: after "@ + decimal(p.autocomplete.idle_debounce_ms as nat)
        + " ms idle following an edit\nActive-buffer context: at most "@ + decimal(p.autocomplete.max_context_before as nat)
        + " Unicode scalars before and "@ + decimal(p.autocomplete.max_context_after as nat)
        + " after the cursor\nMaximum requested/output bound: "@ + decimal(p.autocomplete.max_generated_tokens as nat)
        + " tokens\nRequest timeout cap: 30 seconds\n\nCatomic adds no repository or filesystem context and invokes no tools. Suggestions remain non-buffer ghost text until Tab accepts one undoable edit. Every edit, cursor/selection change, paste, buffer/mode switch, and external refresh cancels stale work. This confirmation lasts only for this process and this exact preset, model, adapter, and destination.\n\nNo credential is read, command is started, or network request is made until Enter.\nEnter enables; Esc cancels.\n"@
}

pub fn confirmation_document(p: &ConfirmedPolicy) -> (res: Vec<char>)
    ensures
        res@ == confirmation_text(p),
{
    let mut out: Vec<char> = Vec::new();
    push_str(&mut out, "Autocomplete session confirmation\n\nPreset: ");
    push_str(&mut out, p.preset.name.as_str());
    push_str(&mut out, "\nModel: ");
    push_str(&mut out, p.preset.model.as_str());
    push_str(&mut out, "\nAdapter: ");
    match &p.preset.adapter {
        BackendAdapter::OpenAiCompatible { .. } => push_str(&mut out, "OpenAI-compatible HTTP"),
        BackendAdapter::Command { .. } => push_str(&mut out, "headless command"),
    }
    push_str(&mut out, "\nDestination: ");
    push_str(&mut out, p.destination.as_str());
    push_str(&mut out, " (");
    match &p.preset.adapter {
        BackendAdapter::OpenAiCompatible { base_url } => {
            if endpoint_is_loopback(base_url.as_str()) {
                push_str(&mut out, "loopback HTTP");
            } else {
                push_str(&mut out, "REMOTE HTTP");
            }
        },
        BackendAdapter::Command { .. } => push_str(&mut out, "configured command (may contact services)"),
    }
    push_str(&mut out, ")\n\nAutomatic trigger: after ");
    push_decimal(&mut out, p.autocomplete.idle_debounce_ms as u128);
    push_str(&mut out, " ms idle following an edit\nActive-buffer context: at most ");
    push_decimal(&mut out, p.autocomplete.max_context_before as u128);
    push_str(&mut out, " Unicode scalars before and ");
    push_decimal(&mut out, p.autocomplete.max_context_after as u128);
    push_str(&mut out, " after the cursor\nMaximum requested/output bound: ");
    push_decimal(&mut out, p.autocomplete.max_generated_tokens as u128);
    push_str(
        &mut out,
        " tokens\nRequest timeout cap: 30 seconds\n\nCatomic adds no repository or filesystem context and invokes no tools. Suggestions remain non-buffer ghost text until Tab accepts one undoable edit. Every edit, cursor/selection change, paste, buffer/mode switch, and external refresh cancels stale work. This confirmation lasts only for this process and this exact preset, model, adapter, and destination.\n\nNo credential is read, command is started, or network request is made until Enter.\nEnter enables; Esc cancels.\n",
    );
    proof {
        assert(out@ =~= confirmation_text(p));
    }
    out
}

/// Begins enabling autocomplete for `preset`: a remote endpoint needs the
/// separate `allow_remote` setting, an identical confirmed policy re-enables
/// at once, and anything else opens the read-only confirmation page.
pub fn begin_with_preset(app: &mut App, preset: BackendPreset)
    ensures
        final(app).autocomplete.running is None,
        final(app).autocomplete.suggestion is None,
        final(app).buffer == old(app).buffer,
        remote_http(&preset) && !old(app).autocomplete.config.allow_remote ==> {
            &&& !final(app).autocomplete.enabled
            &&& final(app).autocomplete.pending == old(app).autocomplete.pending
            &&& final(app).message matches Some(m) && m@ == "Autocomplete remains disabled: "@ + destination_of(&preset)
                + " is remote; set autocomplete.allow_remote = true to permit automatic context sending."@
        },
        !(remote_http(&preset) && !old(app).autocomplete.config.allow_remote) ==> (final(app).autocomplete.enabled
            <==> final(app).autocomplete.pending is None),
        !(remote_http(&preset) && !old(app).autocomplete.config.allow_remote) && !final(app).autocomplete.enabled
            ==> {
            &&& final(app).autocomplete.pending matches Some(p) && p.document@ == confirmation_text(&p.policy)
                && p.policy.destination@ == destination_of(&preset) && p.source_scroll_top == old(app).screen.scroll_top
                && p.source_scroll_left == old(app).screen.scroll_left
            &&& final(app).screen.scroll_top == 0
            &&& final(app).screen.scroll_left == 0
        },
{
    invalidate(app);
    let policy = resolved_policy(&app.autocomplete.config, preset);
    if is_remote_http(&policy.preset) && !policy.autocomplete.allow_remote {
        app.autocomplete.enabled = false;
        let mut m: Vec<char> = Vec::new();
        push_str(&mut m, "Autocomplete remains disabled: ");
        push_str(&mut m, policy.destination.as_str());
        push_str(&mut m, " is remote; set autocomplete.allow_remote = true to permit automatic context sending.");
        app.message = Some(crate::text::string_of(&m));
        return;
    }
    let same = match &app.autocomplete.confirmed {
        Some(c) => policies_equal(c, &policy),
        None => false,
    };
    if same {
        app.autocomplete.enabled = true;
        app.autocomplete.pending = None;
        app.message = Some(String::from_str("Autocomplete enabled for the confirmed session scope."));
        return;
    }
    app.autocomplete.enabled = false;
    let document = confirmation_document(&policy);
    let confirmation = PendingConfirmation {
        document,
        policy,
        source_scroll_top: app.screen.scroll_top,
        source_scroll_left: app.screen.scroll_left,
        source_wrap_col: app.screen.wrap_col,
    };
    app.screen.scroll_top = 0;
    app.screen.scroll_left = 0;
    app.screen.wrap_col = 0;
    app.selection.clear();
    app.message = Some(String::from_str("Autocomplete confirmation (read-only): review details; Enter enables; Esc cancels."));
    app.autocomplete.pending = Some(confirmation);
}

fn strings_equal(a: &String, b: &String) -> (res: bool)
    ensures
        res == (a@ == b@),
{
    *a == *b
}

/// Same preset name, model, adapter kind and destination.
pub open spec fn same_policy(a: &ConfirmedPolicy, b: &ConfirmedPolicy) -> bool {
    &&& a.preset.name@ == b.preset.name@
    &&& a.preset.model@ == b.preset.model@
    &&& a.destination@ == b.destination@
    &&& adapter_label(&a.preset) == adapter_label(&b.preset)
}

fn policies_equal(a: &ConfirmedPolicy, b: &ConfirmedPolicy) -> (res: bool)
    ensures
        res == same_policy(a, b),
{
    proof {
        reveal_strlit("OpenAI-compatible HTTP");
        reveal_strlit("headless command");
        assert("OpenAI-compatible HTTP"@.len() != "headless command"@.len());
    }
    let kinds = match (&a.preset.adapter, &b.preset.adapter) {
        (BackendAdapter::OpenAiCompatible { .. }, BackendAdapter::OpenAiCompatible { .. }) => true,
        (BackendAdapter::Command { .. }, BackendAdapter::Command { .. }) => true,
        _ => false,
    };
    strings_equal(&a.preset.name, &b.preset.name) && strings_equal(&a.preset.model, &b.preset.model) && strings_equal(
        &a.destination,
        &b.destination,
    ) && kinds
}


/// The view to return to from the confirmation page.
pub open spec fn screen_after_confirmation(app: &App) -> crate::screen::Screen {
    match app.autocomplete.pending {
        Some(p) => crate::screen::Screen {
            scroll_top: p.source_scroll_top,
            scroll_left: p.source_scroll_left,
            wrap_col: p.source_wrap_col,
            ..app.screen
        },
        None => app.screen,
    }
}

/// The confirmation page's view becomes the buffer's view again.
fn close_confirmation(app: &mut App)
    ensures
        *final(app) == (App {
            autocomplete: AutocompleteState { pending: None, ..old(app).autocomplete },
            screen: screen_after_confirmation(old(app)),
            ..*old(app)
        }),
{
    match app.autocomplete.pending.take() {
        Some(p) => {
            app.screen.scroll_top = p.source_scroll_top;
            app.screen.scroll_left = p.source_scroll_left;
            app.screen.wrap_col = p.source_wrap_col;
        },
        None => {},
    }
}

/// Enter on the confirmation page: the shown policy becomes the confirmed one.
pub fn confirm(app: &mut App)
    ensures
        old(app).autocomplete.pending is None ==> *final(app) == *old(app),
        old(app).autocomplete.pending matches Some(p) ==> {
            &&& final(app).autocomplete.confirmed == Some(p.policy)
            &&& final(app).autocomplete.enabled
            &&& final(app).autocomplete.pending is None
            &&& final(app).autocomplete.failures == 0
            &&& final(app).autocomplete.backoff_until is None
            &&& final(app).autocomplete.error is None
            &&& final(app).screen == screen_after_confirmation(old(app))
            &&& final(app).buffer == old(app).buffer
            &&& final(app).inactive_buffers == old(app).inactive_buffers
        },
{
    let confirmation = match app.autocomplete.pending.take() {
        Some(c) => c,
        None => return,
    };
    app.screen.scroll_top = confirmation.source_scroll_top;
    app.screen.scroll_left = confirmation.source_scroll_left;
    app.screen.wrap_col = confirmation.source_wrap_col;
    app.autocomplete.confirmed = Some(confirmation.policy);
    app.autocomplete.enabled = true;
    app.autocomplete.failures = 0;
    app.autocomplete.backoff_until = None;
    app.autocomplete.error = None;
    app.message = Some(String::from_str("Autocomplete enabled. Type normally; Tab accepts ghost text and Esc dismisses it."));
}

/// Esc on the confirmation page: nothing was enabled or started.
pub fn cancel_confirmation(app: &mut App)
    ensures
        final(app).autocomplete.pending is None,
        !final(app).autocomplete.enabled,
        final(app).autocomplete.confirmed == old(app).autocomplete.confirmed,
        final(app).autocomplete.running == old(app).autocomplete.running,
        final(app).buffer == old(app).buffer,
        final(app).inactive_buffers == old(app).inactive_buffers,
{
    close_confirmation(app);
    app.autocomplete.enabled = false;
    app.message = Some(String::from_str("Autocomplete confirmation cancelled; no model request or command was started."));
}

/// Turns autocomplete off and forgets failures; the confirmation stays valid.
pub fn disable(app: &mut App)
    ensures
        final(app).inactive_buffers == old(app).inactive_buffers,
        !final(app).autocomplete.enabled,
        final(app).autocomplete.pending is None,
        final(app).autocomplete.running is None,
        final(app).autocomplete.suggestion is None,
        final(app).autocomplete.failures == 0,
        final(app).autocomplete.backoff_until is None,
        final(app).autocomplete.error is None,
        final(app).autocomplete.confirmed == old(app).autocomplete.confirmed,
        final(app).buffer == old(app).buffer,
{
    invalidate(app);
    close_confirmation(app);
    app.autocomplete.enabled = false;
    app.autocomplete.failures = 0;
    app.autocomplete.backoff_until = None;
    app.autocomplete.error = None;
    app.message = Some(String::from_str("Autocomplete disabled; no automatic model requests will run."));
}

/// Another model was selected: the earlier confirmation no longer applies.
pub fn model_selection_changed(app: &mut App)
    ensures
        !final(app).autocomplete.enabled,
        final(app).autocomplete.confirmed is None,
        final(app).autocomplete.pending is None,
        final(app).autocomplete.running is None,
        final(app).autocomplete.suggestion is None,
        final(app).autocomplete.failures == 0,
        final(app).autocomplete.backoff_until is None,
        final(app).autocomplete.error is None,
        final(app).buffer == old(app).buffer,
{
    invalidate(app);
    close_confirmation(app);
    app.autocomplete.confirmed = None;
    app.autocomplete.enabled = false;
    app.autocomplete.failures = 0;
    app.autocomplete.backoff_until = None;
    app.autocomplete.error = None;
}

/// The identity a request made now is pinned to.
pub open spec fn identity_now(app: &App, p: &ConfirmedPolicy) -> RequestIdentity {
    RequestIdentity {
        revision: app.buffer.history_position(),
        cursor: app.buffer.view_cursor(),
        mode: app.mode,
        generation: app.autocomplete.generation,
        preset: p.preset.name,
        destination: p.destination,
        model: p.preset.model,
    }
}

pub fn current_identity(app: &App, p: &ConfirmedPolicy) -> (res: RequestIdentity)
    ensures
        res.revision == app.buffer.history_position(),
        res.cursor == app.buffer.view_cursor(),
        res.mode == app.mode,
        res.generation == app.autocomplete.generation,
        res.preset@ == p.preset.name@,
        res.destination@ == p.destination@,
        res.model@ == p.preset.model@,
{
    RequestIdentity {
        revision: app.buffer.edit_history_position(),
        cursor: app.buffer.cursor(),
        mode: app.mode,
        generation: app.autocomplete.generation,
        preset: p.preset.name.clone(),
        destination: p.destination.clone(),
        model: p.preset.model.clone(),
    }
}

/// A result still describes the current state: enabled, and the same revision,
/// cursor, mode, generation, preset, destination and model.
pub open spec fn identity_current(app: &App, id: &RequestIdentity) -> bool {
    match app.autocomplete.confirmed {
        Some(p) => {
            &&& app.autocomplete.enabled
            &&& id.revision == app.buffer.history_position()
            &&& id.cursor == app.buffer.view_cursor()
            &&& id.mode == app.mode
            &&& id.generation == app.autocomplete.generation
            &&& id.preset@ == p.preset.name@
            &&& id.destination@ == p.destination@
            &&& id.model@ == p.preset.model@
        },
        None => false,
    }
}

pub fn identity_is_current(app: &App, id: &RequestIdentity) -> (res: bool)
    ensures
        res == identity_current(app, id),
{
    let p = match &app.autocomplete.confirmed {
        Some(p) => p,
        None => return false,
    };
    app.autocomplete.enabled && id.revision == app.buffer.edit_history_position() && id.cursor == app.buffer.cursor()
        && id.mode == app.mode && id.generation == app.autocomplete.generation && id.preset == p.preset.name
        && id.destination == p.destination && id.model == p.preset.model
}

/// The ghost text to show, if it still matches the current state.
pub fn visible_text(app: &App) -> (res: Option<&String>)
    ensures
        res is Some <==> (app.autocomplete.suggestion matches Some(s) && identity_current(app, &s.identity)),
        res matches Some(t) ==> app.autocomplete.suggestion matches Some(s) && *t == s.text,
{
    match &app.autocomplete.suggestion {
        Some(s) => {
            if identity_is_current(app, &s.identity) {
                Some(&s.text)
            } else {
                None
            }
        },
        None => None,
    }
}

/// The status-line label for autocomplete.
pub open spec fn label_spec(app: &App) -> Seq<char> {
    if app.autocomplete.pending is Some || !app.autocomplete.enabled {
        "autocomplete disabled"@
    } else if app.autocomplete.running is Some {
        "ac request"@
    } else if app.autocomplete.suggestion matches Some(s) && identity_current(app, &s.identity) {
        "ac ready"@
    } else if app.autocomplete.backoff_until is Some || app.autocomplete.error is Some {
        "ac error"@
    } else {
        "ac on"@
    }
}

pub fn status_label(app: &App) -> (res: &'static str)
    ensures
        res@ == label_spec(app),
{
    if app.autocomplete.pending.is_some() || !app.autocomplete.enabled {
        "autocomplete disabled"
    } else if app.autocomplete.running.is_some() {
        "ac request"
    } else if visible_text(app).is_some() {
        "ac ready"
    } else if app.autocomplete.backoff_until.is_some() || app.autocomplete.error.is_some() {
        "ac error"
    } else {
        "ac on"
    }
}

/// A request starts only when enabled, idle, outside backoff, and the
/// debounce since the last edit has passed.
pub open spec fn should_start_spec(app: &App, now: u64) -> bool {
    &&& app.autocomplete.enabled
    &&& app.autocomplete.running is None
    &&& app.autocomplete.suggestion is None
    &&& app.autocomplete.pending is None
    &&& !(app.autocomplete.backoff_until matches Some(d) && now < d)
    &&& app.autocomplete.last_edit matches Some(e)
    &&& app.autocomplete.confirmed matches Some(p)
    &&& now >= e && now - e >= p.autocomplete.idle_debounce_ms
}

pub fn should_start(app: &App, now: u64) -> (res: bool)
    ensures
        res == should_start_spec(app, now),
{
    if !app.autocomplete.enabled || app.autocomplete.running.is_some() || app.autocomplete.suggestion.is_some()
        || app.autocomplete.pending.is_some() {
        return false;
    }
    match app.autocomplete.backoff_until {
        Some(d) => {
            if now < d {
                return false;
            }
        },
        None => {},
    }
    let last = match app.autocomplete.last_edit {
        Some(e) => e,
        None => return false,
    };
    let policy = match &app.autocomplete.confirmed {
        Some(p) => p,
        None => return false,
    };
    now >= last && now - last >= policy.autocomplete.idle_debounce_ms
}

/// Seconds to wait after the `failures`-th consecutive failure: 1, 2, 4, ... at most 30.
pub open spec fn backoff_seconds(failures: u8) -> u64 {
    if failures <= 1 {
        1
    } else if failures == 2 {
        2
    } else if failures == 3 {
        4
    } else if failures == 4 {
        8
    } else if failures == 5 {
        16
    } else {
        30
    }
}

fn backoff_secs(failures: u8) -> (res: u64)
    ensures
        res == backoff_seconds(failures),
{
    if failures <= 1 {
        1
    } else if failures == 2 {
        2
    } else if failures == 3 {
        4
    } else if failures == 4 {
        8
    } else if failures == 5 {
        16
    } else {
        30
    }
}

/// A failed request: retry only after a growing, bounded pause.
pub fn backoff(app: &mut App, now: u64, error: &Vec<char>)
    ensures
        final(app).autocomplete.failures == (if old(app).autocomplete.failures == u8::MAX { u8::MAX } else { (old(app).autocomplete.failures + 1) as u8 }),
        final(app).autocomplete.backoff_until == Some(
            (if now as int + backoff_seconds(final(app).autocomplete.failures) * 1000 > u64::MAX { u64::MAX as int } else { now
                + backoff_seconds(final(app).autocomplete.failures) * 1000 }) as u64,
        ),
        final(app).autocomplete.error matches Some(e) && e@ == error@,
        final(app).message_role == StatusRole::Error,
        final(app).message matches Some(m) && m@ == "Autocomplete error; retrying after "@ + decimal(
            backoff_seconds(final(app).autocomplete.failures) as nat,
        ) + "s backoff: "@ + error@,
        final(app).autocomplete.suggestion == old(app).autocomplete.suggestion,
        final(app).autocomplete.enabled == old(app).autocomplete.enabled,
        final(app).buffer == old(app).buffer,
{
    app.autocomplete.failures = app.autocomplete.failures.saturating_add(1);
    let seconds = backoff_secs(app.autocomplete.failures);
    app.autocomplete.backoff_until = Some(now.saturating_add(seconds * 1000));
    let text = crate::text::string_of(error);
    app.autocomplete.error = Some(text);
    let mut m: Vec<char> = Vec::new();
    push_str(&mut m, "Autocomplete error; retrying after ");
    push_decimal(&mut m, seconds as u128);
    push_str(&mut m, "s backoff: ");
    push_chars(&mut m, error);
    app.message_error(crate::text::string_of(&m));
}

/// Unicode control scalars (general category Cc).
pub open spec fn control(c: char) -> bool {
    (c as u32) < 0x20 || (0x7f <= (c as u32) && (c as u32) <= 0x9f)
}

pub fn is_control(c: char) -> (res: bool)
    ensures
        res == control(c),
{
    (c as u32) < 0x20 || (0x7f <= (c as u32) && (c as u32) <= 0x9f)
}

/// Model output that may be shown as ghost text: non-empty, at most four
/// scalars per requested token, and no control scalars but newline and tab.
pub open spec fn output_ok(out: Seq<char>, max_tokens: usize) -> bool {
    &&& out.len() > 0
    &&& out.len() <= max_tokens * 4
    &&& forall|i: int| 0 <= i < out.len() ==> (#[trigger] out[i] == '\n' || out[i] == '\t' || !control(out[i]))
}

pub fn sanitize_output(out: &String, max_tokens: usize) -> (res: Result<Vec<char>, Vec<char>>)
    ensures
        res matches Ok(t) ==> output_ok(out@, max_tokens) && t@ == out@,
        res is Err ==> !output_ok(out@, max_tokens),
{
    let chars = crate::text::chars_of(out.as_str());
    if chars.len() == 0 {
        let mut e: Vec<char> = Vec::new();
        push_str(&mut e, "the model returned no text");
        return Err(e);
    }
    if chars.len() as u128 > max_tokens as u128 * 4 {
        let mut e: Vec<char> = Vec::new();
        push_str(&mut e, "the model output exceeds the requested bound");
        return Err(e);
    }
    let mut i: usize = 0;
    while i < chars.len()
        invariant
            chars@ == out@,
            0 <= i <= chars@.len(),
            forall|j: int| 0 <= j < i ==> (#[trigger] chars@[j] == '\n' || chars@[j] == '\t' || !control(chars@[j])),
        decreases chars@.len() - i,
    {
        let c = chars[i];
        if c != '\n' && c != '\t' && is_control(c) {
            let mut e: Vec<char> = Vec::new();
            push_str(&mut e, "the model output contains terminal control characters");
            return Err(e);
        }
        i += 1;
    }
    Ok(chars)
}

/// A request ended: a result for a stale identity is dropped; output that
/// passes the checks becomes the suggestion; anything else enters backoff.
pub fn finish_result(app: &mut App, now: u64, identity: RequestIdentity, result: TaskResult)
    ensures
        final(app).buffer == old(app).buffer,
        !identity_current(old(app), &identity) ==> *final(app) == *old(app),
        identity_current(old(app), &identity) && (result matches TaskResult::Finished(o) && output_ok(
            o@,
            old(app).autocomplete.confirmed->0.autocomplete.max_generated_tokens,
        )) ==> {
            &&& final(app).autocomplete.suggestion matches Some(s) && s.text@ == result->Finished_0@
            &&& final(app).autocomplete.failures == 0
            &&& final(app).autocomplete.backoff_until is None
            &&& final(app).autocomplete.error is None
        },
        identity_current(old(app), &identity) && (result matches TaskResult::Finished(o) && !output_ok(
            o@,
            old(app).autocomplete.confirmed->0.autocomplete.max_generated_tokens,
        )) ==> {
            &&& final(app).autocomplete.suggestion == old(app).autocomplete.suggestion
            &&& final(app).autocomplete.backoff_until is Some
            &&& final(app).autocomplete.error is Some
        },
        identity_current(old(app), &identity) && result is Error ==> final(app).autocomplete.backoff_until is Some,
{
    if !identity_is_current(app, &identity) {
        return;
    }
    let max_tokens = match &app.autocomplete.confirmed {
        Some(p) => p.autocomplete.max_generated_tokens,
        None => 0,
    };
    match result {
        TaskResult::Finished(output) => {
            match sanitize_output(&output, max_tokens) {
                Ok(_) => {
                    app.autocomplete.suggestion = Some(Suggestion { text: output, identity });
                    app.autocomplete.last_edit = None;
                    app.autocomplete.backoff_until = None;
                    app.autocomplete.failures = 0;
                    app.autocomplete.error = None;
                },
                Err(e) => backoff(app, now, &e),
            }
        },
        TaskResult::Cancelled => {
            app.autocomplete.last_edit = None;
        },
        TaskResult::Error(message) => {
            let e = crate::text::chars_of(message.as_str());
            backoff(app, now, &e);
        },
    }
}

/// Records a started request, pinned to the current state.
pub fn start_request(app: &mut App)
    requires
        old(app).autocomplete.confirmed is Some,
    ensures
        final(app).autocomplete.running matches Some(r) && r.identity.revision == old(app).buffer.history_position()
            && r.identity.cursor == old(app).buffer.view_cursor() && r.identity.generation == old(app).autocomplete.generation,
        final(app).autocomplete.backoff_until is None,
        final(app).autocomplete.error is None,
        final(app).buffer == old(app).buffer,
{
    let identity = match &app.autocomplete.confirmed {
        Some(p) => current_identity(app, p),
        None => return,
    };
    app.autocomplete.backoff_until = None;
    app.autocomplete.error = None;
    app.message = None;
    app.autocomplete.running = Some(RunningRequest { identity });
}

/// Tab on visible ghost text: it is inserted at the cursor as one undoable edit.
pub fn accept(app: &mut App) -> (accepted: bool)
    requires
        old(app).buffer.wf(),
    ensures
        final(app).buffer.wf(),
        final(app).autocomplete.suggestion is None,
        final(app).inactive_buffers == old(app).inactive_buffers,
        accepted <==> (old(app).autocomplete.suggestion matches Some(s) && identity_current(old(app), &s.identity)),
        !accepted ==> final(app).buffer == old(app).buffer,
        accepted ==> {
            let c = old(app).buffer.view_cursor();
            let t = replaced_text(old(app).buffer.lines(), c, c, old(app).autocomplete.suggestion->0.text@);
            &&& final(app).buffer.text() == t
            &&& t != old(app).buffer.text() ==> {
                &&& final(app).buffer.undo_states() == old(app).buffer.undo_states().push(old(app).buffer.state())
                &&& final(app).buffer.redo_states().len() == 0
                &&& final(app).buffer.history_position() == old(app).buffer.fresh_position()
                &&& cursor_at(
                    t,
                    cursor_offset(old(app).buffer.lines(), c) + old(app).autocomplete.suggestion->0.text@.len(),
                    final(app).buffer.view_cursor(),
                )
            }
            &&& crate::input::content_finished(old(app), final(app))
        },
        !accepted && old(app).autocomplete.suggestion is Some ==> final(app).buffer == old(app).buffer
            && (final(app).message matches Some(m) && m@ == "Autocomplete suggestion became stale and was discarded."@),
{
    let current = visible_text(app).is_some();
    let suggestion = match app.autocomplete.suggestion.take() {
        Some(s) => s,
        None => return false,
    };
    if !current {
        invalidate(app);
        app.message = Some(String::from_str("Autocomplete suggestion became stale and was discarded."));
        return false;
    }
    let cursor = app.buffer.cursor();
    let text = crate::text::chars_of(suggestion.text.as_str());
    let _ = app.buffer.replace_range(cursor, cursor, text.as_slice());
    crate::input::finish_content_edit(app);
    true
}

/// A key for autocomplete: on the confirmation page Enter enables, Esc
/// cancels, arrows and pages scroll and other keys only remind; with ghost
/// text shown, Tab accepts and Esc dismisses it. Ctrl+Q is not taken.
pub fn handle_key(app: &mut App, key: KeyEvent) -> (handled: bool)
    requires
        old(app).buffer.wf(),
    ensures
        final(app).buffer.wf(),
        final(app).inactive_buffers == old(app).inactive_buffers,
        old(app).autocomplete.pending is Some ==> {
            &&& handled == !is_quit_key(key)
            &&& final(app).buffer == old(app).buffer
            &&& !handled ==> *final(app) == *old(app)
            &&& handled && key.code == KeyCode::Enter ==> final(app).autocomplete.enabled
                && final(app).autocomplete.confirmed == Some(old(app).autocomplete.pending->0.policy)
            &&& handled && key.code == KeyCode::Esc ==> !final(app).autocomplete.enabled && final(app).autocomplete.pending is None
            &&& handled && key.code != KeyCode::Enter && key.code != KeyCode::Esc ==> final(app).autocomplete.pending
                == old(app).autocomplete.pending
        },
        old(app).autocomplete.pending is None ==> {
            let visible = old(app).autocomplete.suggestion matches Some(s) && identity_current(old(app), &s.identity);
            &&& handled == (visible && ((key.code == KeyCode::Tab && !key.ctrl && !key.alt && !key.shift)
                || key.code == KeyCode::Esc))
            &&& !handled ==> *final(app) == (App { autocomplete: final(app).autocomplete, ..*old(app) })
            &&& !handled && old(app).autocomplete.suggestion is None ==> *final(app) == *old(app)
            &&& handled && key.code == KeyCode::Esc ==> final(app).buffer == old(app).buffer
                && final(app).autocomplete.suggestion is None && final(app).message is None
            &&& handled && key.code == KeyCode::Tab ==> {
                let c = old(app).buffer.view_cursor();
                let ins = old(app).autocomplete.suggestion->0.text@;
                let t = replaced_text(old(app).buffer.lines(), c, c, ins);
                &&& final(app).buffer.text() == t
                &&& final(app).autocomplete.suggestion is None
                &&& crate::input::content_finished(old(app), final(app))
                &&& t != old(app).buffer.text() ==> {
                    &&& final(app).buffer.undo_states() == old(app).buffer.undo_states().push(old(app).buffer.state())
                    &&& final(app).buffer.redo_states().len() == 0
                    &&& final(app).buffer.history_position() == old(app).buffer.fresh_position()
                    &&& cursor_at(t, cursor_offset(old(app).buffer.lines(), c) + ins.len(), final(app).buffer.view_cursor())
                }
            }
            &&& old(app).autocomplete.suggestion is Some && !visible ==> final(app).autocomplete.suggestion is None
                && final(app).buffer == old(app).buffer
        },
{
    if app.autocomplete.pending.is_some() {
        if quit_key(key) {
            return false;
        }
        let lines = match &app.autocomplete.pending {
            Some(p) => crate::buffer::split_text(&p.document, 0).0.len(),
            None => 0,
        };
        match key.code {
            KeyCode::Enter => confirm(app),
            KeyCode::Esc => cancel_confirmation(app),
            KeyCode::Up | KeyCode::Down | KeyCode::PageUp | KeyCode::PageDown | KeyCode::Home | KeyCode::End => {
                app.screen.scroll_view(lines, key.code);
            },
            _ => {
                app.message = Some(
                    String::from_str("Autocomplete not confirmed. Enter enables automatic sending; Esc cancels."),
                );
            },
        }
        return true;
    }
    let visible = visible_text(app).is_some();
    if app.autocomplete.suggestion.is_some() && !visible {
        invalidate(app);
    }
    if !visible {
        return false;
    }
    if key.code == KeyCode::Tab && !key.ctrl && !key.alt && !key.shift {
        accept(app);
        true
    } else if key.code == KeyCode::Esc {
        invalidate(app);
        app.message = None;
        true
    } else {
        false
    }
}

/// The retry pause never shrinks as failures accumulate and never exceeds
/// thirty seconds.
pub proof fn backoff_grows_and_is_bounded(a: u8, b: u8)
    requires
        a <= b,
    ensures
        1 <= backoff_seconds(a) <= backoff_seconds(b) <= 30,
{
}

} // verus!
