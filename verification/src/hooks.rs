//! Lifecycle hooks: configured commands queued on open, save and before a
//! model request, run one at a time; a failure stops the rest of the chain.

use vstd::prelude::*;

use crate::app::App;
use crate::config::{hook_names, HookEvent};
use crate::external_command::busy_spec;
use crate::llm::CurrentLlmCommand;
use crate::status::{push_str, StatusRole};

verus! {

/// A current-buffer request waiting for its before-request hooks.
pub struct DeferredLlm {
    pub command: CurrentLlmCommand,
    pub instruction: String,
}

/// Names waiting to run, the one running now, and a request waiting for them.
pub struct HookState {
    pub queue: Vec<String>,
    pub active: Option<String>,
    pub deferred: Option<DeferredLlm>,
}

impl HookState {
    pub fn new() -> (res: HookState)
        ensures
            res.queue@.len() == 0,
            res.active is None,
            res.deferred is None,
    {
        HookState { queue: Vec::new(), active: None, deferred: None }
    }
}

/// A hook runs or waits.
pub open spec fn pending_spec(app: &App) -> bool {
    app.hooks.active is Some || app.hooks.queue@.len() > 0
}

pub fn is_pending(app: &App) -> (res: bool)
    ensures
        res == pending_spec(app),
{
    app.hooks.active.is_some() || app.hooks.queue.len() > 0
}

/// Appends the hooks configured for `event` to the queue.
pub fn enqueue(app: &mut App, event: HookEvent)
    ensures
        *final(app) == (App { hooks: HookState { queue: final(app).hooks.queue, ..old(app).hooks }, ..*old(app) }),
        final(app).hooks.queue@ == old(app).hooks.queue@ + hook_names(&old(app).command_config, event),
{
    let ghost a0 = *app;
    let names = app.command_config.hooks_for(event);
    let ghost start = app.hooks.queue@;
    let mut i: usize = 0;
    while i < names.len()
        invariant
            *app == (App { hooks: HookState { queue: app.hooks.queue, ..a0.hooks }, ..a0 }),
            0 <= i <= names@.len(),
            names@ == hook_names(&app.command_config, event),
            app.hooks.queue@ == start + names@.take(i as int),
        decreases names@.len() - i,
    {
        app.hooks.queue.push(names[i].clone());
        i += 1;
        proof {
            assert(names@.take(i as int) =~= names@.take(i - 1).push(names@[i - 1]));
        }
    }
    proof {
        assert(names@.take(names@.len() as int) =~= names@);
    }
}


/// Opening a file with a path queues the open hooks.
pub fn trigger_open(app: &mut App)
    ensures
        old(app).file.path is Some ==> final(app).hooks.queue@ == old(app).hooks.queue@ + hook_names(
            &old(app).command_config,
            HookEvent::Open,
        ),
        *final(app) == (App { hooks: HookState { queue: final(app).hooks.queue, ..old(app).hooks }, ..*old(app) }),
        old(app).file.path is None ==> final(app).hooks.queue == old(app).hooks.queue,
{
    if app.file.path.is_some() {
        enqueue(app, HookEvent::Open);
    }
}

/// A successful save queues the save hooks.
pub fn trigger_save(app: &mut App)
    ensures
        final(app).hooks.queue@ == old(app).hooks.queue@ + hook_names(&old(app).command_config, HookEvent::Save),
        *final(app) == (App { hooks: HookState { queue: final(app).hooks.queue, ..old(app).hooks }, ..*old(app) }),
{
    enqueue(app, HookEvent::Save);
}

/// The running hook ended; a failure drops the rest of the chain and any
/// request waiting for it. Says whether a hook was running.
pub fn finish_command(app: &mut App, succeeded: bool) -> (res: bool)
    ensures
        res == old(app).hooks.active is Some,
        !res ==> *final(app) == *old(app),
        final(app).inactive_buffers == old(app).inactive_buffers,
        res && succeeded ==> *final(app) == (App { hooks: HookState { active: None, ..old(app).hooks }, ..*old(app) }),
        res && !succeeded ==> {
            &&& final(app).hooks.active is None
            &&& final(app).hooks.queue@.len() == 0
            &&& final(app).hooks.deferred is None
            &&& final(app).message_role == StatusRole::Error
            &&& final(app).message matches Some(m) && m@ == "Hook command "@ + old(app).hooks.active->0@
                + " failed or was cancelled; chain stopped."@
            &&& final(app).buffer == old(app).buffer
            &&& final(app).file == old(app).file
            &&& final(app).external_command == old(app).external_command
            &&& final(app).pending_llm_request == old(app).pending_llm_request
            &&& final(app).llm_task == old(app).llm_task
        },
{
    let name = match app.hooks.active.take() {
        Some(n) => n,
        None => return false,
    };
    if !succeeded {
        app.hooks.queue = Vec::new();
        app.hooks.deferred = None;
        let mut m: Vec<char> = Vec::new();
        push_str(&mut m, "Hook command ");
        push_str(&mut m, name.as_str());
        push_str(&mut m, " failed or was cancelled; chain stopped.");
        app.message_error(crate::text::string_of(&m));
    }
    true
}

/// Drops the running hook, the queue, and any request waiting for them.
pub fn cancel_all(app: &mut App) -> (res: bool)
    ensures
        res == pending_spec(old(app)),
        *final(app) == (App {
            hooks: HookState { queue: final(app).hooks.queue, active: None, deferred: None },
            ..*old(app)
        }),
        final(app).hooks.queue@.len() == 0,
{
    let active = app.hooks.active.take().is_some();
    let queued = app.hooks.queue.len() > 0;
    app.hooks.queue = Vec::new();
    app.hooks.deferred = None;
    active || queued
}

/// Starts the next queued hook when nothing else runs; when the chain is
/// done, resumes a request that waited for it (up to its confirmation only).
pub fn pump(app: &mut App)
    requires
        old(app).buffer.wf(),
    ensures
        final(app).buffer == old(app).buffer,
        final(app).llm_task == old(app).llm_task,
        (old(app).hooks.active is Some || busy_spec(old(app))) ==> *final(app) == *old(app),
        old(app).hooks.active is None && !busy_spec(old(app)) && old(app).hooks.queue@.len() > 0 ==> {
            let name = old(app).hooks.queue@[0];
            &&& crate::external_command::start_possible(old(app), name@) ==> final(app).hooks.active == Some(name)
                && final(app).hooks.queue@ == old(app).hooks.queue@.drop_first()
                && final(app).external_command.running is Some
            &&& !crate::external_command::start_possible(old(app), name@) ==> final(app).hooks.active is None
                && final(app).hooks.queue@.len() == 0 && final(app).message_role == StatusRole::Error
                && final(app).external_command.running is None
        },
        old(app).hooks.active is None && !busy_spec(old(app)) && old(app).hooks.queue@.len() == 0
            && old(app).hooks.deferred is None ==> *final(app) == *old(app),
        old(app).hooks.active is None && !busy_spec(old(app)) && old(app).hooks.queue@.len() == 0
            && old(app).hooks.deferred is Some ==> final(app).hooks.deferred is None && final(app).hooks.active is None
            && (old(app).pending_llm_request is None && old(app).llm_task is None ==> final(app).pending_llm_request is Some
            || final(app).message_role == StatusRole::Warning),
{
    if app.hooks.active.is_some() || crate::external_command::is_busy(app) {
        return;
    }
    if app.hooks.queue.len() > 0 {
        let name = app.hooks.queue.remove(0);
        app.hooks.active = Some(name.clone());
        proof {
            crate::external_command::lemma_start_possible_frame(app, old(app), name@);
        }
        let started = crate::external_command::start(app, name.as_str());
        if !started {
            finish_command(app, false);
        }
        return;
    }
    let deferred = app.hooks.deferred.take();
    match deferred {
        Some(d) => crate::llm::begin_request(app, d.command, d.instruction.as_str()),
        None => {},
    }
}

/// What asking for a current-buffer request did: with before-request hooks
/// configured it waits for them; otherwise the request is prepared at once.
pub open spec fn current_llm_asked(before: &App, after: &App, command: CurrentLlmCommand, instruction: Seq<char>) -> bool {
    &&& after.inactive_buffers == before.inactive_buffers
    &&& after.buffer == before.buffer
    &&& after.llm_task == before.llm_task
    &&& hook_names(&before.command_config, HookEvent::BeforeLlm).len() > 0 ==> {
        &&& after.hooks.queue@ == before.hooks.queue@ + hook_names(&before.command_config, HookEvent::BeforeLlm)
        &&& after.hooks.deferred matches Some(d) && d.command == command && d.instruction@ == instruction
        &&& after.pending_llm_request == before.pending_llm_request
    }
    &&& hook_names(&before.command_config, HookEvent::BeforeLlm).len() == 0 ==> crate::llm::request_begun(
        before,
        after,
        command,
        instruction,
    )
}

/// A current-buffer request: it waits for the before-request hooks when any
/// are configured, and otherwise goes straight to its confirmation.
pub fn before_current_llm(app: &mut App, command: CurrentLlmCommand, instruction: &str)
    requires
        old(app).buffer.wf(),
    ensures
        current_llm_asked(old(app), final(app), command, instruction@),
{
    if app.command_config.hooks_for(HookEvent::BeforeLlm).len() == 0 {
        crate::llm::begin_request(app, command, instruction);
        return;
    }
    enqueue(app, HookEvent::BeforeLlm);
    app.hooks.deferred = Some(DeferredLlm { command, instruction: String::from_str(instruction) });
    app.message_info(String::from_str("Running the before-request hooks first."));
}

} // verus!
