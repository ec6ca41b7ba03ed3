//! Touch controls: which kind of surface the contextual action bar serves.

use vstd::prelude::*;

use crate::app::App;

verus! {

/// The kind of surface in front, which decides the touch actions offered.
#[derive(Clone, Copy, Debug, PartialEq, Eq, Structural)]
pub enum Surface {
    /// A confirmation or read-only preview that Enter or Esc answers.
    Confirmation,
    /// A prompt being typed into.
    Prompt,
    /// A read-only page that Esc closes.
    ReadOnly,
    /// Work runs in the background and can be cancelled.
    Running,
    /// A message or a pending confirmation of the editor.
    Message,
    /// Text is selected.
    Selection,
    /// Plain editing.
    Normal,
}

/// The foremost surface: confirmations first, then prompts, read-only
/// pages, running work, pending confirmations and messages, a selection,
/// and plain editing last.
pub open spec fn surface_of(app: &App) -> Surface {
    if app.pending_llm_request is Some || app.autocomplete.pending is Some || app.llm_preview is Some
        || app.external_command.preview is Some {
        Surface::Confirmation
    } else if app.command_prompt.active is Some {
        Surface::Prompt
    } else if app.surfaces.help is Some || app.surfaces.llm_answer is Some {
        Surface::ReadOnly
    } else if app.llm_task is Some || app.external_command.running is Some {
        Surface::Running
    } else if app.pending_save_conflict is Some || app.pending_reload is Some {
        Surface::Message
    } else if app.selection.anchor is Some {
        Surface::Selection
    } else if app.message is Some {
        Surface::Message
    } else {
        Surface::Normal
    }
}

pub fn active_surface(app: &App) -> (res: Surface)
    ensures
        res == surface_of(app),
{
    if app.pending_llm_request.is_some() || app.autocomplete.pending.is_some() || app.llm_preview.is_some()
        || app.external_command.preview.is_some() {
        return Surface::Confirmation;
    }
    if app.command_prompt.active.is_some() {
        return Surface::Prompt;
    }
    if app.surfaces.help.is_some() || app.surfaces.llm_answer.is_some() {
        return Surface::ReadOnly;
    }
    if app.llm_task.is_some() || app.external_command.running.is_some() {
        return Surface::Running;
    }
    if app.pending_save_conflict.is_some() || app.pending_reload.is_some() {
        return Surface::Message;
    }
    if app.selection.anchor.is_some() {
        Surface::Selection
    } else if app.message.is_some() {
        Surface::Message
    } else {
        Surface::Normal
    }
}

} // verus!
