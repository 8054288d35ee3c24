//! The event router: one dispatch function from an inbound event to a
//! registry mutation, and the follow-up work the caller owes afterwards.

use vstd::prelude::*;
use crate::paths::is_bundle_path;
use crate::registry::{admit_transition, release_transition, AdmitOutcome, Registry,
    ReleaseOutcome};
use crate::strings::str_eq;

verus! {

/// One inbound event, from whichever source delivered it.
#[derive(Debug)]
pub enum UiEvent {
    /// A file was dropped onto the window or the rendered surface.
    FileOffered(String),
    /// The rendered list asked to restore one path.
    RestoreRequested(String),
    /// The window is closing; suppression outlives the process by design.
    WindowClosed,
}

/// What the rendered list must do after an event.
#[derive(Debug)]
pub enum RenderDirective {
    /// Append one row for this path.
    AppendRow(String),
    /// Redraw every row from the new snapshot.
    RebuildAll,
    /// Leave the list as it is.
    Unchanged,
}

/// The follow-up work one routed event leaves to the caller.
#[derive(Debug)]
pub struct RouterOutput {
    /// How to refresh the rendered list.
    pub render: RenderDirective,
    /// Whether the registry changed, so the snapshot must be saved again.
    pub save: bool,
    /// Whether the event loop must end.
    pub exit: bool,
}

/// What routing one event guarantees: an offered file is appended exactly
/// when its admission went through, a restore request redraws the list
/// exactly when the release went through, the snapshot is saved exactly when
/// the registry changed, and only the closing window ends the loop.
pub open spec fn routed(
    pre: Seq<Seq<char>>,
    event: UiEvent,
    out: RouterOutput,
    post: Seq<Seq<char>>,
) -> bool {
    match event {
        UiEvent::FileOffered(p) => {
            &&& !out.exit
            &&& !(out.render is RebuildAll)
            &&& (out.render matches RenderDirective::AppendRow(q) ==> q@ == p@ && out.save
                && admit_transition(pre, p@, AdmitOutcome::Added, post))
            &&& (out.render is Unchanged ==> post == pre && !out.save)
            &&& (!is_bundle_path(p@) || pre.contains(p@)) ==> out.render is Unchanged
        },
        UiEvent::RestoreRequested(p) => {
            &&& !out.exit
            &&& !(out.render is AppendRow)
            &&& (out.render is RebuildAll ==> out.save && release_transition(
                pre,
                p@,
                ReleaseOutcome::Removed,
                post,
            ))
            &&& (out.render is Unchanged ==> post == pre && !out.save)
            &&& !pre.contains(p@) ==> out.render is Unchanged
        },
        UiEvent::WindowClosed => {
            &&& out.exit
            &&& post == pre
            &&& !out.save
            &&& out.render is Unchanged
        },
    }
}

/// Routes one event to the registry and says what the caller must do next.
pub fn route(registry: &mut Registry, event: UiEvent) -> (out: RouterOutput)
    requires
        old(registry).wf(),
    ensures
        final(registry).wf(),
        routed(old(registry)@, event, out, final(registry)@),
{
    match event {
        UiEvent::FileOffered(path) => {
            let outcome = registry.admit_path(path.as_str());
            match outcome {
                AdmitOutcome::Added => RouterOutput {
                    render: RenderDirective::AppendRow(path),
                    save: true,
                    exit: false,
                },
                _ => RouterOutput { render: RenderDirective::Unchanged, save: false, exit: false },
            }
        },
        UiEvent::RestoreRequested(path) => {
            let outcome = registry.release(path.as_str());
            match outcome {
                ReleaseOutcome::Removed => RouterOutput {
                    render: RenderDirective::RebuildAll,
                    save: true,
                    exit: false,
                },
                _ => RouterOutput { render: RenderDirective::Unchanged, save: false, exit: false },
            }
        },
        UiEvent::WindowClosed => RouterOutput {
            render: RenderDirective::Unchanged,
            save: false,
            exit: true,
        },
    }
}

/// Turns one inbound structured message into an event: only the restore
/// command is recognized, and any other command is ignored.
pub fn event_for_message(cmd: &str, path: String) -> (r: Option<UiEvent>)
    ensures
        cmd@ == "restore"@ ==> (r matches Some(UiEvent::RestoreRequested(q)) && q@ == path@),
        cmd@ != "restore"@ ==> r is None,
{
    if str_eq(cmd, "restore") {
        Some(UiEvent::RestoreRequested(path))
    } else {
        None
    }
}

} // verus!
