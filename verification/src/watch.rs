//! The file-watch event filter: decides which filesystem notifications from
//! the watched directory mean "the candidate was rebuilt, run the suite
//! again". The watch loop itself, and the channel that carries results to a
//! consumer, live with the caller.

use vstd::prelude::*;

verus! {

/// The shape of a filesystem notification, as the filter reads it: only a
/// finished write (close after write) can qualify; everything else is noise
/// from the surrounding directory.
#[derive(Debug, Clone, Copy, PartialEq, Eq, Structural)]
pub enum WatchEventKind {
    CloseWrite,
    Other,
}

/// One filesystem notification: the paths it names and its kind.
#[derive(Debug)]
pub struct WatchEvent {
    pub paths: Vec<String>,
    pub kind: WatchEventKind,
}

/// A qualifying event: it names the watched candidate path and reports a
/// finished write.
pub open spec fn event_selects_spec(e: WatchEvent, target: Seq<char>) -> bool {
    (exists|i: int| 0 <= i < e.paths@.len() && #[trigger] e.paths@[i]@ == target) && e.kind
        is CloseWrite
}

/// Decides whether an event triggers a re-run. Any other event is ignored
/// without side effects.
pub fn event_selects(e: &WatchEvent, target: &String) -> (r: bool)
    ensures
        r == event_selects_spec(*e, target@),
{
    let mut found = false;
    let mut i: usize = 0;
    while i < e.paths.len()
        invariant
            i <= e.paths@.len(),
            found == exists|j: int| 0 <= j < i && #[trigger] e.paths@[j]@ == target@,
        decreases e.paths@.len() - i,
    {
        if e.paths[i].eq(target) {
            found = true;
        }
        i = i + 1;
    }
    found && match e.kind {
        WatchEventKind::CloseWrite => true,
        WatchEventKind::Other => false,
    }
}

/// What the watch loop does after re-checking that the watched file still
/// exists (the guard against a mid-replace race).
#[derive(Debug, Clone, Copy, PartialEq, Eq, Structural)]
pub enum WatchStep {
    /// The file is there: run the suite.
    Run,
    /// The file is gone: the event was a transient of the rebuild; skip it.
    Ignore,
    /// The existence check itself failed: fatal for the watch loop.
    Abort,
}

/// Decides the step after the existence re-check; `None` means the check
/// itself failed.
pub fn existence_step(exists: Option<bool>) -> (s: WatchStep)
    ensures
        exists == Some(true) ==> s == WatchStep::Run,
        exists == Some(false) ==> s == WatchStep::Ignore,
        exists is None ==> s == WatchStep::Abort,
{
    match exists {
        Some(true) => WatchStep::Run,
        Some(false) => WatchStep::Ignore,
        None => WatchStep::Abort,
    }
}

} // verus!
