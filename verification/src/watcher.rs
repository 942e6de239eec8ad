//! The decision of the development watcher that rebuilds and restarts the
//! program when its sources change.

use vstd::prelude::*;

verus! {

/// The kind of a file-system event, as a watcher reports it.
#[derive(PartialEq, Eq, Structural, Clone, Copy, Debug)]
pub enum WatchEventKind {
    Any,
    Access,
    Create,
    Modify,
    Remove,
    Other,
}

/// Whether an event changes the watched files: a creation, a modification
/// (of data or metadata) or a removal.
pub open spec fn relevant(kind: WatchEventKind) -> bool {
    kind == WatchEventKind::Create || kind == WatchEventKind::Modify || kind
        == WatchEventKind::Remove
}

/// Whether an event changes the watched files.
pub fn is_relevant_event(kind: WatchEventKind) -> (b: bool)
    ensures
        b == relevant(kind),
{
    match kind {
        WatchEventKind::Create | WatchEventKind::Modify | WatchEventKind::Remove => true,
        _ => false,
    }
}

/// How long, in nanoseconds, the watcher waits after a restart before it
/// restarts again.
pub const DEBOUNCE_NANOS: u128 = 500_000_000;

/// Whether an event restarts the program, `elapsed_nanos` after the last
/// restart: a relevant event, more than the debounce time later. After a
/// restart the caller counts the time anew.
pub fn should_restart(kind: WatchEventKind, elapsed_nanos: u128) -> (b: bool)
    ensures
        b == (relevant(kind) && elapsed_nanos > DEBOUNCE_NANOS),
{
    is_relevant_event(kind) && elapsed_nanos > DEBOUNCE_NANOS
}

} // verus!
