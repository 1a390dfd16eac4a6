//! Watching the configuration file: what a batch of file events asks for.

use vstd::prelude::*;

verus! {

/// The kind of a file event, as far as the watcher cares.
#[derive(Debug, Clone, Copy, PartialEq, Eq, Structural)]
pub enum WatchEventKind {
    Create,
    Modify,
    Remove,
    Other,
}

/// What a batch of events asks for: reloading the configuration (the file
/// was created or modified) and warning that it was removed.
#[derive(Debug, Clone, Copy, PartialEq, Eq, Structural)]
pub struct WatchOutcome {
    pub reload: bool,
    pub removed: bool,
}

/// Whether an event asks for a reload.
pub open spec fn asks_reload(k: WatchEventKind) -> bool {
    k == WatchEventKind::Create || k == WatchEventKind::Modify
}

/// What a batch of events asks for.
pub fn classify_events(kinds: &Vec<WatchEventKind>) -> (r: WatchOutcome)
    ensures
        r.reload == exists|i: int| 0 <= i < kinds@.len() && asks_reload(#[trigger] kinds@[i]),
        r.removed == exists|i: int|
            0 <= i < kinds@.len() && #[trigger] kinds@[i] == WatchEventKind::Remove,
{
    let mut reload = false;
    let mut removed = false;
    let mut i: usize = 0;
    while i < kinds.len()
        invariant
            i <= kinds@.len(),
            reload == exists|j: int| 0 <= j < i && asks_reload(#[trigger] kinds@[j]),
            removed == exists|j: int| 0 <= j < i && #[trigger] kinds@[j] == WatchEventKind::Remove,
        decreases kinds.len() - i,
    {
        let k = kinds[i];
        match k {
            WatchEventKind::Modify | WatchEventKind::Create => {
                reload = true;
            },
            WatchEventKind::Remove => {
                removed = true;
            },
            WatchEventKind::Other => {},
        }
        assert(asks_reload(kinds@[i as int]) ==> exists|j: int|
            0 <= j < i + 1 && asks_reload(#[trigger] kinds@[j]));
        i = i + 1;
    }
    WatchOutcome { reload, removed }
}

} // verus!
