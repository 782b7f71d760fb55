//! File system events, as the watcher reports them.

use vstd::prelude::*;

verus! {

/// File system event types, with the path they concern.
#[derive(Clone, Debug)]
pub enum FileEvent {
    Created(String),
    Modified(String),
    Removed(String),
}

/// The kind of change a watcher observed.
#[derive(Clone, Copy, Debug, PartialEq, Eq, Structural)]
pub enum ChangeKind {
    Create,
    Modify,
    Remove,
    Other,
}

/// The event reported for a change of `kind` at `path`; other kinds of
/// change (access, metadata, ...) are not reported.
pub fn file_event(kind: ChangeKind, path: String) -> (r: Option<FileEvent>)
    ensures
        match kind {
            ChangeKind::Create => r == Some(FileEvent::Created(path)),
            ChangeKind::Modify => r == Some(FileEvent::Modified(path)),
            ChangeKind::Remove => r == Some(FileEvent::Removed(path)),
            ChangeKind::Other => r is None,
        },
{
    match kind {
        ChangeKind::Create => Some(FileEvent::Created(path)),
        ChangeKind::Modify => Some(FileEvent::Modified(path)),
        ChangeKind::Remove => Some(FileEvent::Removed(path)),
        ChangeKind::Other => None,
    }
}

} // verus!
