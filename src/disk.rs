use vstd::prelude::*;

use crate::errors::OrganizerError;

verus! {

/// The files on disk as the organizer sees them: each path that holds a
/// file, mapped to its contents.
pub type Disk = Map<Seq<char>, Seq<u8>>;

/// The disk after the file at `from` is renamed to `to`.
pub open spec fn after_move(d: Disk, from: Seq<char>, to: Seq<char>) -> Disk {
    d.remove(from).insert(to, d[from])
}

/// The disk after the file at `from` is copied to `to`.
pub open spec fn after_copy(d: Disk, from: Seq<char>, to: Seq<char>) -> Disk {
    d.insert(to, d[from])
}

/// The disk after the file at `p` is removed.
pub open spec fn after_remove(d: Disk, p: Seq<char>) -> Disk {
    d.remove(p)
}

/// How an attempt to rename a file ended.
#[derive(Debug, Clone, PartialEq, Eq)]
pub enum RenameOutcome {
    Renamed,
    /// The two paths lie on different file systems.
    CrossesDevices,
    Failed(OrganizerError),
}

/// What the move primitive does after its rename attempt.
#[derive(Debug, Clone, PartialEq, Eq)]
pub enum MoveFollowUp {
    /// The file is in place.
    Done,
    /// Copy the bytes to the destination, then remove the source.
    CopyThenRemove,
    /// Give up with this error.
    Fail(OrganizerError),
}

/// The move primitive's decision: a rename that crossed file systems is
/// redone as a copy and a removal; any other failure is passed on unchanged.
pub fn after_rename(outcome: RenameOutcome) -> (r: MoveFollowUp)
    ensures
        r == after_rename_spec(outcome),
{
    match outcome {
        RenameOutcome::Renamed => MoveFollowUp::Done,
        RenameOutcome::CrossesDevices => MoveFollowUp::CopyThenRemove,
        RenameOutcome::Failed(e) => MoveFollowUp::Fail(e),
    }
}

/// The disk after the move primitive has moved `from` to `to`, given how its
/// rename attempt ended; `None` when it failed.
pub open spec fn move_effect(d: Disk, from: Seq<char>, to: Seq<char>, outcome: RenameOutcome) -> Option<
    Disk,
> {
    match after_rename_spec(outcome) {
        MoveFollowUp::Done => Some(after_move(d, from, to)),
        MoveFollowUp::CopyThenRemove => Some(after_remove(after_copy(d, from, to), from)),
        MoveFollowUp::Fail(_) => None,
    }
}

/// The decision of `after_rename`.
pub open spec fn after_rename_spec(outcome: RenameOutcome) -> MoveFollowUp {
    match outcome {
        RenameOutcome::Renamed => MoveFollowUp::Done,
        RenameOutcome::CrossesDevices => MoveFollowUp::CopyThenRemove,
        RenameOutcome::Failed(e) => MoveFollowUp::Fail(e),
    }
}

} // verus!
