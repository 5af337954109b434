//! Taking a mount down for good, and proving it's gone.
//!
//! A FUSE mount whose device is gone answers every `stat()` with an error but is still *there*: a
//! file manager that walks it, a shell sitting in it, or a backup job crawling `$HOME` all wedge on
//! it. Leaving one behind is worse than never mounting in the first place, so the unmount path is
//! forced, it doesn't wait for the filesystem's cooperation, and it's checked afterwards rather
//! than assumed.
use vstd::prelude::*;

verus! {

/// What asking the filesystem about a path answered, not following a link.
#[derive(Debug, Clone, Copy, PartialEq, Eq, Structural)]
pub enum PathState {
    /// It failed; `not_connected` says whether because the transport endpoint is not connected.
    Failed { not_connected: bool },
    NotDirectory,
    Directory { device: u64 },
}

/// Whether a path has a filesystem mounted on it, by what the filesystem answers about it and by
/// the device of its parent directory, where that is known.
///
/// Two ways to be a mount point, and a stale FUSE mount is the second one: a different device
/// number than the parent directory, which is what a live mount looks like; or an endpoint that is
/// not connected, which is what a mount looks like after its FUSE daemon died without unmounting.
pub open spec fn mounted_on(path: PathState, parent_device: Option<u64>) -> bool {
    match path {
        PathState::Failed { not_connected } => not_connected,
        PathState::NotDirectory => false,
        PathState::Directory { device } => parent_device is Some && parent_device != Some(device),
    }
}

/// Whether a path currently has a filesystem mounted on it.
pub fn is_mountpoint(path: &PathState, parent_device: Option<u64>) -> (mounted: bool)
    ensures
        mounted == mounted_on(*path, parent_device),
{
    match path {
        PathState::Failed { not_connected } => *not_connected,
        PathState::NotDirectory => false,
        PathState::Directory { device } => match parent_device {
            Some(parent) => parent != *device,
            None => false,
        },
    }
}

/// The first helper that is asked to unmount where the direct way was refused.
pub const FIRST_HELPER: &'static str = "fusermount3";

/// The second one.
pub const SECOND_HELPER: &'static str = "fusermount";

/// What a forced unmount does next.
#[derive(Debug, Clone, Copy, PartialEq, Eq, Structural)]
pub enum UnmountAction {
    /// Ask the kernel to detach the mount.
    Detach,
    /// Run [`FIRST_HELPER`].
    RunFirstHelper,
    /// Run [`SECOND_HELPER`].
    RunSecondHelper,
    /// See whether the path is still a mount point.
    Check,
    /// Nothing: it is unmounted.
    Done,
    /// Nothing: the path cannot be handed to the kernel.
    BadPath,
    /// Nothing: the path is still mounted, for the reason that the kernel gave.
    Refused,
}

/// What happened in a forced unmount.
#[derive(Debug, Clone, Copy, PartialEq, Eq, Structural)]
pub enum UnmountEvent {
    /// It starts, on a path that has a NUL byte in it or not.
    Start { has_nul: bool },
    /// The kernel detached the mount, or refused.
    Detached(bool),
    /// The first helper succeeded, or did not.
    FirstHelper(bool),
    /// The second helper succeeded, or did not.
    SecondHelper(bool),
    /// The path is still a mount point, or is not.
    Checked { still_mounted: bool },
}

/// What follows in a forced unmount. The kernel is asked first: it detaches the mount at once even
/// while a read is in flight. That needs privileges the daemon usually doesn't have, so the setuid
/// helpers are the fallback. Where they fail too, only a path that is still mounted is a failure:
/// something else may have got there first.
pub open spec fn unmount_follows(event: UnmountEvent) -> UnmountAction {
    match event {
        UnmountEvent::Start { has_nul: true } => UnmountAction::BadPath,
        UnmountEvent::Start { has_nul: false } => UnmountAction::Detach,
        UnmountEvent::Detached(true) => UnmountAction::Done,
        UnmountEvent::Detached(false) => UnmountAction::RunFirstHelper,
        UnmountEvent::FirstHelper(true) => UnmountAction::Done,
        UnmountEvent::FirstHelper(false) => UnmountAction::RunSecondHelper,
        UnmountEvent::SecondHelper(true) => UnmountAction::Done,
        UnmountEvent::SecondHelper(false) => UnmountAction::Check,
        UnmountEvent::Checked { still_mounted: true } => UnmountAction::Refused,
        UnmountEvent::Checked { still_mounted: false } => UnmountAction::Done,
    }
}

/// Unmount a path whether or not anything is still using it: what to do after `event`.
pub fn force_unmount(event: UnmountEvent) -> (action: UnmountAction)
    ensures
        action == unmount_follows(event),
{
    match event {
        UnmountEvent::Start { has_nul } => if has_nul {
            UnmountAction::BadPath
        } else {
            UnmountAction::Detach
        },
        UnmountEvent::Detached(done) => if done {
            UnmountAction::Done
        } else {
            UnmountAction::RunFirstHelper
        },
        UnmountEvent::FirstHelper(done) => if done {
            UnmountAction::Done
        } else {
            UnmountAction::RunSecondHelper
        },
        UnmountEvent::SecondHelper(done) => if done {
            UnmountAction::Done
        } else {
            UnmountAction::Check
        },
        UnmountEvent::Checked { still_mounted } => if still_mounted {
            UnmountAction::Refused
        } else {
            UnmountAction::Done
        },
    }
}

/// What whoever waits for a path to stop being a mount point finds: `true` once it has, `false`
/// once the time `is_over`, and nothing while it has to keep waiting.
pub fn wait_until_unmounted(mounted: bool, is_over: bool) -> (found: Option<bool>)
    ensures
        found == if !mounted {
            Some(true)
        } else if is_over {
            Some(false)
        } else {
            None
        },
{
    if !mounted {
        Some(true)
    } else if is_over {
        Some(false)
    } else {
        None
    }
}

/// What a sweep of the mount root does with one of its entries.
#[derive(Debug, Clone, Copy, PartialEq, Eq, Structural)]
pub enum SweepAction {
    /// Leave it.
    Leave,
    /// Unmount what a previous daemon left there, by [`force_unmount`].
    Unmount,
    /// Remove it, if it is empty: a directory with files in it isn't ours.
    RemoveIfEmpty,
}

/// What a sweep does with an entry: only directories are touched, and what is mounted on one goes
/// first.
pub fn clean_stale_mounts(is_dir: bool, mounted: bool) -> (action: SweepAction)
    ensures
        action == if !is_dir {
            SweepAction::Leave
        } else if mounted {
            SweepAction::Unmount
        } else {
            SweepAction::RemoveIfEmpty
        },
{
    if !is_dir {
        SweepAction::Leave
    } else if mounted {
        SweepAction::Unmount
    } else {
        SweepAction::RemoveIfEmpty
    }
}

/// What a sweep does with an entry after unmounting it. Only one that is `gone` counts as cleaned.
pub fn after_sweep_unmount(unmounted: bool, gone: bool) -> (action: SweepAction)
    ensures
        action == if unmounted && gone {
            SweepAction::RemoveIfEmpty
        } else {
            SweepAction::Leave
        },
{
    if unmounted && gone {
        SweepAction::RemoveIfEmpty
    } else {
        SweepAction::Leave
    }
}

/// What is mounted: a directory on another device than its parent, where that is known, and what says
/// that its endpoint is not connected. Nothing else is.
pub proof fn mounts_are_on_another_device(path: PathState, parent: Option<u64>)
    ensures
        mounted_on(path, parent) <==> path == (PathState::Failed { not_connected: true }) || (path
            matches PathState::Directory { device } && parent is Some && parent->0 != device),
{
}

/// Whether `actions` is how a forced unmount goes when `events` happen.
pub open spec fn is_forced_unmount(
    events: Seq<UnmountEvent>,
    actions: Seq<UnmountAction>,
) -> bool {
    &&& events.len() == actions.len()
    &&& events.len() > 0
    &&& events[0] is Start
    &&& forall|i: int| 0 <= i < events.len() ==> unmount_follows(events[i]) == #[trigger] actions[i]
    &&& forall|i: int|
        0 < i < events.len() ==> match actions[i - 1] {
            UnmountAction::Detach => (#[trigger] events[i]) is Detached,
            UnmountAction::RunFirstHelper => events[i] is FirstHelper,
            UnmountAction::RunSecondHelper => events[i] is SecondHelper,
            UnmountAction::Check => events[i] is Checked,
            _ => false,
        }
}

/// How a forced unmount goes: the kernel is asked first, then one helper after the other as long as
/// each fails, and only then is it looked whether anything is still mounted. It succeeds where any of
/// them did or nothing is mounted any more, and fails only where something still is. A path that cannot
/// be handed over is not tried at all.
pub proof fn unmounts_try_everything_before_they_fail(
    events: Seq<UnmountEvent>,
    actions: Seq<UnmountAction>,
)
    requires
        is_forced_unmount(events, actions),
    ensures
        actions.len() <= 5,
        events[0] == (UnmountEvent::Start { has_nul: true }) ==> actions[0] is BadPath
            && actions.len() == 1,
        events[0] == (UnmountEvent::Start { has_nul: false }) ==> actions[0] is Detach,
        forall|i: int|
            0 <= i < actions.len() ==> (#[trigger] actions[i] is Done <==> events[i]
                == UnmountEvent::Detached(true) || events[i] == UnmountEvent::FirstHelper(true)
                || events[i] == UnmountEvent::SecondHelper(true) || events[i]
                == (UnmountEvent::Checked { still_mounted: false })),
        forall|i: int|
            0 <= i < actions.len() && #[trigger] actions[i] is Refused ==> i == 4 && events[1]
                == UnmountEvent::Detached(false) && events[2] == UnmountEvent::FirstHelper(false)
                && events[3] == UnmountEvent::SecondHelper(false) && events[4]
                == (UnmountEvent::Checked { still_mounted: true }),
        forall|i: int|
            0 <= i < actions.len() && (#[trigger] actions[i] is Done || actions[i] is Refused
                || actions[i] is BadPath) ==> i == actions.len() - 1,
{
    assert(unmount_follows(events[0]) == actions[0]);
    if actions.len() > 1 {
        assert(unmount_follows(events[1]) == actions[1]);
        assert(events[1] is Detached);
    }
    if actions.len() > 2 {
        assert(unmount_follows(events[2]) == actions[2]);
        assert(events[2] is FirstHelper);
    }
    if actions.len() > 3 {
        assert(unmount_follows(events[3]) == actions[3]);
        assert(events[3] is SecondHelper);
    }
    if actions.len() > 4 {
        assert(unmount_follows(events[4]) == actions[4]);
        assert(events[4] is Checked);
    }
    if actions.len() > 5 {
        assert(match actions[4] {
            UnmountAction::Detach => events[5] is Detached,
            UnmountAction::RunFirstHelper => events[5] is FirstHelper,
            UnmountAction::RunSecondHelper => events[5] is SecondHelper,
            UnmountAction::Check => events[5] is Checked,
            _ => false,
        });
    }
}

} // verus!
