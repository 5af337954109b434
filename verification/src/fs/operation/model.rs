//! What an operation does at each step.
use crate::device_error::DeviceError;
use crate::fs::protocol::{
    all_named, first_named, listed_children, CallView, ObjectView, ReplyView,
};
use crate::fs::recovery::{Recovery, Verdict};
use crate::fs::state::{StateView, StorageView};
use crate::fs::temp_name;
use crate::fs::walk::{path_down, storage_index};
use crate::inode::model::{kind_handle, EntryView, TableView};
use crate::inode::{InodeKind, ObjectHandle};
use std::time::SystemTime;
use vstd::prelude::*;

verus! {

/// What an operation needs the handle of an inode for.
#[derive(Debug, Clone, Copy, PartialEq, Eq, Structural)]
pub enum Role {
    /// As a file.
    File,
    /// As a file or a folder.
    Object,
    /// As the directory that something is in; the root of a storage has no handle.
    Parent,
}

/// What is around an operation at one of its steps.
#[derive(Debug, Clone, Copy)]
pub struct Link {
    /// Whether the cable is out.
    pub unplugged: bool,
    /// Whether the device can rename objects.
    pub supports_rename: bool,
    pub now: SystemTime,
}

/// An upload that replaces an object: where, under which parent, and what it replaces.
#[derive(Debug, Clone, Copy, PartialEq, Eq, Structural)]
pub struct FlushJob {
    pub storage: usize,
    pub parent: Option<ObjectHandle>,
    pub old: ObjectHandle,
}

/// What is to be done, by inode numbers and names.
#[verifier::ext_equal]
pub enum RequestView {
    List { dir: u64 },
    CreateFile { parent: u64, name: Seq<char> },
    CreateFolder { parent: u64, name: Seq<char> },
    DeleteFile { inode: u64 },
    DeleteObject { inode: u64 },
    Rename { inode: u64, name: Seq<char> },
    Move { inode: u64, new_parent: u64 },
    ReadRange { inode: u64, offset: u64, len: u32 },
    Download { inode: u64 },
    Probe { inode: u64 },
    Flush { inode: u64, parent: u64, name: Seq<char>, size: u64 },
}

impl RequestView {
    /// The inode whose handle and storage the request is about.
    pub open spec fn subject(self) -> (u64, Role) {
        match self {
            RequestView::List { dir } => (dir, Role::Parent),
            RequestView::CreateFile { parent, .. } => (parent, Role::Parent),
            RequestView::CreateFolder { parent, .. } => (parent, Role::Parent),
            RequestView::DeleteFile { inode } => (inode, Role::File),
            RequestView::DeleteObject { inode } => (inode, Role::Object),
            RequestView::Rename { inode, .. } => (inode, Role::Object),
            RequestView::Move { inode, .. } => (inode, Role::Object),
            RequestView::ReadRange { inode, .. } => (inode, Role::File),
            RequestView::Download { inode } => (inode, Role::File),
            RequestView::Probe { inode } => (inode, Role::File),
            RequestView::Flush { inode, .. } => (inode, Role::File),
        }
    }

    /// The directory that the request needs besides.
    pub open spec fn directory(self) -> Option<u64> {
        match self {
            RequestView::Move { new_parent, .. } => Some(new_parent),
            RequestView::Flush { parent, .. } => Some(parent),
            _ => None,
        }
    }
}

/// A walk down a path, refreshing what is stale on the way.
#[verifier::ext_equal]
pub struct ResolverView {
    /// The path, from below the storage.
    pub chain: Seq<u64>,
    /// The next node.
    pub at: int,
    /// The handle of the node before it; none at the storage's root.
    pub above: Option<ObjectHandle>,
    pub storage: usize,
}

/// How a walk stands.
#[verifier::ext_equal]
pub enum ResolveView {
    /// Every node on the path is fresh.
    Ready,
    /// The path is broken.
    Missing,
    /// The parent of the next node has to be listed.
    List(ResolverView),
}

/// Where a walk stands once the fresh nodes ahead of it have been passed.
pub open spec fn resume(table: TableView, walk: ResolverView) -> ResolveView
    decreases walk.chain.len() - walk.at,
{
    if walk.at < 0 || walk.at >= walk.chain.len() {
        ResolveView::Ready
    } else {
        let node = walk.chain[walk.at];
        if !table.entries.contains_key(node) {
            ResolveView::Missing
        } else if table.fresh(node) {
            match kind_handle(table.entries[node].kind) {
                Some(handle) => resume(
                    table,
                    ResolverView { at: walk.at + 1, above: Some(handle), ..walk },
                ),
                None => ResolveView::Missing,
            }
        } else {
            ResolveView::List(walk)
        }
    }
}

/// What it takes to use the handle of `inode`: nothing where it is fresh, otherwise a walk down
/// from the storage.
pub open spec fn resolve(table: TableView, storages: Seq<StorageView>, inode: u64) -> ResolveView {
    if table.fresh(inode) {
        ResolveView::Ready
    } else {
        match (
            path_down(table.entries, inode, table.entries.len()),
            storage_index(table, storages, inode),
        ) {
            (Some(chain), Some(storage)) => resume(
                table,
                ResolverView { chain, at: 0, above: None, storage: storage as usize },
            ),
            _ => ResolveView::Missing,
        }
    }
}

/// The handle that a listing gives the node a walk stands at.
pub open spec fn listed_handle(
    table: TableView,
    walk: ResolverView,
    objects: Seq<ObjectView>,
) -> Option<ObjectHandle> {
    if 0 <= walk.at < walk.chain.len() && table.entries.contains_key(walk.chain[walk.at]) {
        first_named(objects, table.entries[walk.chain[walk.at]].name)
    } else {
        None
    }
}

/// The handle of an inode in a role: `None` where it cannot have that role, `Some(None)` for the
/// root of a storage.
pub open spec fn role_handle(table: TableView, inode: u64, role: Role) -> Option<
    Option<ObjectHandle>,
> {
    if !table.entries.contains_key(inode) {
        None
    } else {
        match (role, table.entries[inode].kind) {
            (Role::File, InodeKind::File { handle }) => Some(Some(handle)),
            (Role::Object, InodeKind::File { handle }) => Some(Some(handle)),
            (Role::Object, InodeKind::Directory { handle }) => Some(Some(handle)),
            (Role::Parent, InodeKind::Storage { .. }) => Some(None),
            (Role::Parent, InodeKind::Directory { handle }) => Some(Some(handle)),
            _ => None,
        }
    }
}

/// The handle that stands for the root of a storage where one has to be named.
pub open spec fn or_root(handle: Option<ObjectHandle>) -> ObjectHandle {
    match handle {
        Some(h) => h,
        None => ObjectHandle(0),
    }
}

/// What an operation waits for.
#[verifier::ext_equal]
pub enum PhaseView {
    /// To be started, or for a reconnect.
    Idle,
    /// For a listing, on the way to the subject.
    Subject(ResolverView),
    /// For a listing, on the way to the directory.
    Directory { handle: Option<ObjectHandle>, storage: usize, walk: ResolverView },
    /// For the answer to the call it is about.
    Called,
    /// For the listing that shows what an earlier upload left behind.
    Purge(FlushJob),
    /// For one of those to be deleted.
    PurgeDelete { job: FlushJob, rest: Seq<ObjectHandle> },
    /// For the upload under a temporary name.
    Upload(FlushJob),
    /// For the old object to be deleted.
    DeleteOld { job: FlushJob, new: ObjectHandle },
    /// For the new object to be renamed into place.
    RenameNew { job: FlushJob, new: ObjectHandle },
    /// For the old object to be deleted, before the upload.
    DeleteFirst(FlushJob),
    /// For the upload, after the delete.
    UploadLast(FlushJob),
    /// For nothing.
    Over,
}

/// An operation in progress.
#[verifier::ext_equal]
pub struct OpView {
    pub request: RequestView,
    pub recovery: Recovery,
    /// Whether it has been attempted.
    pub tried: bool,
    /// Whether it had been attempted before this attempt.
    pub again: bool,
    pub phase: PhaseView,
}

/// What the owner of the operation does next.
#[verifier::ext_equal]
pub enum ActionView {
    Call(CallView),
    Reconnect,
    Return(Result<ReplyView, DeviceError>),
}

/// What happened to an operation.
#[verifier::ext_equal]
pub enum EventView {
    Begin,
    Reconnected(Result<(), DeviceError>),
    Replied(Result<ReplyView, DeviceError>),
}

/// An operation, the mount's state and what is to be done next.
#[verifier::ext_equal]
#[verifier::reject_recursive_types(C)]
pub struct StepView<C> {
    pub op: OpView,
    pub state: StateView<C>,
    pub action: ActionView,
}

impl OpView {
    pub open spec fn new(request: RequestView) -> OpView {
        OpView {
            request,
            recovery: Recovery::full(),
            tried: false,
            again: false,
            phase: PhaseView::Idle,
        }
    }

    pub open spec fn at(self, phase: PhaseView) -> OpView {
        OpView { phase, ..self }
    }

    /// The operation is over.
    pub open spec fn over<C>(
        self,
        state: StateView<C>,
        result: Result<ReplyView, DeviceError>,
    ) -> StepView<C> {
        StepView { op: self.at(PhaseView::Over), state, action: ActionView::Return(result) }
    }

    /// The operation makes a call and waits for its answer.
    pub open spec fn call<C>(
        self,
        state: StateView<C>,
        phase: PhaseView,
        call: CallView,
    ) -> StepView<C> {
        StepView { op: self.at(phase), state, action: ActionView::Call(call) }
    }

    /// The operation needs a new session.
    pub open spec fn reconnect<C>(self, state: StateView<C>) -> StepView<C> {
        StepView { op: self.at(PhaseView::Idle), state, action: ActionView::Reconnect }
    }

    /// An attempt starts, unless there is no session to make it in.
    pub open spec fn start<C>(self, state: StateView<C>, link: Link) -> StepView<C> {
        if link.unplugged {
            self.reconnect(state)
        } else {
            let op = OpView { tried: true, again: self.tried, ..self };
            op.with_subject(
                state,
                link,
                resolve(state.inodes, state.storages, self.request.subject().0),
            )
        }
    }

    /// An attempt failed.
    pub open spec fn fail<C>(
        self,
        state: StateView<C>,
        link: Link,
        error: DeviceError,
    ) -> StepView<C> {
        let verdict = self.recovery.verdict(error);
        let op = OpView { recovery: self.recovery.spent(verdict), ..self };
        match verdict {
            Verdict::Report => op.over(state, Err(error)),
            Verdict::Retry => op.start(state.invalidated(), link),
            Verdict::Reconnect => op.reconnect(state),
        }
    }

    /// The way to the subject stands like this.
    #[verifier::opaque]
    pub open spec fn with_subject<C>(
        self,
        state: StateView<C>,
        link: Link,
        resolved: ResolveView,
    ) -> StepView<C> {
        let (inode, role) = self.request.subject();
        match resolved {
            ResolveView::Missing => self.over(state, Err(DeviceError::NotFound)),
            ResolveView::List(walk) => self.call(
                state,
                PhaseView::Subject(walk),
                CallView::ListObjects { storage: walk.storage as int, parent: walk.above },
            ),
            ResolveView::Ready => match (
                role_handle(state.inodes, inode, role),
                storage_index(state.inodes, state.storages, inode),
            ) {
                (Some(handle), Some(storage)) => match self.request.directory() {
                    None => self.issue(state, link, storage as usize, handle, None),
                    Some(dir) => self.with_directory(
                        state,
                        link,
                        storage as usize,
                        handle,
                        resolve(state.inodes, state.storages, dir),
                    ),
                },
                _ => self.over(state, Err(DeviceError::NotFound)),
            },
        }
    }

    /// The way to the directory stands like this.
    #[verifier::opaque]
    pub open spec fn with_directory<C>(
        self,
        state: StateView<C>,
        link: Link,
        storage: usize,
        handle: Option<ObjectHandle>,
        resolved: ResolveView,
    ) -> StepView<C> {
        match (resolved, self.request.directory()) {
            (ResolveView::List(walk), _) => self.call(
                state,
                PhaseView::Directory { handle, storage, walk },
                CallView::ListObjects { storage: walk.storage as int, parent: walk.above },
            ),
            (ResolveView::Ready, Some(dir)) => match role_handle(
                state.inodes,
                dir,
                Role::Parent,
            ) {
                Some(parent) => self.issue(state, link, storage, handle, parent),
                None => self.over(state, Err(DeviceError::NotFound)),
            },
            _ => self.over(state, Err(DeviceError::NotFound)),
        }
    }

    /// All handles are at hand: the call that the request is about, or the first of a flush.
    #[verifier::opaque]
    pub open spec fn issue<C>(
        self,
        state: StateView<C>,
        link: Link,
        storage: usize,
        handle: Option<ObjectHandle>,
        parent: Option<ObjectHandle>,
    ) -> StepView<C> {
        let s = storage as int;
        let h = or_root(handle);
        match self.request {
            RequestView::List { .. } => self.call(
                state,
                PhaseView::Called,
                CallView::ListObjects { storage: s, parent: handle },
            ),
            RequestView::CreateFile { name, .. } => self.call(
                state,
                PhaseView::Called,
                CallView::Upload { storage: s, parent: handle, name, size: 0 },
            ),
            RequestView::CreateFolder { name, .. } => self.call(
                state,
                PhaseView::Called,
                CallView::CreateFolder { storage: s, parent: handle, name },
            ),
            RequestView::DeleteFile { .. } => self.call(
                state,
                PhaseView::Called,
                CallView::Delete { storage: s, handle: h },
            ),
            RequestView::DeleteObject { .. } => self.call(
                state,
                PhaseView::Called,
                CallView::Delete { storage: s, handle: h },
            ),
            RequestView::Rename { name, .. } => self.call(
                state,
                PhaseView::Called,
                CallView::Rename { storage: s, handle: h, name },
            ),
            RequestView::Move { .. } => self.call(
                state,
                PhaseView::Called,
                CallView::MoveObject { storage: s, handle: h, new_parent: or_root(parent) },
            ),
            RequestView::ReadRange { offset, len, .. } => self.call(
                state,
                PhaseView::Called,
                CallView::ReadRange { storage: s, handle: h, offset, len },
            ),
            RequestView::Download { .. } => self.call(
                state,
                PhaseView::Called,
                CallView::Download { storage: s, handle: h },
            ),
            RequestView::Probe { .. } => self.call(
                state,
                PhaseView::Called,
                CallView::GetObjectInfo { storage: s, handle: h },
            ),
            RequestView::Flush { .. } => {
                let job = FlushJob { storage, parent, old: h };
                if !link.supports_rename {
                    self.call(
                        state,
                        PhaseView::DeleteFirst(job),
                        CallView::Delete { storage: s, handle: h },
                    )
                } else if self.again {
                    self.call(
                        state,
                        PhaseView::Purge(job),
                        CallView::ListObjects { storage: s, parent },
                    )
                } else {
                    self.upload_temp(state, job)
                }
            },
        }
    }

    /// The name and size of what a flush uploads.
    pub open spec fn flushed(self) -> (u64, Seq<char>, u64) {
        match self.request {
            RequestView::Flush { inode, name, size, .. } => (inode, name, size),
            _ => (0, Seq::empty(), 0),
        }
    }

    /// The new data goes up under a temporary name, next to the old object.
    pub open spec fn upload_temp<C>(self, state: StateView<C>, job: FlushJob) -> StepView<C> {
        let (_, name, size) = self.flushed();
        self.call(
            state,
            PhaseView::Upload(job),
            CallView::Upload {
                storage: job.storage as int,
                parent: job.parent,
                name: temp_name(name),
                size,
            },
        )
    }

    /// What an earlier attempt left behind goes first.
    pub open spec fn purge<C>(
        self,
        state: StateView<C>,
        job: FlushJob,
        leftovers: Seq<ObjectHandle>,
    ) -> StepView<C> {
        if leftovers.len() == 0 {
            self.upload_temp(state, job)
        } else {
            self.call(
                state,
                PhaseView::PurgeDelete { job, rest: leftovers.drop_first() },
                CallView::Delete { storage: job.storage as int, handle: leftovers[0] },
            )
        }
    }

    /// The flushed file is the new object now, under the name it ended up with.
    pub open spec fn saved<C>(
        self,
        state: StateView<C>,
        link: Link,
        new: ObjectHandle,
        name: Option<Seq<char>>,
    ) -> StepView<C> {
        let (inode, _, size) = self.flushed();
        let table = state.inodes;
        let after = if table.entries.contains_key(inode) {
            let entry = table.entries[inode];
            table.with_entry(
                inode,
                EntryView {
                    kind: InodeKind::File { handle: new },
                    name: match name {
                        Some(n) => n,
                        None => entry.name,
                    },
                    size,
                    mtime: link.now,
                    ..entry
                },
            )
        } else {
            table
        };
        self.over(StateView { inodes: after, ..state }, Ok(ReplyView::Done))
    }

    /// The answer to the call that the request is about.
    pub open spec fn complete<C>(self, state: StateView<C>, reply: ReplyView) -> StepView<C> {
        match (self.request, reply) {
            (RequestView::List { dir }, ReplyView::Listing(objects)) => self.over(
                StateView {
                    inodes: state.inodes.sync(dir, listed_children(objects)),
                    ..state
                },
                Ok(ReplyView::Done),
            ),
            (RequestView::List { .. }, _) => self.over(state, Err(DeviceError::Unrecognized)),
            _ => self.over(state, Ok(reply)),
        }
    }

    /// A listing on the way to the subject was answered.
    #[verifier::opaque]
    pub open spec fn subject_listed<C>(
        self,
        state: StateView<C>,
        link: Link,
        walk: ResolverView,
        result: Result<ReplyView, DeviceError>,
    ) -> StepView<C> {
        match result {
            Err(error) => self.fail(state, link, error),
            Ok(ReplyView::Listing(objects)) => match listed_handle(state.inodes, walk, objects) {
                Some(handle) => {
                    let table = state.inodes.set_handle(walk.chain[walk.at], handle);
                    self.with_subject(
                        StateView { inodes: table, ..state },
                        link,
                        resume(
                            table,
                            ResolverView { at: walk.at + 1, above: Some(handle), ..walk },
                        ),
                    )
                },
                None => self.over(state, Err(DeviceError::NotFound)),
            },
            Ok(_) => self.over(state, Err(DeviceError::Unrecognized)),
        }
    }

    /// A listing on the way to the directory was answered.
    #[verifier::opaque]
    pub open spec fn directory_listed<C>(
        self,
        state: StateView<C>,
        link: Link,
        storage: usize,
        subject: Option<ObjectHandle>,
        walk: ResolverView,
        result: Result<ReplyView, DeviceError>,
    ) -> StepView<C> {
        match result {
            Err(error) => self.fail(state, link, error),
            Ok(ReplyView::Listing(objects)) => match listed_handle(state.inodes, walk, objects) {
                Some(handle) => {
                    let table = state.inodes.set_handle(walk.chain[walk.at], handle);
                    self.with_directory(
                        StateView { inodes: table, ..state },
                        link,
                        storage,
                        subject,
                        resume(
                            table,
                            ResolverView { at: walk.at + 1, above: Some(handle), ..walk },
                        ),
                    )
                },
                None => self.over(state, Err(DeviceError::NotFound)),
            },
            Ok(_) => self.over(state, Err(DeviceError::Unrecognized)),
        }
    }

    /// A call of a flush that goes up under a temporary name was answered.
    #[verifier::opaque]
    pub open spec fn safe_flush_replied<C>(
        self,
        state: StateView<C>,
        link: Link,
        phase: PhaseView,
        result: Result<ReplyView, DeviceError>,
    ) -> StepView<C> {
        let name = self.flushed().1;
        match (phase, result) {
            (PhaseView::Purge(job), Err(_)) => self.upload_temp(state, job),
            (PhaseView::Purge(job), Ok(ReplyView::Listing(objects))) => self.purge(
                state,
                job,
                all_named(objects, temp_name(name)),
            ),
            (PhaseView::PurgeDelete { job, rest }, _) => self.purge(state, job, rest),
            (PhaseView::Upload(_), Err(error)) => self.fail(state, link, error),
            (PhaseView::Upload(job), Ok(ReplyView::Created(new))) => self.call(
                state,
                PhaseView::DeleteOld { job, new },
                CallView::Delete { storage: job.storage as int, handle: job.old },
            ),
            (PhaseView::DeleteOld { new, .. }, Err(_)) => self.saved(
                state,
                link,
                new,
                Some(temp_name(name)),
            ),
            (PhaseView::DeleteOld { job, new }, Ok(_)) => self.call(
                state,
                PhaseView::RenameNew { job, new },
                CallView::Rename { storage: job.storage as int, handle: new, name },
            ),
            (PhaseView::RenameNew { new, .. }, Err(_)) => self.saved(
                state,
                link,
                new,
                Some(temp_name(name)),
            ),
            (PhaseView::RenameNew { new, .. }, Ok(_)) => self.saved(state, link, new, None),
            // An answer to something else.
            _ => self.over(state, Err(DeviceError::Unrecognized)),
        }
    }

    /// A call of a flush on a device that cannot rename was answered.
    #[verifier::opaque]
    pub open spec fn unsafe_flush_replied<C>(
        self,
        state: StateView<C>,
        link: Link,
        phase: PhaseView,
        result: Result<ReplyView, DeviceError>,
    ) -> StepView<C> {
        let (_, name, size) = self.flushed();
        match (phase, result) {
            (PhaseView::DeleteFirst(job), Ok(_)) => self.call(
                state,
                PhaseView::UploadLast(job),
                CallView::Upload {
                    storage: job.storage as int,
                    parent: job.parent,
                    name,
                    size,
                },
            ),
            (PhaseView::UploadLast(_), Ok(ReplyView::Created(new))) => self.saved(
                state,
                link,
                new,
                None,
            ),
            (_, Err(error)) => self.fail(state, link, error),
            // An answer to something else.
            _ => self.over(state, Err(DeviceError::Unrecognized)),
        }
    }

    /// A call was answered.
    pub open spec fn replied<C>(
        self,
        state: StateView<C>,
        link: Link,
        result: Result<ReplyView, DeviceError>,
    ) -> StepView<C> {
        let op = self.at(PhaseView::Over);
        match self.phase {
            PhaseView::Idle | PhaseView::Over => op.over(state, Err(DeviceError::Unrecognized)),
            PhaseView::Subject(walk) => op.subject_listed(state, link, walk, result),
            PhaseView::Directory { handle, storage, walk } => op.directory_listed(
                state,
                link,
                storage,
                handle,
                walk,
                result,
            ),
            PhaseView::Called => match result {
                Err(error) => op.fail(state, link, error),
                Ok(reply) => op.complete(state, reply),
            },
            PhaseView::DeleteFirst(_) | PhaseView::UploadLast(_) => op.unsafe_flush_replied(
                state,
                link,
                self.phase,
                result,
            ),
            _ => op.safe_flush_replied(state, link, self.phase, result),
        }
    }

    /// What follows from `event`.
    pub open spec fn step<C>(self, state: StateView<C>, link: Link, event: EventView) -> StepView<
        C,
    > {
        match event {
            EventView::Begin => self.start(state, link),
            EventView::Reconnected(Err(error)) => self.over(state, Err(error)),
            EventView::Reconnected(Ok(())) => {
                let op = OpView { recovery: self.recovery.next_session(), ..self };
                if op.recovery.sessions > 0 {
                    op.start(state, link)
                } else {
                    op.over(state, Err(DeviceError::Disconnected))
                }
            },
            EventView::Replied(result) => self.replied(state, link, result),
        }
    }
}

} // verus!
