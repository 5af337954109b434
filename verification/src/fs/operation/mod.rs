//! One operation against the device, from the request to its answer.
//!
//! An operation names what it is about by inode number. Each attempt resolves the handles it needs
//! itself, listing directories where they have gone stale, and then makes its call. Where the
//! session or the handles died under it, it starts over within its budgets.
use crate::device_error::DeviceError;
use crate::fs::operation::model::{
    listed_handle, resolve, resume, role_handle, ActionView, EventView, FlushJob, Link, OpView,
    PhaseView, RequestView, ResolveView, ResolverView, Role, StepView,
};
use crate::fs::protocol::{
    children_of, find_all_named, find_named, listed_children, object_views, result_view,
    DeviceCall, ObjectFacts, Reply, ReplyView,
};
use crate::fs::recovery::{Recovery, Verdict};
use crate::fs::state::{storage_views, MountState, StorageFacts};
use crate::fs::temp_upload_name;
use crate::fs::walk::{chain_to, find_storage_index};
use crate::inode::{InodeKind, InodeTable, ObjectHandle};
use vstd::prelude::*;

pub mod calls;
pub mod laws;
pub mod model;

verus! {

/// What is to be done.
#[derive(Debug)]
pub enum Request {
    /// List a directory into the inode table.
    List { dir: u64 },
    /// Create an empty file.
    CreateFile { parent: u64, name: String },
    CreateFolder { parent: u64, name: String },
    DeleteFile { inode: u64 },
    /// Delete a file or a folder.
    DeleteObject { inode: u64 },
    /// Rename a file or a folder in place.
    Rename { inode: u64, name: String },
    /// Move a file or a folder to another directory.
    Move { inode: u64, new_parent: u64 },
    ReadRange { inode: u64, offset: u64, len: u32 },
    /// Open a whole-object download.
    Download { inode: u64 },
    /// Ask for an object's metadata, to see whether the session works.
    Probe { inode: u64 },
    /// Replace what a file in `parent` called `name` holds by `size` new bytes.
    ///
    /// Where the device can rename, the bytes go up under a temporary name, the old object is
    /// deleted, and the new one renamed into place. Only the upload can fail: after it lands, the
    /// bytes are safe on the device and a retry would upload them twice. Elsewhere the old object
    /// is deleted first.
    Flush { inode: u64, parent: u64, name: String, size: u64 },
}

impl View for Request {
    type V = RequestView;

    open spec fn view(&self) -> RequestView {
        match self {
            Request::List { dir } => RequestView::List { dir: *dir },
            Request::CreateFile { parent, name } => RequestView::CreateFile {
                parent: *parent,
                name: name@,
            },
            Request::CreateFolder { parent, name } => RequestView::CreateFolder {
                parent: *parent,
                name: name@,
            },
            Request::DeleteFile { inode } => RequestView::DeleteFile { inode: *inode },
            Request::DeleteObject { inode } => RequestView::DeleteObject { inode: *inode },
            Request::Rename { inode, name } => RequestView::Rename { inode: *inode, name: name@ },
            Request::Move { inode, new_parent } => RequestView::Move {
                inode: *inode,
                new_parent: *new_parent,
            },
            Request::ReadRange { inode, offset, len } => RequestView::ReadRange {
                inode: *inode,
                offset: *offset,
                len: *len,
            },
            Request::Download { inode } => RequestView::Download { inode: *inode },
            Request::Probe { inode } => RequestView::Probe { inode: *inode },
            Request::Flush { inode, parent, name, size } => RequestView::Flush {
                inode: *inode,
                parent: *parent,
                name: name@,
                size: *size,
            },
        }
    }
}

impl Request {
    /// The inode whose handle and storage the request is about.
    fn subject(&self) -> (subject: (u64, Role))
        ensures
            subject == self@.subject(),
    {
        match self {
            Request::List { dir } => (*dir, Role::Parent),
            Request::CreateFile { parent, .. } => (*parent, Role::Parent),
            Request::CreateFolder { parent, .. } => (*parent, Role::Parent),
            Request::DeleteFile { inode } => (*inode, Role::File),
            Request::DeleteObject { inode } => (*inode, Role::Object),
            Request::Rename { inode, .. } => (*inode, Role::Object),
            Request::Move { inode, .. } => (*inode, Role::Object),
            Request::ReadRange { inode, .. } => (*inode, Role::File),
            Request::Download { inode } => (*inode, Role::File),
            Request::Probe { inode } => (*inode, Role::File),
            Request::Flush { inode, .. } => (*inode, Role::File),
        }
    }

    /// The directory that the request needs besides.
    fn directory(&self) -> (dir: Option<u64>)
        ensures
            dir == self@.directory(),
    {
        match self {
            Request::Move { new_parent, .. } => Some(*new_parent),
            Request::Flush { parent, .. } => Some(*parent),
            _ => None,
        }
    }
}

/// A walk down a path, refreshing what is stale on the way.
#[derive(Debug)]
struct Resolver {
    chain: Vec<u64>,
    at: usize,
    above: Option<ObjectHandle>,
    storage: usize,
}

impl View for Resolver {
    type V = ResolverView;

    closed spec fn view(&self) -> ResolverView {
        ResolverView {
            chain: self.chain@,
            at: self.at as int,
            above: self.above,
            storage: self.storage,
        }
    }
}

#[derive(Debug)]
enum Resolve {
    Ready,
    Missing,
    List(Resolver),
}

impl View for Resolve {
    type V = ResolveView;

    closed spec fn view(&self) -> ResolveView {
        match self {
            Resolve::Ready => ResolveView::Ready,
            Resolve::Missing => ResolveView::Missing,
            Resolve::List(walk) => ResolveView::List(walk@),
        }
    }
}

impl Resolver {
    /// Passes the fresh nodes ahead.
    fn resume(self, table: &InodeTable) -> (resolved: Resolve)
        ensures
            resolved@ == resume(table@, self@),
        decreases self.chain.len() - self.at,
    {
        let mut walk = self;
        while walk.at < walk.chain.len()
            invariant
                resume(table@, self@) == resume(table@, walk@),
            decreases walk.chain.len() - walk.at,
        {
            let node: u64 = walk.chain[walk.at];
            match table.get(node) {
                None => {
                    return Resolve::Missing;
                },
                Some(entry) => {
                    if !table.is_fresh(node) {
                        return Resolve::List(walk);
                    }
                    match entry.kind.handle() {
                        Some(handle) => {
                            walk.at += 1;
                            walk.above = Some(handle);
                        },
                        None => {
                            return Resolve::Missing;
                        },
                    }
                },
            }
        }
        Resolve::Ready
    }

    /// Takes the listing that the walk waited for; `false` where the next node is not in it.
    fn take_listing(&mut self, table: &mut InodeTable, objects: &Vec<ObjectFacts>) -> (found: bool)
        ensures
            match listed_handle(old(table)@, old(self)@, object_views(objects@)) {
                Some(handle) => {
                    &&& found
                    &&& final(table)@ == old(table)@.set_handle(
                        old(self)@.chain[old(self)@.at],
                        handle,
                    )
                    &&& final(self)@ == (ResolverView {
                        at: old(self)@.at + 1,
                        above: Some(handle),
                        ..old(self)@
                    })
                },
                None => !found && final(table)@ == old(table)@,
            },
    {
        if self.at >= self.chain.len() {
            return false;
        }
        let node: u64 = self.chain[self.at];
        let listed = match table.get(node) {
            Some(entry) => find_named(objects, &entry.name),
            None => None,
        };
        match listed {
            Some(handle) => {
                table.set_handle(node, handle);
                self.at += 1;
                self.above = Some(handle);
                true
            },
            None => false,
        }
    }
}

/// What it takes to use the handle of `inode`.
fn resolve_inode(table: &InodeTable, storages: &Vec<StorageFacts>, inode: u64) -> (resolved:
    Resolve)
    ensures
        resolved@ == resolve(table@, storage_views(storages@), inode),
{
    if table.is_fresh(inode) {
        return Resolve::Ready;
    }
    match (chain_to(table, inode), find_storage_index(table, storages, inode)) {
        (Some(chain), Some(storage)) => {
            let walk = Resolver { chain, at: 0, above: None, storage };
            walk.resume(table)
        },
        _ => Resolve::Missing,
    }
}

/// The handle of an inode in a role.
fn handle_as(table: &InodeTable, inode: u64, role: Role) -> (handle: Option<Option<ObjectHandle>>)
    ensures
        handle == role_handle(table@, inode, role),
{
    match table.get(inode) {
        None => None,
        Some(entry) => match (role, entry.kind) {
            (Role::File, InodeKind::File { handle }) => Some(Some(handle)),
            (Role::Object, InodeKind::File { handle }) => Some(Some(handle)),
            (Role::Object, InodeKind::Directory { handle }) => Some(Some(handle)),
            (Role::Parent, InodeKind::Storage { .. }) => Some(None),
            (Role::Parent, InodeKind::Directory { handle }) => Some(Some(handle)),
            _ => None,
        },
    }
}

#[derive(Debug)]
enum Phase {
    Idle,
    Subject(Resolver),
    Directory { handle: Option<ObjectHandle>, storage: usize, walk: Resolver },
    Called,
    Purge(FlushJob),
    PurgeDelete { job: FlushJob, rest: Vec<ObjectHandle> },
    Upload(FlushJob),
    DeleteOld { job: FlushJob, new: ObjectHandle },
    RenameNew { job: FlushJob, new: ObjectHandle },
    DeleteFirst(FlushJob),
    UploadLast(FlushJob),
    Over,
}

impl View for Phase {
    type V = PhaseView;

    closed spec fn view(&self) -> PhaseView {
        match self {
            Phase::Idle => PhaseView::Idle,
            Phase::Subject(walk) => PhaseView::Subject(walk@),
            Phase::Directory { handle, storage, walk } => PhaseView::Directory {
                handle: *handle,
                storage: *storage,
                walk: walk@,
            },
            Phase::Called => PhaseView::Called,
            Phase::Purge(job) => PhaseView::Purge(*job),
            Phase::PurgeDelete { job, rest } => PhaseView::PurgeDelete { job: *job, rest: rest@ },
            Phase::Upload(job) => PhaseView::Upload(*job),
            Phase::DeleteOld { job, new } => PhaseView::DeleteOld { job: *job, new: *new },
            Phase::RenameNew { job, new } => PhaseView::RenameNew { job: *job, new: *new },
            Phase::DeleteFirst(job) => PhaseView::DeleteFirst(*job),
            Phase::UploadLast(job) => PhaseView::UploadLast(*job),
            Phase::Over => PhaseView::Over,
        }
    }
}

/// What the owner of an operation does next.
#[derive(Debug)]
pub enum Action {
    /// Make this call in the current session, and report its answer.
    Call(DeviceCall),
    /// Bring up a new session, and report how that went.
    Reconnect,
    /// Nothing more: this is the result.
    Return(Result<Reply, DeviceError>),
}

impl View for Action {
    type V = ActionView;

    open spec fn view(&self) -> ActionView {
        match self {
            Action::Call(call) => ActionView::Call(call@),
            Action::Reconnect => ActionView::Reconnect,
            Action::Return(result) => ActionView::Return(result_view(*result)),
        }
    }
}

/// What happened to an operation.
#[derive(Debug)]
pub enum Event {
    /// It is to start.
    Begin,
    /// A new session is up, or could not be brought up.
    Reconnected(Result<(), DeviceError>),
    /// Its call was answered.
    Replied(Result<Reply, DeviceError>),
}

impl View for Event {
    type V = EventView;

    open spec fn view(&self) -> EventView {
        match self {
            Event::Begin => EventView::Begin,
            Event::Reconnected(result) => EventView::Reconnected(*result),
            Event::Replied(result) => EventView::Replied(result_view(*result)),
        }
    }
}

/// An operation in progress.
#[derive(Debug)]
pub struct Operation {
    request: Request,
    recovery: Recovery,
    tried: bool,
    again: bool,
    phase: Phase,
}

impl View for Operation {
    type V = OpView;

    closed spec fn view(&self) -> OpView {
        OpView {
            request: self.request@,
            recovery: self.recovery,
            tried: self.tried,
            again: self.again,
            phase: self.phase@,
        }
    }
}

impl Operation {
    pub fn new(request: Request) -> (op: Self)
        ensures
            op@ == OpView::new(request@),
    {
        Operation {
            request,
            recovery: Recovery::new(),
            tried: false,
            again: false,
            phase: Phase::Idle,
        }
    }

    fn over(&mut self, result: Result<Reply, DeviceError>) -> (action: Action)
        ensures
            final(self)@ == old(self)@.at(PhaseView::Over),
            action@ == ActionView::Return(result_view(result)),
    {
        self.phase = Phase::Over;
        Action::Return(result)
    }

    fn reconnect(&mut self) -> (action: Action)
        ensures
            final(self)@ == old(self)@.at(PhaseView::Idle),
            action@ == ActionView::Reconnect,
    {
        self.phase = Phase::Idle;
        Action::Reconnect
    }

    fn start<C>(&mut self, state: &MountState<C>, link: &Link) -> (action: Action)
        ensures
            (StepView { op: final(self)@, state: state@, action: action@ }) == old(self)@.start(
                state@,
                *link,
            ),
    {
        if link.unplugged {
            return self.reconnect();
        }
        self.again = self.tried;
        self.tried = true;
        let (inode, _) = self.request.subject();
        let resolved = resolve_inode(&state.inodes, &state.storages, inode);
        self.with_subject(state, link, resolved)
    }

    fn fail<C>(&mut self, state: &mut MountState<C>, link: &Link, error: DeviceError) -> (action:
        Action)
        requires
            old(state)@.inodes.generation < u64::MAX,
        ensures
            (StepView { op: final(self)@, state: final(state)@, action: action@ }) == old(
                self,
            )@.fail(old(state)@, *link, error),
    {
        match self.recovery.judge(&error) {
            Verdict::Report => self.over(Err(error)),
            Verdict::Retry => {
                state.invalidate_handles();
                self.start(state, link)
            },
            Verdict::Reconnect => self.reconnect(),
        }
    }

    fn with_subject<C>(&mut self, state: &MountState<C>, link: &Link, resolved: Resolve) -> (action:
        Action)
        ensures
            (StepView { op: final(self)@, state: state@, action: action@ }) == old(
                self,
            )@.with_subject(state@, *link, resolved@),
    {
        proof {
            reveal(OpView::with_subject);
        }
        let (inode, role) = self.request.subject();
        match resolved {
            Resolve::Missing => self.over(Err(DeviceError::NotFound)),
            Resolve::List(walk) => {
                let call = DeviceCall::ListObjects { storage: walk.storage, parent: walk.above };
                self.phase = Phase::Subject(walk);
                Action::Call(call)
            },
            Resolve::Ready => match (
                handle_as(&state.inodes, inode, role),
                find_storage_index(&state.inodes, &state.storages, inode),
            ) {
                (Some(handle), Some(storage)) => match self.request.directory() {
                    None => self.issue(state, link, storage, handle, None),
                    Some(dir) => {
                        let resolved = resolve_inode(&state.inodes, &state.storages, dir);
                        self.with_directory(state, link, storage, handle, resolved)
                    },
                },
                _ => self.over(Err(DeviceError::NotFound)),
            },
        }
    }

    fn with_directory<C>(
        &mut self,
        state: &MountState<C>,
        link: &Link,
        storage: usize,
        handle: Option<ObjectHandle>,
        resolved: Resolve,
    ) -> (action: Action)
        ensures
            (StepView { op: final(self)@, state: state@, action: action@ }) == old(
                self,
            )@.with_directory(state@, *link, storage, handle, resolved@),
    {
        proof {
            reveal(OpView::with_directory);
        }
        match resolved {
            Resolve::List(walk) => {
                let call = DeviceCall::ListObjects { storage: walk.storage, parent: walk.above };
                self.phase = Phase::Directory { handle, storage, walk };
                Action::Call(call)
            },
            Resolve::Ready => {
                let parent = match self.request.directory() {
                    Some(dir) => handle_as(&state.inodes, dir, Role::Parent),
                    None => None,
                };
                match parent {
                    Some(parent) => self.issue(state, link, storage, handle, parent),
                    None => self.over(Err(DeviceError::NotFound)),
                }
            },
            Resolve::Missing => self.over(Err(DeviceError::NotFound)),
        }
    }

    fn issue<C>(
        &mut self,
        state: &MountState<C>,
        link: &Link,
        storage: usize,
        handle: Option<ObjectHandle>,
        parent: Option<ObjectHandle>,
    ) -> (action: Action)
        ensures
            (StepView { op: final(self)@, state: state@, action: action@ }) == old(self)@.issue(
                state@,
                *link,
                storage,
                handle,
                parent,
            ),
    {
        proof {
            reveal(OpView::issue);
        }
        let h = match handle {
            Some(h) => h,
            None => ObjectHandle(0),
        };
        let call = match &self.request {
            Request::List { .. } => DeviceCall::ListObjects { storage, parent: handle },
            Request::CreateFile { name, .. } => DeviceCall::Upload {
                storage,
                parent: handle,
                name: name.clone(),
                size: 0,
            },
            Request::CreateFolder { name, .. } => DeviceCall::CreateFolder {
                storage,
                parent: handle,
                name: name.clone(),
            },
            Request::DeleteFile { .. } => DeviceCall::Delete { storage, handle: h },
            Request::DeleteObject { .. } => DeviceCall::Delete { storage, handle: h },
            Request::Rename { name, .. } => DeviceCall::Rename {
                storage,
                handle: h,
                name: name.clone(),
            },
            Request::Move { .. } => DeviceCall::MoveObject {
                storage,
                handle: h,
                new_parent: match parent {
                    Some(p) => p,
                    None => ObjectHandle(0),
                },
            },
            Request::ReadRange { offset, len, .. } => DeviceCall::ReadRange {
                storage,
                handle: h,
                offset: *offset,
                len: *len,
            },
            Request::Download { .. } => DeviceCall::Download { storage, handle: h },
            Request::Probe { .. } => DeviceCall::GetObjectInfo { storage, handle: h },
            Request::Flush { .. } => {
                let job = FlushJob { storage, parent, old: h };
                if !link.supports_rename {
                    self.phase = Phase::DeleteFirst(job);
                    return Action::Call(DeviceCall::Delete { storage, handle: h });
                } else if self.again {
                    self.phase = Phase::Purge(job);
                    return Action::Call(DeviceCall::ListObjects { storage, parent });
                } else {
                    return self.upload_temp(state, job);
                }
            },
        };
        self.phase = Phase::Called;
        Action::Call(call)
    }

    /// What a flush uploads: inode, name and size.
    fn flushed(&self) -> (flushed: (u64, String, u64))
        ensures
            (flushed.0, flushed.1@, flushed.2) == self@.flushed(),
    {
        match &self.request {
            Request::Flush { inode, name, size, .. } => (*inode, name.clone(), *size),
            _ => {
                let none = String::new();
                assert(none@ =~= Seq::empty());
                (0, none, 0)
            },
        }
    }

    fn upload_temp<C>(&mut self, state: &MountState<C>, job: FlushJob) -> (action: Action)
        ensures
            (StepView { op: final(self)@, state: state@, action: action@ }) == old(
                self,
            )@.upload_temp(state@, job),
    {
        let (_, name, size) = self.flushed();
        let name = temp_upload_name(name.as_str());
        self.phase = Phase::Upload(job);
        Action::Call(DeviceCall::Upload { storage: job.storage, parent: job.parent, name, size })
    }

    fn purge<C>(&mut self, state: &MountState<C>, job: FlushJob, leftovers: Vec<ObjectHandle>) -> (
    action: Action)
        ensures
            (StepView { op: final(self)@, state: state@, action: action@ }) == old(self)@.purge(
                state@,
                job,
                leftovers@,
            ),
    {
        if leftovers.len() == 0 {
            return self.upload_temp(state, job);
        }
        let mut rest = leftovers;
        let handle = rest.remove(0);
        assert(rest@ =~= leftovers@.drop_first());
        self.phase = Phase::PurgeDelete { job, rest };
        Action::Call(DeviceCall::Delete { storage: job.storage, handle })
    }

    fn saved<C>(
        &mut self,
        state: &mut MountState<C>,
        link: &Link,
        new: ObjectHandle,
        name: Option<String>,
    ) -> (action: Action)
        ensures
            (StepView { op: final(self)@, state: final(state)@, action: action@ }) == old(
                self,
            )@.saved(
                old(state)@,
                *link,
                new,
                match name {
                    Some(n) => Some(n@),
                    None => None,
                },
            ),
    {
        let (inode, _, size) = self.flushed();
        if let Some(entry) = state.inodes.get_mut(inode) {
            entry.kind = InodeKind::File { handle: new };
            if let Some(n) = name {
                entry.name = n;
            }
            entry.size = size;
            entry.mtime = link.now;
        }
        self.over(Ok(Reply::Done))
    }

    fn complete<C>(&mut self, state: &mut MountState<C>, reply: Reply) -> (action: Action)
        requires
            reply@ matches ReplyView::Listing(objects) ==> old(state)@.inodes.next_inode
                + objects.len() <= u64::MAX,
        ensures
            (StepView { op: final(self)@, state: final(state)@, action: action@ }) == old(
                self,
            )@.complete(old(state)@, reply@),
    {
        if let Request::List { dir } = self.request {
            if let Reply::Listing(objects) = reply {
                let children = children_of(&objects);
                assert(children@.len() == objects@.len()) by {
                    assert(listed_children(object_views(objects@)).len() == objects@.len());
                }
                state.inodes.sync_children(dir, children.as_slice());
                self.over(Ok(Reply::Done))
            } else {
                self.over(Err(DeviceError::Unrecognized))
            }
        } else {
            self.over(Ok(reply))
        }
    }

    fn subject_listed<C>(
        &mut self,
        state: &mut MountState<C>,
        link: &Link,
        walk: Resolver,
        result: Result<Reply, DeviceError>,
    ) -> (action: Action)
        requires
            old(state)@.inodes.generation < u64::MAX,
        ensures
            (StepView { op: final(self)@, state: final(state)@, action: action@ }) == old(
                self,
            )@.subject_listed(old(state)@, *link, walk@, result_view(result)),
    {
        proof {
            reveal(OpView::subject_listed);
        }
        match result {
            Err(error) => self.fail(state, link, error),
            Ok(Reply::Listing(objects)) => {
                let mut walk = walk;
                if walk.take_listing(&mut state.inodes, &objects) {
                    let resolved = walk.resume(&state.inodes);
                    self.with_subject(state, link, resolved)
                } else {
                    self.over(Err(DeviceError::NotFound))
                }
            },
            Ok(_) => self.over(Err(DeviceError::Unrecognized)),
        }
    }

    fn directory_listed<C>(
        &mut self,
        state: &mut MountState<C>,
        link: &Link,
        storage: usize,
        subject: Option<ObjectHandle>,
        walk: Resolver,
        result: Result<Reply, DeviceError>,
    ) -> (action: Action)
        requires
            old(state)@.inodes.generation < u64::MAX,
        ensures
            (StepView { op: final(self)@, state: final(state)@, action: action@ }) == old(
                self,
            )@.directory_listed(
                old(state)@,
                *link,
                storage,
                subject,
                walk@,
                result_view(result),
            ),
    {
        proof {
            reveal(OpView::directory_listed);
        }
        match result {
            Err(error) => self.fail(state, link, error),
            Ok(Reply::Listing(objects)) => {
                let mut walk = walk;
                if walk.take_listing(&mut state.inodes, &objects) {
                    let resolved = walk.resume(&state.inodes);
                    self.with_directory(state, link, storage, subject, resolved)
                } else {
                    self.over(Err(DeviceError::NotFound))
                }
            },
            Ok(_) => self.over(Err(DeviceError::Unrecognized)),
        }
    }

    fn safe_flush_replied<C>(
        &mut self,
        state: &mut MountState<C>,
        link: &Link,
        phase: Phase,
        result: Result<Reply, DeviceError>,
    ) -> (action: Action)
        requires
            old(state)@.inodes.generation < u64::MAX,
        ensures
            (StepView { op: final(self)@, state: final(state)@, action: action@ }) == old(
                self,
            )@.safe_flush_replied(old(state)@, *link, phase@, result_view(result)),
    {
        proof {
            reveal(OpView::safe_flush_replied);
        }
        let (_, name, _) = self.flushed();
        match phase {
            Phase::Purge(job) => match result {
                Err(_) => self.upload_temp(state, job),
                Ok(Reply::Listing(objects)) => {
                    let leftovers = find_all_named(&objects, &temp_upload_name(name.as_str()));
                    self.purge(state, job, leftovers)
                },
                Ok(_) => self.over(Err(DeviceError::Unrecognized)),
            },
            Phase::PurgeDelete { job, rest } => self.purge(state, job, rest),
            Phase::Upload(job) => match result {
                Err(error) => self.fail(state, link, error),
                Ok(Reply::Created(new)) => {
                    self.phase = Phase::DeleteOld { job, new };
                    Action::Call(DeviceCall::Delete { storage: job.storage, handle: job.old })
                },
                Ok(_) => self.over(Err(DeviceError::Unrecognized)),
            },
            Phase::DeleteOld { job, new } => match result {
                Err(_) => self.saved(state, link, new, Some(temp_upload_name(name.as_str()))),
                Ok(_) => {
                    self.phase = Phase::RenameNew { job, new };
                    Action::Call(DeviceCall::Rename { storage: job.storage, handle: new, name })
                },
            },
            Phase::RenameNew { new, .. } => match result {
                Err(_) => self.saved(state, link, new, Some(temp_upload_name(name.as_str()))),
                Ok(_) => self.saved(state, link, new, None),
            },
            _ => self.over(Err(DeviceError::Unrecognized)),
        }
    }

    fn unsafe_flush_replied<C>(
        &mut self,
        state: &mut MountState<C>,
        link: &Link,
        phase: Phase,
        result: Result<Reply, DeviceError>,
    ) -> (action: Action)
        requires
            old(state)@.inodes.generation < u64::MAX,
        ensures
            (StepView { op: final(self)@, state: final(state)@, action: action@ }) == old(
                self,
            )@.unsafe_flush_replied(old(state)@, *link, phase@, result_view(result)),
    {
        proof {
            reveal(OpView::unsafe_flush_replied);
        }
        let (_, name, size) = self.flushed();
        match result {
            Err(error) => self.fail(state, link, error),
            Ok(reply) => match phase {
                Phase::DeleteFirst(job) => {
                    self.phase = Phase::UploadLast(job);
                    Action::Call(
                        DeviceCall::Upload {
                            storage: job.storage,
                            parent: job.parent,
                            name,
                            size,
                        },
                    )
                },
                Phase::UploadLast(_) => match reply {
                    Reply::Created(new) => self.saved(state, link, new, None),
                    _ => self.over(Err(DeviceError::Unrecognized)),
                },
                _ => self.over(Err(DeviceError::Unrecognized)),
            },
        }
    }

    fn replied<C>(
        &mut self,
        state: &mut MountState<C>,
        link: &Link,
        result: Result<Reply, DeviceError>,
    ) -> (action: Action)
        requires
            old(state)@.inodes.generation < u64::MAX,
            result_view(result) matches Ok(ReplyView::Listing(objects)) ==> old(
                state,
            )@.inodes.next_inode + objects.len() <= u64::MAX,
        ensures
            (StepView { op: final(self)@, state: final(state)@, action: action@ }) == old(
                self,
            )@.replied(old(state)@, *link, result_view(result)),
    {
        let mut phase = Phase::Over;
        std::mem::swap(&mut self.phase, &mut phase);
        assert(self@ == old(self)@.at(PhaseView::Over));
        match phase {
            Phase::Idle | Phase::Over => self.over(Err(DeviceError::Unrecognized)),
            Phase::Subject(walk) => {
                self.subject_listed(state, link, walk, result)
            },
            Phase::Directory { handle, storage, walk } => {
                self.directory_listed(state, link, storage, handle, walk, result)
            },
            Phase::Called => match result {
                Err(error) => self.fail(state, link, error),
                Ok(reply) => self.complete(state, reply),
            },
            Phase::DeleteFirst(_) | Phase::UploadLast(_) => {
                self.unsafe_flush_replied(state, link, phase, result)
            },
            _ => self.safe_flush_replied(state, link, phase, result),
        }
    }

    /// Takes the operation one step further: tells it what happened, and learns what to do next.
    pub fn step<C>(&mut self, state: &mut MountState<C>, link: &Link, event: Event) -> (action:
        Action)
        requires
            old(state)@.inodes.generation < u64::MAX,
            event@ matches EventView::Replied(Ok(ReplyView::Listing(objects))) ==> old(
                state,
            )@.inodes.next_inode + objects.len() <= u64::MAX,
        ensures
            (StepView { op: final(self)@, state: final(state)@, action: action@ }) == old(
                self,
            )@.step(old(state)@, *link, event@),
    {
        match event {
            Event::Begin => self.start(state, link),
            Event::Reconnected(Err(error)) => self.over(Err(error)),
            Event::Reconnected(Ok(())) => {
                if self.recovery.reconnected() {
                    self.start(state, link)
                } else {
                    self.over(Err(DeviceError::Disconnected))
                }
            },
            Event::Replied(result) => self.replied(state, link, result),
        }
    }
}

/// What a request is seen as is the request itself: no two different requests look the same.
pub proof fn requests_are_seen_as_they_are(request: Request)
    ensures
        match (request, request@) {
            (Request::List { dir }, RequestView::List { dir: d }) => d == dir,
            (
                Request::CreateFile { parent, name },
                RequestView::CreateFile { parent: p, name: n },
            ) => p == parent && n == name@,
            (
                Request::CreateFolder { parent, name },
                RequestView::CreateFolder { parent: p, name: n },
            ) => p == parent && n == name@,
            (Request::DeleteFile { inode }, RequestView::DeleteFile { inode: i }) => i == inode,
            (Request::DeleteObject { inode }, RequestView::DeleteObject { inode: i }) => i == inode,
            (
                Request::Rename { inode, name },
                RequestView::Rename { inode: i, name: n },
            ) => i == inode && n == name@,
            (
                Request::Move { inode, new_parent },
                RequestView::Move { inode: i, new_parent: p },
            ) => i == inode && p == new_parent,
            (
                Request::ReadRange { inode, offset, len },
                RequestView::ReadRange { inode: i, offset: o, len: l },
            ) => i == inode && o == offset && l == len,
            (Request::Download { inode }, RequestView::Download { inode: i }) => i == inode,
            (Request::Probe { inode }, RequestView::Probe { inode: i }) => i == inode,
            (
                Request::Flush { inode, parent, name, size },
                RequestView::Flush { inode: i, parent: p, name: n, size: z },
            ) => i == inode && p == parent && n == name@ && z == size,
            _ => false,
        },
{
}

/// What an operation is told and what it says are seen as they are.
pub proof fn events_and_actions_are_seen_as_they_are(event: Event, action: Action)
    ensures
        match (event, event@) {
            (Event::Begin, EventView::Begin) => true,
            (Event::Reconnected(result), EventView::Reconnected(r)) => r == result,
            (Event::Replied(Ok(reply)), EventView::Replied(Ok(r))) => r == reply@,
            (Event::Replied(Err(error)), EventView::Replied(Err(e))) => e == error,
            _ => false,
        },
        match (action, action@) {
            (Action::Call(call), ActionView::Call(c)) => c == call@,
            (Action::Reconnect, ActionView::Reconnect) => true,
            (Action::Return(Ok(reply)), ActionView::Return(Ok(r))) => r == reply@,
            (Action::Return(Err(error)), ActionView::Return(Err(e))) => e == error,
            _ => false,
        },
{
}

} // verus!
