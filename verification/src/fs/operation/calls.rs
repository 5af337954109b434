//! What an operation asks of the device, and what it makes of the answers.
use crate::device_error::DeviceError;
use crate::fs::operation::model::{
    listed_handle, resolve, resume, ActionView, EventView, FlushJob, Link, OpView, PhaseView,
    RequestView, ResolveView, ResolverView, StepView,
};
use crate::fs::protocol::{first_named, CallView, ObjectView, ReplyView};
use crate::fs::recovery::Recovery;
use crate::fs::state::{StateView, StorageView};
use crate::fs::walk::{path_down, storage_index};
use crate::inode::model::TableView;
use crate::inode::{InodeKind, ObjectHandle, FUSE_ROOT_INODE};
use vstd::prelude::*;

verus! {

/// The handle that a table holds for an inode.
pub open spec fn held_handle(table: TableView, inode: u64) -> Option<ObjectHandle> {
    if !table.entries.contains_key(inode) {
        None
    } else {
        match table.entries[inode].kind {
            InodeKind::File { handle } => Some(handle),
            InodeKind::Directory { handle } => Some(handle),
            InodeKind::Root => None,
            InodeKind::Storage { .. } => None,
        }
    }
}

/// Whether what a table says of an inode is of the current session: what has a handle was seen in
/// it.
pub open spec fn is_current(table: TableView, inode: u64) -> bool {
    &&& table.entries.contains_key(inode)
    &&& held_handle(table, inode) is Some ==> table.entries[inode].generation == table.generation
}

/// Whether `inode` is a directory that things can be in, and `parent` is how the device is told so:
/// by its handle, or by none at the root of a storage.
pub open spec fn is_told_as(table: TableView, inode: u64, parent: Option<ObjectHandle>) -> bool {
    &&& table.entries.contains_key(inode)
    &&& match table.entries[inode].kind {
        InodeKind::Storage { .. } => parent is None,
        InodeKind::Directory { handle } => parent == Some(handle),
        _ => false,
    }
}

/// Whether a walk lists where it has to: below the node before the one it stands at, or at the root
/// of the storage where that is the first.
pub open spec fn stands_right(table: TableView, walk: ResolverView) -> bool {
    &&& 0 <= walk.at < walk.chain.len()
    &&& table.entries.contains_key(walk.chain[walk.at])
    &&& walk.above == if walk.at == 0 {
        None
    } else {
        held_handle(table, walk.chain[walk.at - 1])
    }
    &&& walk.at > 0 ==> walk.above is Some
}

proof fn lemma_resume(table: TableView, walk: ResolverView)
    requires
        0 <= walk.at <= walk.chain.len(),
        walk.above == if walk.at == 0 {
            None
        } else {
            held_handle(table, walk.chain[walk.at - 1])
        },
        walk.at > 0 ==> walk.above is Some,
    ensures
        match resume(table, walk) {
            ResolveView::List(next) => {
                &&& stands_right(table, next)
                &&& next.chain == walk.chain
                &&& next.storage == walk.storage
                &&& walk.at <= next.at
                &&& !is_current(table, walk.chain[next.at])
                &&& forall|i: int|
                    walk.at <= i < next.at ==> is_current(table, #[trigger] walk.chain[i])
            },
            ResolveView::Ready => forall|i: int|
                walk.at <= i < walk.chain.len() ==> is_current(table, #[trigger] walk.chain[i])
                    && held_handle(table, walk.chain[i]) is Some,
            ResolveView::Missing => exists|i: int|
                walk.at <= i < walk.chain.len() && held_handle(
                    table,
                    #[trigger] walk.chain[i],
                ) is None,
        },
    decreases walk.chain.len() - walk.at,
{
    if walk.at < walk.chain.len() {
        let node = walk.chain[walk.at];
        if table.entries.contains_key(node) && table.fresh(node) {
            if let Some(handle) = held_handle(table, node) {
                let next = ResolverView { at: walk.at + 1, above: Some(handle), ..walk };
                lemma_resume(table, next);
                assert(resume(table, walk) == resume(table, next));
                assert(is_current(table, walk.chain[walk.at]));
                if resume(table, next) is Missing {
                    let i = choose|i: int|
                        next.at <= i < next.chain.len() && held_handle(
                            table,
                            #[trigger] next.chain[i],
                        ) is None;
                    assert(held_handle(table, walk.chain[i]) is None);
                }
            } else {
                assert(held_handle(table, walk.chain[walk.at]) is None);
            }
        } else if !table.entries.contains_key(node) {
            assert(held_handle(table, walk.chain[walk.at]) is None);
        }
    }
}

/// What it takes to use an inode's handle: nothing where it is current. Otherwise the path down from
/// its storage is walked: what is current on it is passed, and the first node that is not is looked
/// for in the directory before it.
pub proof fn stale_handles_are_looked_for_below_their_parents(
    table: TableView,
    storages: Seq<StorageView>,
    inode: u64,
)
    ensures
        is_current(table, inode) ==> resolve(table, storages, inode) is Ready,
        !is_current(table, inode) ==> match (
            path_down(table.entries, inode, table.entries.len()),
            storage_index(table, storages, inode),
            resolve(table, storages, inode),
        ) {
            (None, _, resolved) => resolved is Missing,
            (_, None, resolved) => resolved is Missing,
            (Some(path), Some(storage), ResolveView::List(walk)) => {
                &&& walk.chain == path
                &&& walk.storage == storage as usize
                &&& stands_right(table, walk)
                &&& !is_current(table, path[walk.at])
                &&& forall|i: int| 0 <= i < walk.at ==> is_current(table, #[trigger] path[i])
            },
            (Some(path), Some(_), ResolveView::Ready) => forall|i: int|
                0 <= i < path.len() ==> is_current(table, #[trigger] path[i]),
            (Some(path), Some(_), ResolveView::Missing) => exists|i: int|
                0 <= i < path.len() && held_handle(table, #[trigger] path[i]) is None,
        },
{
    if !is_current(table, inode) {
        if let (Some(path), Some(storage)) = (
            path_down(table.entries, inode, table.entries.len()),
            storage_index(table, storages, inode),
        ) {
            lemma_resume(
                table,
                ResolverView { chain: path, at: 0, above: None, storage: storage as usize },
            );
        }
    }
}

/// A walk that goes on after fresh nodes still lists where it has to, and ends only once every node
/// is current.
pub proof fn walks_go_on_below_what_they_passed(table: TableView, walk: ResolverView)
    requires
        0 < walk.at <= walk.chain.len(),
        held_handle(table, walk.chain[walk.at - 1]) is Some,
        walk.above == held_handle(table, walk.chain[walk.at - 1]),
    ensures
        match resume(table, walk) {
            ResolveView::List(next) => {
                &&& stands_right(table, next)
                &&& next.chain == walk.chain
                &&& next.storage == walk.storage
                &&& walk.at <= next.at
                &&& !is_current(table, walk.chain[next.at])
            },
            ResolveView::Ready => forall|i: int|
                walk.at <= i < walk.chain.len() ==> is_current(table, #[trigger] walk.chain[i]),
            ResolveView::Missing => exists|i: int|
                walk.at <= i < walk.chain.len() && held_handle(
                    table,
                    #[trigger] walk.chain[i],
                ) is None,
        },
{
    lemma_resume(table, walk);
}

/// Whether a step that has an operation wait for a listing on its way asks for that listing.
pub open spec fn asks_on_the_way<C>(step: StepView<C>) -> bool {
    match step.op.phase {
        PhaseView::Subject(walk) => step.action == ActionView::Call(
            CallView::ListObjects { storage: walk.storage as int, parent: walk.above },
        ),
        PhaseView::Directory { walk, .. } => step.action == ActionView::Call(
            CallView::ListObjects { storage: walk.storage as int, parent: walk.above },
        ),
        _ => true,
    }
}

proof fn lemma_directory_asks<C>(
    op: OpView,
    state: StateView<C>,
    link: Link,
    storage: usize,
    handle: Option<ObjectHandle>,
    resolved: ResolveView,
)
    ensures
        asks_on_the_way(op.with_directory(state, link, storage, handle, resolved)),
{
    reveal(OpView::with_directory);
    reveal(OpView::issue);
}

proof fn lemma_subject_asks<C>(op: OpView, state: StateView<C>, link: Link, resolved: ResolveView)
    ensures
        asks_on_the_way(op.with_subject(state, link, resolved)),
{
    reveal(OpView::with_subject);
    reveal(OpView::issue);
    if let (Some(handle), Some(storage), Some(dir)) = (
        crate::fs::operation::model::role_handle(
            state.inodes,
            op.request.subject().0,
            op.request.subject().1,
        ),
        storage_index(state.inodes, state.storages, op.request.subject().0),
        op.request.directory(),
    ) {
        lemma_directory_asks(
            op,
            state,
            link,
            storage as usize,
            handle,
            resolve(state.inodes, state.storages, dir),
        );
    }
}

proof fn lemma_start_asks<C>(op: OpView, state: StateView<C>, link: Link)
    ensures
        asks_on_the_way(op.start(state, link)),
{
    lemma_subject_asks(
        OpView { tried: true, again: op.tried, ..op },
        state,
        link,
        resolve(state.inodes, state.storages, op.request.subject().0),
    );
}

/// While an operation is on its way to a handle, the device is asked to list what the walk says.
pub proof fn walks_ask_for_the_listing_they_need<C>(
    op: OpView,
    state: StateView<C>,
    link: Link,
    event: EventView,
)
    ensures
        asks_on_the_way(op.step(state, link, event)),
{
    match event {
        EventView::Begin => {
            lemma_start_asks(op, state, link);
        },
        EventView::Reconnected(_) => {
            lemma_start_asks(
                OpView { recovery: op.recovery.next_session(), ..op },
                state,
                link,
            );
        },
        EventView::Replied(result) => {
            let over = op.at(PhaseView::Over);
            if let Err(error) = result {
                let spent = OpView {
                    recovery: over.recovery.spent(over.recovery.verdict(error)),
                    ..over
                };
                lemma_start_asks(spent, state.invalidated(), link);
            }
            match op.phase {
                PhaseView::Subject(walk) => {
                    reveal(OpView::subject_listed);
                    if let Ok(ReplyView::Listing(objects)) = result {
                        if let Some(handle) = listed_handle(state.inodes, walk, objects) {
                            let table = state.inodes.set_handle(walk.chain[walk.at], handle);
                            let ahead = ResolverView {
                                at: walk.at + 1,
                                above: Some(handle),
                                ..walk
                            };
                            lemma_subject_asks(
                                over,
                                StateView { inodes: table, ..state },
                                link,
                                resume(table, ahead),
                            );
                        }
                    }
                },
                PhaseView::Directory { handle: h, storage, walk } => {
                    reveal(OpView::directory_listed);
                    if let Ok(ReplyView::Listing(objects)) = result {
                        if let Some(handle) = listed_handle(state.inodes, walk, objects) {
                            let table = state.inodes.set_handle(walk.chain[walk.at], handle);
                            let ahead = ResolverView {
                                at: walk.at + 1,
                                above: Some(handle),
                                ..walk
                            };
                            lemma_directory_asks(
                                over,
                                StateView { inodes: table, ..state },
                                link,
                                storage,
                                h,
                                resume(table, ahead),
                            );
                        }
                    }
                },
                _ => {
                    reveal(OpView::safe_flush_replied);
                    reveal(OpView::unsafe_flush_replied);
                },
            }
        },
    }
}

/// The first object of a name is the one that is found, and nothing is where no object bears it.
pub proof fn the_first_of_a_name_is_found(objects: Seq<ObjectView>, name: Seq<char>)
    ensures
        match first_named(objects, name) {
            Some(handle) => exists|i: int|
                0 <= i < objects.len() && (#[trigger] objects[i]).filename == name
                    && objects[i].handle == handle && forall|j: int|
                    0 <= j < i ==> (#[trigger] objects[j]).filename != name,
            None => forall|i: int|
                0 <= i < objects.len() ==> (#[trigger] objects[i]).filename != name,
        },
    decreases objects.len(),
{
    if objects.len() > 0 {
        let rest = objects.drop_first();
        the_first_of_a_name_is_found(rest, name);
        if objects[0].filename == name {
            assert(objects[0].handle == objects[0].handle);
        } else {
            match first_named(rest, name) {
                Some(handle) => {
                    let i = choose|i: int|
                        0 <= i < rest.len() && (#[trigger] rest[i]).filename == name
                            && rest[i].handle == handle && forall|j: int|
                            0 <= j < i ==> (#[trigger] rest[j]).filename != name;
                    assert(objects[i + 1].filename == name);
                    assert forall|j: int| 0 <= j < i + 1 implies (#[trigger] objects[j]).filename
                        != name by {
                        if j > 0 {
                            assert(rest[j - 1] == objects[j]);
                        }
                    }
                },
                None => {
                    assert forall|i: int| 0 <= i < objects.len() implies (
                    #[trigger] objects[i]).filename != name by {
                        if i > 0 {
                            assert(rest[i - 1] == objects[i]);
                        }
                    }
                },
            }
        }
    }
}

/// What a listing on the way to the subject brings: the node that was looked for gets the handle
/// that the listing gives its name, of the current session, and the walk goes on below it. Where no
/// object bears its name it is not found.
pub proof fn listings_on_the_way_give_handles<C>(
    op: OpView,
    state: StateView<C>,
    link: Link,
    walk: ResolverView,
    objects: Seq<ObjectView>,
    i: int,
)
    requires
        op.phase == PhaseView::Subject(walk),
        stands_right(state.inodes, walk),
        held_handle(state.inodes, walk.chain[walk.at]) is Some,
        0 <= i < objects.len() ==> objects[i].filename
            == state.inodes.entries[walk.chain[walk.at]].name,
        forall|j: int|
            0 <= j < objects.len() && j < i ==> (#[trigger] objects[j]).filename
                != state.inodes.entries[walk.chain[walk.at]].name,
        0 <= i <= objects.len(),
    ensures
        ({
            let node = walk.chain[walk.at];
            let step = op.step(state, link, EventView::Replied(Ok(ReplyView::Listing(objects))));
            let table = step.state.inodes;
            if i < objects.len() {
                &&& held_handle(table, node) == Some(objects[i].handle)
                &&& is_current(table, node)
                &&& forall|other: u64|
                    other != node && state.inodes.entries.contains_key(other)
                        ==> #[trigger] table.entries[other] == state.inodes.entries[other]
                &&& table.names == state.inodes.names
                &&& table.entries[node].name == state.inodes.entries[node].name
                &&& table.entries[node].parent == state.inodes.entries[node].parent
                &&& step.op.phase matches PhaseView::Subject(next) ==> stands_right(table, next)
                    && next.chain == walk.chain && next.storage == walk.storage && walk.at < next.at
            } else {
                step.action == ActionView::Return(Err(DeviceError::NotFound)) && step.state == state
            }
        }),
{
    let node = walk.chain[walk.at];
    let name = state.inodes.entries[node].name;
    lemma_found_at(objects, name, i);
    reveal(OpView::subject_listed);
    let over = op.at(PhaseView::Over);
    if i < objects.len() {
        let handle = objects[i].handle;
        let table = state.inodes.set_handle(node, handle);
        let ahead = ResolverView { at: walk.at + 1, above: Some(handle), ..walk };
        lemma_resume(table, ahead);
        lemma_subject(over, StateView { inodes: table, ..state }, link, resume(table, ahead));
    }
}

/// Whether a call is what a request is about, on the objects that the table holds for its inodes,
/// in the storage that they are on.
pub open spec fn is_about<C>(call: CallView, request: RequestView, state: StateView<C>) -> bool {
    let table = state.inodes;
    match (request, call) {
        (RequestView::List { dir }, CallView::ListObjects { storage, parent }) => {
            &&& storage_index(table, state.storages, dir) == Some(storage)
            &&& is_told_as(table, dir, parent)
        },
        (
            RequestView::CreateFile { parent: dir, name },
            CallView::Upload { storage, parent, name: called, size },
        ) => {
            &&& storage_index(table, state.storages, dir) == Some(storage)
            &&& is_told_as(table, dir, parent)
            &&& called == name
            &&& size == 0
        },
        (
            RequestView::CreateFolder { parent: dir, name },
            CallView::CreateFolder { storage, parent, name: called },
        ) => {
            &&& storage_index(table, state.storages, dir) == Some(storage)
            &&& is_told_as(table, dir, parent)
            &&& called == name
        },
        (RequestView::DeleteFile { inode }, CallView::Delete { storage, handle }) => {
            &&& storage_index(table, state.storages, inode) == Some(storage)
            &&& table.entries[inode].kind == InodeKind::File { handle }
        },
        (RequestView::DeleteObject { inode }, CallView::Delete { storage, handle }) => {
            &&& storage_index(table, state.storages, inode) == Some(storage)
            &&& held_handle(table, inode) == Some(handle)
        },
        (
            RequestView::Rename { inode, name },
            CallView::Rename { storage, handle, name: called },
        ) => {
            &&& storage_index(table, state.storages, inode) == Some(storage)
            &&& held_handle(table, inode) == Some(handle)
            &&& called == name
        },
        (
            RequestView::ReadRange { inode, offset, len },
            CallView::ReadRange { storage, handle, offset: from, len: size },
        ) => {
            &&& storage_index(table, state.storages, inode) == Some(storage)
            &&& table.entries[inode].kind == InodeKind::File { handle }
            &&& from == offset
            &&& size == len
        },
        (RequestView::Download { inode }, CallView::Download { storage, handle }) => {
            &&& storage_index(table, state.storages, inode) == Some(storage)
            &&& table.entries[inode].kind == InodeKind::File { handle }
        },
        (RequestView::Probe { inode }, CallView::GetObjectInfo { storage, handle }) => {
            &&& storage_index(table, state.storages, inode) == Some(storage)
            &&& table.entries[inode].kind == InodeKind::File { handle }
        },
        _ => false,
    }
}

/// The inode that a request is about.
pub open spec fn asked_about(request: RequestView) -> u64 {
    match request {
        RequestView::List { dir } => dir,
        RequestView::CreateFile { parent, .. } => parent,
        RequestView::CreateFolder { parent, .. } => parent,
        RequestView::DeleteFile { inode } => inode,
        RequestView::DeleteObject { inode } => inode,
        RequestView::Rename { inode, .. } => inode,
        RequestView::Move { inode, .. } => inode,
        RequestView::ReadRange { inode, .. } => inode,
        RequestView::Download { inode } => inode,
        RequestView::Probe { inode } => inode,
        RequestView::Flush { inode, .. } => inode,
    }
}

/// Whether a request needs the handles of one inode alone.
pub open spec fn needs_one(request: RequestView) -> bool {
    !(request is Move) && !(request is Flush)
}

proof fn lemma_index_in_range(table: TableView, storages: Seq<StorageView>, inode: u64)
    ensures
        storage_index(table, storages, inode) matches Some(i) ==> 0 <= i < storages.len(),
{
    crate::fs::walk::storages_are_found_by_their_number(table, storages, inode);
}

proof fn lemma_subject<C>(op: OpView, state: StateView<C>, link: Link, resolved: ResolveView)
    ensures
        ({
            let step = op.with_subject(state, link, resolved);
            &&& step.state == state
            &&& step.op.request == op.request
            &&& resolved is Missing ==> step.action == ActionView::Return(
                Err(DeviceError::NotFound),
            )
            &&& resolved matches ResolveView::List(walk) ==> step.op.phase == PhaseView::Subject(
                walk,
            )
            &&& !(resolved is List) ==> !(step.op.phase is Subject)
            &&& step.op.phase is Called ==> resolved is Ready && step.action is Call
            &&& step.op.phase is Called && needs_one(op.request) && state.storages.len()
                <= usize::MAX ==> is_about(step.action->Call_0, op.request, state)
        }),
{
    reveal(OpView::with_subject);
    reveal(OpView::with_directory);
    reveal(OpView::issue);
    lemma_index_in_range(state.inodes, state.storages, asked_about(op.request));
}

/// Every call that an operation makes for its request's own sake is what the request asks for: the
/// directory that was asked for is listed or filled, the file that was asked for is read or
/// deleted, by the handle that the table holds for it, which is of the current session.
pub proof fn calls_are_about_the_request<C>(
    op: OpView,
    state: StateView<C>,
    link: Link,
    event: EventView,
)
    requires
        needs_one(op.request),
        state.storages.len() <= usize::MAX,
        op.phase matches PhaseView::Subject(walk) ==> stands_right(state.inodes, walk)
            && walk.chain.last() == asked_about(op.request) && held_handle(
            state.inodes,
            walk.chain[walk.at],
        ) is Some,
        op.step(state, link, event).op.phase is Called,
    ensures
        ({
            let step = op.step(state, link, event);
            &&& step.action matches ActionView::Call(call) && is_about(
                call,
                op.request,
                step.state,
            )
            &&& is_current(step.state.inodes, asked_about(op.request))
        }),
{
    let step = op.step(state, link, event);
    let inode = asked_about(op.request);
    reveal(OpView::subject_listed);
    reveal(OpView::directory_listed);
    reveal(OpView::safe_flush_replied);
    reveal(OpView::unsafe_flush_replied);
    match event {
        EventView::Begin => {
            lemma_begins(op, state, link);
        },
        EventView::Reconnected(_) => {
            lemma_begins(
                OpView { recovery: op.recovery.next_session(), ..op },
                state,
                link,
            );
        },
        EventView::Replied(result) => {
            let over = op.at(PhaseView::Over);
            if let Err(error) = result {
                let spent = OpView {
                    recovery: over.recovery.spent(over.recovery.verdict(error)),
                    ..over
                };
                lemma_begins(spent, state.invalidated(), link);
            } else if let PhaseView::Subject(walk) = op.phase {
                if let Ok(ReplyView::Listing(objects)) = result {
                    if let Some(handle) = listed_handle(state.inodes, walk, objects) {
                        let node = walk.chain[walk.at];
                        let table = state.inodes.set_handle(node, handle);
                        let ahead = ResolverView { at: walk.at + 1, above: Some(handle), ..walk };
                        let next = StateView { inodes: table, ..state };
                        lemma_resume(table, ahead);
                        lemma_subject(over, next, link, resume(table, ahead));
                        let last = walk.chain.len() - 1;
                        assert(walk.chain[last] == inode);
                        assert(is_current(table, walk.chain[last])) by {
                            if walk.at == last {
                                assert(is_current(table, node));
                            }
                        }
                    }
                }
            } else {
                lemma_only_walks_call(op, state, link, result);
            }
        },
    }
}

proof fn lemma_only_walks_call<C>(
    op: OpView,
    state: StateView<C>,
    link: Link,
    result: Result<ReplyView, DeviceError>,
)
    requires
        result is Ok,
        needs_one(op.request),
        !(op.phase is Subject),
    ensures
        !(op.step(state, link, EventView::Replied(result)).op.phase is Called),
{
    reveal(OpView::with_directory);
    reveal(OpView::issue);
    reveal(OpView::directory_listed);
    reveal(OpView::safe_flush_replied);
    reveal(OpView::unsafe_flush_replied);
}

proof fn lemma_begins<C>(op: OpView, state: StateView<C>, link: Link)
    requires
        needs_one(op.request),
        state.storages.len() <= usize::MAX,
    ensures
        ({
            let step = op.start(state, link);
            &&& step.state == state
            &&& step.op.phase is Called ==> {
                &&& step.action matches ActionView::Call(call) && is_about(call, op.request, state)
                &&& is_current(state.inodes, asked_about(op.request))
            }
        }),
{
    let inode = asked_about(op.request);
    if !link.unplugged {
        let tried = OpView { tried: true, again: op.tried, ..op };
        let resolved = resolve(state.inodes, state.storages, inode);
        lemma_subject(tried, state, link, resolved);
        stale_handles_are_looked_for_below_their_parents(state.inodes, state.storages, inode);
        if resolved is Ready && !is_current(state.inodes, inode) {
            let path = path_down(state.inodes.entries, inode, state.inodes.entries.len())->0;
            crate::fs::walk::path_leads_down(
                state.inodes.entries,
                inode,
                state.inodes.entries.len(),
            );
            assert(path.last() == inode);
            assert(is_current(state.inodes, path[path.len() - 1]));
        }
    }
}

/// An operation on what is current asks for nothing else first: it begins with the call that its
/// request is about, or says at once that there is nothing to ask about. While the cable is out it
/// asks for a new session instead.
pub proof fn current_handles_are_used_at_once<C>(op: OpView, state: StateView<C>, link: Link)
    requires
        needs_one(op.request),
        state.storages.len() <= usize::MAX,
        is_current(state.inodes, asked_about(op.request)),
    ensures
        ({
            let step = op.step(state, link, EventView::Begin);
            let kind = state.inodes.entries[asked_about(op.request)].kind;
            let fits = match op.request {
                RequestView::List { .. } => kind is Directory || kind is Storage,
                RequestView::CreateFile { .. } => kind is Directory || kind is Storage,
                RequestView::CreateFolder { .. } => kind is Directory || kind is Storage,
                RequestView::DeleteObject { .. } => kind is File || kind is Directory,
                RequestView::Rename { .. } => kind is File || kind is Directory,
                _ => kind is File,
            };
            &&& step.state == state
            &&& if link.unplugged {
                step.action is Reconnect
            } else if fits && storage_index(
                state.inodes,
                state.storages,
                asked_about(op.request),
            ) is Some {
                step.action matches ActionView::Call(call) && is_about(call, op.request, state)
            } else {
                step.action == ActionView::Return(Err(DeviceError::NotFound))
            }
        }),
{
    reveal(OpView::with_subject);
    reveal(OpView::issue);
    lemma_index_in_range(state.inodes, state.storages, asked_about(op.request));
}

/// A move of a current object into a current directory asks the device to move that object there:
/// below the directory's handle, or below the root where the directory is a storage.
pub proof fn moves_name_both_ends<C>(op: OpView, state: StateView<C>, link: Link)
    requires
        op.request is Move,
        !link.unplugged,
        state.storages.len() <= usize::MAX,
        is_current(state.inodes, op.request->Move_inode),
        is_current(state.inodes, op.request->Move_new_parent),
    ensures
        ({
            let (inode, dir) = (op.request->Move_inode, op.request->Move_new_parent);
            let step = op.step(state, link, EventView::Begin);
            let table = state.inodes;
            &&& step.state == state
            &&& match (
                held_handle(table, inode),
                storage_index(table, state.storages, inode),
                table.entries[dir].kind,
            ) {
                (Some(handle), Some(storage), InodeKind::Directory { handle: new_parent }) => {
                    step.action == ActionView::Call(
                        CallView::MoveObject { storage, handle, new_parent },
                    )
                },
                (Some(handle), Some(storage), InodeKind::Storage { .. }) => step.action
                    == ActionView::Call(
                    CallView::MoveObject { storage, handle, new_parent: ObjectHandle(0) },
                ),
                _ => step.action == ActionView::Return(Err(DeviceError::NotFound)),
            }
        }),
{
    reveal(OpView::with_subject);
    reveal(OpView::with_directory);
    reveal(OpView::issue);
    lemma_index_in_range(state.inodes, state.storages, op.request->Move_inode);
}

/// How a flush of a current file in a current directory begins. On a device that can rename, the
/// bytes go up next to the file under a temporary name, once what an earlier attempt may have left
/// is looked for. On any other the file goes first.
pub proof fn flushes_begin_beside_their_file<C>(op: OpView, state: StateView<C>, link: Link)
    requires
        op.request is Flush,
        !link.unplugged,
        state.storages.len() <= usize::MAX,
        is_current(state.inodes, op.request->Flush_inode),
        is_current(state.inodes, op.request->Flush_parent),
        state.inodes.entries[op.request->Flush_inode].kind is File,
        state.inodes.entries[op.request->Flush_parent].kind is Directory
            || state.inodes.entries[op.request->Flush_parent].kind is Storage,
        storage_index(state.inodes, state.storages, op.request->Flush_inode) is Some,
    ensures
        ({
            let step = op.step(state, link, EventView::Begin);
            let storage = storage_index(
                state.inodes,
                state.storages,
                op.request->Flush_inode,
            )->0;
            let job = FlushJob {
                storage: storage as usize,
                parent: held_handle(state.inodes, op.request->Flush_parent),
                old: held_handle(state.inodes, op.request->Flush_inode)->0,
            };
            &&& step.state == state
            &&& if !link.supports_rename {
                &&& step.op.phase == PhaseView::DeleteFirst(job)
                &&& step.action == ActionView::Call(
                    CallView::Delete { storage, handle: job.old },
                )
            } else if op.tried {
                &&& step.op.phase == PhaseView::Purge(job)
                &&& step.action == ActionView::Call(
                    CallView::ListObjects { storage, parent: job.parent },
                )
            } else {
                &&& step.op.phase == PhaseView::Upload(job)
                &&& step.action == ActionView::Call(
                    CallView::Upload {
                        storage,
                        parent: job.parent,
                        name: ".~tmp~"@ + op.request->Flush_name,
                        size: op.request->Flush_size,
                    },
                )
            }
        }),
{
    reveal(OpView::with_subject);
    reveal(OpView::with_directory);
    reveal(OpView::issue);
    lemma_index_in_range(state.inodes, state.storages, op.request->Flush_inode);
}

/// The handles of all objects of a name are those that are found for it, in order.
pub proof fn all_of_a_name_are_found(objects: Seq<ObjectView>, name: Seq<char>)
    ensures
        forall|h: ObjectHandle| #[trigger]
            crate::fs::protocol::all_named(objects, name).contains(h) <==> exists|i: int|
                0 <= i < objects.len() && (#[trigger] objects[i]).filename == name
                    && objects[i].handle == h,
    decreases objects.len(),
{
    if objects.len() > 0 {
        let init = objects.drop_last();
        let found = crate::fs::protocol::all_named(objects, name);
        let before = crate::fs::protocol::all_named(init, name);
        all_of_a_name_are_found(init, name);
        assert forall|h: ObjectHandle| #[trigger] found.contains(h) <==> exists|i: int|
            0 <= i < objects.len() && (#[trigger] objects[i]).filename == name && objects[i].handle
                == h by {
            if found.contains(h) {
                let k = found.index_of(h);
                if k < before.len() {
                    assert(before[k] == h);
                    assert(before.contains(h));
                    let i = choose|i: int|
                        0 <= i < init.len() && (#[trigger] init[i]).filename == name
                            && init[i].handle == h;
                    assert(objects[i].filename == name);
                } else {
                    assert(objects[objects.len() - 1].filename == name);
                }
            }
            if exists|i: int|
                0 <= i < objects.len() && (#[trigger] objects[i]).filename == name
                    && objects[i].handle == h {
                let i = choose|i: int|
                    0 <= i < objects.len() && (#[trigger] objects[i]).filename == name
                        && objects[i].handle == h;
                if i < init.len() {
                    assert(init[i].filename == name);
                    assert(before.contains(h));
                    assert(found[before.index_of(h)] == h);
                } else {
                    assert(found.last() == h);
                }
            }
        }
    }
}

/// How a flush on a device that can rename goes on: leftovers of the temporary name go, and nothing
/// else does; then the bytes go up; then the old object goes; then the new one takes its name.
pub proof fn safe_flushes_go_step_by_step<C>(
    op: OpView,
    state: StateView<C>,
    link: Link,
    reply: ReplyView,
)
    requires
        op.request is Flush,
    ensures
        ({
            let name = op.request->Flush_name;
            let temp = ".~tmp~"@ + name;
            let step = op.step(state, link, EventView::Replied(Ok(reply)));
            let upload = |job: FlushJob|
                CallView::Upload {
                    storage: job.storage as int,
                    parent: job.parent,
                    name: temp,
                    size: op.request->Flush_size,
                };
            match op.phase {
                PhaseView::Purge(job) => match reply {
                    ReplyView::Listing(objects) => {
                        &&& step.state == state
                        &&& if exists|i: int|
                            0 <= i < objects.len() && (#[trigger] objects[i]).filename == temp {
                            &&& step.action matches ActionView::Call(
                                CallView::Delete { storage, handle },
                            ) && storage == job.storage && exists|i: int|
                                0 <= i < objects.len() && (#[trigger] objects[i]).filename == temp
                                    && objects[i].handle == handle
                            &&& step.op.phase matches PhaseView::PurgeDelete { job: j, rest }
                                && j == job && forall|h: ObjectHandle| #[trigger]
                                rest.contains(h) ==> exists|i: int|
                                    0 <= i < objects.len() && (#[trigger] objects[i]).filename
                                        == temp && objects[i].handle == h
                        } else {
                            &&& step.op.phase == PhaseView::Upload(job)
                            &&& step.action == ActionView::Call(upload(job))
                        }
                    },
                    _ => true,
                },
                PhaseView::PurgeDelete { job, rest } => {
                    &&& step.state == state
                    &&& if rest.len() == 0 {
                        &&& step.op.phase == PhaseView::Upload(job)
                        &&& step.action == ActionView::Call(upload(job))
                    } else {
                        &&& step.op.phase == (PhaseView::PurgeDelete {
                            job,
                            rest: rest.drop_first(),
                        })
                        &&& step.action == ActionView::Call(
                            CallView::Delete { storage: job.storage as int, handle: rest[0] },
                        )
                    }
                },
                PhaseView::Upload(job) => reply matches ReplyView::Created(new) ==> {
                    &&& step.state == state
                    &&& step.op.phase == (PhaseView::DeleteOld { job, new })
                    &&& step.action == ActionView::Call(
                        CallView::Delete { storage: job.storage as int, handle: job.old },
                    )
                },
                PhaseView::DeleteOld { job, new } => {
                    &&& step.state == state
                    &&& step.op.phase == (PhaseView::RenameNew { job, new })
                    &&& step.action == ActionView::Call(
                        CallView::Rename { storage: job.storage as int, handle: new, name },
                    )
                },
                PhaseView::DeleteFirst(job) => {
                    &&& step.state == state
                    &&& step.op.phase == PhaseView::UploadLast(job)
                    &&& step.action == ActionView::Call(
                        CallView::Upload {
                            storage: job.storage as int,
                            parent: job.parent,
                            name,
                            size: op.request->Flush_size,
                        },
                    )
                },
                _ => true,
            }
        }),
{
    reveal(OpView::safe_flush_replied);
    reveal(OpView::unsafe_flush_replied);
    if let (PhaseView::Purge(job), ReplyView::Listing(objects)) = (op.phase, reply) {
        let temp = ".~tmp~"@ + op.request->Flush_name;
        let found = crate::fs::protocol::all_named(objects, temp);
        all_of_a_name_are_found(objects, temp);
        if found.len() > 0 {
            assert(found.contains(found[0]));
            let i = choose|i: int|
                0 <= i < objects.len() && (#[trigger] objects[i]).filename == temp
                    && objects[i].handle == found[0];
            assert(objects[i].filename == temp);
            assert forall|h: ObjectHandle| #[trigger]
                found.drop_first().contains(h) implies found.contains(h) by {
                assert(found[found.drop_first().index_of(h) + 1] == h);
            }
        } else if exists|i: int|
            0 <= i < objects.len() && (#[trigger] objects[i]).filename == temp {
            let i = choose|i: int|
                0 <= i < objects.len() && (#[trigger] objects[i]).filename == temp;
            assert(found.contains(objects[i].handle));
        }
    }
}

/// What a flush leaves when it returns success: the file is the object that its upload created, as
/// long as what was uploaded, dated now, and every other inode is as it was. It keeps its name where
/// the new object has it, and says the temporary one where the new object kept that.
pub proof fn flushed_files_are_what_was_uploaded<C>(
    op: OpView,
    state: StateView<C>,
    link: Link,
    result: Result<ReplyView, DeviceError>,
)
    requires
        op.request is Flush,
        op.phase is UploadLast || op.phase is DeleteOld || op.phase is RenameNew,
        op.step(state, link, EventView::Replied(result)).action is Return,
    ensures
        ({
            let inode = op.request->Flush_inode;
            let step = op.step(state, link, EventView::Replied(result));
            let table = step.state.inodes;
            let new = match (op.phase, result) {
                (PhaseView::UploadLast(_), Ok(ReplyView::Created(h))) => Some(h),
                (PhaseView::DeleteOld { new, .. }, _) => Some(new),
                (PhaseView::RenameNew { new, .. }, _) => Some(new),
                _ => None,
            };
            &&& step.action->Return_0 is Ok <==> new is Some
            &&& new matches Some(handle) ==> {
                &&& step.action == ActionView::Return(Ok(ReplyView::Done))
                &&& state.inodes.entries.contains_key(inode) ==> {
                    let entry = table.entries[inode];
                    &&& entry.kind == InodeKind::File { handle }
                    &&& entry.size == op.request->Flush_size
                    &&& entry.mtime == link.now
                    &&& entry.inode == state.inodes.entries[inode].inode
                    &&& entry.parent == state.inodes.entries[inode].parent
                    &&& entry.generation == state.inodes.entries[inode].generation
                    &&& entry.atime == state.inodes.entries[inode].atime
                    &&& entry.name == if result is Ok {
                        state.inodes.entries[inode].name
                    } else {
                        ".~tmp~"@ + op.request->Flush_name
                    }
                }
                &&& table.entries.dom() == state.inodes.entries.dom()
                &&& forall|other: u64|
                    other != inode && state.inodes.entries.contains_key(other)
                        ==> #[trigger] table.entries[other] == state.inodes.entries[other]
                &&& table.names == state.inodes.names
                &&& table.children == state.inodes.children
                &&& table.next_inode == state.inodes.next_inode
                &&& table.generation == state.inodes.generation
                &&& step.state == (StateView { inodes: table, ..state })
            }
        }),
{
    reveal(OpView::safe_flush_replied);
    reveal(OpView::unsafe_flush_replied);
    let table = op.step(state, link, EventView::Replied(result)).state.inodes;
    if let Err(error) = result {
        lemma_start_returns(op, state, link, error);
    }
    if !(op.phase is UploadLast && result is Err) {
        assert(table.entries.dom() =~= state.inodes.entries.dom());
    }
}

proof fn lemma_start_returns<C>(op: OpView, state: StateView<C>, link: Link, error: DeviceError)
    ensures
        ({
            let over = op.at(PhaseView::Over);
            let spent = OpView {
                recovery: over.recovery.spent(over.recovery.verdict(error)),
                ..over
            };
            spent.start(state.invalidated(), link).action matches ActionView::Return(r) ==> r is Err
        }),
{
    reveal(OpView::with_subject);
    reveal(OpView::with_directory);
    reveal(OpView::issue);
}

/// What the device answers to the call that a request is about is what the operation returns, with
/// nothing changed; the answer to a listing is taken in instead.
pub proof fn answers_are_handed_on<C>(
    op: OpView,
    state: StateView<C>,
    link: Link,
    reply: ReplyView,
)
    requires
        op.phase is Called,
        !(op.request is List),
    ensures
        op.step(state, link, EventView::Replied(Ok(reply))).action == ActionView::Return(Ok(reply)),
        op.step(state, link, EventView::Replied(Ok(reply))).state == state,
{
}

/// A listing of a directory whose names lead to entries ends up in the table: whatever it reports is
/// found there by its name, as the file or folder that it is, with its handle and size, current. Of
/// a name that is reported twice the last mention counts.
pub proof fn listed_objects_are_found<C>(
    op: OpView,
    state: StateView<C>,
    link: Link,
    objects: Seq<ObjectView>,
    i: int,
)
    requires
        op.phase is Called,
        op.request is List,
        state.inodes.names_lead(op.request->List_dir),
        0 <= state.inodes.next_inode,
        state.inodes.next_inode + objects.len() <= u64::MAX,
        0 <= i < objects.len(),
        forall|j: int| i < j < objects.len() ==> (#[trigger] objects[j]).filename
            != objects[i].filename,
    ensures
        ({
            let dir = op.request->List_dir;
            let step = op.step(state, link, EventView::Replied(Ok(ReplyView::Listing(objects))));
            let table = step.state.inodes;
            let ino = table.names[(dir, objects[i].filename)];
            &&& step.action == ActionView::Return(Ok(ReplyView::Done))
            &&& table.names.contains_key((dir, objects[i].filename))
            &&& table.entries.contains_key(ino)
            &&& table.entries[ino].name == objects[i].filename
            &&& table.entries[ino].parent == dir
            &&& table.entries[ino].size == objects[i].size
            &&& table.entries[ino].kind == if objects[i].is_folder {
                InodeKind::Directory { handle: objects[i].handle }
            } else {
                InodeKind::File { handle: objects[i].handle }
            }
            &&& table.entries[ino].mtime == crate::clock::unix_time(
                match objects[i].modified {
                    Some(dt) if dt.epoch_seconds() >= 0 => dt.epoch_seconds(),
                    _ => 0,
                },
            )
            &&& is_current(table, ino)
            &&& step.state == (StateView { inodes: table, ..state })
        }),
{
    let dir = op.request->List_dir;
    let children = crate::fs::protocol::listed_children(objects);
    crate::inode::laws::sync_reflects_listing(state.inodes, dir, children);
    assert(crate::inode::laws::last_of_name(children, i)) by {
        assert forall|j: int| i < j < children.len() implies (#[trigger] children[j]).name
            != children[i].name by {
            assert(objects[j].filename != objects[i].filename);
        }
    }
    assert(state.inodes.sync(dir, children).reflects(dir, children[i]));
}

/// Whether an operation in this phase gives up its attempt when the device reports a failure.
pub open spec fn gives_up_on_failure(phase: PhaseView) -> bool {
    phase is Called || phase is Subject || phase is Directory || phase is Upload
        || phase is DeleteFirst || phase is UploadLast
}

/// What a failure of the device comes to. One that says nothing of handles or the session is what
/// the operation returns. A lost session is asked for anew. A handle that went stale makes every
/// handle stale, and the attempt starts over in the same session, as often as the budget pays for.
pub proof fn failures_are_told_apart<C>(
    op: OpView,
    state: StateView<C>,
    link: Link,
    error: DeviceError,
)
    requires
        gives_up_on_failure(op.phase),
    ensures
        ({
            let step = op.step(state, link, EventView::Replied(Err(error)));
            if error is StaleHandle {
                if op.recovery.stale_retries == 0 {
                    step.action == ActionView::Return(Err(error)) && step.state == state
                } else {
                    let again = OpView {
                        recovery: Recovery {
                            stale_retries: (op.recovery.stale_retries - 1) as u32,
                            ..op.recovery
                        },
                        phase: PhaseView::Over,
                        ..op
                    };
                    let later = StateView {
                        inodes: TableView {
                            generation: (state.inodes.generation + 1) as u64,
                            ..state.inodes
                        },
                        dirs_loaded: Set::empty().insert(FUSE_ROOT_INODE),
                        ..state
                    };
                    step == again.step(later, link, EventView::Begin) && step.state == later
                }
            } else if error is Disconnected || error is DeviceReset || error is NoDevice {
                step.action is Reconnect && step.state == state
            } else {
                step.action == ActionView::Return(Err(error)) && step.state == state
            }
        }),
{
    reveal(OpView::subject_listed);
    reveal(OpView::directory_listed);
    reveal(OpView::safe_flush_replied);
    reveal(OpView::unsafe_flush_replied);
    reveal(OpView::with_subject);
    reveal(OpView::with_directory);
    reveal(OpView::issue);
}

/// What a reconnect comes to: a failed one is what the operation returns, and after a successful one
/// the attempt starts over with one session less, as long as there is one.
pub proof fn reconnects_start_over<C>(
    op: OpView,
    state: StateView<C>,
    link: Link,
    error: DeviceError,
)
    ensures
        op.step(state, link, EventView::Reconnected(Err(error))).action == ActionView::Return(
            Err(error),
        ),
        op.step(state, link, EventView::Reconnected(Err(error))).state == state,
        op.recovery.sessions > 1 ==> op.step(state, link, EventView::Reconnected(Ok(())))
            == (OpView {
            recovery: Recovery { sessions: (op.recovery.sessions - 1) as u32, stale_retries: 1 },
            ..op
        }).step(state, link, EventView::Begin),
        op.recovery.sessions <= 1 ==> op.step(
            state,
            link,
            EventView::Reconnected(Ok(())),
        ).action == ActionView::Return(Err(DeviceError::Disconnected)),
        OpView::new(op.request).recovery.sessions == 3,
        OpView::new(op.request).recovery.stale_retries == 1,
        !OpView::new(op.request).tried,
        OpView::new(op.request).request == op.request,
{
}

/// The directory that a move or a flush is headed for.
pub open spec fn destination(request: RequestView) -> u64 {
    match request {
        RequestView::Move { new_parent, .. } => new_parent,
        RequestView::Flush { parent, .. } => parent,
        _ => 0,
    }
}

/// Whether a step of a move or a flush is about this object of this storage: on its way to the
/// directory it carries them, and once there it names them and the directory that the table holds.
pub open spec fn carries<C>(step: StepView<C>, handle: Option<ObjectHandle>, storage: int) -> bool {
    let table = step.state.inodes;
    let dir = destination(step.op.request);
    match step.op.phase {
        PhaseView::Directory { handle: h, storage: s, .. } => h == handle && s == storage,
        PhaseView::Called => {
            &&& handle is Some
            &&& step.action matches ActionView::Call(
                CallView::MoveObject { storage: s, handle: h, new_parent },
            ) && s == storage && h == handle->0 && table.entries.contains_key(dir)
                && match table.entries[dir].kind {
                InodeKind::Directory { handle: d } => new_parent == d,
                InodeKind::Storage { .. } => new_parent == ObjectHandle(0),
                _ => false,
            }
        },
        PhaseView::Upload(job) => handle == Some(job.old) && job.storage == storage && is_told_as(
            table,
            dir,
            job.parent,
        ),
        PhaseView::Purge(job) => handle == Some(job.old) && job.storage == storage && is_told_as(
            table,
            dir,
            job.parent,
        ),
        PhaseView::DeleteFirst(job) => handle == Some(job.old) && job.storage == storage
            && is_told_as(table, dir, job.parent),
        _ => true,
    }
}

/// Whether an operation is on its way to the directory or has its handle.
pub open spec fn is_headed(phase: PhaseView) -> bool {
    phase is Directory || phase is Called || phase is Upload || phase is Purge
        || phase is DeleteFirst
}

proof fn lemma_directory_carries<C>(
    op: OpView,
    state: StateView<C>,
    link: Link,
    storage: usize,
    handle: Option<ObjectHandle>,
    resolved: ResolveView,
)
    requires
        op.request is Move || op.request is Flush,
        handle is Some,
    ensures
        ({
            let step = op.with_directory(state, link, storage, handle, resolved);
            step.op.request == op.request && step.state == state && carries(
                step,
                handle,
                storage as int,
            )
        }),
{
    reveal(OpView::with_directory);
    reveal(OpView::issue);
}

proof fn lemma_subject_carries<C>(op: OpView, state: StateView<C>, link: Link, resolved: ResolveView)
    requires
        op.request is Move || op.request is Flush,
        state.storages.len() <= usize::MAX,
    ensures
        ({
            let step = op.with_subject(state, link, resolved);
            let inode = asked_about(op.request);
            &&& step.op.request == op.request
            &&& step.state == state
            &&& is_headed(step.op.phase) ==> {
                &&& resolved is Ready
                &&& held_handle(state.inodes, inode) is Some
                &&& op.request is Flush ==> state.inodes.entries[inode].kind is File
                &&& storage_index(state.inodes, state.storages, inode) is Some
                &&& carries(
                    step,
                    held_handle(state.inodes, inode),
                    storage_index(state.inodes, state.storages, inode)->0,
                )
            }
        }),
{
    reveal(OpView::with_subject);
    let inode = asked_about(op.request);
    lemma_index_in_range(state.inodes, state.storages, inode);
    if let (Some(handle), Some(storage), Some(dir)) = (
        crate::fs::operation::model::role_handle(state.inodes, inode, op.request.subject().1),
        storage_index(state.inodes, state.storages, inode),
        op.request.directory(),
    ) {
        lemma_directory_carries(
            op,
            state,
            link,
            storage as usize,
            handle,
            resolve(state.inodes, state.storages, dir),
        );
    }
}

/// A move or a flush is about the object that the table holds for its inode, in the storage that it
/// is on, and ends in the directory that it was headed for, told by the handle that the table holds
/// for that. What it found on its way it keeps.
pub proof fn moves_and_flushes_carry_their_object<C>(
    op: OpView,
    state: StateView<C>,
    link: Link,
    event: EventView,
)
    requires
        op.request is Move || op.request is Flush,
        state.storages.len() <= usize::MAX,
    ensures
        ({
            let step = op.step(state, link, event);
            let inode = asked_about(op.request);
            match (op.phase, event) {
                (PhaseView::Directory { handle, storage, .. }, EventView::Replied(Ok(_))) => {
                    handle is Some ==> carries(step, handle, storage as int)
                },
                _ => {
                    (!(event is Replied) || gives_up_on_failure(op.phase)) && is_headed(
                        step.op.phase,
                    ) ==> {
                        &&& held_handle(step.state.inodes, inode) is Some
                        &&& op.request is Flush ==> step.state.inodes.entries[inode].kind is File
                        &&& storage_index(
                            step.state.inodes,
                            step.state.storages,
                            inode,
                        ) is Some
                        &&& carries(
                            step,
                            held_handle(step.state.inodes, inode),
                            storage_index(step.state.inodes, step.state.storages, inode)->0,
                        )
                    }
                },
            }
        }),
{
    match event {
        EventView::Begin => {
            lemma_start_carries(op, state, link);
        },
        EventView::Reconnected(_) => {
            lemma_start_carries(
                OpView { recovery: op.recovery.next_session(), ..op },
                state,
                link,
            );
        },
        EventView::Replied(result) => {
            let over = op.at(PhaseView::Over);
            if let Err(error) = result {
                let spent = OpView {
                    recovery: over.recovery.spent(over.recovery.verdict(error)),
                    ..over
                };
                lemma_start_carries(spent, state.invalidated(), link);
            }
            match op.phase {
                PhaseView::Subject(walk) => {
                    reveal(OpView::subject_listed);
                    if let Ok(ReplyView::Listing(objects)) = result {
                        if let Some(handle) = listed_handle(state.inodes, walk, objects) {
                            let table = state.inodes.set_handle(walk.chain[walk.at], handle);
                            let ahead = ResolverView {
                                at: walk.at + 1,
                                above: Some(handle),
                                ..walk
                            };
                            lemma_subject_carries(
                                over,
                                StateView { inodes: table, ..state },
                                link,
                                resume(table, ahead),
                            );
                        }
                    }
                },
                PhaseView::Directory { handle: h, storage, walk } => {
                    reveal(OpView::directory_listed);
                    if let Ok(ReplyView::Listing(objects)) = result {
                        if let Some(handle) = listed_handle(state.inodes, walk, objects) {
                            let table = state.inodes.set_handle(walk.chain[walk.at], handle);
                            let ahead = ResolverView {
                                at: walk.at + 1,
                                above: Some(handle),
                                ..walk
                            };
                            if h is Some {
                                lemma_directory_carries(
                                    over,
                                    StateView { inodes: table, ..state },
                                    link,
                                    storage,
                                    h,
                                    resume(table, ahead),
                                );
                            }
                        }
                    }
                },
                _ => {
                    reveal(OpView::safe_flush_replied);
                    reveal(OpView::unsafe_flush_replied);
                },
            }
        },
    }
}

proof fn lemma_start_carries<C>(op: OpView, state: StateView<C>, link: Link)
    requires
        op.request is Move || op.request is Flush,
        state.storages.len() <= usize::MAX,
    ensures
        ({
            let step = op.start(state, link);
            let inode = asked_about(op.request);
            &&& step.state == state
            &&& is_headed(step.op.phase) ==> {
                &&& held_handle(state.inodes, inode) is Some
                &&& op.request is Flush ==> state.inodes.entries[inode].kind is File
                &&& storage_index(state.inodes, state.storages, inode) is Some
                &&& carries(
                    step,
                    held_handle(state.inodes, inode),
                    storage_index(state.inodes, state.storages, inode)->0,
                )
            }
        }),
{
    lemma_subject_carries(
        OpView { tried: true, again: op.tried, ..op },
        state,
        link,
        resolve(state.inodes, state.storages, asked_about(op.request)),
    );
}

/// What a listing on the way to the directory brings, as on the way to the subject.
pub proof fn listings_on_the_way_to_the_directory_give_handles<C>(
    op: OpView,
    state: StateView<C>,
    link: Link,
    objects: Seq<ObjectView>,
    i: int,
)
    requires
        op.phase is Directory,
        stands_right(state.inodes, op.phase->walk),
        held_handle(state.inodes, op.phase->walk.chain[op.phase->walk.at]) is Some,
        0 <= i <= objects.len(),
        i < objects.len() ==> objects[i].filename
            == state.inodes.entries[op.phase->walk.chain[op.phase->walk.at]].name,
        forall|j: int|
            0 <= j < i ==> (#[trigger] objects[j]).filename
                != state.inodes.entries[op.phase->walk.chain[op.phase->walk.at]].name,
    ensures
        ({
            let walk = op.phase->walk;
            let node = walk.chain[walk.at];
            let step = op.step(state, link, EventView::Replied(Ok(ReplyView::Listing(objects))));
            let table = step.state.inodes;
            if i < objects.len() {
                &&& held_handle(table, node) == Some(objects[i].handle)
                &&& is_current(table, node)
                &&& forall|other: u64|
                    other != node && state.inodes.entries.contains_key(other)
                        ==> #[trigger] table.entries[other] == state.inodes.entries[other]
                &&& step.op.phase matches PhaseView::Directory { walk: next, .. } ==> stands_right(
                    table,
                    next,
                ) && next.chain == walk.chain && next.storage == walk.storage && walk.at < next.at
            } else {
                step.action == ActionView::Return(Err(DeviceError::NotFound)) && step.state == state
            }
        }),
{
    let walk = op.phase->walk;
    let node = walk.chain[walk.at];
    let name = state.inodes.entries[node].name;
    lemma_found_at(objects, name, i);
    reveal(OpView::directory_listed);
    let over = op.at(PhaseView::Over);
    if i < objects.len() {
        let handle = objects[i].handle;
        let table = state.inodes.set_handle(node, handle);
        let ahead = ResolverView { at: walk.at + 1, above: Some(handle), ..walk };
        lemma_resume(table, ahead);
        reveal(OpView::with_directory);
        reveal(OpView::issue);
    }
}

proof fn lemma_found_at(objects: Seq<ObjectView>, name: Seq<char>, i: int)
    requires
        0 <= i <= objects.len(),
        i < objects.len() ==> objects[i].filename == name,
        forall|j: int| 0 <= j < i ==> (#[trigger] objects[j]).filename != name,
    ensures
        first_named(objects, name) == if i < objects.len() {
            Some(objects[i].handle)
        } else {
            None
        },
{
    the_first_of_a_name_is_found(objects, name);
    if let Some(handle) = first_named(objects, name) {
        let k = choose|k: int|
            0 <= k < objects.len() && (#[trigger] objects[k]).filename == name && objects[k].handle
                == handle && forall|j: int|
                0 <= j < k ==> (#[trigger] objects[j]).filename != name;
        if i < objects.len() {
            assert(objects[i].filename == name);
        }
        assert(k == i);
    } else if i < objects.len() {
        assert(objects[i].filename == name);
    }
}

/// Whether each node of a chain has the one before it as its parent.
pub open spec fn goes_down(table: TableView, chain: Seq<u64>) -> bool {
    forall|i: int| 0 < i < chain.len() ==> table.entries[#[trigger] chain[i]].parent == chain[i - 1]
}

/// Whether a walk leads to `goal`, each node below the one before it, and lists where it has to.
pub open spec fn leads_to(table: TableView, walk: ResolverView, goal: u64) -> bool {
    &&& stands_right(table, walk)
    &&& walk.chain.last() == goal
    &&& goes_down(table, walk.chain)
    &&& forall|i: int|
        walk.at <= i < walk.chain.len() ==> held_handle(table, #[trigger] walk.chain[i]) is Some
}

/// Whether an operation that waits for a listing on its way is on the right way: to the inode that
/// its request is about, or to the directory that it is headed for.
pub open spec fn on_its_way(op: OpView, table: TableView) -> bool {
    match op.phase {
        PhaseView::Subject(walk) => leads_to(table, walk, asked_about(op.request)),
        PhaseView::Directory { walk, .. } => leads_to(table, walk, destination(op.request)),
        _ => true,
    }
}

proof fn lemma_resolves_to(table: TableView, storages: Seq<StorageView>, inode: u64)
    ensures
        resolve(table, storages, inode) matches ResolveView::List(walk) ==> leads_to(
            table,
            walk,
            inode,
        ),
{
    stale_handles_are_looked_for_below_their_parents(table, storages, inode);
    if resolve(table, storages, inode) is List {
        crate::fs::walk::path_leads_down(table.entries, inode, table.entries.len());
        let path = path_down(table.entries, inode, table.entries.len())->0;
        assert forall|i: int| 0 <= i < path.len() implies held_handle(
            table,
            #[trigger] path[i],
        ) is Some by {
            assert(table.entries.contains_key(path[i]));
        }
        let walk = resolve(table, storages, inode)->List_0;
        assert(table.entries.contains_key(path[walk.at]));
        if held_handle(table, inode) is None {
            assert(is_current(table, inode));
        }
    }
}

proof fn lemma_resumes_to(table: TableView, walk: ResolverView, goal: u64)
    requires
        0 < walk.at <= walk.chain.len(),
        walk.above == held_handle(table, walk.chain[walk.at - 1]),
        walk.above is Some,
        walk.chain.last() == goal,
        goes_down(table, walk.chain),
        forall|i: int|
            walk.at <= i < walk.chain.len() ==> held_handle(table, #[trigger] walk.chain[i]) is Some,
    ensures
        resume(table, walk) matches ResolveView::List(next) ==> leads_to(table, next, goal),
{
    lemma_resume(table, walk);
}

proof fn lemma_directory_way<C>(
    op: OpView,
    state: StateView<C>,
    link: Link,
    storage: usize,
    handle: Option<ObjectHandle>,
    resolved: ResolveView,
)
    requires
        op.request is Move || op.request is Flush,
        resolved matches ResolveView::List(walk) ==> leads_to(
            state.inodes,
            walk,
            destination(op.request),
        ),
    ensures
        ({
            let step = op.with_directory(state, link, storage, handle, resolved);
            step.state == state && on_its_way(step.op, state.inodes)
        }),
{
    reveal(OpView::with_directory);
    reveal(OpView::issue);
}

proof fn lemma_subject_way<C>(op: OpView, state: StateView<C>, link: Link, resolved: ResolveView)
    requires
        resolved matches ResolveView::List(walk) ==> leads_to(
            state.inodes,
            walk,
            asked_about(op.request),
        ),
    ensures
        ({
            let step = op.with_subject(state, link, resolved);
            step.state == state && on_its_way(step.op, state.inodes)
        }),
{
    reveal(OpView::with_subject);
    if op.request is Move || op.request is Flush {
        let dir = destination(op.request);
        lemma_resolves_to(state.inodes, state.storages, dir);
        if let (Some(handle), Some(storage)) = (
            crate::fs::operation::model::role_handle(
                state.inodes,
                op.request.subject().0,
                op.request.subject().1,
            ),
            storage_index(state.inodes, state.storages, op.request.subject().0),
        ) {
            lemma_directory_way(
                op,
                state,
                link,
                storage as usize,
                handle,
                resolve(state.inodes, state.storages, dir),
            );
        }
    } else {
        reveal(OpView::issue);
    }
}

proof fn lemma_start_way<C>(op: OpView, state: StateView<C>, link: Link)
    ensures
        op.start(state, link).state == state,
        on_its_way(op.start(state, link).op, state.inodes),
{
    let inode = asked_about(op.request);
    lemma_resolves_to(state.inodes, state.storages, inode);
    lemma_subject_way(
        OpView { tried: true, again: op.tried, ..op },
        state,
        link,
        resolve(state.inodes, state.storages, inode),
    );
}

/// An operation that is on its way is on the right way, from its first step on: whatever the device
/// answers, the next listing it waits for is that of the directory in which the next node of the path
/// to its goal has to be.
pub proof fn operations_stay_on_their_way<C>(
    op: OpView,
    state: StateView<C>,
    link: Link,
    event: EventView,
)
    requires
        event is Replied ==> on_its_way(op, state.inodes),
        op.phase is Directory ==> op.request is Move || op.request is Flush,
    ensures
        on_its_way(op.step(state, link, event).op, op.step(state, link, event).state.inodes),
{
    match event {
        EventView::Begin => {
            lemma_start_way(op, state, link);
        },
        EventView::Reconnected(_) => {
            lemma_start_way(
                OpView { recovery: op.recovery.next_session(), ..op },
                state,
                link,
            );
        },
        EventView::Replied(result) => {
            let over = op.at(PhaseView::Over);
            if let Err(error) = result {
                let spent = OpView {
                    recovery: over.recovery.spent(over.recovery.verdict(error)),
                    ..over
                };
                lemma_start_way(spent, state.invalidated(), link);
            }
            match op.phase {
                PhaseView::Subject(walk) => {
                    reveal(OpView::subject_listed);
                    if let Ok(ReplyView::Listing(objects)) = result {
                        if let Some(handle) = listed_handle(state.inodes, walk, objects) {
                            let node = walk.chain[walk.at];
                            let table = state.inodes.set_handle(node, handle);
                            let ahead = ResolverView {
                                at: walk.at + 1,
                                above: Some(handle),
                                ..walk
                            };
                            assert forall|i: int| ahead.at <= i < walk.chain.len() implies held_handle(
                                table,
                                #[trigger] walk.chain[i],
                            ) is Some by {
                                assert(held_handle(state.inodes, walk.chain[i]) is Some);
                            }
                            assert(held_handle(state.inodes, walk.chain[walk.at]) is Some);
                            assert(goes_down(table, walk.chain));
                            lemma_resumes_to(table, ahead, asked_about(op.request));
                            lemma_subject_way(
                                over,
                                StateView { inodes: table, ..state },
                                link,
                                resume(table, ahead),
                            );
                        }
                    }
                },
                PhaseView::Directory { handle: h, storage, walk } => {
                    reveal(OpView::directory_listed);
                    if let Ok(ReplyView::Listing(objects)) = result {
                        if let Some(handle) = listed_handle(state.inodes, walk, objects) {
                            let node = walk.chain[walk.at];
                            let table = state.inodes.set_handle(node, handle);
                            let ahead = ResolverView {
                                at: walk.at + 1,
                                above: Some(handle),
                                ..walk
                            };
                            assert forall|i: int| ahead.at <= i < walk.chain.len() implies held_handle(
                                table,
                                #[trigger] walk.chain[i],
                            ) is Some by {
                                assert(held_handle(state.inodes, walk.chain[i]) is Some);
                            }
                            assert(held_handle(state.inodes, walk.chain[walk.at]) is Some);
                            assert(goes_down(table, walk.chain));
                            lemma_resumes_to(table, ahead, destination(op.request));
                            lemma_directory_way(
                                over,
                                StateView { inodes: table, ..state },
                                link,
                                storage,
                                h,
                                resume(table, ahead),
                            );
                        }
                    }
                },
                _ => {
                    reveal(OpView::safe_flush_replied);
                    reveal(OpView::unsafe_flush_replied);
                },
            }
        },
    }
}

/// An operation stays what it was asked to be, and remembers that it was tried: an attempt is made
/// wherever there is a session to make it in, and whether there had been one before is what tells a
/// retry.
pub proof fn operations_stay_what_they_are<C>(
    op: OpView,
    state: StateView<C>,
    link: Link,
    event: EventView,
)
    ensures
        ({
            let step = op.step(state, link, event);
            &&& step.op.request == op.request
            &&& op.tried ==> step.op.tried
            &&& event is Begin && !link.unplugged ==> step.op.tried && step.op.again == op.tried
            &&& event is Begin && link.unplugged ==> step.op.tried == op.tried
                && step.action is Reconnect
        }),
{
    match event {
        EventView::Begin => {
            lemma_start_is_op(op, state, link);
        },
        EventView::Reconnected(_) => {
            lemma_start_is_op(
                OpView { recovery: op.recovery.next_session(), ..op },
                state,
                link,
            );
        },
        EventView::Replied(result) => {
            let over = op.at(PhaseView::Over);
            if let Err(error) = result {
                let spent = OpView {
                    recovery: over.recovery.spent(over.recovery.verdict(error)),
                    ..over
                };
                lemma_start_is_op(spent, state.invalidated(), link);
            }
            match op.phase {
                PhaseView::Subject(walk) => {
                    reveal(OpView::subject_listed);
                    if let Ok(ReplyView::Listing(objects)) = result {
                        if let Some(handle) = listed_handle(state.inodes, walk, objects) {
                            let table = state.inodes.set_handle(walk.chain[walk.at], handle);
                            let ahead = ResolverView {
                                at: walk.at + 1,
                                above: Some(handle),
                                ..walk
                            };
                            lemma_subject_is_op(
                                over,
                                StateView { inodes: table, ..state },
                                link,
                                resume(table, ahead),
                            );
                        }
                    }
                },
                PhaseView::Directory { handle: h, storage, walk } => {
                    reveal(OpView::directory_listed);
                    if let Ok(ReplyView::Listing(objects)) = result {
                        if let Some(handle) = listed_handle(state.inodes, walk, objects) {
                            let table = state.inodes.set_handle(walk.chain[walk.at], handle);
                            let ahead = ResolverView {
                                at: walk.at + 1,
                                above: Some(handle),
                                ..walk
                            };
                            lemma_directory_is_op(
                                over,
                                StateView { inodes: table, ..state },
                                link,
                                storage,
                                h,
                                resume(table, ahead),
                            );
                        }
                    }
                },
                _ => {
                    reveal(OpView::safe_flush_replied);
                    reveal(OpView::unsafe_flush_replied);
                },
            }
        },
    }
}

proof fn lemma_directory_is_op<C>(
    op: OpView,
    state: StateView<C>,
    link: Link,
    storage: usize,
    handle: Option<ObjectHandle>,
    resolved: ResolveView,
)
    ensures
        ({
            let after = op.with_directory(state, link, storage, handle, resolved).op;
            after == op.at(after.phase)
        }),
{
    reveal(OpView::with_directory);
    reveal(OpView::issue);
}

proof fn lemma_subject_is_op<C>(op: OpView, state: StateView<C>, link: Link, resolved: ResolveView)
    ensures
        ({
            let after = op.with_subject(state, link, resolved).op;
            after == op.at(after.phase)
        }),
{
    reveal(OpView::with_subject);
    reveal(OpView::issue);
    if let (Some(handle), Some(storage), Some(dir)) = (
        crate::fs::operation::model::role_handle(
            state.inodes,
            op.request.subject().0,
            op.request.subject().1,
        ),
        storage_index(state.inodes, state.storages, op.request.subject().0),
        op.request.directory(),
    ) {
        lemma_directory_is_op(
            op,
            state,
            link,
            storage as usize,
            handle,
            resolve(state.inodes, state.storages, dir),
        );
    }
}

proof fn lemma_start_is_op<C>(op: OpView, state: StateView<C>, link: Link)
    ensures
        ({
            let step = op.start(state, link);
            &&& step.op.request == op.request
            &&& !link.unplugged ==> step.op.tried && step.op.again == op.tried
            &&& link.unplugged ==> step.op.tried == op.tried && step.action is Reconnect
        }),
{
    lemma_subject_is_op(
        OpView { tried: true, again: op.tried, ..op },
        state,
        link,
        resolve(state.inodes, state.storages, op.request.subject().0),
    );
}

/// Clearing out what an earlier attempt left is not what a flush is for: where that fails, the bytes go
/// up all the same.
pub proof fn failed_clean_up_fails_no_flush<C>(
    op: OpView,
    state: StateView<C>,
    link: Link,
    error: DeviceError,
)
    requires
        op.request is Flush,
        op.phase is Purge || op.phase is PurgeDelete,
    ensures
        ({
            let step = op.step(state, link, EventView::Replied(Err(error)));
            let job = match op.phase {
                PhaseView::Purge(job) => job,
                PhaseView::PurgeDelete { job, .. } => job,
                _ => FlushJob { storage: 0, parent: None, old: ObjectHandle(0) },
            };
            let left = match op.phase {
                PhaseView::PurgeDelete { rest, .. } => rest,
                _ => Seq::empty(),
            };
            &&& step.state == state
            &&& left.len() == 0 ==> step.op.phase == PhaseView::Upload(job) && step.action
                == ActionView::Call(
                CallView::Upload {
                    storage: job.storage as int,
                    parent: job.parent,
                    name: ".~tmp~"@ + op.request->Flush_name,
                    size: op.request->Flush_size,
                },
            )
            &&& left.len() > 0 ==> step.op.phase == (PhaseView::PurgeDelete {
                job,
                rest: left.drop_first(),
            }) && step.action == ActionView::Call(
                CallView::Delete { storage: job.storage as int, handle: left[0] },
            )
        }),
{
    reveal(OpView::safe_flush_replied);
}

/// An operation starts with all it may spend, nothing tried yet and nothing asked.
pub proof fn operations_start_afresh(request: RequestView)
    ensures
        ({
            let op = OpView::new(request);
            &&& op.request == request
            &&& op.phase is Idle
            &&& !op.tried
            &&& op.recovery == Recovery::full()
        }),
{
}

/// An answer to something that was not asked ends the operation: one that comes while nothing is asked,
/// anything but a listing where one was asked for, and anything but a new object where bytes went up.
/// Nothing is taken from it.
pub proof fn strange_answers_end_the_operation<C>(
    op: OpView,
    state: StateView<C>,
    link: Link,
    reply: ReplyView,
    error: DeviceError,
)
    ensures
        ({
            let step = op.step(state, link, EventView::Replied(Ok(reply)));
            let failed = op.step(state, link, EventView::Replied(Err(error)));
            let listing = op.phase is Subject || op.phase is Directory || op.phase is Purge || (
            op.phase is Called && op.request is List);
            let upload = op.phase is Upload || op.phase is UploadLast;
            let idle = op.phase is Idle || op.phase is Over;
            &&& idle || (listing && !(reply is Listing)) || (upload && !(reply is Created))
                ==> step.state == state && step.op.phase is Over && step.action
                == ActionView::Return(Err(DeviceError::Unrecognized))
            &&& idle ==> failed.state == state && failed.op.phase is Over && failed.action
                == ActionView::Return(Err(DeviceError::Unrecognized))
        }),
{
    reveal(OpView::subject_listed);
    reveal(OpView::directory_listed);
    reveal(OpView::safe_flush_replied);
    reveal(OpView::unsafe_flush_replied);
}

/// What the table does not hold is not found: an operation on it is over at once, and so is one on an
/// object of the current session that needs a directory which the table does not hold.
pub proof fn what_the_table_does_not_hold_is_not_found<C>(op: OpView, state: StateView<C>, link: Link)
    requires
        !link.unplugged,
    ensures
        ({
            let step = op.step(state, link, EventView::Begin);
            let table = state.inodes;
            let (subject, dir) = match op.request {
                RequestView::List { dir } => (dir, None),
                RequestView::CreateFile { parent, .. } => (parent, None),
                RequestView::CreateFolder { parent, .. } => (parent, None),
                RequestView::DeleteFile { inode } => (inode, None),
                RequestView::DeleteObject { inode } => (inode, None),
                RequestView::Rename { inode, .. } => (inode, None),
                RequestView::Move { inode, new_parent } => (inode, Some(new_parent)),
                RequestView::ReadRange { inode, .. } => (inode, None),
                RequestView::Download { inode } => (inode, None),
                RequestView::Probe { inode } => (inode, None),
                RequestView::Flush { inode, parent, .. } => (inode, Some(parent)),
            };
            let lost = dir matches Some(d) && !table.entries.contains_key(d);
            !table.entries.contains_key(subject) || (is_current(table, subject) && lost)
                ==> step.state == state && step.action == ActionView::Return(
                Err(DeviceError::NotFound),
            )
        }),
{
    reveal(OpView::with_subject);
    reveal(OpView::with_directory);
}

} // verus!
