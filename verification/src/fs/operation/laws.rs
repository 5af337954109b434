//! What holds of every operation, whatever the device answers.
use crate::device_error::DeviceError;
use crate::fs::operation::model::{
    listed_handle, resume, role_handle, ActionView, EventView, Link, OpView, PhaseView, RequestView,
    ResolveView, ResolverView, StepView,
};
use crate::fs::protocol::{listed_children, ReplyView};
use crate::fs::recovery::{Recovery, MAX_STALE_RETRIES};
use crate::fs::state::StateView;
use crate::fs::temp_name;
use crate::fs::walk::storage_index;
use crate::inode::laws::{
    bump_makes_handles_stale, refresh_keeps_tidy, repointing_keeps_tidy, sync_keeps_dates,
    sync_keeps_names_leading, sync_reflects_listing, tidy_tables_lead,
};
use crate::inode::model::{dir_kind, kind_handle, EntryView, TableView};
use crate::inode::{InodeKind, ObjectHandle, StorageId};
use vstd::prelude::*;

verus! {

/// Whether two tables have the same inodes in the same places. Handles, sizes and times may
/// differ, and so may the names that entries say of themselves.
pub open spec fn same_tree(a: TableView, b: TableView) -> bool {
    &&& a.names == b.names
    &&& a.children == b.children
    &&& a.next_inode == b.next_inode
    &&& a.entries.dom() == b.entries.dom()
    &&& forall|ino: u64| #[trigger]
        a.entries.contains_key(ino) ==> a.entries[ino].inode == b.entries[ino].inode
            && a.entries[ino].parent == b.entries[ino].parent && dir_kind(a.entries[ino].kind)
            == dir_kind(b.entries[ino].kind)
}

/// Whether two states differ at most in handles, sizes and times, and in which listings are
/// current.
pub open spec fn same_mount<C>(a: StateView<C>, b: StateView<C>) -> bool {
    &&& same_tree(a.inodes, b.inodes)
    &&& a.storages == b.storages
    &&& a.write_buf == b.write_buf
    &&& a.read_cache == b.read_cache
    &&& a.fh_to_inode == b.fh_to_inode
    &&& a.next_fh == b.next_fh
    &&& a.read_only == b.read_only
    &&& a.full_download_limit == b.full_download_limit
}

/// What starting an attempt leaves alone.
pub open spec fn settled<C>(step: StepView<C>, op: OpView, state: StateView<C>) -> bool {
    &&& step.state == state
    &&& step.op.recovery == op.recovery
    &&& !(step.op.phase is DeleteOld)
    &&& !(step.op.phase is RenameNew)
}

proof fn lemma_start<C>(op: OpView, state: StateView<C>, link: Link)
    ensures
        settled(op.start(state, link), op, state),
        !link.unplugged ==> !(op.start(state, link).action is Reconnect),
{
    reveal(OpView::with_subject);
    reveal(OpView::with_directory);
    reveal(OpView::issue);
}

proof fn lemma_with_subject<C>(op: OpView, state: StateView<C>, link: Link, resolved: ResolveView)
    ensures
        settled(op.with_subject(state, link, resolved), op, state),
{
    reveal(OpView::with_subject);
    reveal(OpView::with_directory);
    reveal(OpView::issue);
}

proof fn lemma_with_directory<C>(
    op: OpView,
    state: StateView<C>,
    link: Link,
    storage: usize,
    handle: Option<ObjectHandle>,
    resolved: ResolveView,
)
    ensures
        settled(op.with_directory(state, link, storage, handle, resolved), op, state),
{
    reveal(OpView::with_directory);
    reveal(OpView::issue);
}

/// What one step can change: the state at most by marking handles stale, by one new handle, by a
/// listing, or by the end of a flush; the budgets only downwards.
proof fn lemma_step<C>(op: OpView, state: StateView<C>, link: Link, event: EventView)
    ensures
        ({
            let step = op.step(state, link, event);
            &&& step.state == state || step.state == state.invalidated() || (exists|
                ino: u64,
                handle: ObjectHandle,
            |
                step.state == StateView {
                    inodes: #[trigger] state.inodes.set_handle(ino, handle),
                    ..state
                }) || (op.request is List && op.phase is Called) || (exists|
                new: ObjectHandle,
                name: Option<Seq<char>>,
            | #[trigger]
                op.saved(state, link, new, name).state == step.state)
            &&& step.op.recovery == op.recovery || (event is Reconnected && step.op.recovery
                == op.recovery.next_session()) || (op.recovery.stale_retries > 0
                && step.op.recovery == Recovery {
                stale_retries: (op.recovery.stale_retries - 1) as u32,
                ..op.recovery
            })
            &&& step.op.phase is DeleteOld ==> op.phase is Upload && (event matches
                EventView::Replied(Ok(ReplyView::Created(_))))
        }),
{
    match event {
        EventView::Begin => {
            lemma_start(op, state, link);
        },
        EventView::Reconnected(_) => {
            let next = OpView { recovery: op.recovery.next_session(), ..op };
            lemma_start(next, state, link);
        },
        EventView::Replied(result) => {
            let over = op.at(PhaseView::Over);
            let step = op.step(state, link, event);
            if let Err(error) = result {
                let spent = OpView {
                    recovery: over.recovery.spent(over.recovery.verdict(error)),
                    ..over
                };
                lemma_start(spent, state.invalidated(), link);
            }
            match op.phase {
                PhaseView::Subject(walk) => {
                    reveal(OpView::subject_listed);
                    if let Ok(ReplyView::Listing(objects)) = result {
                        if let Some(handle) = listed_handle(state.inodes, walk, objects) {
                            let table = state.inodes.set_handle(walk.chain[walk.at], handle);
                            let next = StateView { inodes: table, ..state };
                            let ahead = ResolverView {
                                at: walk.at + 1,
                                above: Some(handle),
                                ..walk
                            };
                            lemma_with_subject(over, next, link, resume(table, ahead));
                        }
                    }
                },
                PhaseView::Directory { handle: h, storage, walk } => {
                    reveal(OpView::directory_listed);
                    if let Ok(ReplyView::Listing(objects)) = result {
                        if let Some(handle) = listed_handle(state.inodes, walk, objects) {
                            let table = state.inodes.set_handle(walk.chain[walk.at], handle);
                            let next = StateView { inodes: table, ..state };
                            let ahead = ResolverView {
                                at: walk.at + 1,
                                above: Some(handle),
                                ..walk
                            };
                            lemma_with_directory(
                                over,
                                next,
                                link,
                                storage,
                                h,
                                resume(table, ahead),
                            );
                        }
                    }
                },
                PhaseView::DeleteOld { new, .. } => {
                    reveal(OpView::safe_flush_replied);
                    let name = Some(temp_name(op.flushed().1));
                    assert(op.saved(state, link, new, name).state == over.saved(
                        state,
                        link,
                        new,
                        name,
                    ).state);
                },
                PhaseView::RenameNew { new, .. } => {
                    reveal(OpView::safe_flush_replied);
                    let name = Some(temp_name(op.flushed().1));
                    assert(op.saved(state, link, new, name).state == over.saved(
                        state,
                        link,
                        new,
                        name,
                    ).state);
                    assert(op.saved(state, link, new, None).state == over.saved(
                        state,
                        link,
                        new,
                        None,
                    ).state);
                },
                PhaseView::UploadLast(_) => {
                    reveal(OpView::unsafe_flush_replied);
                    if let Ok(ReplyView::Created(new)) = result {
                        assert(op.saved(state, link, new, None).state == over.saved(
                            state,
                            link,
                            new,
                            None,
                        ).state);
                    }
                },
                _ => {
                    reveal(OpView::safe_flush_replied);
                    reveal(OpView::unsafe_flush_replied);
                },
            }
        },
    }
}

/// An operation other than a listing never moves an inode: whatever the device answers, every
/// inode keeps its number, its parent, its shape and the name it is found by. Open files, write
/// buffers and read caches are none of its business. (What a flush is about is a file.)
pub proof fn operations_keep_the_tree<C>(
    op: OpView,
    state: StateView<C>,
    link: Link,
    event: EventView,
)
    requires
        !(op.request is List),
        state.inodes.entries.contains_key(op.flushed().0) ==> !dir_kind(
            state.inodes.entries[op.flushed().0].kind,
        ),
    ensures
        same_mount(op.step(state, link, event).state, state),
{
    lemma_step(op, state, link, event);
    let after = op.step(state, link, event).state;
    assert(after.inodes.entries.dom() =~= state.inodes.entries.dom());
}

/// A handle that went stale in a healthy session is re-resolved in that session: no answer of the
/// device that says so leads to a reconnect.
pub proof fn stale_handles_stay_in_the_session<C>(op: OpView, state: StateView<C>, link: Link)
    requires
        !link.unplugged,
    ensures
        !(op.step(
            state,
            link,
            EventView::Replied(Err(DeviceError::StaleHandle)),
        ).action is Reconnect),
{
    let over = op.at(PhaseView::Over);
    let spent = OpView {
        recovery: over.recovery.spent(over.recovery.verdict(DeviceError::StaleHandle)),
        ..over
    };
    lemma_start(spent, state.invalidated(), link);
    reveal(OpView::subject_listed);
    reveal(OpView::directory_listed);
    reveal(OpView::safe_flush_replied);
    reveal(OpView::unsafe_flush_replied);
}

/// No step adds to the budgets, and a new session costs one: so an operation asks for at most
/// three, and after the third it reports that the device is gone.
pub proof fn budgets_only_shrink<C>(op: OpView, state: StateView<C>, link: Link, event: EventView)
    requires
        op.recovery.stale_retries <= MAX_STALE_RETRIES,
    ensures
        op.step(state, link, event).op.recovery.sessions <= op.recovery.sessions,
        op.step(state, link, event).op.recovery.stale_retries <= MAX_STALE_RETRIES,
        !(event is Reconnected) ==> op.step(state, link, event).op.recovery.stale_retries
            <= op.recovery.stale_retries,
        event matches EventView::Reconnected(Ok(())) && op.recovery.sessions > 0 ==> op.step(
            state,
            link,
            event,
        ).op.recovery.sessions == op.recovery.sessions - 1,
        event matches EventView::Reconnected(Ok(())) && op.recovery.sessions <= 1 ==> op.step(
            state,
            link,
            event,
        ).action == ActionView::Return(Err(DeviceError::Disconnected)),
{
    lemma_step(op, state, link, event);
    if event is Reconnected {
        let next = OpView { recovery: op.recovery.next_session(), ..op };
        lemma_start(next, state, link);
    }
}

/// On a device that can rename, the old object of a flush is only given up once the new one is
/// up: the delete follows an upload that brought a new handle, and nothing else.
pub proof fn flush_deletes_only_after_the_upload<C>(
    op: OpView,
    state: StateView<C>,
    link: Link,
    event: EventView,
)
    requires
        op.step(state, link, event).op.phase is DeleteOld,
    ensures
        op.phase is Upload,
        event matches EventView::Replied(Ok(ReplyView::Created(_))),
{
    lemma_step(op, state, link, event);
}

/// Once the new object of a flush is up, the flush succeeds whatever else goes wrong: the file
/// then is the new object, at worst under its temporary name.
pub proof fn flush_cannot_fail_after_the_upload<C>(
    op: OpView,
    state: StateView<C>,
    link: Link,
    result: Result<ReplyView, DeviceError>,
)
    requires
        op.phase is DeleteOld || op.phase is RenameNew,
    ensures
        ({
            let step = op.step(state, link, EventView::Replied(result));
            let (inode, name, size) = op.flushed();
            ||| step.op.phase is RenameNew && step.state == state
            ||| {
                &&& step.action == ActionView::Return(Ok(ReplyView::Done))
                &&& state.inodes.entries.contains_key(inode) ==> {
                    let entry = step.state.inodes.entries[inode];
                    &&& entry.size == size
                    &&& entry.name == state.inodes.entries[inode].name || entry.name == temp_name(
                        name,
                    )
                }
            }
        }),
{
    reveal(OpView::safe_flush_replied);
}

/// Where the handles are fresh, an attempt asks the device for nothing but what it is about, and
/// about the handle that the table holds.
pub proof fn fresh_handles_need_no_listing<C>(op: OpView, state: StateView<C>, link: Link)
    requires
        !link.unplugged,
        state.inodes.fresh(op.request.subject().0),
        op.request.directory() is None,
        role_handle(state.inodes, op.request.subject().0, op.request.subject().1) is Some,
        storage_index(state.inodes, state.storages, op.request.subject().0) is Some,
    ensures
        ({
            let (inode, role) = op.request.subject();
            let handle = role_handle(state.inodes, inode, role)->0;
            let storage = storage_index(state.inodes, state.storages, inode)->0;
            let tried = OpView { tried: true, again: op.tried, ..op };
            op.step(state, link, EventView::Begin) == tried.issue(
                state,
                link,
                storage as usize,
                handle,
                None,
            )
        }),
{
    reveal(OpView::with_subject);
}

/// How far an attempt is from its end: what it waits for, as a number that only gets smaller, and
/// how often it can wait for that.
pub open spec fn stage(phase: PhaseView) -> (int, int) {
    match phase {
        PhaseView::Subject(walk) => (9, walk.chain.len() - walk.at),
        PhaseView::Directory { walk, .. } => (8, walk.chain.len() - walk.at),
        PhaseView::Purge(_) => (7, 0),
        PhaseView::PurgeDelete { rest, .. } => (6, rest.len() as int),
        PhaseView::Upload(_) => (5, 0),
        PhaseView::DeleteFirst(_) => (5, 0),
        PhaseView::DeleteOld { .. } => (4, 0),
        PhaseView::UploadLast(_) => (4, 0),
        PhaseView::RenameNew { .. } => (3, 0),
        PhaseView::Called => (2, 0),
        PhaseView::Idle => (1, 0),
        PhaseView::Over => (0, 0),
    }
}

/// Whether `later` is nearer to its end than `op`: fewer attempts are left, or as many and the
/// current one has come further.
pub open spec fn nearer(later: OpView, op: OpView) -> bool {
    let (a, b) = (later.recovery.attempts_left(), op.recovery.attempts_left());
    let ((s, m), (t, n)) = (stage(later.phase), stage(op.phase));
    a < b || (a == b && (s < t || (s == t && m < n)))
}

proof fn lemma_resume_moves_on(table: TableView, walk: ResolverView)
    requires
        0 <= walk.at,
    ensures
        resume(table, walk) matches ResolveView::List(next) ==> next.chain == walk.chain && walk.at
            <= next.at < walk.chain.len(),
    decreases walk.chain.len() - walk.at,
{
    if walk.at < walk.chain.len() {
        let node = walk.chain[walk.at];
        if table.entries.contains_key(node) && table.fresh(node) {
            if let Some(handle) = kind_handle(table.entries[node].kind) {
                lemma_resume_moves_on(
                    table,
                    ResolverView { at: walk.at + 1, above: Some(handle), ..walk },
                );
            }
        }
    }
}

/// Every answer of the device brings an operation nearer to its end. So no device can keep one
/// going for ever, whatever it answers.
pub proof fn every_answer_brings_the_end_nearer<C>(
    op: OpView,
    state: StateView<C>,
    link: Link,
    result: Result<ReplyView, DeviceError>,
)
    requires
        op.recovery.sessions > 0,
        !(op.phase is Idle),
        !(op.phase is Over),
        op.phase matches PhaseView::Subject(walk) ==> 0 <= walk.at,
        op.phase matches PhaseView::Directory { walk, .. } ==> 0 <= walk.at,
    ensures
        nearer(op.step(state, link, EventView::Replied(result)).op, op),
{
    reveal(OpView::subject_listed);
    reveal(OpView::directory_listed);
    reveal(OpView::safe_flush_replied);
    reveal(OpView::unsafe_flush_replied);
    let over = op.at(PhaseView::Over);
    if let Err(error) = result {
        let spent = OpView {
            recovery: over.recovery.spent(over.recovery.verdict(error)),
            ..over
        };
        lemma_start(spent, state.invalidated(), link);
    }
    match (op.phase, result) {
        (PhaseView::Subject(walk), Ok(ReplyView::Listing(objects))) => {
            if let Some(handle) = listed_handle(state.inodes, walk, objects) {
                let table = state.inodes.set_handle(walk.chain[walk.at], handle);
                let ahead = ResolverView { at: walk.at + 1, above: Some(handle), ..walk };
                lemma_resume_moves_on(table, ahead);
                lemma_subject_stage(
                    over,
                    StateView { inodes: table, ..state },
                    link,
                    resume(table, ahead),
                );
            }
        },
        (PhaseView::Directory { handle: h, storage, walk }, Ok(ReplyView::Listing(objects))) => {
            if let Some(handle) = listed_handle(state.inodes, walk, objects) {
                let table = state.inodes.set_handle(walk.chain[walk.at], handle);
                let ahead = ResolverView { at: walk.at + 1, above: Some(handle), ..walk };
                lemma_resume_moves_on(table, ahead);
                lemma_directory_stage(
                    over,
                    StateView { inodes: table, ..state },
                    link,
                    storage,
                    h,
                    resume(table, ahead),
                );
            }
        },
        _ => {},
    }
}

proof fn lemma_directory_stage<C>(
    op: OpView,
    state: StateView<C>,
    link: Link,
    storage: usize,
    handle: Option<ObjectHandle>,
    resolved: ResolveView,
)
    ensures
        ({
            let step = op.with_directory(state, link, storage, handle, resolved);
            &&& step.op.recovery == op.recovery
            &&& match resolved {
                ResolveView::List(walk) => stage(step.op.phase) == (
                    8int,
                    walk.chain.len() - walk.at,
                ),
                _ => stage(step.op.phase).0 < 8,
            }
        }),
{
    reveal(OpView::with_directory);
    reveal(OpView::issue);
}

proof fn lemma_subject_stage<C>(op: OpView, state: StateView<C>, link: Link, resolved: ResolveView)
    ensures
        ({
            let step = op.with_subject(state, link, resolved);
            &&& step.op.recovery == op.recovery
            &&& match resolved {
                ResolveView::List(walk) => stage(step.op.phase) == (
                    9int,
                    walk.chain.len() - walk.at,
                ),
                _ => stage(step.op.phase).0 < 9,
            }
        }),
{
    reveal(OpView::with_subject);
    reveal(OpView::with_directory);
    reveal(OpView::issue);
}

/// An operation keeps the table tidy, whatever the device answers, but for a flush that ends under
/// its temporary name: there the entry says a name that it is not found by. The next listing does
/// not change that. It takes the temporary name in as another file, under an inode of its own.
pub proof fn operations_keep_tables_tidy<C>(
    op: OpView,
    state: StateView<C>,
    link: Link,
    event: EventView,
)
    requires
        state.inodes.tidy(),
        state.inodes.generation < u64::MAX,
        op.request matches RequestView::List { dir } ==> state.inodes.entries.contains_key(dir),
        event matches EventView::Replied(Ok(ReplyView::Listing(objects)))
            ==> state.inodes.next_inode + objects.len() <= u64::MAX,
        (op.phase is DeleteOld || op.phase is RenameNew) ==> !(event matches EventView::Replied(
            Err(_),
        )),
    ensures
        op.step(state, link, event).state.inodes.tidy(),
{
    let step = op.step(state, link, event);
    tidy_tables_lead(state.inodes);
    bump_makes_handles_stale(state.inodes);
    match event {
        EventView::Begin => {
            lemma_start(op, state, link);
        },
        EventView::Reconnected(_) => {
            let next = OpView { recovery: op.recovery.next_session(), ..op };
            lemma_start(next, state, link);
        },
        EventView::Replied(result) => {
            let over = op.at(PhaseView::Over);
            if let Err(error) = result {
                let spent = OpView {
                    recovery: over.recovery.spent(over.recovery.verdict(error)),
                    ..over
                };
                lemma_start(spent, state.invalidated(), link);
            }
            match op.phase {
                PhaseView::Subject(walk) => {
                    reveal(OpView::subject_listed);
                    if let Ok(ReplyView::Listing(objects)) = result {
                        if let Some(handle) = listed_handle(state.inodes, walk, objects) {
                            let node = walk.chain[walk.at];
                            let table = state.inodes.set_handle(node, handle);
                            let ahead = ResolverView {
                                at: walk.at + 1,
                                above: Some(handle),
                                ..walk
                            };
                            repointing_keeps_tidy(state.inodes, node, handle, StorageId(0));
                            lemma_with_subject(
                                over,
                                StateView { inodes: table, ..state },
                                link,
                                resume(table, ahead),
                            );
                        }
                    }
                },
                PhaseView::Directory { handle: h, storage, walk } => {
                    reveal(OpView::directory_listed);
                    if let Ok(ReplyView::Listing(objects)) = result {
                        if let Some(handle) = listed_handle(state.inodes, walk, objects) {
                            let node = walk.chain[walk.at];
                            let table = state.inodes.set_handle(node, handle);
                            let ahead = ResolverView {
                                at: walk.at + 1,
                                above: Some(handle),
                                ..walk
                            };
                            repointing_keeps_tidy(state.inodes, node, handle, StorageId(0));
                            lemma_with_directory(
                                over,
                                StateView { inodes: table, ..state },
                                link,
                                storage,
                                h,
                                resume(table, ahead),
                            );
                        }
                    }
                },
                PhaseView::Called => {
                    if let Ok(ReplyView::Listing(objects)) = result {
                        if let RequestView::List { dir } = op.request {
                            sync_reflects_listing(state.inodes, dir, listed_children(objects));
                        }
                    }
                },
                _ => {
                    reveal(OpView::safe_flush_replied);
                    reveal(OpView::unsafe_flush_replied);
                    let inode = op.flushed().0;
                    if state.inodes.entries.contains_key(inode) {
                        let entry = state.inodes.entries[inode];
                        assert(state.inodes.entry_sound(inode));
                        if let PhaseView::RenameNew { new, .. } = op.phase {
                            refresh_keeps_tidy(
                                state.inodes,
                                inode,
                                EntryView {
                                    kind: InodeKind::File { handle: new },
                                    size: op.flushed().2,
                                    mtime: link.now,
                                    ..entry
                                },
                            );
                        }
                        if let Ok(ReplyView::Created(new)) = result {
                            refresh_keeps_tidy(
                                state.inodes,
                                inode,
                                EntryView {
                                    kind: InodeKind::File { handle: new },
                                    size: op.flushed().2,
                                    mtime: link.now,
                                    ..entry
                                },
                            );
                        }
                    }
                },
            }
        },
    }
}

/// An operation dates no entry ahead of the current session, whatever the device answers. So a
/// reconnect makes every handle stale, whatever happened before it.
pub proof fn operations_keep_dates<C>(
    op: OpView,
    state: StateView<C>,
    link: Link,
    event: EventView,
)
    requires
        state.inodes.dated(),
        state.inodes.generation < u64::MAX,
    ensures
        op.step(state, link, event).state.inodes.dated(),
{
    let inodes = state.inodes;
    let bumped = inodes.bumped();
    assert(bumped.dated()) by {
        assert forall|k: u64| #[trigger]
            bumped.entries.contains_key(k) implies bumped.entries[k].generation
            <= bumped.generation by {
            assert(inodes.entries.contains_key(k));
        }
    }
    match event {
        EventView::Begin => {
            lemma_start(op, state, link);
        },
        EventView::Reconnected(_) => {
            let next = OpView { recovery: op.recovery.next_session(), ..op };
            lemma_start(next, state, link);
        },
        EventView::Replied(result) => {
            let over = op.at(PhaseView::Over);
            if let Err(error) = result {
                let spent = OpView {
                    recovery: over.recovery.spent(over.recovery.verdict(error)),
                    ..over
                };
                lemma_start(spent, state.invalidated(), link);
            }
            match op.phase {
                PhaseView::Subject(walk) => {
                    reveal(OpView::subject_listed);
                    if let Ok(ReplyView::Listing(objects)) = result {
                        if let Some(handle) = listed_handle(inodes, walk, objects) {
                            let table = inodes.set_handle(walk.chain[walk.at], handle);
                            let ahead = ResolverView {
                                at: walk.at + 1,
                                above: Some(handle),
                                ..walk
                            };
                            lemma_with_subject(
                                over,
                                StateView { inodes: table, ..state },
                                link,
                                resume(table, ahead),
                            );
                            lemma_replaced_is_dated(inodes, table, walk.chain[walk.at]);
                        }
                    }
                },
                PhaseView::Directory { handle: h, storage, walk } => {
                    reveal(OpView::directory_listed);
                    if let Ok(ReplyView::Listing(objects)) = result {
                        if let Some(handle) = listed_handle(inodes, walk, objects) {
                            let table = inodes.set_handle(walk.chain[walk.at], handle);
                            let ahead = ResolverView {
                                at: walk.at + 1,
                                above: Some(handle),
                                ..walk
                            };
                            lemma_with_directory(
                                over,
                                StateView { inodes: table, ..state },
                                link,
                                storage,
                                h,
                                resume(table, ahead),
                            );
                            lemma_replaced_is_dated(inodes, table, walk.chain[walk.at]);
                        }
                    }
                },
                PhaseView::Called => {
                    if let Ok(ReplyView::Listing(objects)) = result {
                        if let RequestView::List { dir } = op.request {
                            sync_keeps_dates(inodes, dir, listed_children(objects));
                        }
                    }
                },
                _ => {
                    reveal(OpView::safe_flush_replied);
                    reveal(OpView::unsafe_flush_replied);
                    let after = op.step(state, link, event).state.inodes;
                    if after != inodes && after != bumped {
                        lemma_replaced_is_dated(inodes, after, op.flushed().0);
                    }
                },
            }
        },
    }
}

proof fn lemma_replaced_is_dated(before: TableView, after: TableView, ino: u64)
    requires
        before.dated(),
        before.entries.contains_key(ino),
        after.generation == before.generation,
        after.entries == before.entries.insert(ino, after.entries[ino]),
        after.entries[ino].generation <= before.generation,
    ensures
        after.dated(),
{
    assert forall|k: u64| #[trigger] after.entries.contains_key(k) implies after.entries[k].generation
        <= after.generation by {
        assert(before.entries.contains_key(k));
    }
}

/// An operation keeps every name leading to its entry, whatever the device answers and whatever
/// names are taken, but for a flush that ends under its temporary name.
pub proof fn operations_keep_names_leading<C>(
    op: OpView,
    state: StateView<C>,
    link: Link,
    event: EventView,
)
    requires
        state.inodes.all_names_lead(),
        0 <= state.inodes.next_inode,
        event matches EventView::Replied(Ok(ReplyView::Listing(objects)))
            ==> state.inodes.next_inode + objects.len() <= u64::MAX,
        (op.phase is DeleteOld || op.phase is RenameNew) ==> !(event matches EventView::Replied(
            Err(_),
        )),
    ensures
        op.step(state, link, event).state.inodes.all_names_lead(),
{
    let inodes = state.inodes;
    let after = op.step(state, link, event).state.inodes;
    match event {
        EventView::Begin => {
            lemma_start(op, state, link);
        },
        EventView::Reconnected(_) => {
            let next = OpView { recovery: op.recovery.next_session(), ..op };
            lemma_start(next, state, link);
        },
        EventView::Replied(result) => {
            let over = op.at(PhaseView::Over);
            if let Err(error) = result {
                let spent = OpView {
                    recovery: over.recovery.spent(over.recovery.verdict(error)),
                    ..over
                };
                lemma_start(spent, state.invalidated(), link);
            }
            match op.phase {
                PhaseView::Subject(walk) => {
                    reveal(OpView::subject_listed);
                    if let Ok(ReplyView::Listing(objects)) = result {
                        if let Some(handle) = listed_handle(inodes, walk, objects) {
                            let table = inodes.set_handle(walk.chain[walk.at], handle);
                            let ahead = ResolverView {
                                at: walk.at + 1,
                                above: Some(handle),
                                ..walk
                            };
                            lemma_with_subject(
                                over,
                                StateView { inodes: table, ..state },
                                link,
                                resume(table, ahead),
                            );
                        }
                    }
                },
                PhaseView::Directory { handle: h, storage, walk } => {
                    reveal(OpView::directory_listed);
                    if let Ok(ReplyView::Listing(objects)) = result {
                        if let Some(handle) = listed_handle(inodes, walk, objects) {
                            let table = inodes.set_handle(walk.chain[walk.at], handle);
                            let ahead = ResolverView {
                                at: walk.at + 1,
                                above: Some(handle),
                                ..walk
                            };
                            lemma_with_directory(
                                over,
                                StateView { inodes: table, ..state },
                                link,
                                storage,
                                h,
                                resume(table, ahead),
                            );
                        }
                    }
                },
                PhaseView::Called => {
                    if let Ok(ReplyView::Listing(objects)) = result {
                        if let RequestView::List { dir } = op.request {
                            sync_keeps_names_leading(inodes, dir, listed_children(objects));
                        }
                    }
                },
                _ => {
                    reveal(OpView::safe_flush_replied);
                    reveal(OpView::unsafe_flush_replied);
                },
            }
            if !(op.phase is Called && result is Ok) {
                assert forall|p: u64, n: Seq<char>| #[trigger]
                    after.names.contains_key((p, n)) implies after.name_leads(p, n) by {
                    assert(inodes.names.contains_key((p, n)));
                    assert(inodes.name_leads(p, n));
                }
            }
        },
    }
}

} // verus!
