//! What the filesystem asks of the device, and what the device answers.
use crate::clock::{at_unix_second, unix_time};
use crate::device_error::DeviceError;
use crate::fs::datetime::{mtp_datetime_to_system_time, DateTime};
use crate::inode::model::{child_views, ChildView};
use crate::inode::{ChildInfo, ObjectHandle};
use std::time::SystemTime;
use vstd::prelude::*;

verus! {

/// An object as a listing reports it.
#[derive(Debug)]
pub struct ObjectFacts {
    pub handle: ObjectHandle,
    pub filename: String,
    pub is_folder: bool,
    pub size: u64,
    pub modified: Option<DateTime>,
}

/// An [`ObjectFacts`], with its name as a sequence of characters.
#[verifier::ext_equal]
pub struct ObjectView {
    pub handle: ObjectHandle,
    pub filename: Seq<char>,
    pub is_folder: bool,
    pub size: u64,
    pub modified: Option<DateTime>,
}

impl View for ObjectFacts {
    type V = ObjectView;

    open spec fn view(&self) -> ObjectView {
        ObjectView {
            handle: self.handle,
            filename: self.filename@,
            is_folder: self.is_folder,
            size: self.size,
            modified: self.modified,
        }
    }
}

pub open spec fn object_views(objects: Seq<ObjectFacts>) -> Seq<ObjectView> {
    Seq::new(objects.len(), |i: int| objects[i]@)
}

impl ObjectView {
    /// The time the mount shows: that of the device, or the epoch where it has none or an earlier
    /// one.
    pub open spec fn shown_time(self) -> SystemTime {
        match self.modified {
            Some(dt) => unix_time(
                if dt.epoch_seconds() >= 0 {
                    dt.epoch_seconds()
                } else {
                    0
                },
            ),
            None => unix_time(0),
        }
    }

    /// The child that a listing of its parent reports.
    pub open spec fn as_child(self) -> ChildView {
        ChildView {
            handle: self.handle,
            name: self.filename,
            is_dir: self.is_folder,
            size: self.size,
            mtime: self.shown_time(),
        }
    }
}

/// The children that a listing reports.
pub open spec fn listed_children(objects: Seq<ObjectView>) -> Seq<ChildView> {
    Seq::new(objects.len(), |i: int| objects[i].as_child())
}

/// The handle of the first object of that name.
pub open spec fn first_named(objects: Seq<ObjectView>, name: Seq<char>) -> Option<ObjectHandle>
    decreases objects.len(),
{
    if objects.len() == 0 {
        None
    } else if objects[0].filename == name {
        Some(objects[0].handle)
    } else {
        first_named(objects.drop_first(), name)
    }
}

/// The handles of all objects of that name, in order.
pub open spec fn all_named(objects: Seq<ObjectView>, name: Seq<char>) -> Seq<ObjectHandle>
    decreases objects.len(),
{
    if objects.len() == 0 {
        Seq::empty()
    } else if objects.last().filename == name {
        all_named(objects.drop_last(), name).push(objects.last().handle)
    } else {
        all_named(objects.drop_last(), name)
    }
}

/// The handle of the first object of that name.
pub fn find_named(objects: &Vec<ObjectFacts>, name: &String) -> (found: Option<ObjectHandle>)
    ensures
        found == first_named(object_views(objects@), name@),
{
    let ghost views = object_views(objects@);
    let mut i: usize = 0;
    assert(views.subrange(0, views.len() as int) =~= views);
    while i < objects.len()
        invariant
            i <= objects.len(),
            views == object_views(objects@),
            first_named(views, name@) == first_named(
                views.subrange(i as int, views.len() as int),
                name@,
            ),
        decreases objects.len() - i,
    {
        assert(views.subrange(i as int, views.len() as int).drop_first() =~= views.subrange(
            i + 1,
            views.len() as int,
        ));
        if objects[i].filename == *name {
            return Some(objects[i].handle);
        }
        i += 1;
    }
    None
}

/// The handles of all objects of that name, in order.
pub fn find_all_named(objects: &Vec<ObjectFacts>, name: &String) -> (found: Vec<ObjectHandle>)
    ensures
        found@ == all_named(object_views(objects@), name@),
{
    let ghost views = object_views(objects@);
    let mut found: Vec<ObjectHandle> = Vec::new();
    let mut i: usize = 0;
    while i < objects.len()
        invariant
            i <= objects.len(),
            views == object_views(objects@),
            found@ == all_named(views.take(i as int), name@),
        decreases objects.len() - i,
    {
        assert(views.take(i + 1).drop_last() =~= views.take(i as int));
        if objects[i].filename == *name {
            found.push(objects[i].handle);
        }
        i += 1;
    }
    assert(views.take(i as int) =~= views);
    found
}

/// The children that a listing reports.
pub fn children_of(objects: &Vec<ObjectFacts>) -> (children: Vec<ChildInfo>)
    ensures
        child_views(children@) == listed_children(object_views(objects@)),
{
    let mut children: Vec<ChildInfo> = Vec::new();
    let mut i: usize = 0;
    while i < objects.len()
        invariant
            i <= objects.len(),
            children.len() == i,
            forall|k: int|
                0 <= k < i ==> (#[trigger] children@[k])@ == object_views(
                    objects@,
                )[k].as_child(),
        decreases objects.len() - i,
    {
        let obj = &objects[i];
        let mtime = match &obj.modified {
            Some(dt) => mtp_datetime_to_system_time(dt),
            None => at_unix_second(0),
        };
        children.push(
            ChildInfo {
                handle: obj.handle,
                name: obj.filename.clone(),
                is_dir: obj.is_folder,
                size: obj.size,
                mtime,
            },
        );
        i += 1;
    }
    assert(child_views(children@) =~= listed_children(object_views(objects@)));
    children
}

/// A call into the current session. `storage` is a position in the mount's list of storages; no
/// parent means the storage's root.
#[derive(Debug)]
pub enum DeviceCall {
    ListObjects { storage: usize, parent: Option<ObjectHandle> },
    /// Upload a new object. What it holds is the caller's business.
    Upload { storage: usize, parent: Option<ObjectHandle>, name: String, size: u64 },
    CreateFolder { storage: usize, parent: Option<ObjectHandle>, name: String },
    Delete { storage: usize, handle: ObjectHandle },
    Rename { storage: usize, handle: ObjectHandle, name: String },
    MoveObject { storage: usize, handle: ObjectHandle, new_parent: ObjectHandle },
    ReadRange { storage: usize, handle: ObjectHandle, offset: u64, len: u32 },
    Download { storage: usize, handle: ObjectHandle },
    GetObjectInfo { storage: usize, handle: ObjectHandle },
}

/// A [`DeviceCall`], with names as sequences of characters.
#[verifier::ext_equal]
pub enum CallView {
    ListObjects { storage: int, parent: Option<ObjectHandle> },
    Upload { storage: int, parent: Option<ObjectHandle>, name: Seq<char>, size: u64 },
    CreateFolder { storage: int, parent: Option<ObjectHandle>, name: Seq<char> },
    Delete { storage: int, handle: ObjectHandle },
    Rename { storage: int, handle: ObjectHandle, name: Seq<char> },
    MoveObject { storage: int, handle: ObjectHandle, new_parent: ObjectHandle },
    ReadRange { storage: int, handle: ObjectHandle, offset: u64, len: u32 },
    Download { storage: int, handle: ObjectHandle },
    GetObjectInfo { storage: int, handle: ObjectHandle },
}

impl View for DeviceCall {
    type V = CallView;

    open spec fn view(&self) -> CallView {
        match self {
            DeviceCall::ListObjects { storage, parent } => CallView::ListObjects {
                storage: *storage as int,
                parent: *parent,
            },
            DeviceCall::Upload { storage, parent, name, size } => CallView::Upload {
                storage: *storage as int,
                parent: *parent,
                name: name@,
                size: *size,
            },
            DeviceCall::CreateFolder { storage, parent, name } => CallView::CreateFolder {
                storage: *storage as int,
                parent: *parent,
                name: name@,
            },
            DeviceCall::Delete { storage, handle } => CallView::Delete {
                storage: *storage as int,
                handle: *handle,
            },
            DeviceCall::Rename { storage, handle, name } => CallView::Rename {
                storage: *storage as int,
                handle: *handle,
                name: name@,
            },
            DeviceCall::MoveObject { storage, handle, new_parent } => CallView::MoveObject {
                storage: *storage as int,
                handle: *handle,
                new_parent: *new_parent,
            },
            DeviceCall::ReadRange { storage, handle, offset, len } => CallView::ReadRange {
                storage: *storage as int,
                handle: *handle,
                offset: *offset,
                len: *len,
            },
            DeviceCall::Download { storage, handle } => CallView::Download {
                storage: *storage as int,
                handle: *handle,
            },
            DeviceCall::GetObjectInfo { storage, handle } => CallView::GetObjectInfo {
                storage: *storage as int,
                handle: *handle,
            },
        }
    }
}

/// What a successful call brought back.
#[derive(Debug)]
pub enum Reply {
    /// The objects of a directory.
    Listing(Vec<ObjectFacts>),
    /// The handle of a new object.
    Created(ObjectHandle),
    /// The bytes of a range.
    Bytes(Vec<u8>),
    /// Nothing but that it worked.
    Done,
}

/// A [`Reply`], with lists as sequences.
#[verifier::ext_equal]
pub enum ReplyView {
    Listing(Seq<ObjectView>),
    Created(ObjectHandle),
    Bytes(Seq<u8>),
    Done,
}

impl View for Reply {
    type V = ReplyView;

    open spec fn view(&self) -> ReplyView {
        match self {
            Reply::Listing(objects) => ReplyView::Listing(object_views(objects@)),
            Reply::Created(handle) => ReplyView::Created(*handle),
            Reply::Bytes(bytes) => ReplyView::Bytes(bytes@),
            Reply::Done => ReplyView::Done,
        }
    }
}

/// A reply or a failure, as mathematical values.
pub open spec fn result_view(result: Result<Reply, DeviceError>) -> Result<ReplyView, DeviceError> {
    match result {
        Ok(reply) => Ok(reply@),
        Err(error) => Err(error),
    }
}

/// What a call is seen as is the call itself: no two different calls look the same.
pub proof fn calls_are_seen_as_they_are(call: DeviceCall)
    ensures
        match (call, call@) {
            (
                DeviceCall::ListObjects { storage, parent },
                CallView::ListObjects { storage: s, parent: p },
            ) => s == storage && p == parent,
            (
                DeviceCall::Upload { storage, parent, name, size },
                CallView::Upload { storage: s, parent: p, name: n, size: z },
            ) => s == storage && p == parent && n == name@ && z == size,
            (
                DeviceCall::CreateFolder { storage, parent, name },
                CallView::CreateFolder { storage: s, parent: p, name: n },
            ) => s == storage && p == parent && n == name@,
            (
                DeviceCall::Delete { storage, handle },
                CallView::Delete { storage: s, handle: h },
            ) => s == storage && h == handle,
            (
                DeviceCall::Rename { storage, handle, name },
                CallView::Rename { storage: s, handle: h, name: n },
            ) => s == storage && h == handle && n == name@,
            (
                DeviceCall::MoveObject { storage, handle, new_parent },
                CallView::MoveObject { storage: s, handle: h, new_parent: p },
            ) => s == storage && h == handle && p == new_parent,
            (
                DeviceCall::ReadRange { storage, handle, offset, len },
                CallView::ReadRange { storage: s, handle: h, offset: o, len: l },
            ) => s == storage && h == handle && o == offset && l == len,
            (
                DeviceCall::Download { storage, handle },
                CallView::Download { storage: s, handle: h },
            ) => s == storage && h == handle,
            (
                DeviceCall::GetObjectInfo { storage, handle },
                CallView::GetObjectInfo { storage: s, handle: h },
            ) => s == storage && h == handle,
            _ => false,
        },
{
}

/// What a reply is seen as is the reply itself, and so is each object of a listing.
pub proof fn replies_are_seen_as_they_are(reply: Reply)
    ensures
        match (reply, reply@) {
            (Reply::Listing(objects), ReplyView::Listing(views)) => views.len() == objects@.len()
                && forall|i: int|
                0 <= i < views.len() ==> {
                    let view = #[trigger] views[i];
                    &&& view.handle == objects@[i].handle
                    &&& view.filename == objects@[i].filename@
                    &&& view.is_folder == objects@[i].is_folder
                    &&& view.size == objects@[i].size
                    &&& view.modified == objects@[i].modified
                },
            (Reply::Created(handle), ReplyView::Created(h)) => h == handle,
            (Reply::Bytes(bytes), ReplyView::Bytes(b)) => b == bytes@,
            (Reply::Done, ReplyView::Done) => true,
            _ => false,
        },
{
}

/// A listing's children are its objects: each with its name, as the file or folder that it is, with
/// its handle and size, dated as the device says or at the epoch.
pub proof fn listed_children_are_the_objects(objects: Seq<ObjectView>, i: int)
    requires
        0 <= i < objects.len(),
    ensures
        listed_children(objects).len() == objects.len(),
        listed_children(objects)[i].name == objects[i].filename,
        listed_children(objects)[i].is_dir == objects[i].is_folder,
        listed_children(objects)[i].handle == objects[i].handle,
        listed_children(objects)[i].size == objects[i].size,
        objects[i].modified is None ==> listed_children(objects)[i].mtime == unix_time(0),
        objects[i].modified matches Some(dt) ==> listed_children(objects)[i].mtime == unix_time(
            if dt.epoch_seconds() < 0 {
                0
            } else {
                dt.epoch_seconds()
            },
        ),
{
}

} // verus!
