//! Renaming and moving, which is up to two device operations.
use crate::device_error::DeviceError;
use crate::fs::errno::Errno;
use crate::fs::operation::model::RequestView;
use crate::fs::operation::Request;
use crate::fs::ops::text_of;
use crate::fs::protocol::Reply;
use crate::fs::state::{MountState, StateView};
use crate::inode::model::kind_handle;
use vstd::prelude::*;

verus! {

/// A rename in progress: what moves where, and what the device has not been asked yet.
#[derive(Debug)]
pub struct RenameRun {
    child: u64,
    new_parent: u64,
    new_name: String,
    /// The device still has to rename the object.
    renames: bool,
    /// The device still has to move the object.
    moves: bool,
}

/// A [`RenameRun`], with its name as a sequence of characters.
#[verifier::ext_equal]
pub struct RenameView {
    pub child: u64,
    pub new_parent: u64,
    pub new_name: Seq<char>,
    pub renames: bool,
    pub moves: bool,
}

impl View for RenameRun {
    type V = RenameView;

    closed spec fn view(&self) -> RenameView {
        RenameView {
            child: self.child,
            new_parent: self.new_parent,
            new_name: self.new_name@,
            renames: self.renames,
            moves: self.moves,
        }
    }
}

/// What a rename does next.
#[derive(Debug)]
pub enum RenameStep {
    /// Ask this of the device.
    Run(Request),
    /// Nothing more: this is the answer.
    Done(Result<(), Errno>),
}

impl RenameView {
    /// What the device is asked next: the name first, then the place.
    pub open spec fn next_request(self) -> Option<RequestView> {
        if self.renames {
            Some(RequestView::Rename { inode: self.child, name: self.new_name })
        } else if self.moves {
            Some(RequestView::Move { inode: self.child, new_parent: self.new_parent })
        } else {
            None
        }
    }

    /// The rename after that was asked.
    pub open spec fn after_request(self) -> RenameView {
        if self.renames {
            RenameView { renames: false, ..self }
        } else {
            RenameView { moves: false, ..self }
        }
    }
}

impl<C> StateView<C> {
    /// How a rename starts, or why it does not.
    pub open spec fn rename_start(
        self,
        parent: u64,
        name: Option<Seq<char>>,
        new_parent: u64,
        new_name: Option<Seq<char>>,
    ) -> Result<RenameView, Errno> {
        if self.read_only {
            Err(Errno::EROFS)
        } else {
            match (name, new_name) {
                (None, _) => Err(Errno::ENOENT),
                (Some(_), None) => Err(Errno::EINVAL),
                (Some(n), Some(nn)) => match self.inodes.named(parent, n) {
                    None => Err(Errno::ENOENT),
                    Some(child) => if !self.inodes.entries.contains_key(child) || kind_handle(
                        self.inodes.entries[child].kind,
                    ) is None {
                        Err(Errno::EINVAL)
                    } else if parent != new_parent && !self.is_dir(new_parent) {
                        Err(Errno::ENOTDIR)
                    } else {
                        Ok(
                            RenameView {
                                child,
                                new_parent,
                                new_name: nn,
                                renames: n != nn,
                                moves: parent != new_parent,
                            },
                        )
                    },
                },
            }
        }
    }
}

impl<C> MountState<C> {
    /// How a rename starts, or why it does not.
    pub fn begin_rename(
        &self,
        parent: u64,
        name: Option<&str>,
        new_parent: u64,
        new_name: Option<&str>,
    ) -> (start: Result<RenameRun, Errno>)
        ensures
            match (
                start,
                self@.rename_start(parent, text_of(name), new_parent, text_of(new_name)),
            ) {
                (Ok(run), Ok(view)) => run@ == view,
                (Err(e), Err(f)) => e == f,
                _ => false,
            },
    {
        if self.read_only {
            return Err(Errno::EROFS);
        }
        let name = match name {
            Some(n) => n,
            None => {
                return Err(Errno::ENOENT);
            },
        };
        let new_name = match new_name {
            Some(n) => n,
            None => {
                return Err(Errno::EINVAL);
            },
        };
        let child: u64 = match self.inodes.lookup(parent, name) {
            Some(ino) => ino,
            None => {
                return Err(Errno::ENOENT);
            },
        };
        let is_object = match self.inodes.get(child) {
            Some(entry) => entry.kind.handle().is_some(),
            None => false,
        };
        if !is_object {
            return Err(Errno::EINVAL);
        }
        if parent != new_parent {
            let is_dir = match self.inodes.get(new_parent) {
                Some(entry) => entry.is_dir(),
                None => false,
            };
            if !is_dir {
                return Err(Errno::ENOTDIR);
            }
        }
        let new_name = new_name.to_string();
        let same = name.to_string() == new_name;
        Ok(RenameRun { child, new_parent, new_name, renames: !same, moves: parent != new_parent })
    }

    /// Takes the answer to the last request, and says what is next. Once the device has done
    /// everything, the table follows.
    pub fn rename_step(&mut self, run: &mut RenameRun, last: &Result<Reply, DeviceError>) -> (step:
        RenameStep)
        ensures
            if *last is Err {
                &&& step == RenameStep::Done(Err(Errno::EIO))
                &&& final(self)@ == old(self)@
                &&& final(run)@ == old(run)@
            } else {
                match old(run)@.next_request() {
                    Some(request) => {
                        &&& step matches RenameStep::Run(r) && r@ == request
                        &&& final(self)@ == old(self)@
                        &&& final(run)@ == old(run)@.after_request()
                    },
                    None => {
                        &&& step == RenameStep::Done(Ok(()))
                        &&& final(run)@ == old(run)@
                        &&& final(self)@ == (StateView {
                            inodes: old(self)@.inodes.rename(
                                old(run)@.child,
                                old(run)@.new_parent,
                                old(run)@.new_name,
                            ),
                            ..old(self)@
                        })
                    },
                }
            },
    {
        if last.is_err() {
            return RenameStep::Done(Err(Errno::EIO));
        }
        if run.renames {
            run.renames = false;
            return RenameStep::Run(
                Request::Rename { inode: run.child, name: run.new_name.clone() },
            );
        }
        if run.moves {
            run.moves = false;
            return RenameStep::Run(
                Request::Move { inode: run.child, new_parent: run.new_parent },
            );
        }
        self.inodes.rename(run.child, run.new_parent, run.new_name.clone());
        RenameStep::Done(Ok(()))
    }
}

} // verus!
