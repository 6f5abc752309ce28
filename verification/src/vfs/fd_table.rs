//! The open-file table: which descriptors are open, on which node, with
//! which flags, and where their cursor stands.

use vstd::prelude::*;
use std::collections::BTreeMap;
use super::{VfsError, VfsNodeRef, VfsResult};

verus! {

/// A file descriptor. Descriptors 0, 1 and 2 belong to the console and are
/// never handed out by the table.
#[derive(Debug, Clone, Copy, PartialEq, Eq, PartialOrd, Ord, Structural)]
pub struct FileDescriptor(pub usize);

/// The first descriptor that the table hands out.
pub const FIRST_FD: usize = 3;

/// How a file was opened.
#[derive(Debug, Clone, Copy, PartialEq, Eq, Structural)]
pub struct OpenFlags {
    pub read: bool,
    pub write: bool,
    pub append: bool,
    pub create: bool,
}

impl OpenFlags {
    pub fn read_only() -> (flags: Self)
        ensures
            flags == (OpenFlags { read: true, write: false, append: false, create: false }),
    {
        OpenFlags { read: true, write: false, append: false, create: false }
    }

    pub fn write_only() -> (flags: Self)
        ensures
            flags == (OpenFlags { read: false, write: true, append: false, create: false }),
    {
        OpenFlags { read: false, write: true, append: false, create: false }
    }

    pub fn read_write() -> (flags: Self)
        ensures
            flags == (OpenFlags { read: true, write: true, append: false, create: false }),
    {
        OpenFlags { read: true, write: true, append: false, create: false }
    }
}

/// The record of one open file: the node it was opened on, the offset of
/// its cursor, and its flags.
#[derive(Debug, Clone, Copy, PartialEq, Eq, Structural)]
pub struct OpenFile {
    pub node: VfsNodeRef,
    pub offset: usize,
    pub flags: OpenFlags,
}

/// The table as the contracts see it.
pub struct FdTableState {
    /// The open descriptors with their records.
    pub files: Map<usize, OpenFile>,
    /// The descriptor that the next file gets.
    pub next_fd: usize,
    /// Every descriptor that the table has handed out, open or closed, in
    /// the order in which they were handed out.
    pub issued: Seq<usize>,
}

/// One step in the life of a table: a file is opened or a descriptor closed.
pub enum FdOp {
    Alloc(VfsNodeRef, OpenFlags),
    Close(FileDescriptor),
}

impl FdTableState {
    /// An empty table whose first descriptor will be 3.
    pub open spec fn initial() -> FdTableState {
        FdTableState { files: Map::empty(), next_fd: FIRST_FD, issued: Seq::empty() }
    }

    /// Every descriptor that was handed out is at least 3 and below the
    /// next one to hand out, they were handed out in strictly increasing
    /// order, and every open descriptor is among them.
    pub open spec fn wf(self) -> bool {
        &&& self.next_fd >= FIRST_FD
        &&& forall|fd: usize| #[trigger] self.files.contains_key(fd) ==> FIRST_FD <= fd < self.next_fd
        &&& forall|i: int|
            0 <= i < self.issued.len() ==> FIRST_FD <= (#[trigger] self.issued[i]) < self.next_fd
        &&& forall|i: int, j: int|
            0 <= i < j < self.issued.len() ==> (#[trigger] self.issued[i]) < (
            #[trigger] self.issued[j])
    }

    /// A table that has handed out `usize::MAX` has no descriptor left.
    pub open spec fn exhausted(self) -> bool {
        self.next_fd == usize::MAX
    }

    /// The table after a file was opened on `node` with `flags`: the new
    /// descriptor has its record, with the cursor at 0, and every other
    /// record is as before.
    pub open spec fn after_allocate(self, node: VfsNodeRef, flags: OpenFlags) -> FdTableState {
        FdTableState {
            files: self.files.insert(self.next_fd, OpenFile { node, offset: 0, flags }),
            next_fd: (self.next_fd + 1) as usize,
            issued: self.issued.push(self.next_fd),
        }
    }

    /// The table after `fd` was closed.
    pub open spec fn after_close(self, fd: FileDescriptor) -> FdTableState {
        FdTableState { files: self.files.remove(fd.0), ..self }
    }

    /// The table after one step. A step that cannot be taken (opening a
    /// file on an exhausted table) leaves the table as it is.
    pub open spec fn apply(self, op: FdOp) -> FdTableState {
        match op {
            FdOp::Alloc(node, flags) => if self.exhausted() {
                self
            } else {
                self.after_allocate(node, flags)
            },
            FdOp::Close(fd) => self.after_close(fd),
        }
    }

    /// The table after the steps `ops`, taken in order.
    pub open spec fn run(self, ops: Seq<FdOp>) -> FdTableState
        decreases ops.len(),
    {
        if ops.len() == 0 {
            self
        } else {
            self.run(ops.drop_last()).apply(ops.last())
        }
    }

    /// One step keeps the table well formed.
    pub proof fn lemma_apply_wf(self, op: FdOp)
        requires
            self.wf(),
        ensures
            self.apply(op).wf(),
    {
    }

    /// Whatever files are opened and closed, and in whatever order, the
    /// table stays well formed: the descriptors handed out are at least 3
    /// and strictly increasing. What was handed out before stays on
    /// record, so a descriptor is never handed out twice.
    pub proof fn lemma_issued_increasing(self, ops: Seq<FdOp>)
        requires
            self.wf(),
        ensures
            self.run(ops).wf(),
            self.next_fd <= self.run(ops).next_fd,
            self.issued.len() <= self.run(ops).issued.len(),
            forall|i: int|
                0 <= i < self.issued.len() ==> (#[trigger] self.run(ops).issued[i])
                    == self.issued[i],
            forall|i: int|
                self.issued.len() <= i < self.run(ops).issued.len() ==> self.next_fd <= (
                #[trigger] self.run(ops).issued[i]),
        decreases ops.len(),
    {
        if ops.len() > 0 {
            let earlier = ops.drop_last();
            self.lemma_issued_increasing(earlier);
            let before = self.run(earlier);
            assert(self.run(ops) == before.apply(ops.last()));
        }
    }
}

/// The table of open files.
pub struct FdTable {
    files: BTreeMap<usize, OpenFile>,
    next_fd: usize,
    issued: Ghost<Seq<usize>>,
}

/// Hands out a mutable reference to the record stored under `fd`, as
/// `BTreeMap::get_mut` does: `None` when the map has no such key; else the
/// record, and whatever the caller leaves in it is what the map holds under
/// `fd` afterwards. Nothing else in the map changes.
#[verifier::external_body]
fn record_mut(files: &mut BTreeMap<usize, OpenFile>, fd: usize) -> (r: Option<&mut OpenFile>)
    ensures
        match r {
            Some(file) => old(files)@.contains_key(fd) && *file == old(files)@[fd] && final(files)@
                == old(files)@.insert(fd, *final(file)),
            None => !old(files)@.contains_key(fd) && final(files)@ == old(files)@,
        },
{
    files.get_mut(&fd)
}

impl FdTable {
    pub closed spec fn view(&self) -> FdTableState {
        FdTableState { files: self.files@, next_fd: self.next_fd, issued: self.issued@ }
    }

    /// An empty table.
    pub fn new() -> (table: Self)
        ensures
            table@ == FdTableState::initial(),
            table@.wf(),
    {
        FdTable { files: BTreeMap::new(), next_fd: FIRST_FD, issued: Ghost(Seq::empty()) }
    }

    /// Whether the table has no descriptor left to hand out.
    pub fn is_exhausted(&self) -> (b: bool)
        ensures
            b == self@.exhausted(),
    {
        self.next_fd == usize::MAX
    }

    /// Opens a file on `node`: hands out the next descriptor, with the
    /// cursor at offset 0. The descriptor is at least 3 and greater than
    /// every descriptor that the table has handed out before, closed or
    /// not.
    pub fn allocate(&mut self, node: VfsNodeRef, flags: OpenFlags) -> (fd: FileDescriptor)
        requires
            old(self)@.wf(),
            !old(self)@.exhausted(),
        ensures
            final(self)@.wf(),
            fd.0 == old(self)@.next_fd,
            fd.0 >= FIRST_FD,
            forall|i: int| 0 <= i < old(self)@.issued.len() ==> old(self)@.issued[i] < fd.0,
            final(self)@ == old(self)@.after_allocate(node, flags),
    {
        broadcast use {vstd::std_specs::btree::group_btree_axioms, vstd::laws_cmp::group_laws_cmp};

        let fd = FileDescriptor(self.next_fd);
        self.next_fd += 1;
        self.files.insert(fd.0, OpenFile { node, offset: 0, flags });
        self.issued = Ghost(self.issued@.push(fd.0));
        proof {
            old(self)@.lemma_apply_wf(FdOp::Alloc(node, flags));
            assert(self@ == old(self)@.apply(FdOp::Alloc(node, flags)));
        }
        fd
    }

    /// The record of an open descriptor.
    pub fn get(&self, fd: FileDescriptor) -> (r: Option<&OpenFile>)
        ensures
            r is Some <==> self@.files.contains_key(fd.0),
            r is Some ==> *r->Some_0 == self@.files[fd.0],
    {
        broadcast use {vstd::std_specs::btree::group_btree_axioms, vstd::laws_cmp::group_laws_cmp};

        self.files.get(&fd.0)
    }

    /// The record of an open descriptor, for the caller to update.
    pub fn get_mut(&mut self, fd: FileDescriptor) -> (r: Option<&mut OpenFile>)
        ensures
            final(self)@.next_fd == old(self)@.next_fd,
            final(self)@.issued == old(self)@.issued,
            match r {
                Some(file) => old(self)@.files.contains_key(fd.0) && *file == old(self)@.files[fd.0]
                    && final(self)@.files == old(self)@.files.insert(fd.0, *final(file)),
                None => !old(self)@.files.contains_key(fd.0) && final(self)@.files == old(
                    self,
                )@.files,
            },
    {
        record_mut(&mut self.files, fd.0)
    }

    /// Closes `fd`. A descriptor that is not open is reported as `NotFound`.
    pub fn close(&mut self, fd: FileDescriptor) -> (r: VfsResult<()>)
        ensures
            old(self)@.wf() ==> final(self)@.wf(),
            old(self)@.files.contains_key(fd.0) ==> r == Ok::<(), VfsError>(()) && final(self)@
                == old(self)@.after_close(fd),
            !old(self)@.files.contains_key(fd.0) ==> r == Err::<(), VfsError>(VfsError::NotFound)
                && final(self)@ == old(self)@,
    {
        broadcast use {vstd::std_specs::btree::group_btree_axioms, vstd::laws_cmp::group_laws_cmp};

        let removed = self.files.remove(&fd.0);
        proof {
            if old(self)@.wf() {
                old(self)@.lemma_apply_wf(FdOp::Close(fd));
            }
            if removed is None {
                assert(self.files@ =~= old(self).files@);
            }
            assert(self@ == old(self)@.apply(FdOp::Close(fd)));
        }
        match removed {
            Some(_) => Ok(()),
            None => {
                assert(self.files@ =~= old(self).files@);
                Err(VfsError::NotFound)
            },
        }
    }
}

} // verus!
