//! The file system as a whole: the node table, the root, the open files and
//! the random generator, with the operations that system calls reach:
//! resolving a path, opening, reading, writing and closing a file, and
//! making and listing directories.

use vstd::prelude::*;
use super::devfs::{DeviceNode, RANDOM_SEED};
use super::fd_table::{FdTable, FdTableState, FileDescriptor, OpenFile, OpenFlags};
use super::path::{
    components, components_from, is_absolute, lemma_segment_end, path_chars, segment_end, split,
    split_path, SEPARATOR,
};
use super::ramfs::{name_views, RamFs, RamFsState};
use super::{FileType, Permissions, VfsError, VfsNodeRef, VfsResult};
use vstd::string::StrSliceExecFns;

verus! {

/// Where a cursor at `offset` stands after `count` more bytes; it stops at
/// `usize::MAX`.
pub open spec fn advance(offset: usize, count: usize) -> usize {
    if offset + count <= usize::MAX {
        (offset + count) as usize
    } else {
        usize::MAX
    }
}

/// The whole file system as the contracts see it.
pub struct VfsState {
    /// The nodes of the in-memory file system.
    pub fs: RamFsState,
    /// The root that paths start from, once `init` has set it.
    pub root: Option<VfsNodeRef>,
    /// The open files.
    pub fds: FdTableState,
    /// The state of the generator behind `/dev/random`.
    pub seed: u64,
}

impl VfsState {
    /// The parts are well formed, and the root and every open file refer to
    /// nodes that exist.
    pub open spec fn wf(self) -> bool {
        &&& self.fs.wf()
        &&& self.fds.wf()
        &&& self.root matches Some(root) ==> self.fs.contains(root)
        &&& forall|fd: usize| #[trigger]
            self.fds.files.contains_key(fd) ==> self.fs.contains(self.fds.files[fd].node)
    }

    pub open spec fn file_type(self, node: VfsNodeRef) -> FileType {
        match node {
            VfsNodeRef::Ram(i) => self.fs.nodes[i as int].inode().file_type,
            VfsNodeRef::Device(_) => FileType::Device,
        }
    }

    pub open spec fn size(self, node: VfsNodeRef) -> nat {
        match node {
            VfsNodeRef::Ram(i) => self.fs.nodes[i as int].size(),
            VfsNodeRef::Device(_) => 0,
        }
    }

    pub open spec fn permissions(self, node: VfsNodeRef) -> Permissions {
        match node {
            VfsNodeRef::Ram(i) => self.fs.nodes[i as int].inode().permissions,
            VfsNodeRef::Device(_) => Permissions { mode: 0o666 },
        }
    }

    /// What looking up `name` in `node` returns.
    pub open spec fn lookup(self, node: VfsNodeRef, name: Seq<char>) -> VfsResult<VfsNodeRef> {
        match node {
            VfsNodeRef::Ram(i) => self.fs.nodes[i as int].lookup(name),
            VfsNodeRef::Device(_) => Err(VfsError::NotADirectory),
        }
    }

    /// What a read from `node` at `offset` into a buffer holding `buf`
    /// returns.
    pub open spec fn read_at(self, node: VfsNodeRef, offset: nat, buf: Seq<u8>) -> VfsResult<usize> {
        match node {
            VfsNodeRef::Ram(i) => self.fs.nodes[i as int].read_at(offset, buf),
            VfsNodeRef::Device(d) => Ok(d.read_count(buf.len()) as usize),
        }
    }

    /// What that read leaves in the buffer.
    pub open spec fn buffer_after_read(self, node: VfsNodeRef, offset: nat, buf: Seq<u8>) -> Seq<u8> {
        match node {
            VfsNodeRef::Ram(i) => self.fs.nodes[i as int].buffer_after_read(offset, buf),
            VfsNodeRef::Device(d) => d.read_content(buf, self.seed),
        }
    }

    /// The generator's state after that read.
    pub open spec fn seed_after_read(self, node: VfsNodeRef, len: nat) -> u64 {
        match node {
            VfsNodeRef::Ram(_) => self.seed,
            VfsNodeRef::Device(d) => d.seed_after_read(len, self.seed),
        }
    }

    /// What a write of `buf` to `node` at `offset` returns.
    pub open spec fn write_at(self, node: VfsNodeRef, offset: nat, buf: Seq<u8>) -> VfsResult<usize> {
        match node {
            VfsNodeRef::Ram(i) => self.fs.nodes[i as int].write_at(offset, buf),
            VfsNodeRef::Device(DeviceNode::Null) => Ok(buf.len() as usize),
            VfsNodeRef::Device(_) => Err(VfsError::PermissionDenied),
        }
    }

    /// The nodes after that write.
    pub open spec fn fs_after_write(self, node: VfsNodeRef, offset: nat, buf: Seq<u8>) -> RamFsState {
        match node {
            VfsNodeRef::Ram(i) => self.fs.after_write(i as int, offset, buf),
            VfsNodeRef::Device(_) => self.fs,
        }
    }

    /// What creating `name` in `node` returns.
    pub open spec fn create(self, node: VfsNodeRef, name: Seq<char>, file_type: FileType)
        -> VfsResult<VfsNodeRef> {
        match node {
            VfsNodeRef::Ram(i) => self.fs.create_result(i as int, name, file_type),
            VfsNodeRef::Device(_) => Err(VfsError::NotADirectory),
        }
    }

    /// The nodes after that call of `create`.
    pub open spec fn fs_after_create(self, node: VfsNodeRef, name: Seq<char>, file_type: FileType)
        -> RamFsState {
        match node {
            VfsNodeRef::Ram(i) => self.fs.after_create(i as int, name, file_type),
            VfsNodeRef::Device(_) => self.fs,
        }
    }

    /// Where the names `names`, looked up one after the other from `node`
    /// on, lead. The first lookup that fails ends the walk with its error.
    pub open spec fn walk(self, node: VfsNodeRef, names: Seq<Seq<char>>) -> VfsResult<VfsNodeRef>
        decreases names.len(),
    {
        if names.len() == 0 {
            Ok(node)
        } else {
            match self.lookup(node, names[0]) {
                Ok(next) => self.walk(next, names.drop_first()),
                Err(e) => Err(e),
            }
        }
    }

    /// The node that `path` names. Only absolute paths are resolved; before
    /// `init` there is no root to start from, which is reported as
    /// `IoError`.
    pub open spec fn resolve(self, path: Seq<char>) -> VfsResult<VfsNodeRef> {
        if !is_absolute(path) {
            Err(VfsError::InvalidPath)
        } else {
            match self.root {
                None => Err(VfsError::IoError),
                Some(root) => self.walk(root, components(path)),
            }
        }
    }

    /// What `vfs_open` returns: the next descriptor if the path resolves
    /// and the table has one left.
    pub open spec fn open(self, path: Seq<char>) -> VfsResult<FileDescriptor> {
        match self.resolve(path) {
            Err(e) => Err(e),
            Ok(_) => if self.fds.exhausted() {
                Err(VfsError::NoSpace)
            } else {
                Ok(FileDescriptor(self.fds.next_fd))
            },
        }
    }

    /// The state after `vfs_open`.
    pub open spec fn after_open(self, path: Seq<char>, flags: OpenFlags) -> VfsState {
        if self.open(path) is Ok {
            VfsState { fds: self.fds.after_allocate(self.resolve(path)->Ok_0, flags), ..self }
        } else {
            self
        }
    }

    /// What `vfs_read` returns: the descriptor must be open and readable;
    /// the read starts at the descriptor's cursor.
    pub open spec fn read(self, fd: FileDescriptor, buf: Seq<u8>) -> VfsResult<usize> {
        if !self.fds.files.contains_key(fd.0) {
            Err(VfsError::NotFound)
        } else if !self.fds.files[fd.0].flags.read {
            Err(VfsError::PermissionDenied)
        } else {
            self.read_at(self.fds.files[fd.0].node, self.fds.files[fd.0].offset as nat, buf)
        }
    }

    /// What `vfs_read` leaves in the buffer.
    pub open spec fn buffer_after_vfs_read(self, fd: FileDescriptor, buf: Seq<u8>) -> Seq<u8> {
        if self.read(fd, buf) is Ok {
            self.buffer_after_read(
                self.fds.files[fd.0].node,
                self.fds.files[fd.0].offset as nat,
                buf,
            )
        } else {
            buf
        }
    }

    /// The state after `vfs_read`: the cursor has moved past what was read,
    /// and a read of `/dev/random` has advanced the generator.
    pub open spec fn after_read(self, fd: FileDescriptor, buf: Seq<u8>) -> VfsState {
        match self.read(fd, buf) {
            Ok(count) => {
                let file = self.fds.files[fd.0];
                VfsState {
                    fds: FdTableState {
                        files: self.fds.files.insert(
                            fd.0,
                            OpenFile { offset: advance(file.offset, count), ..file },
                        ),
                        ..self.fds
                    },
                    seed: self.seed_after_read(file.node, buf.len()),
                    ..self
                }
            },
            Err(_) => self,
        }
    }

    /// Where `vfs_write` writes: at the end of the file when the descriptor
    /// was opened for appending, else at its cursor.
    pub open spec fn write_position(self, file: OpenFile) -> usize {
        if file.flags.append {
            self.size(file.node) as usize
        } else {
            file.offset
        }
    }

    /// What `vfs_write` returns: the descriptor must be open and writable.
    pub open spec fn write(self, fd: FileDescriptor, buf: Seq<u8>) -> VfsResult<usize> {
        if !self.fds.files.contains_key(fd.0) {
            Err(VfsError::NotFound)
        } else if !self.fds.files[fd.0].flags.write {
            Err(VfsError::PermissionDenied)
        } else {
            let file = self.fds.files[fd.0];
            self.write_at(file.node, self.write_position(file) as nat, buf)
        }
    }

    /// The state after `vfs_write`: the node holds the bytes, and the cursor
    /// stands behind them.
    pub open spec fn after_vfs_write(self, fd: FileDescriptor, buf: Seq<u8>) -> VfsState {
        match self.write(fd, buf) {
            Ok(count) => {
                let file = self.fds.files[fd.0];
                let position = self.write_position(file);
                VfsState {
                    fs: self.fs_after_write(file.node, position as nat, buf),
                    fds: FdTableState {
                        files: self.fds.files.insert(
                            fd.0,
                            OpenFile { offset: advance(position, count), ..file },
                        ),
                        ..self.fds
                    },
                    ..self
                }
            },
            Err(_) => self,
        }
    }

    /// What making the entry that `path` names returns: the path must split
    /// into a parent that resolves and a name that the parent can take.
    pub open spec fn make(self, path: Seq<char>, file_type: FileType) -> VfsResult<()> {
        match split(path) {
            Err(e) => Err(e),
            Ok((parent, name)) => match self.resolve(parent) {
                Err(e) => Err(e),
                Ok(dir) => match self.create(dir, name, file_type) {
                    Err(e) => Err(e),
                    Ok(_) => Ok(()),
                },
            },
        }
    }

    /// The state after making the entry that `path` names.
    pub open spec fn after_make(self, path: Seq<char>, file_type: FileType) -> VfsState {
        match split(path) {
            Err(_) => self,
            Ok((parent, name)) => match self.resolve(parent) {
                Err(_) => self,
                Ok(dir) => VfsState { fs: self.fs_after_create(dir, name, file_type), ..self },
            },
        }
    }

    /// What attaching a device file at `path` returns: the path must split
    /// into a parent that resolves to a directory without that name.
    pub open spec fn attach(self, path: Seq<char>) -> VfsResult<()> {
        match split(path) {
            Err(e) => Err(e),
            Ok((parent, name)) => match self.resolve(parent) {
                Err(e) => Err(e),
                Ok(VfsNodeRef::Device(_)) => Err(VfsError::NotADirectory),
                Ok(VfsNodeRef::Ram(dir)) => self.fs.add_device_result(dir as int, name),
            },
        }
    }

    /// The state after a device file was attached at `path`.
    pub open spec fn after_attach(self, path: Seq<char>, device: DeviceNode) -> VfsState {
        match split(path) {
            Err(_) => self,
            Ok((parent, name)) => match self.resolve(parent) {
                Ok(VfsNodeRef::Ram(dir)) => VfsState {
                    fs: self.fs.after_add_device(dir as int, name, device),
                    ..self
                },
                _ => self,
            },
        }
    }

    /// `names` is what `vfs_readdir` may return for `path`.
    pub open spec fn lists(self, path: Seq<char>, names: Seq<Seq<char>>) -> bool {
        &&& self.resolve(path) matches Ok(VfsNodeRef::Ram(i))
        &&& self.fs.nodes[i as int].listed_as(names)
    }

    /// Why `vfs_readdir` fails on `path`, if it does.
    pub open spec fn readdir_error(self, path: Seq<char>) -> Option<VfsError> {
        match self.resolve(path) {
            Err(e) => Some(e),
            Ok(VfsNodeRef::Device(_)) => Some(VfsError::NotADirectory),
            Ok(VfsNodeRef::Ram(i)) => if self.fs.nodes[i as int] is Directory {
                None
            } else {
                Some(VfsError::NotADirectory)
            },
        }
    }

    /// A walk through a well-formed file system ends at a node that exists.
    pub proof fn lemma_walk_contained(self, node: VfsNodeRef, names: Seq<Seq<char>>)
        requires
            self.fs.wf(),
            self.fs.contains(node),
        ensures
            self.walk(node, names) matches Ok(end) ==> self.fs.contains(end),
        decreases names.len(),
    {
        if names.len() > 0 {
            match self.lookup(node, names[0]) {
                Ok(next) => {
                    let i = node->Ram_0 as int;
                    assert(self.fs.nodes[i].entries().contains_key(names[0]));
                    self.lemma_walk_contained(next, names.drop_first());
                },
                Err(_) => {},
            }
        }
    }

    /// A path that resolves in a well-formed file system names a node that
    /// exists.
    pub proof fn lemma_resolve_contained(self, path: Seq<char>)
        requires
            self.wf(),
        ensures
            self.resolve(path) matches Ok(node) ==> self.fs.contains(node),
    {
        if is_absolute(path) && self.root is Some {
            self.lemma_walk_contained(self.root->Some_0, components(path));
        }
    }
}

/// The file system: the node table, the root, the open-file table and the
/// generator behind `/dev/random`.
pub struct Vfs {
    fs: RamFs,
    root: Option<VfsNodeRef>,
    fds: FdTable,
    seed: u64,
}

impl Vfs {
    pub closed spec fn view(&self) -> VfsState {
        VfsState { fs: self.fs@, root: self.root, fds: self.fds@, seed: self.seed }
    }

    /// The parts are well formed, and so is the whole.
    pub closed spec fn wf(&self) -> bool {
        &&& self.fs.wf()
        &&& self@.wf()
    }

    /// A well-formed file system has a well-formed view.
    pub proof fn lemma_wf_view(&self)
        requires
            self.wf(),
        ensures
            self@.wf(),
    {
    }

    /// A file system over the nodes of `fs`, with no root set, no file open
    /// and the generator at its seed.
    pub fn new(fs: RamFs) -> (vfs: Self)
        requires
            fs.wf(),
        ensures
            vfs.wf(),
            vfs@ == (VfsState {
                fs: fs@,
                root: None,
                fds: FdTableState::initial(),
                seed: RANDOM_SEED,
            }),
    {
        proof {
            fs.lemma_wf_view();
        }
        Vfs { fs, root: None, fds: FdTable::new(), seed: RANDOM_SEED }
    }

    /// The root, once `init` has set it.
    pub fn root(&self) -> (root: Option<VfsNodeRef>)
        ensures
            root == self@.root,
    {
        self.root
    }

    pub fn file_type(&self, node: VfsNodeRef) -> (t: FileType)
        requires
            self.wf(),
            self@.fs.contains(node),
        ensures
            t == self@.file_type(node),
    {
        match node {
            VfsNodeRef::Ram(i) => self.fs.node(i).file_type(),
            VfsNodeRef::Device(d) => d.file_type(),
        }
    }

    pub fn size(&self, node: VfsNodeRef) -> (n: usize)
        requires
            self.wf(),
            self@.fs.contains(node),
        ensures
            n == self@.size(node),
    {
        match node {
            VfsNodeRef::Ram(i) => self.fs.node(i).size(),
            VfsNodeRef::Device(d) => d.size(),
        }
    }

    pub fn permissions(&self, node: VfsNodeRef) -> (p: Permissions)
        requires
            self.wf(),
            self@.fs.contains(node),
        ensures
            p == self@.permissions(node),
    {
        match node {
            VfsNodeRef::Ram(i) => self.fs.node(i).permissions(),
            VfsNodeRef::Device(d) => d.permissions(),
        }
    }

    /// Reads from `node` at `offset` into `buf`.
    pub fn read_at(&mut self, node: VfsNodeRef, offset: usize, buf: &mut [u8]) -> (r: VfsResult<usize>)
        requires
            old(self).wf(),
            old(self)@.fs.contains(node),
        ensures
            final(self).wf(),
            r == old(self)@.read_at(node, offset as nat, old(buf)@),
            final(buf)@ == old(self)@.buffer_after_read(node, offset as nat, old(buf)@),
            final(self)@ == (VfsState {
                seed: old(self)@.seed_after_read(node, old(buf)@.len()),
                ..old(self)@
            }),
    {
        match node {
            VfsNodeRef::Ram(i) => self.fs.node(i).read_at(offset, buf),
            VfsNodeRef::Device(d) => d.read_at(offset, buf, &mut self.seed),
        }
    }

    /// Writes `buf` to `node` at `offset`.
    pub fn write_at(&mut self, node: VfsNodeRef, offset: usize, buf: &[u8]) -> (r: VfsResult<usize>)
        requires
            old(self).wf(),
            old(self)@.fs.contains(node),
        ensures
            final(self).wf(),
            r == old(self)@.write_at(node, offset as nat, buf@),
            final(self)@ == (VfsState {
                fs: old(self)@.fs_after_write(node, offset as nat, buf@),
                ..old(self)@
            }),
    {
        match node {
            VfsNodeRef::Ram(i) => self.fs.write_at(i, offset, buf),
            VfsNodeRef::Device(d) => {
                let mut device = d;
                device.write_at(offset, buf)
            },
        }
    }

    /// Lists the names in the directory `node` in ascending order.
    pub fn readdir(&self, node: VfsNodeRef) -> (r: VfsResult<Vec<String>>)
        requires
            self.wf(),
            self@.fs.contains(node),
        ensures
            match r {
                Ok(names) => node is Ram && self@.fs.nodes[node->Ram_0 as int].listed_as(
                    name_views(names@),
                ),
                Err(e) => e == VfsError::NotADirectory && !(node is Ram
                    && self@.fs.nodes[node->Ram_0 as int] is Directory),
            },
    {
        match node {
            VfsNodeRef::Ram(i) => self.fs.node(i).readdir(),
            VfsNodeRef::Device(d) => {
                let r = d.readdir();
                r
            },
        }
    }

    /// Finds the node that `name` stands for in the directory `node`.
    pub fn lookup(&self, node: VfsNodeRef, name: &str) -> (r: VfsResult<VfsNodeRef>)
        requires
            self.wf(),
            self@.fs.contains(node),
        ensures
            r == self@.lookup(node, name@),
            r matches Ok(found) ==> self@.fs.contains(found),
    {
        match node {
            VfsNodeRef::Ram(i) => {
                let r = self.fs.node(i).lookup(name);
                proof {
                    if r is Ok {
                        assert(self@.fs.nodes[i as int].entries().contains_key(name@));
                    }
                }
                r
            },
            VfsNodeRef::Device(d) => d.lookup(name),
        }
    }

    /// Creates a regular file or a directory called `name` in the directory
    /// `node`.
    pub fn create(&mut self, node: VfsNodeRef, name: &str, file_type: FileType) -> (r: VfsResult<
        VfsNodeRef,
    >)
        requires
            old(self).wf(),
            old(self)@.fs.contains(node),
        ensures
            final(self).wf(),
            r == old(self)@.create(node, name@, file_type),
            final(self)@ == (VfsState {
                fs: old(self)@.fs_after_create(node, name@, file_type),
                ..old(self)@
            }),
    {
        match node {
            VfsNodeRef::Ram(i) => self.fs.create(i, name, file_type),
            VfsNodeRef::Device(d) => {
                let mut device = d;
                device.create(name, file_type)
            },
        }
    }
}

/// Sets the root that paths are resolved from.
pub fn init(vfs: &mut Vfs, root: VfsNodeRef)
    requires
        old(vfs).wf(),
        old(vfs)@.fs.contains(root),
    ensures
        final(vfs).wf(),
        final(vfs)@ == (VfsState { root: Some(root), ..old(vfs)@ }),
{
    vfs.root = Some(root);
}

/// Finds the node that the absolute path `path` names, looking up one
/// component after the other from the root.
pub fn resolve_path(vfs: &Vfs, path: &str) -> (r: VfsResult<VfsNodeRef>)
    requires
        vfs.wf(),
    ensures
        r == vfs@.resolve(path@),
        r matches Ok(node) ==> vfs@.fs.contains(node),
{
    let chars = path_chars(path);
    let n = chars.len();
    if n == 0 || chars[0] != SEPARATOR {
        return Err(VfsError::InvalidPath);
    }
    let mut current = match vfs.root {
        Some(root) => root,
        None => {
            return Err(VfsError::IoError);
        },
    };
    let mut i: usize = 0;
    while i < n
        invariant
            vfs.wf(),
            chars@ == path@,
            n == chars@.len(),
            i <= n,
            vfs@.fs.contains(current),
            vfs@.resolve(path@) == vfs@.walk(current, components_from(path@, i as int)),
        decreases n - i,
    {
        if chars[i] == SEPARATOR {
            i += 1;
        } else {
            let start = i;
            proof {
                lemma_segment_end(path@, start as int);
            }
            while i < n && chars[i] != SEPARATOR
                invariant
                    chars@ == path@,
                    n == chars@.len(),
                    start <= i <= n,
                    segment_end(path@, start as int) == segment_end(path@, i as int),
                decreases n - i,
            {
                i += 1;
            }
            let name = path.substring_char(start, i);
            proof {
                let rest = components_from(path@, i as int);
                let names = components_from(path@, start as int);
                assert(names == seq![name@] + rest);
                assert(names[0] == name@);
                assert(names.drop_first() =~= rest);
            }
            match vfs.lookup(current, name) {
                Ok(next) => {
                    current = next;
                },
                Err(e) => {
                    return Err(e);
                },
            }
        }
    }
    Ok(current)
}

/// Opens the file that `path` names and returns its descriptor. The path
/// must resolve; the table must have a descriptor left.
pub fn vfs_open(vfs: &mut Vfs, path: &str, flags: OpenFlags) -> (r: VfsResult<FileDescriptor>)
    requires
        old(vfs).wf(),
    ensures
        final(vfs).wf(),
        r == old(vfs)@.open(path@),
        final(vfs)@ == old(vfs)@.after_open(path@, flags),
{
    let node = match resolve_path(vfs, path) {
        Ok(node) => node,
        Err(e) => {
            return Err(e);
        },
    };
    if vfs.fds.is_exhausted() {
        return Err(VfsError::NoSpace);
    }
    let fd = vfs.fds.allocate(node, flags);
    Ok(fd)
}

/// Reads from an open file at its cursor into `buf` and moves the cursor
/// past what was read.
pub fn vfs_read(vfs: &mut Vfs, fd: FileDescriptor, buf: &mut [u8]) -> (r: VfsResult<usize>)
    requires
        old(vfs).wf(),
    ensures
        final(vfs).wf(),
        r == old(vfs)@.read(fd, old(buf)@),
        final(buf)@ == old(vfs)@.buffer_after_vfs_read(fd, old(buf)@),
        final(vfs)@ == old(vfs)@.after_read(fd, old(buf)@),
{
    let file = match vfs.fds.get(fd) {
        Some(file) => *file,
        None => {
            return Err(VfsError::NotFound);
        },
    };
    if !file.flags.read {
        return Err(VfsError::PermissionDenied);
    }
    let count = match vfs.read_at(file.node, file.offset, buf) {
        Ok(count) => count,
        Err(e) => {
            return Err(e);
        },
    };
    let moved = if count <= usize::MAX - file.offset {
        file.offset + count
    } else {
        usize::MAX
    };
    set_offset(&mut vfs.fds, fd, moved);
    Ok(count)
}

/// Moves the cursor of the open descriptor `fd` to `offset`.
fn set_offset(fds: &mut FdTable, fd: FileDescriptor, offset: usize)
    requires
        old(fds)@.files.contains_key(fd.0),
    ensures
        final(fds)@ == (FdTableState {
            files: old(fds)@.files.insert(fd.0, OpenFile { offset, ..old(fds)@.files[fd.0] }),
            ..old(fds)@
        }),
{
    match fds.get_mut(fd) {
        Some(file) => {
            file.offset = offset;
        },
        None => {},
    }
}

/// Writes `buf` to an open file, at its end if it was opened for appending
/// and at its cursor if not, and moves the cursor behind what was written.
pub fn vfs_write(vfs: &mut Vfs, fd: FileDescriptor, buf: &[u8]) -> (r: VfsResult<usize>)
    requires
        old(vfs).wf(),
    ensures
        final(vfs).wf(),
        r == old(vfs)@.write(fd, buf@),
        final(vfs)@ == old(vfs)@.after_vfs_write(fd, buf@),
{
    let file = match vfs.fds.get(fd) {
        Some(file) => *file,
        None => {
            return Err(VfsError::NotFound);
        },
    };
    if !file.flags.write {
        return Err(VfsError::PermissionDenied);
    }
    let position = if file.flags.append {
        vfs.size(file.node)
    } else {
        file.offset
    };
    let count = match vfs.write_at(file.node, position, buf) {
        Ok(count) => count,
        Err(e) => {
            assert(vfs@.fs.nodes =~= old(vfs)@.fs.nodes);
            return Err(e);
        },
    };
    let moved = if count <= usize::MAX - position {
        position + count
    } else {
        usize::MAX
    };
    set_offset(&mut vfs.fds, fd, moved);
    Ok(count)
}

/// Closes an open file. A descriptor that is not open is reported as
/// `NotFound`.
pub fn vfs_close(vfs: &mut Vfs, fd: FileDescriptor) -> (r: VfsResult<()>)
    requires
        old(vfs).wf(),
    ensures
        final(vfs).wf(),
        old(vfs)@.fds.files.contains_key(fd.0) ==> r == Ok::<(), VfsError>(()) && final(vfs)@ == (
        VfsState { fds: old(vfs)@.fds.after_close(fd), ..old(vfs)@ }),
        !old(vfs)@.fds.files.contains_key(fd.0) ==> r == Err::<(), VfsError>(VfsError::NotFound)
            && final(vfs)@ == old(vfs)@,
{
    vfs.fds.close(fd)
}

/// Makes the entry that `path` names, of the given type, in its parent
/// directory.
fn make_entry(vfs: &mut Vfs, path: &str, file_type: FileType) -> (r: VfsResult<()>)
    requires
        old(vfs).wf(),
    ensures
        final(vfs).wf(),
        r == old(vfs)@.make(path@, file_type),
        final(vfs)@ == old(vfs)@.after_make(path@, file_type),
{
    let (parent_path, name) = match split_path(path) {
        Ok(parts) => parts,
        Err(e) => {
            return Err(e);
        },
    };
    let parent = match resolve_path(vfs, parent_path) {
        Ok(parent) => parent,
        Err(e) => {
            return Err(e);
        },
    };
    match vfs.create(parent, name, file_type) {
        Ok(_) => Ok(()),
        Err(e) => Err(e),
    }
}

/// Creates the directory that `path` names.
pub fn vfs_mkdir(vfs: &mut Vfs, path: &str) -> (r: VfsResult<()>)
    requires
        old(vfs).wf(),
    ensures
        final(vfs).wf(),
        r == old(vfs)@.make(path@, FileType::Directory),
        final(vfs)@ == old(vfs)@.after_make(path@, FileType::Directory),
{
    make_entry(vfs, path, FileType::Directory)
}

/// Creates the regular file that `path` names.
pub fn vfs_create(vfs: &mut Vfs, path: &str) -> (r: VfsResult<()>)
    requires
        old(vfs).wf(),
    ensures
        final(vfs).wf(),
        r == old(vfs)@.make(path@, FileType::Regular),
        final(vfs)@ == old(vfs)@.after_make(path@, FileType::Regular),
{
    make_entry(vfs, path, FileType::Regular)
}

/// Attaches the device file `device` at `path`, so that the path names the
/// device from then on.
pub fn attach_device(vfs: &mut Vfs, path: &str, device: DeviceNode) -> (r: VfsResult<()>)
    requires
        old(vfs).wf(),
    ensures
        final(vfs).wf(),
        r == old(vfs)@.attach(path@),
        final(vfs)@ == old(vfs)@.after_attach(path@, device),
{
    let (parent_path, name) = match split_path(path) {
        Ok(parts) => parts,
        Err(e) => {
            return Err(e);
        },
    };
    match resolve_path(vfs, parent_path) {
        Ok(VfsNodeRef::Ram(dir)) => vfs.fs.add_device(dir, name, device),
        Ok(VfsNodeRef::Device(_)) => Err(VfsError::NotADirectory),
        Err(e) => Err(e),
    }
}

/// Lists the names in the directory that `path` names, in ascending order.
pub fn vfs_readdir(vfs: &Vfs, path: &str) -> (r: VfsResult<Vec<String>>)
    requires
        vfs.wf(),
    ensures
        match r {
            Ok(names) => vfs@.readdir_error(path@) is None && vfs@.lists(path@, name_views(names@)),
            Err(e) => vfs@.readdir_error(path@) == Some(e),
        },
{
    let node = match resolve_path(vfs, path) {
        Ok(node) => node,
        Err(e) => {
            return Err(e);
        },
    };
    vfs.readdir(node)
}

} // verus!
