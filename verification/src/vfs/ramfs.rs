//! The in-memory file system: files that hold their bytes in a vector,
//! directories that map names to nodes, and the table that owns them all.

use vstd::prelude::*;
use super::devfs::DeviceNode;
use super::inode::Inode;
use super::name_order::{
    lemma_name_lt_irreflexive, lemma_name_lt_transitive, name_lt, name_rank, strictly_ascending,
    NameRank,
};
use super::{FileType, Permissions, VfsError, VfsNodeRef, VfsResult};

verus! {

/// What a read at `offset` into a buffer holding `buf` transfers from a file
/// holding `data`: nothing at or past the end, else as many bytes as both
/// the buffer and the rest of the file allow.
pub open spec fn read_count(data: Seq<u8>, offset: nat, buf: Seq<u8>) -> nat {
    if offset >= data.len() {
        0
    } else if buf.len() <= data.len() - offset {
        buf.len()
    } else {
        (data.len() - offset) as nat
    }
}

/// The buffer after such a read: the bytes read, then what the buffer held
/// before.
pub open spec fn read_result(data: Seq<u8>, offset: nat, buf: Seq<u8>) -> Seq<u8> {
    let n = read_count(data, offset, buf);
    Seq::new(buf.len(), |i: int| if i < n { data[offset + i] } else { buf[i] })
}

/// The file's content after `buf` is written at `offset`: the file grows to
/// hold the write, the bytes between the old end and `offset` are zero, and
/// everything outside the written range stays.
pub open spec fn write_result(data: Seq<u8>, offset: nat, buf: Seq<u8>) -> Seq<u8> {
    let end = offset + buf.len();
    let len = if end > data.len() { end } else { data.len() };
    Seq::new(
        len,
        |i: int|
            if offset <= i < end {
                buf[i - offset]
            } else if i < data.len() {
                data[i]
            } else {
                0u8
            },
    )
}

/// Copies bytes of `data` from `offset` on into the front of `buf` and
/// returns how many were copied.
pub fn read_from(data: &[u8], offset: usize, buf: &mut [u8]) -> (n: usize)
    ensures
        n == read_count(data@, offset as nat, old(buf)@),
        final(buf)@ == read_result(data@, offset as nat, old(buf)@),
{
    let len = data.len();
    if offset >= len {
        assert(buf@ =~= read_result(data@, offset as nat, old(buf)@));
        return 0;
    }
    let room = len - offset;
    let n = if buf.len() <= room { buf.len() } else { room };
    let mut i: usize = 0;
    while i < n
        invariant
            i <= n,
            n <= buf@.len(),
            len == data@.len(),
            offset + n <= len,
            buf@.len() == old(buf)@.len(),
            forall|j: int| 0 <= j < i ==> buf@[j] == data@[offset + j],
            forall|j: int| i <= j < buf@.len() ==> buf@[j] == old(buf)@[j],
        decreases n - i,
    {
        buf[i] = data[offset + i];
        i += 1;
    }
    assert(buf@ =~= read_result(data@, offset as nat, old(buf)@));
    n
}

/// A regular file.
pub struct RamFile {
    inode: Inode,
    data: Vec<u8>,
}

impl RamFile {
    /// The file's bytes.
    pub closed spec fn view(&self) -> Seq<u8> {
        self.data@
    }

    /// The file's metadata.
    pub closed spec fn inode(&self) -> Inode {
        self.inode
    }

    /// The metadata agrees with the content.
    pub closed spec fn wf(&self) -> bool {
        &&& self.inode.file_type == FileType::Regular
        &&& self.inode.size == self.data@.len()
    }

    /// An empty file with mode `0o644`.
    pub fn new(inode_number: u64) -> (file: Self)
        ensures
            file.wf(),
            file@ == Seq::<u8>::empty(),
            file.inode() == (Inode {
                file_type: FileType::Regular,
                size: 0,
                permissions: Permissions { mode: 0o644 },
                inode_number,
            }),
    {
        RamFile { inode: Inode::new_file(inode_number), data: Vec::new() }
    }

    /// Copies bytes from `offset` on into the front of `buf` and returns how
    /// many were copied.
    pub fn read_at(&self, offset: usize, buf: &mut [u8]) -> (n: usize)
        ensures
            n == read_count(self@, offset as nat, old(buf)@),
            final(buf)@ == read_result(self@, offset as nat, old(buf)@),
    {
        read_from(self.data.as_slice(), offset, buf)
    }

    /// Writes `buf` at `offset`, growing the file as needed. Fails with
    /// `NoSpace`, and changes nothing, when the end of the write would lie
    /// beyond what a `usize` can address.
    pub fn write_at(&mut self, offset: usize, buf: &[u8]) -> (r: VfsResult<usize>)
        requires
            old(self).wf(),
        ensures
            final(self).wf(),
            final(self).inode() == (Inode { size: final(self)@.len() as usize, ..old(self).inode() }),
            offset + buf@.len() <= usize::MAX ==> r == Ok::<usize, VfsError>(buf@.len() as usize)
                && final(self)@ == write_result(old(self)@, offset as nat, buf@),
            offset + buf@.len() > usize::MAX ==> r == Err::<usize, VfsError>(VfsError::NoSpace)
                && final(self)@ == old(self)@,
    {
        let count = buf.len();
        if count > usize::MAX - offset {
            return Err(VfsError::NoSpace);
        }
        let end = offset + count;
        if end > self.data.len() {
            self.data.resize(end, 0);
        }
        let mut i: usize = 0;
        while i < count
            invariant
                i <= count,
                count == buf@.len(),
                end == offset + count,
                end <= self.data@.len(),
                self.data@.len() == (if end > old(self).data@.len() {
                    end as int
                } else {
                    old(self).data@.len() as int
                }),
                self.inode == old(self).inode,
                forall|j: int| offset <= j < offset + i ==> self.data@[j] == buf@[j - offset],
                forall|j: int|
                    0 <= j < self.data@.len() && !(offset <= j < offset + i) ==> self.data@[j] == (
                    if j < old(self).data@.len() {
                        old(self).data@[j]
                    } else {
                        0u8
                    }),
            decreases count - i,
        {
            self.data[offset + i] = buf[i];
            i += 1;
        }
        self.inode.size = self.data.len();
        assert(self.data@ =~= write_result(old(self)@, offset as nat, buf@));
        Ok(count)
    }
}

/// One entry of a directory.
struct DirSlot {
    name: String,
    node: VfsNodeRef,
}

/// A directory: a map from names to nodes, listed in ascending order of the
/// names. The entries are a vector kept in that order: of an ordered map
/// with `String` keys nothing could be proved, as the order of `String` has
/// no specification, while the order used here is defined and proved in
/// `name_order`.
pub struct RamDirectory {
    inode: Inode,
    entries: Vec<DirSlot>,
}

impl RamDirectory {
    /// The names of the entries, in the order in which they are listed.
    pub closed spec fn names(&self) -> Seq<Seq<char>> {
        Seq::new(self.entries@.len(), |i: int| self.entries@[i].name@)
    }

    /// The directory as a map from each name to the node it stands for.
    pub closed spec fn view(&self) -> Map<Seq<char>, VfsNodeRef> {
        Map::new(
            |n: Seq<char>| self.names().contains(n),
            |n: Seq<char>| self.entries@[self.names().index_of(n)].node,
        )
    }

    /// The directory's metadata.
    pub closed spec fn inode(&self) -> Inode {
        self.inode
    }

    /// The entries are kept in strictly ascending order of their names.
    pub closed spec fn wf(&self) -> bool {
        &&& strictly_ascending(self.names())
        &&& self.inode.file_type == FileType::Directory
        &&& self.inode.size == 0
    }

    /// The listing holds each name of the map once, in ascending order.
    pub proof fn lemma_listing(&self)
        requires
            self.wf(),
        ensures
            strictly_ascending(self.names()),
            forall|n: Seq<char>| self.names().contains(n) <==> self@.contains_key(n),
    {
    }

    /// In a well-formed directory the entry at position `i` is what the map
    /// holds under that entry's name.
    proof fn lemma_entry(&self, i: int)
        requires
            self.wf(),
            0 <= i < self.entries@.len(),
        ensures
            self@.contains_key(self.entries@[i].name@),
            self@[self.entries@[i].name@] == self.entries@[i].node,
    {
        let names = self.names();
        let n = names[i];
        assert(names.contains(n));
        let j = names.index_of(n);
        if j < i {
            lemma_name_lt_irreflexive(n);
        } else if i < j {
            lemma_name_lt_irreflexive(n);
        }
    }

    /// An empty directory with mode `0o755`.
    pub fn new(inode_number: u64) -> (dir: Self)
        ensures
            dir.wf(),
            dir@ == Map::<Seq<char>, VfsNodeRef>::empty(),
            dir.names() == Seq::<Seq<char>>::empty(),
            dir.inode() == (Inode {
                file_type: FileType::Directory,
                size: 0,
                permissions: Permissions { mode: 0o755 },
                inode_number,
            }),
    {
        let dir = RamDirectory { inode: Inode::new_directory(inode_number), entries: Vec::new() };
        assert(dir@ =~= Map::<Seq<char>, VfsNodeRef>::empty());
        assert(dir.names() =~= Seq::<Seq<char>>::empty());
        dir
    }

    /// Finds where `name` stands in the listing: the position of its entry
    /// if it has one, else the position at which it would be inserted.
    fn position(&self, name: &str) -> (r: (usize, bool))
        requires
            self.wf(),
        ensures
            r.0 <= self.entries@.len(),
            forall|i: int| 0 <= i < r.0 ==> name_lt(#[trigger] self.names()[i], name@),
            r.1 ==> r.0 < self.entries@.len() && self.names()[r.0 as int] == name@,
            !r.1 ==> forall|i: int|
                r.0 <= i < self.entries@.len() ==> name_lt(name@, #[trigger] self.names()[i]),
    {
        let n = self.entries.len();
        let mut i: usize = 0;
        while i < n
            invariant
                self.wf(),
                n == self.entries@.len(),
                i <= n,
                forall|j: int| 0 <= j < i ==> name_lt(#[trigger] self.names()[j], name@),
            decreases n - i,
        {
            match name_rank(self.entries[i].name.as_str(), name) {
                NameRank::Before => {
                    i += 1;
                },
                NameRank::Same => {
                    return (i, true);
                },
                NameRank::After => {
                    assert forall|j: int| i <= j < n implies name_lt(
                        name@,
                        #[trigger] self.names()[j],
                    ) by {
                        if i < j {
                            lemma_name_lt_transitive(name@, self.names()[i as int], self.names()[j]);
                        }
                    }
                    return (i, false);
                },
            }
        }
        (n, false)
    }

    /// The node that `name` stands for, if the directory has that name.
    pub fn get(&self, name: &str) -> (r: Option<VfsNodeRef>)
        requires
            self.wf(),
        ensures
            r == (if self@.contains_key(name@) {
                Some(self@[name@])
            } else {
                None
            }),
    {
        let (pos, found) = self.position(name);
        if found {
            proof {
                self.lemma_entry(pos as int);
            }
            Some(self.entries[pos].node)
        } else {
            proof {
                self.lemma_absent(name@, pos as int);
            }
            None
        }
    }

    /// Whether the directory has an entry called `name`.
    pub fn contains(&self, name: &str) -> (b: bool)
        requires
            self.wf(),
        ensures
            b == self@.contains_key(name@),
    {
        self.get(name).is_some()
    }

    /// A name that sorts after everything before `pos` and before everything
    /// from `pos` on is not in the directory.
    proof fn lemma_absent(&self, name: Seq<char>, pos: int)
        requires
            self.wf(),
            0 <= pos <= self.entries@.len(),
            forall|i: int| 0 <= i < pos ==> name_lt(#[trigger] self.names()[i], name),
            forall|i: int| pos <= i < self.entries@.len() ==> name_lt(name, #[trigger] self.names()[i]),
        ensures
            !self@.contains_key(name),
            !self.names().contains(name),
    {
        lemma_name_lt_irreflexive(name);
    }

    /// Binds `name` to `node`, replacing what the name stood for before.
    pub fn insert(&mut self, name: String, node: VfsNodeRef)
        requires
            old(self).wf(),
        ensures
            final(self).wf(),
            final(self).inode() == old(self).inode(),
            final(self)@ == old(self)@.insert(name@, node),
    {
        let (pos, found) = self.position(name.as_str());
        let ghost before = *self;
        if found {
            self.entries[pos].node = node;
            assert(self.names() =~= before.names());
            assert forall|n: Seq<char>| #[trigger] self@.contains_key(n) implies self@[n]
                == before@.insert(name@, node)[n] by {
                let j = self.names().index_of(n);
                self.lemma_entry(j);
                before.lemma_entry(j);
                if n == name@ {
                    self.lemma_entry(pos as int);
                }
            }
            assert(before@.contains_key(name@)) by {
                before.lemma_entry(pos as int);
            }
            assert(self@ =~= before@.insert(name@, node));
        } else {
            proof {
                before.lemma_absent(name@, pos as int);
            }
            let ghost key = name@;
            self.entries.insert(pos, DirSlot { name, node });
            assert forall|i: int, j: int| 0 <= i < j < self.names().len() implies name_lt(
                #[trigger] self.names()[i],
                #[trigger] self.names()[j],
            ) by {
                let a = if i < pos { i } else { i - 1 };
                let b = if j < pos { j } else { j - 1 };
                if i != pos && j != pos {
                    assert(self.names()[i] == before.names()[a]);
                    assert(self.names()[j] == before.names()[b]);
                } else if i == pos {
                    assert(self.names()[j] == before.names()[b]);
                } else {
                    assert(self.names()[i] == before.names()[a]);
                }
            }
            assert forall|n: Seq<char>| #[trigger]
                before@.insert(key, node).contains_key(n) implies self@.contains_key(n) && self@[n]
                == before@.insert(key, node)[n] by {
                if n == key {
                    self.lemma_entry(pos as int);
                } else {
                    let j = before.names().index_of(n);
                    before.lemma_entry(j);
                    let k = if j < pos { j } else { j + 1 };
                    assert(self.entries@[k] == before.entries@[j]);
                    self.lemma_entry(k);
                }
            }
            assert forall|n: Seq<char>| #[trigger] self@.contains_key(n) implies before@.insert(
                key,
                node,
            ).contains_key(n) by {
                let j = self.names().index_of(n);
                if j != pos {
                    let k = if j < pos { j } else { j - 1 };
                    assert(self.entries@[j] == before.entries@[k]);
                    before.lemma_entry(k);
                }
            }
            assert(self@ =~= before@.insert(key, node));
        }
    }

    /// The names of the entries in ascending order.
    pub fn list(&self) -> (names: Vec<String>)
        requires
            self.wf(),
        ensures
            names@.len() == self.names().len(),
            forall|i: int| 0 <= i < names@.len() ==> (#[trigger] names@[i])@ == self.names()[i],
    {
        let n = self.entries.len();
        let mut names: Vec<String> = Vec::new();
        let mut i: usize = 0;
        while i < n
            invariant
                n == self.entries@.len(),
                i <= n,
                names@.len() == i,
                forall|j: int| 0 <= j < i ==> (#[trigger] names@[j])@ == self.names()[j],
            decreases n - i,
        {
            names.push(self.entries[i].name.clone());
            i += 1;
        }
        names
    }
}

/// What a node of the in-memory file system holds, as the contracts see it.
pub enum NodeModel {
    File { inode: Inode, data: Seq<u8> },
    Directory { inode: Inode, entries: Map<Seq<char>, VfsNodeRef> },
}

impl NodeModel {
    pub open spec fn inode(self) -> Inode {
        match self {
            NodeModel::File { inode, .. } => inode,
            NodeModel::Directory { inode, .. } => inode,
        }
    }

    /// The entries of a directory; a file has none.
    pub open spec fn entries(self) -> Map<Seq<char>, VfsNodeRef> {
        match self {
            NodeModel::File { .. } => Map::empty(),
            NodeModel::Directory { entries, .. } => entries,
        }
    }

    /// The bytes of a file; a directory has none.
    pub open spec fn data(self) -> Seq<u8> {
        match self {
            NodeModel::File { data, .. } => data,
            NodeModel::Directory { .. } => Seq::empty(),
        }
    }

    /// The metadata agrees with the content.
    pub open spec fn wf(self) -> bool {
        match self {
            NodeModel::File { inode, data } => inode.file_type == FileType::Regular && inode.size
                == data.len(),
            NodeModel::Directory { inode, .. } => inode.file_type == FileType::Directory
                && inode.size == 0,
        }
    }

    /// A file's size is the number of its bytes; a directory's is 0.
    pub open spec fn size(self) -> nat {
        self.data().len()
    }

    /// What a read at `offset` into a buffer holding `buf` returns.
    pub open spec fn read_at(self, offset: nat, buf: Seq<u8>) -> VfsResult<usize> {
        match self {
            NodeModel::File { data, .. } => Ok(read_count(data, offset, buf) as usize),
            NodeModel::Directory { .. } => Err(VfsError::IsADirectory),
        }
    }

    /// What that read leaves in the buffer.
    pub open spec fn buffer_after_read(self, offset: nat, buf: Seq<u8>) -> Seq<u8> {
        match self {
            NodeModel::File { data, .. } => read_result(data, offset, buf),
            NodeModel::Directory { .. } => buf,
        }
    }

    /// What a write of `buf` at `offset` returns.
    pub open spec fn write_at(self, offset: nat, buf: Seq<u8>) -> VfsResult<usize> {
        match self {
            NodeModel::File { .. } => if offset + buf.len() <= usize::MAX {
                Ok(buf.len() as usize)
            } else {
                Err(VfsError::NoSpace)
            },
            NodeModel::Directory { .. } => Err(VfsError::IsADirectory),
        }
    }

    /// The node after that write.
    pub open spec fn after_write(self, offset: nat, buf: Seq<u8>) -> NodeModel {
        match self {
            NodeModel::File { inode, data } => if offset + buf.len() <= usize::MAX {
                let written = write_result(data, offset, buf);
                NodeModel::File {
                    inode: Inode { size: written.len() as usize, ..inode },
                    data: written,
                }
            } else {
                self
            },
            NodeModel::Directory { .. } => self,
        }
    }

    /// What looking up `name` in this node returns.
    pub open spec fn lookup(self, name: Seq<char>) -> VfsResult<VfsNodeRef> {
        match self {
            NodeModel::File { .. } => Err(VfsError::NotADirectory),
            NodeModel::Directory { entries, .. } => if entries.contains_key(name) {
                Ok(entries[name])
            } else {
                Err(VfsError::NotFound)
            },
        }
    }

    /// `names` is the listing of this directory: each of its names once, in
    /// ascending order.
    pub open spec fn listed_as(self, names: Seq<Seq<char>>) -> bool {
        &&& self is Directory
        &&& strictly_ascending(names)
        &&& forall|n: Seq<char>| names.contains(n) <==> self.entries().contains_key(n)
    }
}

/// The sequence of the views of `names`.
pub open spec fn name_views(names: Seq<String>) -> Seq<Seq<char>> {
    Seq::new(names.len(), |i: int| names[i]@)
}

/// A node of the in-memory file system.
pub enum RamFsNode {
    File(RamFile),
    Directory(RamDirectory),
}

impl RamFsNode {
    pub open spec fn view(&self) -> NodeModel {
        match self {
            RamFsNode::File(f) => NodeModel::File { inode: f.inode(), data: f@ },
            RamFsNode::Directory(d) => NodeModel::Directory { inode: d.inode(), entries: d@ },
        }
    }

    pub open spec fn wf(&self) -> bool {
        match self {
            RamFsNode::File(f) => f.wf(),
            RamFsNode::Directory(d) => d.wf(),
        }
    }

    /// A well-formed node has a well-formed view.
    pub proof fn lemma_wf_view(&self)
        requires
            self.wf(),
        ensures
            self@.wf(),
    {
        match self {
            RamFsNode::File(f) => {
                assert(f.inode().file_type == FileType::Regular && f.inode().size == f@.len());
            },
            RamFsNode::Directory(d) => {
                assert(d.inode().file_type == FileType::Directory && d.inode().size == 0);
            },
        }
    }

    pub fn file_type(&self) -> (t: FileType)
        ensures
            t == self@.inode().file_type,
    {
        match self {
            RamFsNode::File(f) => f.inode.file_type,
            RamFsNode::Directory(d) => d.inode.file_type,
        }
    }

    pub fn size(&self) -> (n: usize)
        ensures
            n == self@.size(),
    {
        match self {
            RamFsNode::File(f) => f.data.len(),
            RamFsNode::Directory(_) => 0,
        }
    }

    pub fn permissions(&self) -> (p: Permissions)
        ensures
            p == self@.inode().permissions,
    {
        match self {
            RamFsNode::File(f) => f.inode.permissions,
            RamFsNode::Directory(d) => d.inode.permissions,
        }
    }

    /// The node's metadata record.
    pub fn inode(&self) -> (inode: Inode)
        ensures
            inode == self@.inode(),
    {
        match self {
            RamFsNode::File(f) => f.inode,
            RamFsNode::Directory(d) => d.inode,
        }
    }

    /// Reads from a file; a directory cannot be read.
    pub fn read_at(&self, offset: usize, buf: &mut [u8]) -> (r: VfsResult<usize>)
        ensures
            r == self@.read_at(offset as nat, old(buf)@),
            final(buf)@ == self@.buffer_after_read(offset as nat, old(buf)@),
    {
        match self {
            RamFsNode::File(f) => Ok(f.read_at(offset, buf)),
            RamFsNode::Directory(_) => Err(VfsError::IsADirectory),
        }
    }

    /// Writes to a file; a directory cannot be written.
    pub fn write_at(&mut self, offset: usize, buf: &[u8]) -> (r: VfsResult<usize>)
        requires
            old(self).wf(),
        ensures
            final(self).wf(),
            r == old(self)@.write_at(offset as nat, buf@),
            final(self)@ == old(self)@.after_write(offset as nat, buf@),
    {
        match self {
            RamFsNode::File(f) => f.write_at(offset, buf),
            RamFsNode::Directory(_) => Err(VfsError::IsADirectory),
        }
    }

    /// Lists a directory's names in ascending order.
    pub fn readdir(&self) -> (r: VfsResult<Vec<String>>)
        requires
            self.wf(),
        ensures
            self@ is Directory ==> r is Ok && self@.listed_as(name_views(r->Ok_0@)),
            self@ is File ==> r is Err && r->Err_0 == VfsError::NotADirectory,
    {
        match self {
            RamFsNode::Directory(d) => {
                let names = d.list();
                proof {
                    d.lemma_listing();
                    assert(name_views(names@) =~= d.names());
                }
                Ok(names)
            },
            RamFsNode::File(_) => Err(VfsError::NotADirectory),
        }
    }

    /// Finds the node that `name` stands for in a directory.
    pub fn lookup(&self, name: &str) -> (r: VfsResult<VfsNodeRef>)
        requires
            self.wf(),
        ensures
            r == self@.lookup(name@),
    {
        match self {
            RamFsNode::Directory(d) => match d.get(name) {
                Some(node) => Ok(node),
                None => Err(VfsError::NotFound),
            },
            RamFsNode::File(_) => Err(VfsError::NotADirectory),
        }
    }
}

/// Hands out the counter's value as the next inode number and advances the
/// counter, which wraps around after `u64::MAX`.
pub fn next_inode_number(counter: &mut u64) -> (n: u64)
    ensures
        n == *old(counter),
        *final(counter) == (if *old(counter) == u64::MAX {
            0
        } else {
            *old(counter) + 1
        }),
{
    let n = *counter;
    *counter = n.wrapping_add(1);
    n
}

/// The in-memory file system as the contracts see it: its nodes by index,
/// node 0 being the root, and the next inode number to hand out.
pub struct RamFsState {
    pub nodes: Seq<NodeModel>,
    pub next_inode: u64,
}

impl RamFsState {
    /// `node` is a device, or an index below the number of nodes.
    pub open spec fn contains(self, node: VfsNodeRef) -> bool {
        match node {
            VfsNodeRef::Ram(i) => i < self.nodes.len(),
            VfsNodeRef::Device(_) => true,
        }
    }

    /// The root is a directory, every entry leads to a node that exists, and
    /// the inode numbers grow with the index and lie below the counter.
    pub open spec fn wf(self) -> bool {
        &&& 0 < self.nodes.len() <= usize::MAX
        &&& self.nodes[0] is Directory
        &&& forall|i: int| 0 <= i < self.nodes.len() ==> (#[trigger] self.nodes[i]).wf()
        &&& forall|i: int, n: Seq<char>|
            0 <= i < self.nodes.len() && #[trigger] self.nodes[i].entries().contains_key(n)
                ==> self.contains(self.nodes[i].entries()[n])
        &&& forall|i: int, j: int|
            0 <= i < j < self.nodes.len() ==> (#[trigger] self.nodes[i]).inode().inode_number < (
            #[trigger] self.nodes[j]).inode().inode_number
        &&& forall|i: int|
            0 <= i < self.nodes.len() ==> (#[trigger] self.nodes[i]).inode().inode_number
                < self.next_inode
    }

    /// The node that `create` makes for a file type that it supports.
    pub open spec fn fresh_node(file_type: FileType, inode_number: u64) -> NodeModel {
        if file_type == FileType::Directory {
            NodeModel::Directory {
                inode: Inode {
                    file_type: FileType::Directory,
                    size: 0,
                    permissions: Permissions { mode: 0o755 },
                    inode_number,
                },
                entries: Map::empty(),
            }
        } else {
            NodeModel::File {
                inode: Inode {
                    file_type: FileType::Regular,
                    size: 0,
                    permissions: Permissions { mode: 0o644 },
                    inode_number,
                },
                data: Seq::empty(),
            }
        }
    }

    /// The directory `dir` with `name` bound to `node`.
    pub open spec fn with_entry(self, dir: int, name: Seq<char>, node: VfsNodeRef) -> Seq<NodeModel> {
        self.nodes.update(
            dir,
            NodeModel::Directory {
                inode: self.nodes[dir].inode(),
                entries: self.nodes[dir].entries().insert(name, node),
            },
        )
    }

    /// What `create` returns: the new node's handle, or why none was made.
    /// A name is refused when the node is no directory or already has it;
    /// `NoSpace` reports that the inode counter or the node table is used
    /// up; only regular files and directories can be created.
    pub open spec fn create_result(self, dir: int, name: Seq<char>, file_type: FileType) -> VfsResult<
        VfsNodeRef,
    > {
        if self.nodes[dir] is File {
            Err(VfsError::NotADirectory)
        } else if self.nodes[dir].entries().contains_key(name) {
            Err(VfsError::AlreadyExists)
        } else if self.next_inode == u64::MAX || self.nodes.len() >= usize::MAX {
            Err(VfsError::NoSpace)
        } else if file_type == FileType::Regular || file_type == FileType::Directory {
            Ok(VfsNodeRef::Ram(self.nodes.len() as usize))
        } else {
            Err(VfsError::IoError)
        }
    }

    /// The file system after `create`. A refused file type still uses up an
    /// inode number; every other failure changes nothing.
    pub open spec fn after_create(self, dir: int, name: Seq<char>, file_type: FileType) -> RamFsState {
        match self.create_result(dir, name, file_type) {
            Ok(node) => RamFsState {
                nodes: self.with_entry(dir, name, node).push(
                    Self::fresh_node(file_type, self.next_inode),
                ),
                next_inode: (self.next_inode + 1) as u64,
            },
            Err(VfsError::IoError) => RamFsState {
                nodes: self.nodes,
                next_inode: (self.next_inode + 1) as u64,
            },
            Err(_) => self,
        }
    }

    /// What attaching a device file under `name` returns.
    pub open spec fn add_device_result(self, dir: int, name: Seq<char>) -> VfsResult<()> {
        if self.nodes[dir] is File {
            Err(VfsError::NotADirectory)
        } else if self.nodes[dir].entries().contains_key(name) {
            Err(VfsError::AlreadyExists)
        } else {
            Ok(())
        }
    }

    /// The file system after a device file was attached under `name`.
    pub open spec fn after_add_device(
        self,
        dir: int,
        name: Seq<char>,
        device: DeviceNode,
    ) -> RamFsState {
        if self.add_device_result(dir, name) is Ok {
            RamFsState {
                nodes: self.with_entry(dir, name, VfsNodeRef::Device(device)),
                next_inode: self.next_inode,
            }
        } else {
            self
        }
    }

    /// The file system after `buf` was written to node `node` at `offset`.
    pub open spec fn after_write(self, node: int, offset: nat, buf: Seq<u8>) -> RamFsState {
        RamFsState {
            nodes: self.nodes.update(node, self.nodes[node].after_write(offset, buf)),
            next_inode: self.next_inode,
        }
    }

    /// The file system right after it was made: an empty root directory with
    /// inode number 0.
    pub open spec fn initial() -> RamFsState {
        RamFsState { nodes: seq![Self::fresh_node(FileType::Directory, 0)], next_inode: 1 }
    }

    /// `create` keeps the file system well formed.
    pub proof fn lemma_create_wf(self, dir: int, name: Seq<char>, file_type: FileType)
        requires
            self.wf(),
            0 <= dir < self.nodes.len(),
        ensures
            self.after_create(dir, name, file_type).wf(),
    {
        let after = self.after_create(dir, name, file_type);
        if self.create_result(dir, name, file_type) is Ok {
            let node = VfsNodeRef::Ram(self.nodes.len() as usize);
            assert forall|i: int, n: Seq<char>|
                0 <= i < after.nodes.len() && #[trigger] after.nodes[i].entries().contains_key(
                    n,
                ) implies after.contains(after.nodes[i].entries()[n]) by {
                if i < self.nodes.len() && i != dir {
                    assert(self.nodes[i].entries().contains_key(n));
                } else if i == dir && n != name {
                    assert(self.nodes[i].entries().contains_key(n));
                }
            }
            assert forall|i: int, j: int| 0 <= i < j < after.nodes.len() implies (
            #[trigger] after.nodes[i]).inode().inode_number < (
            #[trigger] after.nodes[j]).inode().inode_number by {
                assert(after.nodes[i].inode() == self.nodes[i].inode());
                if j < self.nodes.len() {
                    assert(after.nodes[j].inode() == self.nodes[j].inode());
                }
            }
            assert forall|i: int| 0 <= i < after.nodes.len() implies (
            #[trigger] after.nodes[i]).inode().inode_number < after.next_inode by {
                if i < self.nodes.len() {
                    assert(after.nodes[i].inode() == self.nodes[i].inode());
                }
            }
            assert forall|i: int| 0 <= i < after.nodes.len() implies (
            #[trigger] after.nodes[i]).wf() by {
                if i < self.nodes.len() && i != dir {
                    assert(after.nodes[i] == self.nodes[i]);
                } else if i == dir {
                    assert(self.nodes[dir].wf());
                }
            }
        }
    }

    /// Attaching a device file keeps the file system well formed.
    pub proof fn lemma_add_device_wf(self, dir: int, name: Seq<char>, device: DeviceNode)
        requires
            self.wf(),
            0 <= dir < self.nodes.len(),
        ensures
            self.after_add_device(dir, name, device).wf(),
    {
        let after = self.after_add_device(dir, name, device);
        if self.add_device_result(dir, name) is Ok {
            assert forall|i: int, n: Seq<char>|
                0 <= i < after.nodes.len() && #[trigger] after.nodes[i].entries().contains_key(
                    n,
                ) implies after.contains(after.nodes[i].entries()[n]) by {
                if i != dir {
                    assert(self.nodes[i].entries().contains_key(n));
                } else if n != name {
                    assert(self.nodes[i].entries().contains_key(n));
                }
            }
            assert forall|i: int, j: int| 0 <= i < j < after.nodes.len() implies (
            #[trigger] after.nodes[i]).inode().inode_number < (
            #[trigger] after.nodes[j]).inode().inode_number by {
                assert(after.nodes[i].inode() == self.nodes[i].inode());
                assert(after.nodes[j].inode() == self.nodes[j].inode());
            }
            assert forall|i: int| 0 <= i < after.nodes.len() implies (
            #[trigger] after.nodes[i]).inode().inode_number < after.next_inode by {
                assert(after.nodes[i].inode() == self.nodes[i].inode());
            }
            assert forall|i: int| 0 <= i < after.nodes.len() implies (
            #[trigger] after.nodes[i]).wf() by {
                if i != dir {
                    assert(after.nodes[i] == self.nodes[i]);
                } else {
                    assert(self.nodes[dir].wf());
                }
            }
        }
    }

    /// A write keeps the file system well formed.
    pub proof fn lemma_write_wf(self, node: int, offset: nat, buf: Seq<u8>)
        requires
            self.wf(),
            0 <= node < self.nodes.len(),
        ensures
            self.after_write(node, offset, buf).wf(),
    {
        let after = self.after_write(node, offset, buf);
        assert(self.nodes[node].wf());
        assert forall|i: int, n: Seq<char>|
            0 <= i < after.nodes.len() && #[trigger] after.nodes[i].entries().contains_key(
                n,
            ) implies after.contains(after.nodes[i].entries()[n]) by {
            assert(self.nodes[i].entries().contains_key(n));
        }
        assert forall|i: int, j: int| 0 <= i < j < after.nodes.len() implies (
        #[trigger] after.nodes[i]).inode().inode_number < (
        #[trigger] after.nodes[j]).inode().inode_number by {
            assert(after.nodes[i].inode().inode_number == self.nodes[i].inode().inode_number);
            assert(after.nodes[j].inode().inode_number == self.nodes[j].inode().inode_number);
        }
        assert forall|i: int| 0 <= i < after.nodes.len() implies (
        #[trigger] after.nodes[i]).inode().inode_number < after.next_inode by {
            assert(after.nodes[i].inode().inode_number == self.nodes[i].inode().inode_number);
        }
        assert forall|i: int| 0 <= i < after.nodes.len() implies (#[trigger] after.nodes[i]).wf() by {
            if i != node {
                assert(after.nodes[i] == self.nodes[i]);
            }
        }
    }
}

/// The in-memory file system. It owns every node; a node is named by its
/// index, and the root is node 0.
pub struct RamFs {
    nodes: Vec<RamFsNode>,
    next_inode: u64,
}

impl RamFs {
    pub closed spec fn view(&self) -> RamFsState {
        RamFsState {
            nodes: Seq::new(self.nodes@.len(), |i: int| self.nodes@[i]@),
            next_inode: self.next_inode,
        }
    }

    /// Every node is well formed, and so is the file system as a whole.
    pub closed spec fn wf(&self) -> bool {
        &&& forall|i: int| 0 <= i < self.nodes@.len() ==> (#[trigger] self.nodes@[i]).wf()
        &&& self@.wf()
    }

    /// A well-formed file system has a well-formed view.
    pub proof fn lemma_wf_view(&self)
        requires
            self.wf(),
        ensures
            self@.wf(),
    {
    }

    /// A file system that holds an empty root directory with inode number 0.
    pub fn new() -> (fs: Self)
        ensures
            fs.wf(),
            fs@ == RamFsState::initial(),
    {
        let mut nodes: Vec<RamFsNode> = Vec::new();
        nodes.push(RamFsNode::Directory(RamDirectory::new(0)));
        let fs = RamFs { nodes, next_inode: 1 };
        assert(fs@.nodes =~= RamFsState::initial().nodes);
        fs
    }

    /// The handle of the root directory.
    pub fn root_node(&self) -> (root: VfsNodeRef)
        ensures
            root == VfsNodeRef::Ram(0),
    {
        VfsNodeRef::Ram(0)
    }

    /// The number of nodes.
    pub fn node_count(&self) -> (n: usize)
        ensures
            n == self@.nodes.len(),
    {
        self.nodes.len()
    }

    /// The node with index `node`.
    pub fn node(&self, node: usize) -> (n: &RamFsNode)
        requires
            self.wf(),
            node < self@.nodes.len(),
        ensures
            n.wf(),
            n@ == self@.nodes[node as int],
    {
        &self.nodes[node]
    }

    /// Writes `buf` into node `node` at `offset`.
    pub fn write_at(&mut self, node: usize, offset: usize, buf: &[u8]) -> (r: VfsResult<usize>)
        requires
            old(self).wf(),
            node < old(self)@.nodes.len(),
        ensures
            final(self).wf(),
            r == old(self)@.nodes[node as int].write_at(offset as nat, buf@),
            final(self)@ == old(self)@.after_write(node as int, offset as nat, buf@),
    {
        let r = self.nodes[node].write_at(offset, buf);
        proof {
            assert(self@.nodes =~= old(self)@.after_write(node as int, offset as nat, buf@).nodes);
            old(self)@.lemma_write_wf(node as int, offset as nat, buf@);
        }
        r
    }

    /// Creates a regular file or a directory called `name` in the directory
    /// `dir` and returns its handle.
    pub fn create(&mut self, dir: usize, name: &str, file_type: FileType) -> (r: VfsResult<VfsNodeRef>)
        requires
            old(self).wf(),
            dir < old(self)@.nodes.len(),
        ensures
            final(self).wf(),
            r == old(self)@.create_result(dir as int, name@, file_type),
            final(self)@ == old(self)@.after_create(dir as int, name@, file_type),
    {
        match &self.nodes[dir] {
            RamFsNode::File(_) => {
                return Err(VfsError::NotADirectory);
            },
            RamFsNode::Directory(d) => {
                if d.contains(name) {
                    return Err(VfsError::AlreadyExists);
                }
            },
        }
        if self.next_inode == u64::MAX || self.nodes.len() == usize::MAX {
            return Err(VfsError::NoSpace);
        }
        proof {
            old(self)@.lemma_create_wf(dir as int, name@, file_type);
        }
        let inode_number = next_inode_number(&mut self.next_inode);
        let node = match file_type {
            FileType::Regular => RamFsNode::File(RamFile::new(inode_number)),
            FileType::Directory => RamFsNode::Directory(RamDirectory::new(inode_number)),
            _ => {
                assert(self@.nodes =~= old(self)@.nodes);
                return Err(VfsError::IoError);
            },
        };
        let index = self.nodes.len();
        let handle = VfsNodeRef::Ram(index);
        let ghost before = self.nodes@;
        match &mut self.nodes[dir] {
            RamFsNode::Directory(d) => {
                d.insert(name.to_owned(), handle);
            },
            RamFsNode::File(_) => {},
        }
        let ghost linked = self.nodes@;
        self.nodes.push(node);
        proof {
            let expected = old(self)@.after_create(dir as int, name@, file_type);
            assert(linked.len() == before.len());
            assert forall|i: int| 0 <= i < self.nodes@.len() implies (#[trigger] self.nodes@[i]).wf() by {
                if i < before.len() && i != dir {
                    assert(self.nodes@[i] == before[i]);
                }
            }
            assert forall|i: int| 0 <= i < self.nodes@.len() implies self.nodes@[i]@
                == #[trigger] expected.nodes[i] by {
                if i < before.len() && i != dir {
                    assert(self.nodes@[i] == before[i]);
                    assert(old(self)@.nodes[i] == before[i]@);
                } else if i == dir {
                    assert(old(self)@.nodes[i] == before[i]@);
                }
            }
            assert(self@.nodes =~= expected.nodes);
        }
        Ok(handle)
    }

    /// Attaches the device file `device` to the directory `dir` under `name`.
    pub fn add_device(&mut self, dir: usize, name: &str, device: DeviceNode) -> (r:
        VfsResult<()>)
        requires
            old(self).wf(),
            dir < old(self)@.nodes.len(),
        ensures
            final(self).wf(),
            r == old(self)@.add_device_result(dir as int, name@),
            final(self)@ == old(self)@.after_add_device(dir as int, name@, device),
    {
        proof {
            old(self)@.lemma_add_device_wf(dir as int, name@, device);
        }
        let ghost before = self.nodes@;
        let r = match &mut self.nodes[dir] {
            RamFsNode::File(_) => Err(VfsError::NotADirectory),
            RamFsNode::Directory(d) => {
                if d.contains(name) {
                    Err(VfsError::AlreadyExists)
                } else {
                    d.insert(name.to_owned(), VfsNodeRef::Device(device));
                    Ok(())
                }
            },
        };
        proof {
            let expected = old(self)@.after_add_device(dir as int, name@, device);
            assert(self.nodes@.len() == before.len());
            assert forall|i: int| 0 <= i < self.nodes@.len() implies (#[trigger] self.nodes@[i]).wf() by {
                if i != dir {
                    assert(self.nodes@[i] == before[i]);
                }
            }
            assert forall|i: int| 0 <= i < self.nodes@.len() implies self.nodes@[i]@
                == #[trigger] expected.nodes[i] by {
                assert(old(self)@.nodes[i] == before[i]@);
                if i != dir {
                    assert(self.nodes@[i] == before[i]);
                }
            }
            assert(self@.nodes =~= expected.nodes);
        }
        r
    }
}

} // verus!
