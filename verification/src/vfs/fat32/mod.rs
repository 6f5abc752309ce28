//! The FAT32 backend: mounting a volume from a block device, following
//! cluster chains through the file allocation table, and reading
//! directories and files. Sectors are the device's blocks of 512 bytes.

use vstd::prelude::*;
use vstd::string::{StrSliceExecFns, StringSliceAdditionalSpecFns};
use vstd::utf8::encode_utf8;
use crate::drivers::block::{BlockDevice, BlockResult, BLOCK_SIZE};
use crate::endian::{le16, le32, read_le32};
use super::path::{
    components, components_from, is_absolute, lemma_segment_end, path_chars, segment_end,
    SEPARATOR,
};
use super::ramfs::{read_count, read_from, read_result};
use super::{FileType, Permissions, VfsError, VfsResult};

pub mod structs;

use structs::{
    BootSector, DirEntry, ATTR_DIRECTORY, ATTR_LONG_NAME, DIR_ENTRY_SIZE, ENTRY_DELETED,
    ENTRY_LAST,
};

verus! {

/// The number of the first cluster that holds data.
pub const FIRST_DATA_CLUSTER: u32 = 2;

/// The bits of a FAT entry that hold the number of the next cluster.
pub const CLUSTER_MASK: u32 = 0x0FFF_FFFF;

/// The least FAT entry that ends a chain.
pub const END_OF_CHAIN: u32 = 0x0FFF_FFF8;

/// The space that pads a short name.
pub const NAME_PADDING: u8 = 0x20;

/// The dot between the base and the extension of a short name.
pub const NAME_DOT: u8 = 0x2E;

/// The number of FAT entries in a sector.
pub const ENTRIES_PER_SECTOR: u64 = 128;

/// The fields of a boot block that tell FAT32 from the older formats: the
/// 16-bit FAT size is 0 and the 32-bit FAT size is not.
pub open spec fn fat32_fields(block: Seq<u8>) -> bool {
    le16(block, 22) == 0 && le32(block, 36) > 0
}

/// The boot block ends in the signature bytes `0x55`, `0xAA`.
pub open spec fn has_boot_signature(block: Seq<u8>) -> bool {
    block[510] == 0x55 && block[511] == 0xAA
}

/// `mount` accepts a boot block that holds a whole sector with the fields
/// of FAT32 and the signature at its end.
pub open spec fn boot_block_accepted(block: Seq<u8>) -> bool {
    block.len() >= BLOCK_SIZE && fat32_fields(block) && has_boot_signature(block)
}

/// A boot block is accepted exactly when the boot sector that it holds
/// has a 16-bit FAT size of 0 and a 32-bit FAT size above 0 and the block
/// ends in `0x55`, `0xAA`; every other combination is refused.
pub proof fn lemma_mount_discriminator(block: Seq<u8>, sector: BootSector)
    requires
        block.len() >= BLOCK_SIZE,
        sector.decodes(block),
    ensures
        boot_block_accepted(block) <==> sector.fat_size_16 == 0 && sector.fat_size_32 > 0
            && block[510] == 0x55 && block[511] == 0xAA,
{
}

/// What `mount` makes of block 0, given how reading it went: the decoded
/// boot sector if the read succeeded and the block is accepted, `IoError`
/// in every other case.
pub fn check_boot_block(read: BlockResult<()>, block: &[u8]) -> (r: VfsResult<BootSector>)
    ensures
        match r {
            Ok(sector) => read is Ok && boot_block_accepted(block@) && sector.decodes(block@)
                && sector.spec_is_fat32(),
            Err(e) => e == VfsError::IoError && !(read is Ok && boot_block_accepted(block@)),
        },
{
    if read.is_err() {
        return Err(VfsError::IoError);
    }
    let sector = match BootSector::parse(block) {
        Ok(sector) => sector,
        Err(_) => {
            return Err(VfsError::IoError);
        },
    };
    if !sector.is_fat32() {
        return Err(VfsError::IoError);
    }
    if block[510] != 0x55 || block[511] != 0xAA {
        return Err(VfsError::IoError);
    }
    Ok(sector)
}

/// Whether a FAT entry ends a chain.
pub open spec fn spec_is_end_of_chain(entry: u32) -> bool {
    entry >= END_OF_CHAIN
}

#[verifier::when_used_as_spec(spec_is_end_of_chain)]
pub fn is_end_of_chain(entry: u32) -> (b: bool)
    ensures
        b == spec_is_end_of_chain(entry),
{
    entry >= END_OF_CHAIN
}

/// The FAT entry at `offset` of a sector: 32 bits, of which the low 28
/// count.
pub open spec fn fat_entry(sector: Seq<u8>, offset: int) -> u32 {
    le32(sector, offset) & CLUSTER_MASK
}

/// Decodes the FAT entry at `offset` of a sector.
pub fn fat_entry_value(sector: &[u8], offset: usize) -> (entry: u32)
    requires
        offset + 4 <= sector@.len(),
    ensures
        entry == fat_entry(sector@, offset as int),
{
    read_le32(sector, offset) & CLUSTER_MASK
}

/// `s` without the padding at its end.
pub open spec fn trim_end(s: Seq<u8>) -> Seq<u8>
    decreases s.len(),
{
    if s.len() > 0 && s.last() == NAME_PADDING {
        trim_end(s.drop_last())
    } else {
        s
    }
}

/// The short name that the 11 name bytes of an entry hold: the base of up
/// to 8 bytes and the extension of up to 3, both without their padding,
/// joined by a dot if there is an extension.
pub open spec fn short_name_of(name: Seq<u8>) -> Seq<u8> {
    let base = trim_end(name.subrange(0, 8));
    let ext = trim_end(name.subrange(8, 11));
    if ext.len() == 0 {
        base
    } else {
        base + seq![NAME_DOT] + ext
    }
}

/// The length of the bytes from `from` to `to` without the padding at
/// their end.
fn trimmed_length(name: &[u8; 11], from: usize, to: usize) -> (len: usize)
    requires
        from <= to <= 11,
    ensures
        len <= to - from,
        trim_end(name@.subrange(from as int, to as int)) == name@.subrange(
            from as int,
            from + len,
        ),
{
    let ghost whole = name@.subrange(from as int, to as int);
    let mut len = to - from;
    assert(whole.take(len as int) =~= whole);
    while len > 0 && name[from + len - 1] == NAME_PADDING
        invariant
            from <= to <= 11,
            len <= to - from,
            whole == name@.subrange(from as int, to as int),
            trim_end(whole) == trim_end(whole.take(len as int)),
        decreases len,
    {
        assert(whole.take(len as int).drop_last() =~= whole.take(len - 1));
        len -= 1;
    }
    assert(whole.take(len as int) =~= name@.subrange(from as int, from + len));
    len
}

/// The short name of a directory entry.
pub fn short_name(entry: &DirEntry) -> (name: Vec<u8>)
    ensures
        name@ == short_name_of(entry.name@),
{
    let base_len = trimmed_length(&entry.name, 0, 8);
    let ext_len = trimmed_length(&entry.name, 8, 11);
    let mut name: Vec<u8> = Vec::new();
    let mut i: usize = 0;
    while i < base_len
        invariant
            i <= base_len <= 8,
            name@ == entry.name@.subrange(0, i as int),
        decreases base_len - i,
    {
        name.push(entry.name[i]);
        assert(name@ =~= entry.name@.subrange(0, i + 1));
        i += 1;
    }
    if ext_len > 0 {
        name.push(NAME_DOT);
        let mut j: usize = 0;
        while j < ext_len
            invariant
                j <= ext_len <= 3,
                name@ == entry.name@.subrange(0, base_len as int) + seq![NAME_DOT]
                    + entry.name@.subrange(8, 8 + j),
            decreases ext_len - j,
        {
            name.push(entry.name[8 + j]);
            assert(name@ =~= entry.name@.subrange(0, base_len as int) + seq![NAME_DOT]
                + entry.name@.subrange(8, 8 + j + 1));
            j += 1;
        }
    } else {
        assert(entry.name@.subrange(8, 8) =~= Seq::<u8>::empty());
    }
    name
}

/// The offsets, from `at` on, of the entries that a directory with the
/// content `bytes` lists: the entry whose first byte is 0 ends the
/// directory, and deleted entries and the entries of long file names are
/// passed over.
pub open spec fn listed_offsets(bytes: Seq<u8>, at: int) -> Seq<int>
    decreases bytes.len() - at,
{
    if at < 0 || at + DIR_ENTRY_SIZE > bytes.len() {
        Seq::empty()
    } else if bytes[at] == ENTRY_LAST {
        Seq::empty()
    } else if bytes[at] == ENTRY_DELETED || bytes[at + 11] == ATTR_LONG_NAME {
        listed_offsets(bytes, at + DIR_ENTRY_SIZE)
    } else {
        seq![at] + listed_offsets(bytes, at + DIR_ENTRY_SIZE)
    }
}

/// `entries` are the entries that a directory with the content `bytes`
/// lists, in order.
pub open spec fn lists_directory(entries: Seq<DirEntry>, bytes: Seq<u8>) -> bool {
    &&& entries.len() == listed_offsets(bytes, 0).len()
    &&& forall|k: int|
        0 <= k < entries.len() ==> (#[trigger] entries[k]).decodes(
            bytes,
            listed_offsets(bytes, 0)[k],
        )
}

/// Decodes the entries that a directory with the content `bytes` lists.
pub fn list_directory(bytes: &[u8]) -> (entries: Vec<DirEntry>)
    ensures
        lists_directory(entries@, bytes@),
{
    let n = bytes.len();
    let mut entries: Vec<DirEntry> = Vec::new();
    let ghost mut offsets: Seq<int> = Seq::empty();
    let mut at: usize = 0;
    while at <= n && n - at >= DIR_ENTRY_SIZE
        invariant
            n == bytes@.len(),
            entries@.len() == offsets.len(),
            listed_offsets(bytes@, 0) == offsets + listed_offsets(bytes@, at as int),
            forall|k: int|
                0 <= k < entries@.len() ==> (#[trigger] entries@[k]).decodes(bytes@, offsets[k]),
        decreases n - at,
    {
        let entry = DirEntry::parse(bytes, at);
        assert(entry.name@[0] == bytes@[at as int]);
        if entry.is_last() {
            assert(offsets + Seq::<int>::empty() =~= offsets);
            return entries;
        }
        if !entry.is_deleted() && !entry.is_lfn() {
            entries.push(entry);
            proof {
                let rest = listed_offsets(bytes@, at + DIR_ENTRY_SIZE);
                assert(offsets + (seq![at as int] + rest) =~= offsets.push(at as int) + rest);
                offsets = offsets.push(at as int);
            }
        }
        at += DIR_ENTRY_SIZE;
    }
    assert(offsets + Seq::<int>::empty() =~= offsets);
    entries
}

/// The short names of `entries`, in order.
pub open spec fn entry_names(entries: Seq<DirEntry>) -> Seq<Seq<u8>> {
    Seq::new(entries.len(), |k: int| short_name_of(entries[k].name@))
}

/// The short names of the entries that a directory with the content
/// `bytes` lists, in order.
pub open spec fn listed_names(bytes: Seq<u8>) -> Seq<Seq<u8>> {
    Seq::new(
        listed_offsets(bytes, 0).len(),
        |k: int|
            short_name_of(
                bytes.subrange(listed_offsets(bytes, 0)[k], listed_offsets(bytes, 0)[k] + 11),
            ),
    )
}

/// The place of the first of `names` that is `name`, from place `from` on;
/// the number of names if there is none.
pub open spec fn name_position(names: Seq<Seq<u8>>, name: Seq<u8>, from: int) -> int
    decreases names.len() - from,
{
    if from < 0 || from >= names.len() {
        names.len() as int
    } else if names[from] == name {
        from
    } else {
        name_position(names, name, from + 1)
    }
}

/// `name_position` finds the first place from `from` on that holds `name`:
/// no place before it does, and if it is the number of names, none does.
pub proof fn lemma_name_position(names: Seq<Seq<u8>>, name: Seq<u8>, from: int)
    requires
        0 <= from <= names.len(),
    ensures
        from <= name_position(names, name, from) <= names.len(),
        name_position(names, name, from) < names.len() ==> names[name_position(names, name, from)]
            == name,
        forall|k: int| from <= k < name_position(names, name, from) ==> names[k] != name,
    decreases names.len() - from,
{
    if from < names.len() && names[from] != name {
        lemma_name_position(names, name, from + 1);
    }
}

/// The entries that list a directory have the names that the directory
/// lists.
pub proof fn lemma_entry_names(entries: Seq<DirEntry>, bytes: Seq<u8>)
    requires
        lists_directory(entries, bytes),
    ensures
        entry_names(entries) == listed_names(bytes),
{
    assert(entry_names(entries) =~= listed_names(bytes));
}

/// Whether two byte strings are equal.
fn same_bytes(a: &[u8], b: &[u8]) -> (same: bool)
    ensures
        same == (a@ == b@),
{
    let n = a.len();
    if n != b.len() {
        return false;
    }
    let mut i: usize = 0;
    while i < n
        invariant
            i <= n,
            n == a@.len(),
            n == b@.len(),
            forall|j: int| 0 <= j < i ==> a@[j] == b@[j],
        decreases n - i,
    {
        if a[i] != b[i] {
            return false;
        }
        i += 1;
    }
    assert(a@ =~= b@);
    true
}

/// Finds the first of `entries` whose short name is `name`.
pub fn find_entry(entries: &Vec<DirEntry>, name: &[u8]) -> (found: Option<usize>)
    ensures
        match found {
            Some(at) => at < entries@.len() && at == name_position(
                entry_names(entries@),
                name@,
                0,
            ),
            None => name_position(entry_names(entries@), name@, 0) == entries@.len(),
        },
{
    let n = entries.len();
    let mut i: usize = 0;
    while i < n
        invariant
            i <= n,
            n == entries@.len(),
            name_position(entry_names(entries@), name@, 0) == name_position(
                entry_names(entries@),
                name@,
                i as int,
            ),
        decreases n - i,
    {
        let short = short_name(&entries[i]);
        if same_bytes(short.as_slice(), name) {
            return Some(i);
        }
        i += 1;
    }
    None
}

/// A node of a FAT32 volume: a directory or a file, known by the first
/// cluster of its content. The backend reads only: its nodes report mode
/// `0o555`.
#[derive(Debug, Clone, Copy, PartialEq, Eq, Structural)]
pub struct Fat32Node {
    /// The first cluster of the node's content.
    pub first_cluster: u32,
    /// The size of a file in bytes; 0 for a directory.
    pub size: u32,
    /// Whether the node is a directory.
    pub directory: bool,
}

impl Fat32Node {
    /// The node that a directory entry describes.
    pub open spec fn of_entry(entry: DirEntry) -> Fat32Node {
        Fat32Node {
            first_cluster: entry.spec_first_cluster(),
            size: if entry.spec_is_directory() {
                0
            } else {
                entry.file_size
            },
            directory: entry.spec_is_directory(),
        }
    }

    /// The node that the directory entry at offset `at` of `bytes`
    /// describes.
    pub open spec fn at(bytes: Seq<u8>, at: int) -> Fat32Node {
        let directory = bytes[at + 11] & ATTR_DIRECTORY != 0;
        Fat32Node {
            first_cluster: ((le16(bytes, at + 20) as u32) << 16) | (le16(bytes, at + 26) as u32),
            size: if directory {
                0
            } else {
                le32(bytes, at + 28)
            },
            directory,
        }
    }

    /// The node that a directory entry describes.
    pub fn from_entry(entry: &DirEntry) -> (node: Self)
        ensures
            node == Self::of_entry(*entry),
            forall|bytes: Seq<u8>, at: int| #[trigger]
                entry.decodes(bytes, at) ==> node == Self::at(bytes, at),
    {
        let directory = entry.is_directory();
        Fat32Node {
            first_cluster: entry.first_cluster(),
            size: if directory {
                0
            } else {
                entry.file_size
            },
            directory,
        }
    }

    pub fn file_type(&self) -> (t: FileType)
        ensures
            t == (if self.directory {
                FileType::Directory
            } else {
                FileType::Regular
            }),
    {
        if self.directory {
            FileType::Directory
        } else {
            FileType::Regular
        }
    }

    pub fn size(&self) -> (n: usize)
        ensures
            n == self.size,
    {
        self.size as usize
    }

    pub fn permissions(&self) -> (p: Permissions)
        ensures
            p.mode == 0o555,
    {
        Permissions::new(0o555)
    }
}

/// A whole number of sectors read one after the other: the blocks of the
/// device from `first` on, `count` of them.
pub open spec fn sectors(blocks: Seq<Seq<u8>>, first: int, count: nat) -> Seq<u8>
    decreases count,
{
    if count == 0 {
        Seq::empty()
    } else {
        sectors(blocks, first, (count - 1) as nat) + blocks[first + count - 1]
    }
}

/// A mounted FAT32 volume.
pub struct Fat32Fs<D: BlockDevice> {
    device: D,
    boot_sector: BootSector,
}

impl<D: BlockDevice> Fat32Fs<D> {
    /// The device that holds the volume.
    pub closed spec fn device(&self) -> D {
        self.device
    }

    /// The boot sector that the volume was mounted with.
    pub closed spec fn boot(&self) -> BootSector {
        self.boot_sector
    }

    /// The device is well formed and the volume is FAT32.
    pub closed spec fn wf(&self) -> bool {
        self.device.wf() && self.boot_sector.spec_is_fat32()
    }

    /// The number of the sector that holds the FAT entry of `cluster`.
    pub open spec fn fat_sector(&self, cluster: u32) -> int {
        self.boot().reserved_sectors + cluster / (ENTRIES_PER_SECTOR as u32)
    }

    /// The offset of the FAT entry of `cluster` within its sector.
    pub open spec fn fat_offset(cluster: u32) -> int {
        (cluster % (ENTRIES_PER_SECTOR as u32)) * 4
    }

    /// The FAT entry of `cluster`: the cluster that follows it in its
    /// chain, or a mark.
    pub open spec fn next_of(&self, cluster: u32) -> u32 {
        fat_entry(self.device().blocks()[self.fat_sector(cluster)], Self::fat_offset(cluster))
    }

    /// The clusters of the chain that starts at `start`, followed for at
    /// most `fuel` steps: the chain ends at a mark of its end; a cluster
    /// number below 2 within it, or a chain longer than `fuel`, gives
    /// `None`.
    pub open spec fn chain(&self, start: u32, fuel: nat) -> Option<Seq<u32>>
        decreases fuel,
    {
        if spec_is_end_of_chain(start) {
            Some(Seq::empty())
        } else if start < FIRST_DATA_CLUSTER || fuel == 0 {
            None
        } else {
            match self.chain(self.next_of(start), (fuel - 1) as nat) {
                Some(rest) => Some(seq![start] + rest),
                None => None,
            }
        }
    }

    /// The greatest number of steps for which a chain is followed: the
    /// number of entries that the FAT can hold.
    pub open spec fn chain_limit(&self) -> nat {
        (self.boot().fat_size_32 * ENTRIES_PER_SECTOR) as nat
    }

    /// The number of the first sector of `cluster`.
    pub open spec fn cluster_sector(&self, cluster: u32) -> int {
        self.boot().data_start() + (cluster - FIRST_DATA_CLUSTER)
            * self.boot().sectors_per_cluster
    }

    /// The bytes of the clusters `clusters`, one after the other.
    pub open spec fn chain_bytes(&self, clusters: Seq<u32>) -> Seq<u8>
        decreases clusters.len(),
    {
        if clusters.len() == 0 {
            Seq::empty()
        } else {
            self.chain_bytes(clusters.drop_last()) + sectors(
                self.device().blocks(),
                self.cluster_sector(clusters.last()),
                self.boot().sectors_per_cluster as nat,
            )
        }
    }

    /// Mounts the volume on `device`: reads block 0 and accepts it if it
    /// holds the boot sector of a FAT32 volume with the boot signature.
    /// Every failure is reported as `IoError`. On a device that promises to
    /// read block 0, the volume is mounted exactly when that block is
    /// accepted.
    pub fn mount(device: D) -> (r: VfsResult<Self>)
        requires
            device.wf(),
        ensures
            match r {
                Ok(fs) => fs.wf() && fs.device() == device && device.blocks().len() > 0
                    && boot_block_accepted(device.blocks()[0]) && fs.boot().decodes(
                    device.blocks()[0],
                ),
                Err(e) => e == VfsError::IoError,
            },
            device.readable(0) ==> (r is Ok <==> boot_block_accepted(device.blocks()[0])),
    {
        let mut boot_buf = [0u8; 512];
        let read = device.read_block(0, &mut boot_buf);
        proof {
            if read is Ok {
                assert(boot_buf@ =~= device.blocks()[0]);
            }
        }
        match check_boot_block(read, &boot_buf) {
            Ok(boot_sector) => Ok(Fat32Fs { device, boot_sector }),
            Err(e) => Err(e),
        }
    }

    /// The boot sector of the volume.
    pub fn boot_sector(&self) -> (sector: &BootSector)
        ensures
            *sector == self.boot(),
    {
        &self.boot_sector
    }

    /// The root directory as the contracts see it: the directory at the
    /// root cluster; a volume whose root cluster is no data cluster has no
    /// root to read.
    pub open spec fn spec_root(&self) -> VfsResult<Fat32Node> {
        if FIRST_DATA_CLUSTER <= self.boot().root_cluster < END_OF_CHAIN {
            Ok(Fat32Node { first_cluster: self.boot().root_cluster, size: 0, directory: true })
        } else {
            Err(VfsError::IoError)
        }
    }

    /// The root directory of the volume.
    pub fn root(&self) -> (r: VfsResult<Fat32Node>)
        ensures
            r == self.spec_root(),
    {
        let cluster = self.boot_sector.root_cluster;
        if cluster >= FIRST_DATA_CLUSTER && cluster < END_OF_CHAIN {
            Ok(Fat32Node { first_cluster: cluster, size: 0, directory: true })
        } else {
            Err(VfsError::IoError)
        }
    }

    /// Reads sector `n` of the device.
    pub fn read_sector(&self, n: u64) -> (r: VfsResult<Vec<u8>>)
        requires
            self.wf(),
        ensures
            match r {
                Ok(bytes) => n < self.device().blocks().len() && bytes@
                    == self.device().blocks()[n as int] && bytes@.len() == BLOCK_SIZE,
                Err(e) => e == VfsError::IoError,
            },
            self.device().readable(n) ==> r is Ok,
    {
        let mut buf = [0u8; 512];
        match self.device.read_block(n, &mut buf) {
            Ok(()) => {
                let mut bytes: Vec<u8> = Vec::new();
                let mut i: usize = 0;
                while i < BLOCK_SIZE
                    invariant
                        i <= BLOCK_SIZE,
                        buf@.len() == BLOCK_SIZE,
                        bytes@ == buf@.subrange(0, i as int),
                    decreases BLOCK_SIZE - i,
                {
                    bytes.push(buf[i]);
                    assert(bytes@ =~= buf@.subrange(0, i + 1));
                    i += 1;
                }
                assert(bytes@ =~= self.device().blocks()[n as int]);
                Ok(bytes)
            },
            Err(_) => Err(VfsError::IoError),
        }
    }

    /// Reads the FAT entry of `cluster`.
    pub fn next_cluster(&self, cluster: u32) -> (r: VfsResult<u32>)
        requires
            self.wf(),
        ensures
            match r {
                Ok(next) => next == self.next_of(cluster),
                Err(e) => e == VfsError::IoError,
            },
            self.fat_sector(cluster) <= u64::MAX && self.device().readable(
                self.fat_sector(cluster) as u64,
            ) ==> r is Ok,
    {
        let sector = self.boot_sector.reserved_sectors as u64 + (cluster / 128) as u64;
        let offset = (cluster % 128) as usize * 4;
        match self.read_sector(sector) {
            Ok(bytes) => Ok(fat_entry_value(bytes.as_slice(), offset)),
            Err(e) => Err(e),
        }
    }

    /// Whether the device promises to read every sector of the FAT that
    /// following the chain from `start` for at most `fuel` steps looks at.
    pub open spec fn fat_readable(&self, start: u32, fuel: nat) -> bool
        decreases fuel,
    {
        if spec_is_end_of_chain(start) || start < FIRST_DATA_CLUSTER || fuel == 0 {
            true
        } else {
            self.device().readable(self.fat_sector(start) as u64) && self.fat_readable(
                self.next_of(start),
                (fuel - 1) as nat,
            )
        }
    }

    /// Whether the device promises to read sector `j` of `cluster`.
    pub open spec fn sector_readable(&self, cluster: u32, j: int) -> bool {
        self.device().readable((self.cluster_sector(cluster) + j) as u64)
    }

    /// Whether the device promises to read every sector of `cluster`.
    pub open spec fn cluster_readable(&self, cluster: u32) -> bool {
        forall|j: int|
            0 <= j < self.boot().sectors_per_cluster ==> #[trigger] self.sector_readable(cluster, j)
    }

    /// Whether the device promises to read every sector of the clusters
    /// `clusters`.
    pub open spec fn data_readable(&self, clusters: Seq<u32>) -> bool {
        forall|k: int| 0 <= k < clusters.len() ==> self.cluster_readable(#[trigger] clusters[k])
    }

    /// Whether the device promises every read that reading the chain from
    /// `start` makes: the sectors of the FAT that the chain runs through,
    /// and the sectors of its clusters.
    pub open spec fn chain_readable(&self, start: u32) -> bool {
        &&& self.fat_readable(start, self.chain_limit())
        &&& self.chain(start, self.chain_limit()) matches Some(clusters) ==> self.data_readable(
            clusters,
        )
    }

    /// The content of the directory or file whose chain starts at `start`:
    /// the bytes of the chain's clusters, if the chain can be followed and
    /// its clusters lie at sectors with 32-bit numbers.
    pub open spec fn content(&self, start: u32) -> Option<Seq<u8>> {
        match self.chain(start, self.chain_limit()) {
            Some(clusters) => if clusters.len() == 0 || self.boot().data_start() <= u32::MAX {
                Some(self.chain_bytes(clusters))
            } else {
                None
            },
            None => None,
        }
    }

    /// The clusters of a chain are data clusters.
    pub proof fn lemma_chain_clusters(&self, start: u32, fuel: nat)
        ensures
            self.chain(start, fuel) matches Some(clusters) ==> forall|k: int|
                0 <= k < clusters.len() ==> FIRST_DATA_CLUSTER <= (#[trigger] clusters[k])
                    < END_OF_CHAIN,
        decreases fuel,
    {
        if !spec_is_end_of_chain(start) && start >= FIRST_DATA_CLUSTER && fuel > 0 {
            self.lemma_chain_clusters(self.next_of(start), (fuel - 1) as nat);
            match self.chain(self.next_of(start), (fuel - 1) as nat) {
                Some(rest) => {
                    let clusters = seq![start] + rest;
                    assert forall|k: int| 0 <= k < clusters.len() implies FIRST_DATA_CLUSTER <= (
                    #[trigger] clusters[k]) < END_OF_CHAIN by {
                        if k > 0 {
                            assert(clusters[k] == rest[k - 1]);
                        }
                    }
                },
                None => {},
            }
        }
    }

    /// Follows the chain that starts at `start` through the FAT and
    /// returns its clusters in order. On a device that promises the reads
    /// of the FAT that the walk makes, the walk succeeds exactly when the
    /// chain can be followed.
    pub fn cluster_chain(&self, start: u32) -> (r: VfsResult<Vec<u32>>)
        requires
            self.wf(),
        ensures
            match r {
                Ok(clusters) => self.chain(start, self.chain_limit()) == Some(clusters@),
                Err(e) => e == VfsError::IoError,
            },
            spec_is_end_of_chain(start) ==> r is Ok,
            start < FIRST_DATA_CLUSTER ==> r is Err,
            self.fat_readable(start, self.chain_limit()) ==> (r is Ok <==> self.chain(
                start,
                self.chain_limit(),
            ) is Some),
    {
        let limit = self.boot_sector.fat_size_32 as u64 * ENTRIES_PER_SECTOR;
        let mut clusters: Vec<u32> = Vec::new();
        let mut current = start;
        let mut steps: u64 = 0;
        while !is_end_of_chain(current)
            invariant
                self.wf(),
                limit == self.chain_limit(),
                steps <= limit,
                self.chain(start, self.chain_limit()) == (match self.chain(
                    current,
                    (limit - steps) as nat,
                ) {
                    Some(rest) => Some(clusters@ + rest),
                    None => None,
                }),
                self.fat_readable(start, self.chain_limit()) ==> self.fat_readable(
                    current,
                    (limit - steps) as nat,
                ),
            decreases limit - steps,
        {
            if current < FIRST_DATA_CLUSTER || steps == limit {
                return Err(VfsError::IoError);
            }
            let next = match self.next_cluster(current) {
                Ok(next) => next,
                Err(e) => {
                    return Err(e);
                },
            };
            proof {
                let rest = self.chain(next, (limit - steps - 1) as nat);
                if rest is Some {
                    assert(clusters@ + (seq![current] + rest->Some_0) =~= clusters@.push(current)
                        + rest->Some_0);
                }
            }
            clusters.push(current);
            current = next;
            steps += 1;
        }
        assert(clusters@ + Seq::<u32>::empty() =~= clusters@);
        Ok(clusters)
    }

    /// Reads the sectors of `cluster` and appends them to `bytes`. On a
    /// volume whose data starts at a sector with a 32-bit number, and a
    /// device that promises to read the cluster, the read succeeds.
    fn append_cluster(&self, cluster: u32, bytes: &mut Vec<u8>) -> (r: VfsResult<()>)
        requires
            self.wf(),
            cluster >= FIRST_DATA_CLUSTER,
        ensures
            match r {
                Ok(()) => self.boot().data_start() <= u32::MAX && final(bytes)@ == old(bytes)@
                    + sectors(
                    self.device().blocks(),
                    self.cluster_sector(cluster),
                    self.boot().sectors_per_cluster as nat,
                ),
                Err(e) => e == VfsError::IoError,
            },
            self.boot().data_start() <= u32::MAX && self.cluster_readable(cluster) ==> r is Ok,
    {
        if !self.boot_sector.data_start_fits() {
            return Err(VfsError::IoError);
        }
        let per_cluster = self.boot_sector.sectors_per_cluster as u64;
        let index = (cluster - FIRST_DATA_CLUSTER) as u64;
        assert(index * per_cluster <= 0xffff_ffff * 255) by (nonlinear_arith)
            requires
                index <= 0xffff_ffff,
                per_cluster <= 255,
        ;
        let first = self.boot_sector.first_data_sector() as u64 + index * per_cluster;
        let mut i: u64 = 0;
        while i < per_cluster
            invariant
                self.wf(),
                i <= per_cluster <= 255,
                per_cluster == self.boot().sectors_per_cluster,
                first == self.cluster_sector(cluster),
                first <= 0xffff_ffff + 0xffff_ffff * 255,
                bytes@ == old(bytes)@ + sectors(self.device().blocks(), first as int, i as nat),
            decreases per_cluster - i,
        {
            proof {
                if self.cluster_readable(cluster) {
                    assert(self.sector_readable(cluster, i as int));
                }
            }
            let sector = match self.read_sector(first + i) {
                Ok(sector) => sector,
                Err(e) => {
                    return Err(e);
                },
            };
            let ghost before = bytes@;
            let mut k: usize = 0;
            while k < BLOCK_SIZE
                invariant
                    k <= BLOCK_SIZE,
                    sector@.len() == BLOCK_SIZE,
                    bytes@ == before + sector@.subrange(0, k as int),
                decreases BLOCK_SIZE - k,
            {
                bytes.push(sector[k]);
                assert(bytes@ =~= before + sector@.subrange(0, k + 1));
                k += 1;
            }
            proof {
                assert(sector@.subrange(0, BLOCK_SIZE as int) =~= sector@);
                assert(bytes@ =~= old(bytes)@ + sectors(
                    self.device().blocks(),
                    first as int,
                    (i + 1) as nat,
                ));
            }
            i += 1;
        }
        Ok(())
    }

    /// Reads the content of the chain that starts at `start`: the bytes of
    /// its clusters, one after the other. On a device that promises the
    /// reads that this makes, the read succeeds exactly when the chain has
    /// a content.
    pub fn read_chain(&self, start: u32) -> (r: VfsResult<Vec<u8>>)
        requires
            self.wf(),
        ensures
            match r {
                Ok(bytes) => self.content(start) == Some(bytes@),
                Err(e) => e == VfsError::IoError,
            },
            spec_is_end_of_chain(start) ==> r is Ok,
            start < FIRST_DATA_CLUSTER ==> r is Err,
            self.chain_readable(start) ==> (r is Ok <==> self.content(start) is Some),
    {
        let clusters = match self.cluster_chain(start) {
            Ok(clusters) => clusters,
            Err(e) => {
                return Err(e);
            },
        };
        proof {
            self.lemma_chain_clusters(start, self.chain_limit());
        }
        let count = clusters.len();
        let mut bytes: Vec<u8> = Vec::new();
        let mut i: usize = 0;
        while i < count
            invariant
                self.wf(),
                i <= count,
                count == clusters@.len(),
                self.chain(start, self.chain_limit()) == Some(clusters@),
                forall|k: int|
                    0 <= k < clusters@.len() ==> FIRST_DATA_CLUSTER <= (#[trigger] clusters@[k])
                        < END_OF_CHAIN,
                spec_is_end_of_chain(start) ==> count == 0,
                i > 0 ==> self.boot().data_start() <= u32::MAX,
                bytes@ == self.chain_bytes(clusters@.take(i as int)),
            decreases count - i,
        {
            let cluster = clusters[i];
            proof {
                if self.chain_readable(start) {
                    assert(self.cluster_readable(clusters@[i as int]));
                }
            }
            match self.append_cluster(cluster, &mut bytes) {
                Ok(()) => {},
                Err(e) => {
                    return Err(e);
                },
            }
            proof {
                assert(clusters@.take(i + 1).drop_last() =~= clusters@.take(i as int));
            }
            i += 1;
        }
        assert(clusters@.take(count as int) =~= clusters@);
        Ok(bytes)
    }

    /// Lists the directory whose content starts at cluster `start`: the
    /// entries of its cluster chain. A chain of no clusters is an empty
    /// directory. On a device that promises the reads that this makes, the
    /// listing succeeds exactly when the chain has a content.
    pub fn readdir(&self, start: u32) -> (r: VfsResult<Vec<DirEntry>>)
        requires
            self.wf(),
        ensures
            match r {
                Ok(entries) => self.content(start) is Some && lists_directory(
                    entries@,
                    self.content(start)->Some_0,
                ),
                Err(e) => e == VfsError::IoError,
            },
            spec_is_end_of_chain(start) ==> r is Ok && r->Ok_0@.len() == 0,
            start < FIRST_DATA_CLUSTER ==> r is Err,
            self.chain_readable(start) ==> (r is Ok <==> self.content(start) is Some),
    {
        match self.read_chain(start) {
            Ok(bytes) => {
                let entries = list_directory(bytes.as_slice());
                assert(spec_is_end_of_chain(start) ==> bytes@.len() == 0);
                Ok(entries)
            },
            Err(e) => Err(e),
        }
    }

    /// Looks up the short name `name` in the directory whose content
    /// starts at cluster `start`: the entry found is the first that the
    /// directory lists under that name, and `NotFound` says that it lists
    /// none. On a device that promises the reads that this makes, `IoError`
    /// says that the chain has no content.
    pub fn lookup(&self, start: u32, name: &[u8]) -> (r: VfsResult<DirEntry>)
        requires
            self.wf(),
        ensures
            match r {
                Ok(entry) => {
                    let bytes = self.content(start)->Some_0;
                    let at = name_position(listed_names(bytes), name@, 0);
                    &&& self.content(start) is Some
                    &&& listed_names(bytes).contains(name@)
                    &&& at < listed_offsets(bytes, 0).len()
                    &&& entry.decodes(bytes, listed_offsets(bytes, 0)[at])
                },
                Err(e) => {
                    ||| e == VfsError::IoError
                    ||| e == VfsError::NotFound && self.content(start) is Some && !listed_names(
                        self.content(start)->Some_0,
                    ).contains(name@)
                },
            },
            spec_is_end_of_chain(start) ==> r is Err && r->Err_0 == VfsError::NotFound,
            start < FIRST_DATA_CLUSTER ==> r is Err && r->Err_0 == VfsError::IoError,
            self.chain_readable(start) && self.content(start) is Some ==> r is Ok || r->Err_0
                == VfsError::NotFound,
    {
        let entries = match self.readdir(start) {
            Ok(entries) => entries,
            Err(e) => {
                return Err(e);
            },
        };
        proof {
            let bytes = self.content(start)->Some_0;
            lemma_entry_names(entries@, bytes);
            lemma_name_position(listed_names(bytes), name@, 0);
        }
        match find_entry(&entries, name) {
            Some(at) => Ok(entries[at]),
            None => Err(VfsError::NotFound),
        }
    }

    /// Whether the chain that starts at `first_cluster` holds a file of
    /// `size` bytes: an empty file needs no chain.
    pub open spec fn holds(&self, first_cluster: u32, size: u32) -> bool {
        size == 0 || (self.content(first_cluster) matches Some(bytes) && size <= bytes.len())
    }

    /// Reads the first `size` bytes of the chain that starts at
    /// `first_cluster`. A size of 0 needs no chain. A chain that is
    /// shorter than `size` is reported as `IoError`. On a device that
    /// promises the reads that this makes, the read succeeds exactly when
    /// the chain holds that many bytes.
    pub fn read_content(&self, first_cluster: u32, size: u32) -> (r: VfsResult<Vec<u8>>)
        requires
            self.wf(),
        ensures
            match r {
                Ok(bytes) => self.holds(first_cluster, size) && if size == 0 {
                    bytes@.len() == 0
                } else {
                    bytes@ == self.content(first_cluster)->Some_0.take(size as int)
                },
                Err(e) => e == VfsError::IoError,
            },
            size == 0 ==> r is Ok,
            self.chain_readable(first_cluster) ==> (r is Ok <==> self.holds(first_cluster, size)),
    {
        if size == 0 {
            return Ok(Vec::new());
        }
        let mut bytes = match self.read_chain(first_cluster) {
            Ok(bytes) => bytes,
            Err(e) => {
                return Err(e);
            },
        };
        let size = size as usize;
        if size > bytes.len() {
            return Err(VfsError::IoError);
        }
        bytes.truncate(size);
        Ok(bytes)
    }

    /// Reads the content of the file that `entry` describes: the first
    /// `file_size` bytes of its cluster chain. An empty file has no bytes
    /// and needs no chain.
    pub fn read_file(&self, entry: &DirEntry) -> (r: VfsResult<Vec<u8>>)
        requires
            self.wf(),
        ensures
            match r {
                Ok(bytes) => self.holds(entry.spec_first_cluster(), entry.file_size)
                    && if entry.file_size == 0 {
                    bytes@.len() == 0
                } else {
                    bytes@ == self.content(entry.spec_first_cluster())->Some_0.take(
                        entry.file_size as int,
                    )
                },
                Err(e) => e == VfsError::IoError,
            },
            entry.file_size == 0 ==> r is Ok,
            self.chain_readable(entry.spec_first_cluster()) ==> (r is Ok <==> self.holds(
                entry.spec_first_cluster(),
                entry.file_size,
            )),
    {
        self.read_content(entry.first_cluster(), entry.file_size)
    }

    /// The bytes of the file `node`, if its chain holds them: the first
    /// `size` bytes of the chain's content. An empty file has none and
    /// needs no chain.
    pub open spec fn file_bytes(&self, node: Fat32Node) -> Option<Seq<u8>> {
        if node.size == 0 {
            Some(Seq::empty())
        } else if self.holds(node.first_cluster, node.size) {
            Some(self.content(node.first_cluster)->Some_0.take(node.size as int))
        } else {
            None
        }
    }

    /// What looking up the short name `name` in `dir` gives on a volume
    /// that can be read: the node of the first entry that `dir` lists
    /// under that name.
    pub open spec fn find(&self, dir: Fat32Node, name: Seq<u8>) -> VfsResult<Fat32Node> {
        if !dir.directory {
            Err(VfsError::NotADirectory)
        } else {
            match self.content(dir.first_cluster) {
                None => Err(VfsError::IoError),
                Some(bytes) => {
                    let at = name_position(listed_names(bytes), name, 0);
                    if at < listed_offsets(bytes, 0).len() {
                        Ok(Fat32Node::at(bytes, listed_offsets(bytes, 0)[at]))
                    } else {
                        Err(VfsError::NotFound)
                    }
                },
            }
        }
    }

    /// Where the names `names`, looked up one after the other from `node`
    /// on, lead on a volume that can be read. A name is looked up by the
    /// bytes of its UTF-8 encoding.
    pub open spec fn walk(&self, node: Fat32Node, names: Seq<Seq<char>>) -> VfsResult<Fat32Node>
        decreases names.len(),
    {
        if names.len() == 0 {
            Ok(node)
        } else {
            match self.find(node, encode_utf8(names[0])) {
                Ok(next) => self.walk(next, names.drop_first()),
                Err(e) => Err(e),
            }
        }
    }

    /// Whether the device promises every read that the walk from `node`
    /// along `names` makes: the chain of each directory that a name is
    /// looked up in.
    pub open spec fn walk_readable(&self, node: Fat32Node, names: Seq<Seq<char>>) -> bool
        decreases names.len(),
    {
        if names.len() == 0 {
            true
        } else {
            &&& node.directory ==> self.chain_readable(node.first_cluster)
            &&& self.find(node, encode_utf8(names[0])) matches Ok(next) ==> self.walk_readable(
                next,
                names.drop_first(),
            )
        }
    }

    /// The node that the absolute path `path` names on a volume that can
    /// be read.
    pub open spec fn resolve(&self, path: Seq<char>) -> VfsResult<Fat32Node> {
        if !is_absolute(path) {
            Err(VfsError::InvalidPath)
        } else {
            match self.spec_root() {
                Err(e) => Err(e),
                Ok(root) => self.walk(root, components(path)),
            }
        }
    }

    /// Whether the device promises every read that resolving `path` makes.
    /// A path without components needs none.
    pub open spec fn path_readable(&self, path: Seq<char>) -> bool {
        self.spec_root() matches Ok(root) ==> self.walk_readable(root, components(path))
    }

    /// Finds the node that the short name `name` stands for in the
    /// directory `dir`. A failure to read the volume is reported as
    /// `IoError`; on a device that promises the reads of the directory's
    /// chain the result is the one that `find` gives.
    pub fn node_lookup(&self, dir: &Fat32Node, name: &[u8]) -> (r: VfsResult<Fat32Node>)
        requires
            self.wf(),
        ensures
            r == self.find(*dir, name@) || r == Err::<Fat32Node, VfsError>(VfsError::IoError),
            !dir.directory ==> r == Err::<Fat32Node, VfsError>(VfsError::NotADirectory),
            self.chain_readable(dir.first_cluster) ==> r == self.find(*dir, name@),
    {
        if !dir.directory {
            return Err(VfsError::NotADirectory);
        }
        proof {
            if self.content(dir.first_cluster) is Some {
                lemma_name_position(
                    listed_names(self.content(dir.first_cluster)->Some_0),
                    name@,
                    0,
                );
            }
        }
        match self.lookup(dir.first_cluster, name) {
            Ok(entry) => Ok(Fat32Node::from_entry(&entry)),
            Err(e) => Err(e),
        }
    }

    /// Lists the short names in the directory `dir`, in the order in which
    /// the directory holds them. On a device that promises the reads of
    /// the directory's chain, the listing succeeds exactly when `dir` is a
    /// directory whose chain has a content.
    pub fn node_readdir(&self, dir: &Fat32Node) -> (r: VfsResult<Vec<Vec<u8>>>)
        requires
            self.wf(),
        ensures
            match r {
                Ok(names) => dir.directory && self.content(dir.first_cluster) is Some
                    && names@.len() == listed_names(self.content(dir.first_cluster)->Some_0).len()
                    && forall|k: int|
                    0 <= k < names@.len() ==> (#[trigger] names@[k])@ == listed_names(
                        self.content(dir.first_cluster)->Some_0,
                    )[k],
                Err(e) => if dir.directory {
                    e == VfsError::IoError
                } else {
                    e == VfsError::NotADirectory
                },
            },
            self.chain_readable(dir.first_cluster) ==> (r is Ok <==> dir.directory
                && self.content(dir.first_cluster) is Some),
    {
        if !dir.directory {
            return Err(VfsError::NotADirectory);
        }
        let entries = match self.readdir(dir.first_cluster) {
            Ok(entries) => entries,
            Err(e) => {
                return Err(e);
            },
        };
        proof {
            lemma_entry_names(entries@, self.content(dir.first_cluster)->Some_0);
        }
        let n = entries.len();
        let mut names: Vec<Vec<u8>> = Vec::new();
        let mut i: usize = 0;
        while i < n
            invariant
                i <= n,
                n == entries@.len(),
                names@.len() == i,
                forall|k: int| 0 <= k < i ==> (#[trigger] names@[k])@ == entry_names(entries@)[k],
            decreases n - i,
        {
            names.push(short_name(&entries[i]));
            i += 1;
        }
        Ok(names)
    }

    /// Reads from the file `node` at `offset` into the front of `buf`. A
    /// directory cannot be read. On a device that promises the reads of
    /// the file's chain, the read succeeds exactly when the chain holds the
    /// file.
    pub fn node_read_at(&self, node: &Fat32Node, offset: usize, buf: &mut [u8]) -> (r: VfsResult<
        usize,
    >)
        requires
            self.wf(),
        ensures
            match r {
                Ok(n) => !node.directory && self.file_bytes(*node) is Some && n == read_count(
                    self.file_bytes(*node)->Some_0,
                    offset as nat,
                    old(buf)@,
                ) && final(buf)@ == read_result(
                    self.file_bytes(*node)->Some_0,
                    offset as nat,
                    old(buf)@,
                ),
                Err(e) => final(buf)@ == old(buf)@ && if node.directory {
                    e == VfsError::IsADirectory
                } else {
                    e == VfsError::IoError
                },
            },
            !node.directory && node.size == 0 ==> r is Ok,
            !node.directory && self.chain_readable(node.first_cluster) ==> (r is Ok
                <==> self.file_bytes(*node) is Some),
    {
        if node.directory {
            return Err(VfsError::IsADirectory);
        }
        let data = match self.read_content(node.first_cluster, node.size) {
            Ok(data) => data,
            Err(e) => {
                return Err(e);
            },
        };
        Ok(read_from(data.as_slice(), offset, buf))
    }

    /// Finds the node that the absolute path `path` names, looking up one
    /// component after the other from the root. A path without components
    /// names the root and needs no read. A failure to read the volume is
    /// reported as `IoError`; on a device that promises the reads that the
    /// walk makes, the result is the one that `resolve` gives.
    pub fn resolve_path(&self, path: &str) -> (r: VfsResult<Fat32Node>)
        requires
            self.wf(),
        ensures
            r == self.resolve(path@) || r == Err::<Fat32Node, VfsError>(VfsError::IoError),
            !is_absolute(path@) ==> r == Err::<Fat32Node, VfsError>(VfsError::InvalidPath),
            components(path@).len() == 0 ==> r == self.resolve(path@),
            self.path_readable(path@) ==> r == self.resolve(path@),
    {
        let chars = path_chars(path);
        let n = chars.len();
        if n == 0 || chars[0] != SEPARATOR {
            return Err(VfsError::InvalidPath);
        }
        let mut current = match self.root() {
            Ok(root) => root,
            Err(e) => {
                return Err(e);
            },
        };
        let mut i: usize = 0;
        while i < n
            invariant
                self.wf(),
                chars@ == path@,
                n == chars@.len(),
                i <= n,
                is_absolute(path@),
                self.resolve(path@) == self.walk(current, components_from(path@, i as int)),
                components(path@).len() == 0 ==> components_from(path@, i as int).len() == 0,
                self.path_readable(path@) ==> self.walk_readable(
                    current,
                    components_from(path@, i as int),
                ),
            decreases n - i,
        {
            if chars[i] == SEPARATOR {
                i += 1;
            } else {
                let start = i;
                proof {
                    lemma_segment_end(path@, start as int);
                }
                while i < n && chars[i] != SEPARATOR
                    invariant
                        chars@ == path@,
                        n == chars@.len(),
                        start <= i <= n,
                        segment_end(path@, start as int) == segment_end(path@, i as int),
                    decreases n - i,
                {
                    i += 1;
                }
                let name = path.substring_char(start, i);
                proof {
                    let rest = components_from(path@, i as int);
                    let names = components_from(path@, start as int);
                    assert(names == seq![name@] + rest);
                    assert(names[0] == name@);
                    assert(names.drop_first() =~= rest);
                }
                match self.node_lookup(&current, name.as_bytes()) {
                    Ok(next) => {
                        current = next;
                    },
                    Err(e) => {
                        return Err(e);
                    },
                }
            }
        }
        Ok(current)
    }
}

} // verus!
