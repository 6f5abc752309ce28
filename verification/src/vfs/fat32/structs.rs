//! The on-disk records of FAT32: the boot sector and the directory entry,
//! both little-endian and packed, decoded from bytes.

use vstd::prelude::*;
use super::super::{VfsError, VfsResult};
use crate::endian::{le16, le32, read_le16, read_le32};

verus! {

/// The size of a boot sector in bytes.
pub const BOOT_SECTOR_SIZE: usize = 512;

/// The size of a directory entry in bytes.
pub const DIR_ENTRY_SIZE: usize = 32;

pub const ATTR_READ_ONLY: u8 = 0x01;

pub const ATTR_HIDDEN: u8 = 0x02;

pub const ATTR_SYSTEM: u8 = 0x04;

pub const ATTR_VOLUME_ID: u8 = 0x08;

pub const ATTR_DIRECTORY: u8 = 0x10;

pub const ATTR_ARCHIVE: u8 = 0x20;

/// The attribute byte of an entry that holds a part of a long file name.
pub const ATTR_LONG_NAME: u8 = 0x0F;

/// The first name byte of an entry that was deleted.
pub const ENTRY_DELETED: u8 = 0xE5;

/// The first name byte of the entry that ends a directory.
pub const ENTRY_LAST: u8 = 0x00;

/// The boot sector of a FAT volume.
#[derive(Debug, Clone, Copy, PartialEq, Eq)]
pub struct BootSector {
    pub jmp_boot: [u8; 3],
    pub oem_name: [u8; 8],
    pub bytes_per_sector: u16,
    pub sectors_per_cluster: u8,
    pub reserved_sectors: u16,
    pub num_fats: u8,
    pub root_entry_count: u16,
    pub total_sectors_16: u16,
    pub media: u8,
    pub fat_size_16: u16,
    pub sectors_per_track: u16,
    pub num_heads: u16,
    pub hidden_sectors: u32,
    pub total_sectors_32: u32,
    pub fat_size_32: u32,
    pub ext_flags: u16,
    pub fs_version: u16,
    pub root_cluster: u32,
    pub fs_info: u16,
    pub backup_boot_sector: u16,
    pub reserved: [u8; 12],
    pub drive_number: u8,
    pub reserved1: u8,
    pub boot_signature: u8,
    pub volume_id: u32,
    pub volume_label: [u8; 11],
    pub fs_type: [u8; 8],
}

impl BootSector {
    /// This record is what the first 90 bytes of `bytes` hold, field by
    /// field at the offsets of the FAT32 layout.
    pub open spec fn decodes(self, bytes: Seq<u8>) -> bool {
        &&& self.jmp_boot@ == bytes.subrange(0, 3)
        &&& self.oem_name@ == bytes.subrange(3, 11)
        &&& self.bytes_per_sector == le16(bytes, 11)
        &&& self.sectors_per_cluster == bytes[13]
        &&& self.reserved_sectors == le16(bytes, 14)
        &&& self.num_fats == bytes[16]
        &&& self.root_entry_count == le16(bytes, 17)
        &&& self.total_sectors_16 == le16(bytes, 19)
        &&& self.media == bytes[21]
        &&& self.fat_size_16 == le16(bytes, 22)
        &&& self.sectors_per_track == le16(bytes, 24)
        &&& self.num_heads == le16(bytes, 26)
        &&& self.hidden_sectors == le32(bytes, 28)
        &&& self.total_sectors_32 == le32(bytes, 32)
        &&& self.fat_size_32 == le32(bytes, 36)
        &&& self.ext_flags == le16(bytes, 40)
        &&& self.fs_version == le16(bytes, 42)
        &&& self.root_cluster == le32(bytes, 44)
        &&& self.fs_info == le16(bytes, 48)
        &&& self.backup_boot_sector == le16(bytes, 50)
        &&& self.reserved@ == bytes.subrange(52, 64)
        &&& self.drive_number == bytes[64]
        &&& self.reserved1 == bytes[65]
        &&& self.boot_signature == bytes[66]
        &&& self.volume_id == le32(bytes, 67)
        &&& self.volume_label@ == bytes.subrange(71, 82)
        &&& self.fs_type@ == bytes.subrange(82, 90)
    }

    /// Decodes a boot sector from the first bytes of `buf`, which must hold
    /// a whole sector.
    pub fn parse(buf: &[u8]) -> (r: VfsResult<Self>)
        ensures
            buf@.len() < BOOT_SECTOR_SIZE ==> r is Err && r->Err_0 == VfsError::IoError,
            buf@.len() >= BOOT_SECTOR_SIZE ==> r is Ok && r->Ok_0.decodes(buf@),
    {
        if buf.len() < BOOT_SECTOR_SIZE {
            return Err(VfsError::IoError);
        }
        let sector = BootSector {
            jmp_boot: [buf[0], buf[1], buf[2]],
            oem_name: [buf[3], buf[4], buf[5], buf[6], buf[7], buf[8], buf[9], buf[10]],
            bytes_per_sector: read_le16(buf, 11),
            sectors_per_cluster: buf[13],
            reserved_sectors: read_le16(buf, 14),
            num_fats: buf[16],
            root_entry_count: read_le16(buf, 17),
            total_sectors_16: read_le16(buf, 19),
            media: buf[21],
            fat_size_16: read_le16(buf, 22),
            sectors_per_track: read_le16(buf, 24),
            num_heads: read_le16(buf, 26),
            hidden_sectors: read_le32(buf, 28),
            total_sectors_32: read_le32(buf, 32),
            fat_size_32: read_le32(buf, 36),
            ext_flags: read_le16(buf, 40),
            fs_version: read_le16(buf, 42),
            root_cluster: read_le32(buf, 44),
            fs_info: read_le16(buf, 48),
            backup_boot_sector: read_le16(buf, 50),
            reserved: [
                buf[52],
                buf[53],
                buf[54],
                buf[55],
                buf[56],
                buf[57],
                buf[58],
                buf[59],
                buf[60],
                buf[61],
                buf[62],
                buf[63],
            ],
            drive_number: buf[64],
            reserved1: buf[65],
            boot_signature: buf[66],
            volume_id: read_le32(buf, 67),
            volume_label: [
                buf[71],
                buf[72],
                buf[73],
                buf[74],
                buf[75],
                buf[76],
                buf[77],
                buf[78],
                buf[79],
                buf[80],
                buf[81],
            ],
            fs_type: [buf[82], buf[83], buf[84], buf[85], buf[86], buf[87], buf[88], buf[89]],
        };
        proof {
            assert(sector.jmp_boot@ =~= buf@.subrange(0, 3));
            assert(sector.oem_name@ =~= buf@.subrange(3, 11));
            assert(sector.reserved@ =~= buf@.subrange(52, 64));
            assert(sector.volume_label@ =~= buf@.subrange(71, 82));
            assert(sector.fs_type@ =~= buf@.subrange(82, 90));
        }
        Ok(sector)
    }

    /// A volume is FAT32 when its 16-bit FAT size is 0 and its 32-bit FAT
    /// size is not.
    pub open spec fn spec_is_fat32(&self) -> bool {
        self.fat_size_16 == 0 && self.fat_size_32 > 0
    }

    #[verifier::when_used_as_spec(spec_is_fat32)]
    pub fn is_fat32(&self) -> (b: bool)
        ensures
            b == self.spec_is_fat32(),
    {
        self.fat_size_16 == 0 && self.fat_size_32 > 0
    }

    /// The size of one FAT in sectors: the 16-bit field if it is set, else
    /// the 32-bit field.
    pub open spec fn spec_fat_size(&self) -> u32 {
        if self.fat_size_16 != 0 {
            self.fat_size_16 as u32
        } else {
            self.fat_size_32
        }
    }

    #[verifier::when_used_as_spec(spec_fat_size)]
    pub fn fat_size(&self) -> (n: u32)
        ensures
            n == self.spec_fat_size(),
    {
        if self.fat_size_16 != 0 {
            self.fat_size_16 as u32
        } else {
            self.fat_size_32
        }
    }

    /// The number of the first sector behind the reserved sectors and the
    /// FATs, as a mathematical integer.
    pub open spec fn data_start(&self) -> int {
        self.reserved_sectors + self.num_fats * self.spec_fat_size()
    }

    /// Whether the first data sector has a 32-bit number.
    pub fn data_start_fits(&self) -> (b: bool)
        ensures
            b == (self.data_start() <= u32::MAX),
    {
        let count = self.num_fats as u64;
        let size = self.fat_size() as u64;
        assert(0 <= count * size <= 255 * 0xffff_ffff) by (nonlinear_arith)
            requires
                0 <= count <= 255,
                0 <= size <= 0xffff_ffff,
        ;
        let fats = count * size;
        self.reserved_sectors as u64 + fats <= 0xffff_ffff
    }

    /// The number of the first data sector.
    pub fn first_data_sector(&self) -> (n: u32)
        requires
            self.data_start() <= u32::MAX,
        ensures
            n == self.data_start(),
    {
        assert(self.num_fats * self.spec_fat_size() <= u32::MAX) by (nonlinear_arith)
            requires
                self.reserved_sectors + self.num_fats * self.spec_fat_size() <= u32::MAX,
                self.reserved_sectors >= 0,
        ;
        self.reserved_sectors as u32 + (self.num_fats as u32 * self.fat_size())
    }

    /// The size of a cluster in bytes.
    pub fn cluster_size(&self) -> (n: u32)
        ensures
            n == self.sectors_per_cluster * self.bytes_per_sector,
    {
        assert(self.sectors_per_cluster * self.bytes_per_sector <= u32::MAX) by (nonlinear_arith)
            requires
                self.sectors_per_cluster <= 255,
                self.bytes_per_sector <= 65535,
        ;
        self.sectors_per_cluster as u32 * self.bytes_per_sector as u32
    }
}

/// A directory entry.
#[derive(Debug, Clone, Copy, PartialEq, Eq)]
pub struct DirEntry {
    pub name: [u8; 11],
    pub attr: u8,
    pub nt_reserved: u8,
    pub create_time_tenth: u8,
    pub create_time: u16,
    pub create_date: u16,
    pub last_access_date: u16,
    pub first_cluster_hi: u16,
    pub write_time: u16,
    pub write_date: u16,
    pub first_cluster_lo: u16,
    pub file_size: u32,
}

impl DirEntry {
    /// This entry is what the 32 bytes of `bytes` from `at` on hold.
    pub open spec fn decodes(self, bytes: Seq<u8>, at: int) -> bool {
        &&& self.name@ == bytes.subrange(at, at + 11)
        &&& self.attr == bytes[at + 11]
        &&& self.nt_reserved == bytes[at + 12]
        &&& self.create_time_tenth == bytes[at + 13]
        &&& self.create_time == le16(bytes, at + 14)
        &&& self.create_date == le16(bytes, at + 16)
        &&& self.last_access_date == le16(bytes, at + 18)
        &&& self.first_cluster_hi == le16(bytes, at + 20)
        &&& self.write_time == le16(bytes, at + 22)
        &&& self.write_date == le16(bytes, at + 24)
        &&& self.first_cluster_lo == le16(bytes, at + 26)
        &&& self.file_size == le32(bytes, at + 28)
    }

    /// Decodes the entry that starts at `at`.
    pub fn parse(buf: &[u8], at: usize) -> (entry: Self)
        requires
            at + DIR_ENTRY_SIZE <= buf@.len(),
        ensures
            entry.decodes(buf@, at as int),
    {
        let entry = DirEntry {
            name: [
                buf[at],
                buf[at + 1],
                buf[at + 2],
                buf[at + 3],
                buf[at + 4],
                buf[at + 5],
                buf[at + 6],
                buf[at + 7],
                buf[at + 8],
                buf[at + 9],
                buf[at + 10],
            ],
            attr: buf[at + 11],
            nt_reserved: buf[at + 12],
            create_time_tenth: buf[at + 13],
            create_time: read_le16(buf, at + 14),
            create_date: read_le16(buf, at + 16),
            last_access_date: read_le16(buf, at + 18),
            first_cluster_hi: read_le16(buf, at + 20),
            write_time: read_le16(buf, at + 22),
            write_date: read_le16(buf, at + 24),
            first_cluster_lo: read_le16(buf, at + 26),
            file_size: read_le32(buf, at + 28),
        };
        assert(entry.name@ =~= buf@.subrange(at as int, at + 11));
        entry
    }

    pub open spec fn spec_is_deleted(&self) -> bool {
        self.name@[0] == ENTRY_DELETED
    }

    /// Whether the entry was deleted.
    #[verifier::when_used_as_spec(spec_is_deleted)]
    pub fn is_deleted(&self) -> (b: bool)
        ensures
            b == self.spec_is_deleted(),
    {
        self.name[0] == ENTRY_DELETED
    }

    pub open spec fn spec_is_last(&self) -> bool {
        self.name@[0] == ENTRY_LAST
    }

    /// Whether the entry ends its directory.
    #[verifier::when_used_as_spec(spec_is_last)]
    pub fn is_last(&self) -> (b: bool)
        ensures
            b == self.spec_is_last(),
    {
        self.name[0] == ENTRY_LAST
    }

    pub open spec fn spec_is_lfn(&self) -> bool {
        self.attr == ATTR_LONG_NAME
    }

    /// Whether the entry holds a part of a long file name.
    #[verifier::when_used_as_spec(spec_is_lfn)]
    pub fn is_lfn(&self) -> (b: bool)
        ensures
            b == self.spec_is_lfn(),
    {
        self.attr == ATTR_LONG_NAME
    }

    pub open spec fn spec_is_directory(&self) -> bool {
        self.attr & ATTR_DIRECTORY != 0
    }

    /// Whether the entry names a directory.
    #[verifier::when_used_as_spec(spec_is_directory)]
    pub fn is_directory(&self) -> (b: bool)
        ensures
            b == self.spec_is_directory(),
    {
        self.attr & ATTR_DIRECTORY != 0
    }

    pub open spec fn spec_first_cluster(&self) -> u32 {
        ((self.first_cluster_hi as u32) << 16) | (self.first_cluster_lo as u32)
    }

    /// The number of the first cluster of the entry's content.
    #[verifier::when_used_as_spec(spec_first_cluster)]
    pub fn first_cluster(&self) -> (n: u32)
        ensures
            n == self.spec_first_cluster(),
    {
        ((self.first_cluster_hi as u32) << 16) | (self.first_cluster_lo as u32)
    }
}

} // verus!
