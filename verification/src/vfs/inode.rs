//! Per-node metadata of the in-memory file system.

use vstd::prelude::*;
use super::{FileType, Permissions};

verus! {

/// The metadata record that each in-memory node carries.
#[derive(Debug, Clone, Copy, PartialEq, Eq, Structural)]
pub struct Inode {
    pub file_type: FileType,
    pub size: usize,
    pub permissions: Permissions,
    pub inode_number: u64,
}

impl Inode {
    /// A fresh, empty inode of the given type.
    pub fn new(file_type: FileType, permissions: Permissions, inode_number: u64) -> (inode: Self)
        ensures
            inode == (Inode { file_type, size: 0, permissions, inode_number }),
    {
        Inode { file_type, size: 0, permissions, inode_number }
    }

    /// The inode of a new regular file: empty, mode `0o644`.
    pub fn new_file(inode_number: u64) -> (inode: Self)
        ensures
            inode == (Inode {
                file_type: FileType::Regular,
                size: 0,
                permissions: Permissions { mode: 0o644 },
                inode_number,
            }),
    {
        Inode::new(FileType::Regular, Permissions::new(0o644), inode_number)
    }

    /// The inode of a new directory: mode `0o755`.
    pub fn new_directory(inode_number: u64) -> (inode: Self)
        ensures
            inode == (Inode {
                file_type: FileType::Directory,
                size: 0,
                permissions: Permissions { mode: 0o755 },
                inode_number,
            }),
    {
        Inode::new(FileType::Directory, Permissions::new(0o755), inode_number)
    }
}

} // verus!
