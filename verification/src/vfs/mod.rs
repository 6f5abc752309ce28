//! The virtual file system: node types, permissions, errors, and the
//! submodules that implement the backends and the path-level operations.

use vstd::prelude::*;

pub mod devfs;
pub mod fat32;
pub mod fd_table;
pub mod inode;
pub mod laws;
pub mod name_order;
pub mod ops;
pub mod path;
pub mod ramfs;

use devfs::DeviceNode;

verus! {

/// What kind of object a node is. A node's type never changes.
#[derive(Debug, Clone, Copy, PartialEq, Eq, Structural)]
pub enum FileType {
    Regular,
    Directory,
    Device,
    Symlink,
}

/// Unix-style permission bits (the low twelve bits of a mode).
#[derive(Debug, Clone, Copy, PartialEq, Eq, Structural)]
pub struct Permissions {
    pub mode: u16,
}

impl Permissions {
    pub fn new(mode: u16) -> (p: Self)
        ensures
            p.mode == mode,
    {
        Permissions { mode }
    }

    /// Whether the owner-read bit is set.
    pub open spec fn spec_can_read(&self) -> bool {
        self.mode & 0o400 != 0
    }

    /// Whether the owner-write bit is set.
    pub open spec fn spec_can_write(&self) -> bool {
        self.mode & 0o200 != 0
    }

    /// Whether the owner-execute bit is set.
    pub open spec fn spec_can_execute(&self) -> bool {
        self.mode & 0o100 != 0
    }

    #[verifier::when_used_as_spec(spec_can_read)]
    pub fn can_read(&self) -> (b: bool)
        ensures
            b == self.spec_can_read(),
    {
        self.mode & 0o400 != 0
    }

    #[verifier::when_used_as_spec(spec_can_write)]
    pub fn can_write(&self) -> (b: bool)
        ensures
            b == self.spec_can_write(),
    {
        self.mode & 0o200 != 0
    }

    #[verifier::when_used_as_spec(spec_can_execute)]
    pub fn can_execute(&self) -> (b: bool)
        ensures
            b == self.spec_can_execute(),
    {
        self.mode & 0o100 != 0
    }
}

/// Why a file-system operation failed.
#[derive(Debug, Clone, Copy, PartialEq, Eq, Structural)]
pub enum VfsError {
    NotFound,
    PermissionDenied,
    AlreadyExists,
    NotADirectory,
    IsADirectory,
    InvalidPath,
    IoError,
    NoSpace,
}

impl VfsError {
    /// The text shown to a user for this error.
    pub fn message(&self) -> (s: &'static str)
        ensures
            s@ == match *self {
                VfsError::NotFound => "File not found"@,
                VfsError::PermissionDenied => "Permission denied"@,
                VfsError::AlreadyExists => "File already exists"@,
                VfsError::NotADirectory => "Not a directory"@,
                VfsError::IsADirectory => "Is a directory"@,
                VfsError::InvalidPath => "Invalid path"@,
                VfsError::IoError => "I/O error"@,
                VfsError::NoSpace => "No space left"@,
            },
    {
        match self {
            VfsError::NotFound => "File not found",
            VfsError::PermissionDenied => "Permission denied",
            VfsError::AlreadyExists => "File already exists",
            VfsError::NotADirectory => "Not a directory",
            VfsError::IsADirectory => "Is a directory",
            VfsError::InvalidPath => "Invalid path",
            VfsError::IoError => "I/O error",
            VfsError::NoSpace => "No space left",
        }
    }
}

pub type VfsResult<T> = Result<T, VfsError>;

/// A handle to a node: either a slot of the in-memory file system, or one of
/// the device files, which carry no state of their own.
#[derive(Debug, Clone, Copy, PartialEq, Eq, Structural)]
pub enum VfsNodeRef {
    Ram(usize),
    Device(DeviceNode),
}

} // verus!
