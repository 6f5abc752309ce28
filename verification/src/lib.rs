//! Core services of a small x86_64 kernel, written so that their behaviour is
//! stated in contracts and checked by Verus: block devices, a virtual file
//! system with an in-memory backend, device files and a FAT32 reader, the
//! open-file table, system-call dispatch, and the bookkeeping of a cooperative
//! task executor.
//!
//! State that a kernel keeps in process-wide singletons (the root file system,
//! the open-file table, the inode counter, the random seed, the scancode
//! queue) is held here in ordinary values that the caller owns and passes in.

pub mod drivers;
pub mod elf;
pub mod endian;
pub mod shell;
pub mod syscall;
pub mod task;
pub mod vfs;
