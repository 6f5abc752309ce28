//! System calls: the numbers, what each call does with its arguments, and
//! the value it returns. Negative values report failure; -1 is the one
//! failure that the calls here return.
//!
//! A call names user memory by address. Turning an address into a slice is
//! the caller's part: `memory_request` says which memory a call refers to,
//! and the handler takes that memory as a slice.

use vstd::prelude::*;
use vstd::slice::slice_subrange;
use vstd::string::StringSliceAdditionalSpecFns;
use vstd::utf8::{decode_utf8, encode_utf8_decode_utf8, valid_utf8};
use crate::vfs::fd_table::{FileDescriptor, OpenFlags};
use crate::vfs::ops::{vfs_close, vfs_open, vfs_read, vfs_write, Vfs, VfsState};

verus! {

/// The value that reports failure.
pub const FAILURE: i64 = -1;

/// The system calls, with the numbers that Linux gives them on x86_64.
#[derive(Debug, Clone, Copy, PartialEq, Eq, Structural)]
pub enum Syscall {
    Read,
    Write,
    Open,
    Close,
    Exit,
    Fork,
    Exec,
    Wait,
}

impl Syscall {
    /// The number of this call.
    pub open spec fn spec_number(self) -> u64 {
        match self {
            Syscall::Read => 0,
            Syscall::Write => 1,
            Syscall::Open => 2,
            Syscall::Close => 3,
            Syscall::Exit => 60,
            Syscall::Fork => 57,
            Syscall::Exec => 59,
            Syscall::Wait => 61,
        }
    }

    /// The call with the number `n`, if there is one.
    pub open spec fn spec_from_u64(n: u64) -> Option<Syscall> {
        if n == 0 {
            Some(Syscall::Read)
        } else if n == 1 {
            Some(Syscall::Write)
        } else if n == 2 {
            Some(Syscall::Open)
        } else if n == 3 {
            Some(Syscall::Close)
        } else if n == 60 {
            Some(Syscall::Exit)
        } else if n == 57 {
            Some(Syscall::Fork)
        } else if n == 59 {
            Some(Syscall::Exec)
        } else if n == 61 {
            Some(Syscall::Wait)
        } else {
            None
        }
    }

    /// The number of this call.
    #[verifier::when_used_as_spec(spec_number)]
    pub fn number(self) -> (n: u64)
        ensures
            n == self.spec_number(),
            Self::spec_from_u64(n) == Some(self),
    {
        match self {
            Syscall::Read => 0,
            Syscall::Write => 1,
            Syscall::Open => 2,
            Syscall::Close => 3,
            Syscall::Exit => 60,
            Syscall::Fork => 57,
            Syscall::Exec => 59,
            Syscall::Wait => 61,
        }
    }

    /// The call with the number `n`, if there is one.
    #[verifier::when_used_as_spec(spec_from_u64)]
    pub fn from_u64(n: u64) -> (call: Option<Self>)
        ensures
            call == Self::spec_from_u64(n),
            call matches Some(c) ==> c.spec_number() == n,
    {
        match n {
            0 => Some(Syscall::Read),
            1 => Some(Syscall::Write),
            2 => Some(Syscall::Open),
            3 => Some(Syscall::Close),
            60 => Some(Syscall::Exit),
            57 => Some(Syscall::Fork),
            59 => Some(Syscall::Exec),
            61 => Some(Syscall::Wait),
            _ => None,
        }
    }
}

/// What a call asks of the kernel besides its return value.
#[derive(Debug, Clone, Copy, PartialEq, Eq, Structural)]
pub enum SyscallEffect {
    /// Nothing.
    Nothing,
    /// Send the bytes of the call's buffer to the console, one character
    /// per byte.
    ConsoleWrite,
    /// The process exits with this code.
    ProcessExit(i32),
    /// The call is known but not implemented.
    NotImplemented(Syscall),
    /// There is no call with this number.
    UnknownSyscall(u64),
}

/// What a system call returns and asks for.
#[derive(Debug, Clone, Copy, PartialEq, Eq, Structural)]
pub struct SyscallOutcome {
    pub value: i64,
    pub effect: SyscallEffect,
}

/// The user memory that a call refers to.
#[derive(Debug, Clone, Copy, PartialEq, Eq, Structural)]
pub enum MemoryRequest {
    /// None.
    Nothing,
    /// `length` bytes at `address`.
    Buffer { address: u64, length: u64 },
    /// The bytes at `address` up to the first zero byte.
    CString { address: u64 },
}

/// The user memory that the call with number `syscall_num` and these
/// arguments refers to. A null address or an empty buffer names none.
pub open spec fn spec_memory_request(syscall_num: u64, arg1: u64, arg2: u64, arg3: u64)
    -> MemoryRequest {
    match Syscall::spec_from_u64(syscall_num) {
        Some(Syscall::Read) | Some(Syscall::Write) => if arg2 == 0 || arg3 == 0 {
            MemoryRequest::Nothing
        } else {
            MemoryRequest::Buffer { address: arg2, length: arg3 }
        },
        Some(Syscall::Open) => if arg1 == 0 {
            MemoryRequest::Nothing
        } else {
            MemoryRequest::CString { address: arg1 }
        },
        _ => MemoryRequest::Nothing,
    }
}

#[verifier::when_used_as_spec(spec_memory_request)]
pub fn memory_request(syscall_num: u64, arg1: u64, arg2: u64, arg3: u64) -> (request: MemoryRequest)
    ensures
        request == spec_memory_request(syscall_num, arg1, arg2, arg3),
{
    match Syscall::from_u64(syscall_num) {
        Some(Syscall::Read) | Some(Syscall::Write) => if arg2 == 0 || arg3 == 0 {
            MemoryRequest::Nothing
        } else {
            MemoryRequest::Buffer { address: arg2, length: arg3 }
        },
        Some(Syscall::Open) => if arg1 == 0 {
            MemoryRequest::Nothing
        } else {
            MemoryRequest::CString { address: arg1 }
        },
        _ => MemoryRequest::Nothing,
    }
}

/// `core::str::from_utf8`: the text that `bytes` encode, if they are valid
/// UTF-8, and `None` if they are not.
#[verifier::external_body]
fn utf8_text(bytes: &[u8]) -> (text: Option<&str>)
    ensures
        text is Some <==> valid_utf8(bytes@),
        text is Some ==> text->Some_0.spec_bytes() == bytes@,
{
    match core::str::from_utf8(bytes) {
        Ok(text) => Some(text),
        Err(_) => None,
    }
}

/// The length of the string that `memory` starts with: the position of the
/// first zero byte from `from` on, or the length of `memory`.
pub open spec fn c_string_end(memory: Seq<u8>, from: int) -> int
    decreases memory.len() - from,
{
    if 0 <= from < memory.len() && memory[from] != 0 {
        c_string_end(memory, from + 1)
    } else {
        from
    }
}

/// The bytes of the string that `memory` starts with.
pub open spec fn c_string(memory: Seq<u8>) -> Seq<u8> {
    memory.subrange(0, c_string_end(memory, 0))
}

/// The path that the bytes of a string name: their text if they are valid
/// UTF-8, the empty path if they are not.
pub open spec fn path_of(bytes: Seq<u8>) -> Seq<char> {
    if valid_utf8(bytes) {
        decode_utf8(bytes)
    } else {
        Seq::empty()
    }
}

/// What `read` returns for the descriptor `fd` and the buffer at `ptr`.
pub open spec fn read_value(vfs: VfsState, fd: i32, ptr: u64, buf: Seq<u8>) -> i64 {
    if ptr == 0 || buf.len() == 0 {
        FAILURE
    } else {
        match vfs.read(FileDescriptor(fd as usize), buf) {
            Ok(n) => n as i64,
            Err(_) => FAILURE,
        }
    }
}

/// Whether the call reaches the file system at all.
pub open spec fn reaches_vfs(ptr: u64, len: nat) -> bool {
    ptr != 0 && len != 0
}

/// Reads from the descriptor `fd` into the user buffer `buf` at address
/// `ptr`. A null address, an empty buffer and every failure of the file
/// system give -1.
pub fn sys_read(vfs: &mut Vfs, fd: i32, ptr: u64, buf: &mut [u8]) -> (value: i64)
    requires
        old(vfs).wf(),
    ensures
        final(vfs).wf(),
        value == read_value(old(vfs)@, fd, ptr, old(buf)@),
        reaches_vfs(ptr, old(buf)@.len()) ==> final(vfs)@ == old(vfs)@.after_read(
            FileDescriptor(fd as usize),
            old(buf)@,
        ) && final(buf)@ == old(vfs)@.buffer_after_vfs_read(FileDescriptor(fd as usize), old(buf)@),
        !reaches_vfs(ptr, old(buf)@.len()) ==> final(vfs)@ == old(vfs)@ && final(buf)@ == old(
            buf,
        )@,
{
    if ptr == 0 || buf.len() == 0 {
        return FAILURE;
    }
    match vfs_read(vfs, FileDescriptor(#[verifier::truncate] (fd as usize)), buf) {
        Ok(n) => #[verifier::truncate] (n as i64),
        Err(_) => FAILURE,
    }
}

/// Whether a write goes to the console: descriptors 1 and 2 do.
pub open spec fn is_console(fd: i32) -> bool {
    fd == 1 || fd == 2
}

/// What `write` returns and asks for.
pub open spec fn write_outcome(vfs: VfsState, fd: i32, ptr: u64, buf: Seq<u8>) -> SyscallOutcome {
    if ptr == 0 || buf.len() == 0 {
        SyscallOutcome { value: FAILURE, effect: SyscallEffect::Nothing }
    } else if is_console(fd) {
        SyscallOutcome { value: buf.len() as i64, effect: SyscallEffect::ConsoleWrite }
    } else {
        SyscallOutcome {
            value: match vfs.write(FileDescriptor(fd as usize), buf) {
                Ok(n) => n as i64,
                Err(_) => FAILURE,
            },
            effect: SyscallEffect::Nothing,
        }
    }
}

/// Writes the user buffer `buf` at address `ptr` to the descriptor `fd`.
/// Descriptors 1 and 2 are the console: the write cannot fail, returns the
/// length of the buffer and leaves the file system alone.
pub fn sys_write(vfs: &mut Vfs, fd: i32, ptr: u64, buf: &[u8]) -> (outcome: SyscallOutcome)
    requires
        old(vfs).wf(),
    ensures
        final(vfs).wf(),
        outcome == write_outcome(old(vfs)@, fd, ptr, buf@),
        reaches_vfs(ptr, buf@.len()) && !is_console(fd) ==> final(vfs)@ == old(
            vfs,
        )@.after_vfs_write(FileDescriptor(fd as usize), buf@),
        !(reaches_vfs(ptr, buf@.len()) && !is_console(fd)) ==> final(vfs)@ == old(vfs)@,
{
    let count = buf.len();
    if ptr == 0 || count == 0 {
        return SyscallOutcome { value: FAILURE, effect: SyscallEffect::Nothing };
    }
    if fd == 1 || fd == 2 {
        return SyscallOutcome {
            value: #[verifier::truncate] (count as i64),
            effect: SyscallEffect::ConsoleWrite,
        };
    }
    let value = match vfs_write(vfs, FileDescriptor(#[verifier::truncate] (fd as usize)), buf) {
        Ok(n) => #[verifier::truncate] (n as i64),
        Err(_) => FAILURE,
    };
    SyscallOutcome { value, effect: SyscallEffect::Nothing }
}

/// What `open` returns for the string memory at `ptr`.
pub open spec fn open_value(vfs: VfsState, ptr: u64, memory: Seq<u8>) -> i64 {
    if ptr == 0 {
        FAILURE
    } else {
        match vfs.open(path_of(c_string(memory))) {
            Ok(fd) => fd.0 as i64,
            Err(_) => FAILURE,
        }
    }
}

/// Opens the file named by the zero-terminated string at address `ptr`,
/// whose bytes `memory` starts with, for reading and writing. The flags of
/// the call are not looked at.
pub fn sys_open(vfs: &mut Vfs, ptr: u64, memory: &[u8], flags: i32) -> (value: i64)
    requires
        old(vfs).wf(),
    ensures
        final(vfs).wf(),
        value == open_value(old(vfs)@, ptr, memory@),
        ptr != 0 ==> final(vfs)@ == old(vfs)@.after_open(
            path_of(c_string(memory@)),
            OpenFlags { read: true, write: true, append: false, create: false },
        ),
        ptr == 0 ==> final(vfs)@ == old(vfs)@,
{
    if ptr == 0 {
        return FAILURE;
    }
    let n = memory.len();
    let mut len: usize = 0;
    while len < n && memory[len] != 0
        invariant
            len <= n,
            n == memory@.len(),
            c_string_end(memory@, 0) == c_string_end(memory@, len as int),
        decreases n - len,
    {
        len += 1;
    }
    let bytes = slice_subrange(memory, 0, len);
    let path = match utf8_text(bytes) {
        Some(text) => {
            proof {
                encode_utf8_decode_utf8(text@);
            }
            text
        },
        None => {
            proof {
                reveal_strlit("");
                assert(""@ =~= Seq::<char>::empty());
            }
            ""
        },
    };
    match vfs_open(vfs, path, OpenFlags::read_write()) {
        Ok(fd) => #[verifier::truncate] (fd.0 as i64),
        Err(_) => FAILURE,
    }
}

/// Closes the descriptor `fd`: 0 if it was open, -1 if not.
pub fn sys_close(vfs: &mut Vfs, fd: i32) -> (value: i64)
    requires
        old(vfs).wf(),
    ensures
        final(vfs).wf(),
        old(vfs)@.fds.files.contains_key(fd as usize) ==> value == 0 && final(vfs)@ == (VfsState {
            fds: old(vfs)@.fds.after_close(FileDescriptor(fd as usize)),
            ..old(vfs)@
        }),
        !old(vfs)@.fds.files.contains_key(fd as usize) ==> value == FAILURE && final(vfs)@ == old(
            vfs,
        )@,
{
    match vfs_close(vfs, FileDescriptor(#[verifier::truncate] (fd as usize))) {
        Ok(_) => 0,
        Err(_) => FAILURE,
    }
}

/// Ends the process: the call returns the exit code.
pub fn sys_exit(code: i32) -> (outcome: SyscallOutcome)
    ensures
        outcome == (SyscallOutcome { value: code as i64, effect: SyscallEffect::ProcessExit(code) }),
{
    SyscallOutcome { value: code as i64, effect: SyscallEffect::ProcessExit(code) }
}

/// The outcome of a call that is not implemented.
pub open spec fn not_implemented(call: Syscall) -> SyscallOutcome {
    SyscallOutcome { value: FAILURE, effect: SyscallEffect::NotImplemented(call) }
}

/// `fork` is not implemented.
pub fn sys_fork() -> (outcome: SyscallOutcome)
    ensures
        outcome == not_implemented(Syscall::Fork),
{
    SyscallOutcome { value: FAILURE, effect: SyscallEffect::NotImplemented(Syscall::Fork) }
}

/// `exec` is not implemented.
pub fn sys_exec(path_ptr: u64) -> (outcome: SyscallOutcome)
    ensures
        outcome == not_implemented(Syscall::Exec),
{
    SyscallOutcome { value: FAILURE, effect: SyscallEffect::NotImplemented(Syscall::Exec) }
}

/// `wait` is not implemented.
pub fn sys_wait(status_ptr: u64) -> (outcome: SyscallOutcome)
    ensures
        outcome == not_implemented(Syscall::Wait),
{
    SyscallOutcome { value: FAILURE, effect: SyscallEffect::NotImplemented(Syscall::Wait) }
}

/// What the call with number `syscall_num` returns and asks for, given the
/// user memory `memory` that it refers to.
pub open spec fn handler_outcome(
    vfs: VfsState,
    syscall_num: u64,
    arg1: u64,
    arg2: u64,
    memory: Seq<u8>,
) -> SyscallOutcome {
    match Syscall::spec_from_u64(syscall_num) {
        None => SyscallOutcome {
            value: FAILURE,
            effect: SyscallEffect::UnknownSyscall(syscall_num),
        },
        Some(Syscall::Read) => SyscallOutcome {
            value: read_value(vfs, arg1 as i32, arg2, memory),
            effect: SyscallEffect::Nothing,
        },
        Some(Syscall::Write) => write_outcome(vfs, arg1 as i32, arg2, memory),
        Some(Syscall::Open) => SyscallOutcome {
            value: open_value(vfs, arg1, memory),
            effect: SyscallEffect::Nothing,
        },
        Some(Syscall::Close) => SyscallOutcome {
            value: if vfs.fds.files.contains_key((arg1 as i32) as usize) {
                0
            } else {
                FAILURE
            },
            effect: SyscallEffect::Nothing,
        },
        Some(Syscall::Exit) => SyscallOutcome {
            value: (arg1 as i32) as i64,
            effect: SyscallEffect::ProcessExit(arg1 as i32),
        },
        Some(call) => not_implemented(call),
    }
}

/// The file system after the call.
pub open spec fn handler_state(
    vfs: VfsState,
    syscall_num: u64,
    arg1: u64,
    arg2: u64,
    memory: Seq<u8>,
) -> VfsState {
    let fd = FileDescriptor((arg1 as i32) as usize);
    match Syscall::spec_from_u64(syscall_num) {
        Some(Syscall::Read) => if reaches_vfs(arg2, memory.len()) {
            vfs.after_read(fd, memory)
        } else {
            vfs
        },
        Some(Syscall::Write) => if reaches_vfs(arg2, memory.len()) && !is_console(arg1 as i32) {
            vfs.after_vfs_write(fd, memory)
        } else {
            vfs
        },
        Some(Syscall::Open) => if arg1 != 0 {
            vfs.after_open(
                path_of(c_string(memory)),
                OpenFlags { read: true, write: true, append: false, create: false },
            )
        } else {
            vfs
        },
        Some(Syscall::Close) => if vfs.fds.files.contains_key(fd.0) {
            VfsState { fds: vfs.fds.after_close(fd), ..vfs }
        } else {
            vfs
        },
        _ => vfs,
    }
}

/// The user memory after the call: only a read that reaches the file
/// system changes it.
pub open spec fn handler_memory(
    vfs: VfsState,
    syscall_num: u64,
    arg1: u64,
    arg2: u64,
    memory: Seq<u8>,
) -> Seq<u8> {
    if Syscall::spec_from_u64(syscall_num) == Some(Syscall::Read) && reaches_vfs(
        arg2,
        memory.len(),
    ) {
        vfs.buffer_after_vfs_read(FileDescriptor((arg1 as i32) as usize), memory)
    } else {
        memory
    }
}

/// Carries out the system call with number `syscall_num`. `memory` is the
/// user memory that `memory_request` names for the call: the buffer of a
/// read or a write, the memory that holds the path of an open, and empty
/// for the rest.
pub fn syscall_handler(
    vfs: &mut Vfs,
    syscall_num: u64,
    arg1: u64,
    arg2: u64,
    arg3: u64,
    arg4: u64,
    arg5: u64,
    arg6: u64,
    memory: &mut [u8],
) -> (outcome: SyscallOutcome)
    requires
        old(vfs).wf(),
    ensures
        final(vfs).wf(),
        outcome == handler_outcome(old(vfs)@, syscall_num, arg1, arg2, old(memory)@),
        final(vfs)@ == handler_state(old(vfs)@, syscall_num, arg1, arg2, old(memory)@),
        final(memory)@ == handler_memory(old(vfs)@, syscall_num, arg1, arg2, old(memory)@),
{
    let syscall = match Syscall::from_u64(syscall_num) {
        Some(syscall) => syscall,
        None => {
            return SyscallOutcome {
                value: FAILURE,
                effect: SyscallEffect::UnknownSyscall(syscall_num),
            };
        },
    };
    let fd = #[verifier::truncate] (arg1 as i32);
    match syscall {
        Syscall::Read => SyscallOutcome {
            value: sys_read(vfs, fd, arg2, memory),
            effect: SyscallEffect::Nothing,
        },
        Syscall::Write => sys_write(vfs, fd, arg2, memory),
        Syscall::Open => SyscallOutcome {
            value: sys_open(vfs, arg1, memory, #[verifier::truncate] (arg2 as i32)),
            effect: SyscallEffect::Nothing,
        },
        Syscall::Close => SyscallOutcome {
            value: sys_close(vfs, fd),
            effect: SyscallEffect::Nothing,
        },
        Syscall::Exit => sys_exit(fd),
        Syscall::Fork => sys_fork(),
        Syscall::Exec => sys_exec(arg1),
        Syscall::Wait => sys_wait(arg1),
    }
}

} // verus!
