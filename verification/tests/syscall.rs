use lithos::syscall::{
    memory_request, sys_close, sys_exec, sys_exit, sys_fork, sys_open, sys_read, sys_wait,
    sys_write, syscall_handler, MemoryRequest, Syscall, SyscallEffect, SyscallOutcome,
};
use lithos::vfs::fd_table::OpenFlags;
use lithos::vfs::ops::{init, vfs_create, vfs_open, Vfs};
use lithos::vfs::ramfs::RamFs;

fn mounted() -> Vfs {
    let fs = RamFs::new();
    let root = fs.root_node();
    let mut vfs = Vfs::new(fs);
    init(&mut vfs, root);
    vfs
}

#[test]
fn syscall_numbers() {
    assert_eq!(Syscall::from_u64(0), Some(Syscall::Read));
    assert_eq!(Syscall::from_u64(1), Some(Syscall::Write));
    assert_eq!(Syscall::from_u64(2), Some(Syscall::Open));
    assert_eq!(Syscall::from_u64(3), Some(Syscall::Close));
    assert_eq!(Syscall::from_u64(57), Some(Syscall::Fork));
    assert_eq!(Syscall::from_u64(59), Some(Syscall::Exec));
    assert_eq!(Syscall::from_u64(60), Some(Syscall::Exit));
    assert_eq!(Syscall::from_u64(61), Some(Syscall::Wait));
    assert_eq!(Syscall::from_u64(4), None);
    assert_eq!(Syscall::from_u64(58), None);
    assert_eq!(Syscall::from_u64(u64::MAX), None);
    for n in 0..200u64 {
        if let Some(call) = Syscall::from_u64(n) {
            assert_eq!(call.number(), n);
        }
    }
}

#[test]
fn write_to_stdout_goes_to_the_console() {
    let mut vfs = mounted();
    let mut memory = *b"hi";
    let outcome = syscall_handler(&mut vfs, 1, 1, 0x1000, 2, 0, 0, 0, &mut memory);
    assert_eq!(outcome, SyscallOutcome { value: 2, effect: SyscallEffect::ConsoleWrite });
    assert_eq!(&memory, b"hi");
    let outcome = sys_write(&mut vfs, 2, 0x1000, b"error");
    assert_eq!(outcome, SyscallOutcome { value: 5, effect: SyscallEffect::ConsoleWrite });
}

#[test]
fn open_missing_file_fails_and_allocates_nothing() {
    let mut vfs = mounted();
    let mut memory = *b"/nonexistent\0";
    let outcome = syscall_handler(&mut vfs, 2, 0x2000, 0, 0, 0, 0, 0, &mut memory);
    assert_eq!(outcome, SyscallOutcome { value: -1, effect: SyscallEffect::Nothing });
    assert_eq!(vfs_create(&mut vfs, "/f"), Ok(()));
    assert_eq!(sys_open(&mut vfs, 0x2000, b"/f\0", 0), 3);
}

#[test]
fn open_reads_the_path_up_to_the_first_zero_byte() {
    let mut vfs = mounted();
    assert_eq!(vfs_create(&mut vfs, "/f"), Ok(()));
    assert_eq!(sys_open(&mut vfs, 1, b"/f\0/nonexistent", 0), 3);
    assert_eq!(sys_open(&mut vfs, 1, b"/f", 0), 4);
    assert_eq!(sys_open(&mut vfs, 1, b"\0/f", 0), -1);
    assert_eq!(sys_open(&mut vfs, 1, b"", 0), -1);
    assert_eq!(sys_open(&mut vfs, 0, b"/f\0", 0), -1);
    assert_eq!(sys_open(&mut vfs, 1, b"/\xFF\0", 0), -1);
    assert_eq!(sys_open(&mut vfs, 1, b"\xFF/f\0", 0), -1);
    assert_eq!(sys_open(&mut vfs, 1, b"/f\0", 0), 5);
}

#[test]
fn open_accepts_non_ascii_paths() {
    let mut vfs = mounted();
    assert_eq!(vfs_create(&mut vfs, "/é"), Ok(()));
    assert_eq!(sys_open(&mut vfs, 1, "/é\0".as_bytes(), 0), 3);
}

#[test]
fn read_and_write_through_descriptors() {
    let mut vfs = mounted();
    assert_eq!(vfs_create(&mut vfs, "/f"), Ok(()));
    assert_eq!(sys_open(&mut vfs, 1, b"/f\0", 0), 3);
    assert_eq!(sys_open(&mut vfs, 1, b"/f\0", 0), 4);
    let mut data = *b"payload";
    let outcome = syscall_handler(&mut vfs, 1, 3, 0x10, 7, 0, 0, 0, &mut data);
    assert_eq!(outcome, SyscallOutcome { value: 7, effect: SyscallEffect::Nothing });
    let mut buf = [0u8; 4];
    let outcome = syscall_handler(&mut vfs, 0, 4, 0x20, 4, 0, 0, 0, &mut buf);
    assert_eq!(outcome, SyscallOutcome { value: 4, effect: SyscallEffect::Nothing });
    assert_eq!(&buf, b"payl");
    assert_eq!(sys_read(&mut vfs, 4, 0x20, &mut buf), 3);
    assert_eq!(&buf, b"oadl");
    assert_eq!(sys_read(&mut vfs, 4, 0x20, &mut buf), 0);
}

#[test]
fn null_pointers_and_zero_counts_fail() {
    let mut vfs = mounted();
    assert_eq!(vfs_create(&mut vfs, "/f"), Ok(()));
    assert_eq!(vfs_open(&mut vfs, "/f", OpenFlags::read_write()).map(|fd| fd.0), Ok(3));
    let mut buf = [7u8; 4];
    assert_eq!(sys_read(&mut vfs, 3, 0, &mut buf), -1);
    assert_eq!(sys_read(&mut vfs, 3, 0x10, &mut []), -1);
    assert_eq!(buf, [7u8; 4]);
    let fail = SyscallOutcome { value: -1, effect: SyscallEffect::Nothing };
    assert_eq!(sys_write(&mut vfs, 3, 0, b"abc"), fail);
    assert_eq!(sys_write(&mut vfs, 3, 0x10, b""), fail);
    assert_eq!(sys_write(&mut vfs, 1, 0, b"abc"), fail);
    assert_eq!(sys_write(&mut vfs, 1, 0x10, b""), fail);
    assert_eq!(sys_read(&mut vfs, 3, 0x10, &mut buf), 0);
}

#[test]
fn bad_descriptors_fail() {
    let mut vfs = mounted();
    let mut buf = [0u8; 4];
    assert_eq!(sys_read(&mut vfs, 3, 0x10, &mut buf), -1);
    assert_eq!(sys_read(&mut vfs, -1, 0x10, &mut buf), -1);
    assert_eq!(sys_read(&mut vfs, 0, 0x10, &mut buf), -1);
    assert_eq!(sys_write(&mut vfs, 0, 0x10, b"x").value, -1);
    assert_eq!(sys_write(&mut vfs, 3, 0x10, b"x").value, -1);
    assert_eq!(sys_write(&mut vfs, -7, 0x10, b"x").value, -1);
    assert_eq!(sys_close(&mut vfs, 3), -1);
    assert_eq!(sys_close(&mut vfs, -1), -1);
}

#[test]
fn close_returns_zero_once() {
    let mut vfs = mounted();
    assert_eq!(sys_open(&mut vfs, 1, b"/\0", 0), 3);
    let mut none = [0u8; 0];
    let ok = SyscallOutcome { value: 0, effect: SyscallEffect::Nothing };
    let fail = SyscallOutcome { value: -1, effect: SyscallEffect::Nothing };
    assert_eq!(syscall_handler(&mut vfs, 3, 3, 0, 0, 0, 0, 0, &mut none), ok);
    assert_eq!(syscall_handler(&mut vfs, 3, 3, 0, 0, 0, 0, 0, &mut none), fail);
    assert_eq!(sys_close(&mut vfs, 3), -1);
}

#[test]
fn exit_echoes_the_code() {
    let mut vfs = mounted();
    let mut none = [0u8; 0];
    assert_eq!(
        syscall_handler(&mut vfs, 60, 42, 0, 0, 0, 0, 0, &mut none),
        SyscallOutcome { value: 42, effect: SyscallEffect::ProcessExit(42) }
    );
    assert_eq!(
        syscall_handler(&mut vfs, 60, u64::MAX, 0, 0, 0, 0, 0, &mut none),
        SyscallOutcome { value: -1, effect: SyscallEffect::ProcessExit(-1) }
    );
    assert_eq!(
        sys_exit(-3),
        SyscallOutcome { value: -3, effect: SyscallEffect::ProcessExit(-3) }
    );
}

#[test]
fn unimplemented_and_unknown_calls_fail() {
    let mut vfs = mounted();
    let mut none = [0u8; 0];
    for (n, call) in [(57, Syscall::Fork), (59, Syscall::Exec), (61, Syscall::Wait)] {
        assert_eq!(
            syscall_handler(&mut vfs, n, 1, 2, 3, 4, 5, 6, &mut none),
            SyscallOutcome { value: -1, effect: SyscallEffect::NotImplemented(call) }
        );
    }
    assert_eq!(sys_fork().value, -1);
    assert_eq!(sys_exec(0x10).value, -1);
    assert_eq!(sys_wait(0x10).value, -1);
    assert_eq!(
        syscall_handler(&mut vfs, 999, 0, 0, 0, 0, 0, 0, &mut none),
        SyscallOutcome { value: -1, effect: SyscallEffect::UnknownSyscall(999) }
    );
}

#[test]
fn memory_requests() {
    assert_eq!(
        memory_request(0, 3, 0x1000, 16),
        MemoryRequest::Buffer { address: 0x1000, length: 16 }
    );
    assert_eq!(
        memory_request(1, 1, 0x2000, 2),
        MemoryRequest::Buffer { address: 0x2000, length: 2 }
    );
    assert_eq!(memory_request(0, 3, 0, 16), MemoryRequest::Nothing);
    assert_eq!(memory_request(1, 3, 0x1000, 0), MemoryRequest::Nothing);
    assert_eq!(memory_request(2, 0x3000, 0, 0), MemoryRequest::CString { address: 0x3000 });
    assert_eq!(memory_request(2, 0, 0, 0), MemoryRequest::Nothing);
    assert_eq!(memory_request(3, 3, 0x1000, 16), MemoryRequest::Nothing);
    assert_eq!(memory_request(60, 3, 0x1000, 16), MemoryRequest::Nothing);
    assert_eq!(memory_request(12345, 3, 0x1000, 16), MemoryRequest::Nothing);
}
