use lithos::vfs::devfs::DeviceNode;
use lithos::vfs::fd_table::{FileDescriptor, OpenFlags};
use lithos::vfs::ops::{
    init, resolve_path, vfs_close, vfs_create, vfs_mkdir, vfs_open, vfs_read, vfs_readdir,
    vfs_write, Vfs,
};
use lithos::vfs::ramfs::RamFs;
use lithos::vfs::{FileType, Permissions, VfsError, VfsNodeRef};

fn mounted() -> Vfs {
    let fs = RamFs::new();
    let root = fs.root_node();
    let mut vfs = Vfs::new(fs);
    init(&mut vfs, root);
    vfs
}

fn names(list: &[&str]) -> Vec<String> {
    list.iter().map(|s| String::from(*s)).collect()
}

#[test]
fn create_file_then_list_parent() {
    let mut vfs = mounted();
    assert_eq!(vfs_mkdir(&mut vfs, "/home"), Ok(()));
    assert_eq!(vfs_mkdir(&mut vfs, "/home/user"), Ok(()));
    assert_eq!(vfs_create(&mut vfs, "/home/user/test.txt"), Ok(()));
    assert_eq!(vfs_readdir(&vfs, "/home/user"), Ok(names(&["test.txt"])));
}

#[test]
fn boot_sequence_listing() {
    let mut vfs = mounted();
    assert_eq!(vfs_mkdir(&mut vfs, "/home"), Ok(()));
    assert_eq!(vfs_mkdir(&mut vfs, "/home/user"), Ok(()));
    assert_eq!(vfs_mkdir(&mut vfs, "/tmp"), Ok(()));
    assert_eq!(vfs_create(&mut vfs, "/home/user/test.txt"), Ok(()));
    assert_eq!(vfs_create(&mut vfs, "/home/user/readme.md"), Ok(()));
    assert_eq!(vfs_mkdir(&mut vfs, "/dev"), Ok(()));
    assert_eq!(vfs_readdir(&vfs, "/"), Ok(names(&["dev", "home", "tmp"])));
    assert_eq!(vfs_readdir(&vfs, "/home"), Ok(names(&["user"])));
    assert_eq!(vfs_readdir(&vfs, "/home/user"), Ok(names(&["readme.md", "test.txt"])));
    assert_eq!(vfs_readdir(&vfs, "/tmp"), Ok(names(&[])));
}

#[test]
fn readdir_is_sorted_and_second_create_fails() {
    let mut vfs = mounted();
    assert_eq!(vfs_create(&mut vfs, "/b"), Ok(()));
    assert_eq!(vfs_create(&mut vfs, "/a"), Ok(()));
    assert_eq!(vfs_mkdir(&mut vfs, "/c"), Ok(()));
    assert_eq!(vfs_create(&mut vfs, "/a"), Err(VfsError::AlreadyExists));
    assert_eq!(vfs_mkdir(&mut vfs, "/a"), Err(VfsError::AlreadyExists));
    assert_eq!(vfs_readdir(&vfs, "/"), Ok(names(&["a", "b", "c"])));
}

#[test]
fn readdir_orders_by_bytes() {
    let mut vfs = mounted();
    for name in ["/zeta", "/Alpha", "/alpha", "/ab", "/a", "/é", "/10", "/9"] {
        assert_eq!(vfs_create(&mut vfs, name), Ok(()));
    }
    assert_eq!(
        vfs_readdir(&vfs, "/"),
        Ok(names(&["10", "9", "Alpha", "a", "ab", "alpha", "zeta", "é"]))
    );
}

#[test]
fn resolver_root_and_errors() {
    let mut vfs = mounted();
    assert_eq!(resolve_path(&vfs, "/"), Ok(VfsNodeRef::Ram(0)));
    assert_eq!(resolve_path(&vfs, ""), Err(VfsError::InvalidPath));
    assert_eq!(resolve_path(&vfs, "home"), Err(VfsError::InvalidPath));
    assert_eq!(resolve_path(&vfs, "a/b"), Err(VfsError::InvalidPath));
    assert_eq!(resolve_path(&vfs, "/missing"), Err(VfsError::NotFound));
    assert_eq!(vfs_create(&mut vfs, "/file"), Ok(()));
    assert_eq!(resolve_path(&vfs, "/file/x"), Err(VfsError::NotADirectory));
    assert_eq!(vfs_mkdir(&mut vfs, "/dir"), Ok(()));
    assert_eq!(resolve_path(&vfs, "/dir/missing"), Err(VfsError::NotFound));
    assert_eq!(resolve_path(&vfs, "/missing/deeper"), Err(VfsError::NotFound));
}

#[test]
fn resolver_drops_empty_components() {
    let mut vfs = mounted();
    assert_eq!(vfs_mkdir(&mut vfs, "/a"), Ok(()));
    assert_eq!(vfs_mkdir(&mut vfs, "/a/b"), Ok(()));
    let b = resolve_path(&vfs, "/a/b");
    assert_eq!(b, Ok(VfsNodeRef::Ram(2)));
    assert_eq!(resolve_path(&vfs, "//a///b/"), b);
    assert_eq!(resolve_path(&vfs, "/a/b//"), b);
    assert_eq!(resolve_path(&vfs, "///"), Ok(VfsNodeRef::Ram(0)));
    assert_eq!(resolve_path(&vfs, "/a/./b"), Err(VfsError::NotFound));
    assert_eq!(resolve_path(&vfs, "/a/.."), Err(VfsError::NotFound));
}

#[test]
fn resolve_before_init_is_io_error() {
    let vfs = Vfs::new(RamFs::new());
    assert_eq!(vfs.root(), None);
    assert_eq!(resolve_path(&vfs, "/"), Err(VfsError::IoError));
    assert_eq!(resolve_path(&vfs, "relative"), Err(VfsError::InvalidPath));
    assert_eq!(vfs_readdir(&vfs, "/"), Err(VfsError::IoError));
}

#[test]
fn device_root_is_no_directory() {
    let mut vfs = Vfs::new(RamFs::new());
    init(&mut vfs, VfsNodeRef::Device(DeviceNode::Zero));
    assert_eq!(resolve_path(&vfs, "/"), Ok(VfsNodeRef::Device(DeviceNode::Zero)));
    assert_eq!(resolve_path(&vfs, "/x"), Err(VfsError::NotADirectory));
    assert_eq!(vfs_readdir(&vfs, "/"), Err(VfsError::NotADirectory));
    assert_eq!(vfs_create(&mut vfs, "/x"), Err(VfsError::NotADirectory));
}

#[test]
fn mkdir_and_create_errors() {
    let mut vfs = mounted();
    assert_eq!(vfs_mkdir(&mut vfs, "/"), Err(VfsError::InvalidPath));
    assert_eq!(vfs_mkdir(&mut vfs, ""), Err(VfsError::InvalidPath));
    assert_eq!(vfs_mkdir(&mut vfs, "noslash"), Err(VfsError::InvalidPath));
    assert_eq!(vfs_mkdir(&mut vfs, "/trailing/"), Err(VfsError::InvalidPath));
    assert_eq!(vfs_mkdir(&mut vfs, "rel/name"), Err(VfsError::InvalidPath));
    assert_eq!(vfs_create(&mut vfs, "/no/such/parent"), Err(VfsError::NotFound));
    assert_eq!(vfs_create(&mut vfs, "/f"), Ok(()));
    assert_eq!(vfs_create(&mut vfs, "/f/child"), Err(VfsError::NotADirectory));
    assert_eq!(vfs_readdir(&vfs, "/f"), Err(VfsError::NotADirectory));
    assert_eq!(vfs_readdir(&vfs, "/nope"), Err(VfsError::NotFound));
}

#[test]
fn open_missing_file_allocates_nothing() {
    let mut vfs = mounted();
    assert_eq!(vfs_open(&mut vfs, "/nonexistent", OpenFlags::read_write()), Err(VfsError::NotFound));
    assert_eq!(vfs_create(&mut vfs, "/f"), Ok(()));
    assert_eq!(vfs_open(&mut vfs, "/f", OpenFlags::read_write()), Ok(FileDescriptor(3)));
}

#[test]
fn descriptors_increase_and_are_not_reused() {
    let mut vfs = mounted();
    assert_eq!(vfs_create(&mut vfs, "/f"), Ok(()));
    assert_eq!(vfs_open(&mut vfs, "/f", OpenFlags::read_only()), Ok(FileDescriptor(3)));
    assert_eq!(vfs_open(&mut vfs, "/", OpenFlags::read_only()), Ok(FileDescriptor(4)));
    assert_eq!(vfs_close(&mut vfs, FileDescriptor(3)), Ok(()));
    assert_eq!(vfs_close(&mut vfs, FileDescriptor(3)), Err(VfsError::NotFound));
    assert_eq!(vfs_open(&mut vfs, "/f", OpenFlags::read_only()), Ok(FileDescriptor(5)));
    assert_eq!(vfs_close(&mut vfs, FileDescriptor(0)), Err(VfsError::NotFound));
    assert_eq!(vfs_close(&mut vfs, FileDescriptor(99)), Err(VfsError::NotFound));
}

#[test]
fn write_then_read_through_descriptors() {
    let mut vfs = mounted();
    assert_eq!(vfs_create(&mut vfs, "/f"), Ok(()));
    let w = vfs_open(&mut vfs, "/f", OpenFlags::write_only()).unwrap();
    let r = vfs_open(&mut vfs, "/f", OpenFlags::read_only()).unwrap();
    assert_eq!(vfs_write(&mut vfs, w, b"hello "), Ok(6));
    assert_eq!(vfs_write(&mut vfs, w, b"world"), Ok(5));
    let mut buf = [0u8; 8];
    assert_eq!(vfs_read(&mut vfs, r, &mut buf), Ok(8));
    assert_eq!(&buf, b"hello wo");
    let mut rest = [0xEEu8; 8];
    assert_eq!(vfs_read(&mut vfs, r, &mut rest), Ok(3));
    assert_eq!(&rest[..3], b"rld");
    assert_eq!(&rest[3..], &[0xEEu8; 5]);
    assert_eq!(vfs_read(&mut vfs, r, &mut rest), Ok(0));
    let node = resolve_path(&vfs, "/f").unwrap();
    assert_eq!(vfs.size(node), 11);
    assert_eq!(vfs.file_type(node), FileType::Regular);
    assert_eq!(vfs.permissions(node), Permissions::new(0o644));
}

#[test]
fn read_and_write_need_their_flag_and_an_open_descriptor() {
    let mut vfs = mounted();
    assert_eq!(vfs_create(&mut vfs, "/f"), Ok(()));
    let w = vfs_open(&mut vfs, "/f", OpenFlags::write_only()).unwrap();
    let r = vfs_open(&mut vfs, "/f", OpenFlags::read_only()).unwrap();
    let mut buf = [0u8; 4];
    assert_eq!(vfs_read(&mut vfs, w, &mut buf), Err(VfsError::PermissionDenied));
    assert_eq!(vfs_write(&mut vfs, r, b"x"), Err(VfsError::PermissionDenied));
    assert_eq!(vfs_read(&mut vfs, FileDescriptor(77), &mut buf), Err(VfsError::NotFound));
    assert_eq!(vfs_write(&mut vfs, FileDescriptor(77), b"x"), Err(VfsError::NotFound));
    assert_eq!(vfs_close(&mut vfs, r), Ok(()));
    assert_eq!(vfs_read(&mut vfs, r, &mut buf), Err(VfsError::NotFound));
}

#[test]
fn directories_cannot_be_read_or_written() {
    let mut vfs = mounted();
    let fd = vfs_open(&mut vfs, "/", OpenFlags::read_write()).unwrap();
    let mut buf = [0u8; 4];
    assert_eq!(vfs_read(&mut vfs, fd, &mut buf), Err(VfsError::IsADirectory));
    assert_eq!(vfs_write(&mut vfs, fd, b"x"), Err(VfsError::IsADirectory));
}

#[test]
fn append_writes_at_the_end() {
    let mut vfs = mounted();
    assert_eq!(vfs_create(&mut vfs, "/log"), Ok(()));
    let w = vfs_open(&mut vfs, "/log", OpenFlags::write_only()).unwrap();
    assert_eq!(vfs_write(&mut vfs, w, b"abc"), Ok(3));
    let flags = OpenFlags { read: false, write: true, append: true, create: false };
    let a = vfs_open(&mut vfs, "/log", flags).unwrap();
    assert_eq!(vfs_write(&mut vfs, a, b"de"), Ok(2));
    let w2 = vfs_open(&mut vfs, "/log", OpenFlags::write_only()).unwrap();
    assert_eq!(vfs_write(&mut vfs, w2, b"X"), Ok(1));
    let r = vfs_open(&mut vfs, "/log", OpenFlags::read_only()).unwrap();
    let mut buf = [0u8; 16];
    assert_eq!(vfs_read(&mut vfs, r, &mut buf), Ok(5));
    assert_eq!(&buf[..5], b"Xbcde");
}

#[test]
fn node_write_past_end_zero_fills() {
    let mut vfs = mounted();
    assert_eq!(vfs_create(&mut vfs, "/f"), Ok(()));
    let node = resolve_path(&vfs, "/f").unwrap();
    assert_eq!(vfs.write_at(node, 0, b"abc"), Ok(3));
    assert_eq!(vfs.write_at(node, 3 + 4, b"xy"), Ok(2));
    assert_eq!(vfs.size(node), 3 + 4 + 2);
    let mut gap = [0xFFu8; 4];
    assert_eq!(vfs.read_at(node, 3, &mut gap), Ok(4));
    assert_eq!(gap, [0u8; 4]);
    let mut all = [0xFFu8; 20];
    assert_eq!(vfs.read_at(node, 0, &mut all), Ok(9));
    assert_eq!(&all[..9], b"abc\0\0\0\0xy");
    assert_eq!(&all[9..], &[0xFFu8; 11]);
    assert_eq!(vfs.read_at(node, 9, &mut all), Ok(0));
    assert_eq!(vfs.read_at(node, 100, &mut all), Ok(0));
}

#[test]
fn node_write_then_read_same_offset() {
    let mut vfs = mounted();
    assert_eq!(vfs_create(&mut vfs, "/f"), Ok(()));
    let node = resolve_path(&vfs, "/f").unwrap();
    assert_eq!(vfs.write_at(node, 0, &[9u8; 10]), Ok(10));
    assert_eq!(vfs.write_at(node, 4, b"mid"), Ok(3));
    let mut buf = [0u8; 3];
    assert_eq!(vfs.read_at(node, 4, &mut buf), Ok(3));
    assert_eq!(&buf, b"mid");
    assert_eq!(vfs.size(node), 10);
    assert_eq!(vfs.write_at(node, 20, &[]), Ok(0));
    assert_eq!(vfs.size(node), 20);
    assert_eq!(vfs.write_at(node, usize::MAX, b"x"), Err(VfsError::NoSpace));
    assert_eq!(vfs.size(node), 20);
}

#[test]
fn node_operations_dispatch_on_the_kind() {
    let mut vfs = mounted();
    let root = VfsNodeRef::Ram(0);
    assert_eq!(vfs.file_type(root), FileType::Directory);
    assert_eq!(vfs.size(root), 0);
    assert_eq!(vfs.permissions(root).mode, 0o755);
    assert_eq!(vfs.lookup(root, "x"), Err(VfsError::NotFound));
    assert_eq!(vfs.create(root, "x", FileType::Regular), Ok(VfsNodeRef::Ram(1)));
    assert_eq!(vfs.create(root, "d", FileType::Directory), Ok(VfsNodeRef::Ram(2)));
    assert_eq!(vfs.lookup(root, "x"), Ok(VfsNodeRef::Ram(1)));
    assert_eq!(vfs.lookup(VfsNodeRef::Ram(1), "y"), Err(VfsError::NotADirectory));
    assert_eq!(vfs.create(VfsNodeRef::Ram(1), "y", FileType::Regular), Err(VfsError::NotADirectory));
    assert_eq!(vfs.create(root, "s", FileType::Symlink), Err(VfsError::IoError));
    assert_eq!(vfs.create(root, "v", FileType::Device), Err(VfsError::IoError));
    assert_eq!(vfs.readdir(root), Ok(names(&["d", "x"])));
    assert_eq!(vfs.readdir(VfsNodeRef::Ram(1)), Err(VfsError::NotADirectory));
    let zero = VfsNodeRef::Device(DeviceNode::Zero);
    assert_eq!(vfs.file_type(zero), FileType::Device);
    assert_eq!(vfs.size(zero), 0);
    assert_eq!(vfs.permissions(zero).mode, 0o666);
    assert_eq!(vfs.lookup(zero, "x"), Err(VfsError::NotADirectory));
    assert_eq!(vfs.create(zero, "x", FileType::Regular), Err(VfsError::NotADirectory));
    assert_eq!(vfs.readdir(zero), Err(VfsError::NotADirectory));
    assert_eq!(vfs.write_at(zero, 0, b"x"), Err(VfsError::PermissionDenied));
    assert_eq!(vfs.write_at(VfsNodeRef::Device(DeviceNode::Null), 0, b"xyz"), Ok(3));
    let mut buf = [0xFFu8; 16];
    assert_eq!(vfs.read_at(zero, 0, &mut buf), Ok(16));
    assert_eq!(buf, [0u8; 16]);
}

#[test]
fn random_device_reads_share_one_generator() {
    let mut vfs = mounted();
    let random = VfsNodeRef::Device(DeviceNode::Random);
    let mut a = [0u8; 2];
    let mut b = [0u8; 2];
    assert_eq!(vfs.read_at(random, 0, &mut a), Ok(2));
    assert_eq!(vfs.read_at(random, 0, &mut b), Ok(2));
    assert_eq!(a, [0xF8, 0x4F]);
    assert_eq!(b, [0x76, 0x28]);
}
