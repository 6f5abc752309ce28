use lithos::vfs::devfs::DeviceNode;
use lithos::vfs::fd_table::{FdTable, FileDescriptor, OpenFile, OpenFlags, FIRST_FD};
use lithos::vfs::inode::Inode;
use lithos::vfs::name_order::{name_rank, NameRank};
use lithos::vfs::path::{path_chars, split_path};
use lithos::vfs::ramfs::{next_inode_number, RamDirectory, RamFile, RamFs, RamFsNode};
use lithos::vfs::{FileType, Permissions, VfsError, VfsNodeRef};

#[test]
fn permissions_bits() {
    assert!(Permissions::new(0o400).can_read());
    assert!(!Permissions::new(0o400).can_write());
    assert!(!Permissions::new(0o400).can_execute());
    assert!(Permissions::new(0o200).can_write());
    assert!(Permissions::new(0o100).can_execute());
    assert!(!Permissions::new(0o077).can_read());
    assert!(!Permissions::new(0o077).can_write());
    assert!(!Permissions::new(0o077).can_execute());
    let p = Permissions::new(0o644);
    assert!(p.can_read() && p.can_write() && !p.can_execute());
    let d = Permissions::new(0o755);
    assert!(d.can_read() && d.can_write() && d.can_execute());
    assert_eq!(d.mode, 0o755);
}

#[test]
fn vfs_error_messages() {
    assert_eq!(VfsError::NotFound.message(), "File not found");
    assert_eq!(VfsError::PermissionDenied.message(), "Permission denied");
    assert_eq!(VfsError::AlreadyExists.message(), "File already exists");
    assert_eq!(VfsError::NotADirectory.message(), "Not a directory");
    assert_eq!(VfsError::IsADirectory.message(), "Is a directory");
    assert_eq!(VfsError::InvalidPath.message(), "Invalid path");
    assert_eq!(VfsError::IoError.message(), "I/O error");
    assert_eq!(VfsError::NoSpace.message(), "No space left");
}

#[test]
fn inode_constructors() {
    let f = Inode::new_file(7);
    assert_eq!(f.file_type, FileType::Regular);
    assert_eq!(f.size, 0);
    assert_eq!(f.permissions.mode, 0o644);
    assert_eq!(f.inode_number, 7);
    let d = Inode::new_directory(8);
    assert_eq!(d.file_type, FileType::Directory);
    assert_eq!(d.size, 0);
    assert_eq!(d.permissions.mode, 0o755);
    assert_eq!(d.inode_number, 8);
    let s = Inode::new(FileType::Symlink, Permissions::new(0o777), 9);
    assert_eq!(
        s,
        Inode {
            file_type: FileType::Symlink,
            size: 0,
            permissions: Permissions { mode: 0o777 },
            inode_number: 9
        }
    );
}

#[test]
fn open_flags_presets() {
    assert_eq!(
        OpenFlags::read_only(),
        OpenFlags { read: true, write: false, append: false, create: false }
    );
    assert_eq!(
        OpenFlags::write_only(),
        OpenFlags { read: false, write: true, append: false, create: false }
    );
    assert_eq!(
        OpenFlags::read_write(),
        OpenFlags { read: true, write: true, append: false, create: false }
    );
}

#[test]
fn fd_table_allocates_from_three_upwards() {
    let mut table = FdTable::new();
    assert_eq!(FIRST_FD, 3);
    assert!(!table.is_exhausted());
    let node = VfsNodeRef::Ram(0);
    let mut last = 2;
    for _ in 0..50 {
        let fd = table.allocate(node, OpenFlags::read_only());
        assert!(fd.0 >= 3);
        assert!(fd.0 > last);
        assert_eq!(fd.0, last + 1);
        last = fd.0;
    }
}

#[test]
fn fd_table_interleaved_close_keeps_increasing() {
    let mut table = FdTable::new();
    let node = VfsNodeRef::Device(DeviceNode::Null);
    let a = table.allocate(node, OpenFlags::read_only());
    let b = table.allocate(node, OpenFlags::write_only());
    assert_eq!((a, b), (FileDescriptor(3), FileDescriptor(4)));
    assert_eq!(table.close(a), Ok(()));
    let c = table.allocate(node, OpenFlags::read_write());
    assert_eq!(c, FileDescriptor(5));
    assert_eq!(table.close(a), Err(VfsError::NotFound));
    assert_eq!(table.close(b), Ok(()));
    assert_eq!(table.close(c), Ok(()));
    assert_eq!(table.allocate(node, OpenFlags::read_only()), FileDescriptor(6));
}

#[test]
fn fd_table_new_descriptor_is_above_all_issued_and_leaves_the_others() {
    let mut table = FdTable::new();
    let node = VfsNodeRef::Ram(1);
    let mut issued: Vec<FileDescriptor> = Vec::new();
    for round in 0..20usize {
        let flags = if round % 2 == 0 { OpenFlags::read_only() } else { OpenFlags::write_only() };
        let fd = table.allocate(node, flags);
        assert!(fd.0 >= 3);
        for earlier in &issued {
            assert!(fd.0 > earlier.0);
        }
        assert_eq!(table.get(fd), Some(&OpenFile { node, offset: 0, flags }));
        issued.push(fd);
        if let Some(file) = table.get_mut(fd) {
            file.offset = round;
        }
        if round % 3 == 0 {
            assert_eq!(table.close(issued[round / 2]), Ok(()));
        }
    }
    let last = issued[19];
    assert_eq!(table.get(last).map(|f| f.offset), Some(19));
}

#[test]
fn fd_table_get_and_get_mut() {
    let mut table = FdTable::new();
    let node = VfsNodeRef::Ram(4);
    let fd = table.allocate(node, OpenFlags::read_write());
    assert_eq!(
        table.get(fd),
        Some(&OpenFile { node, offset: 0, flags: OpenFlags::read_write() })
    );
    assert_eq!(table.get(FileDescriptor(0)), None);
    assert_eq!(table.get(FileDescriptor(4)), None);
    assert!(table.get_mut(FileDescriptor(1)).is_none());
    match table.get_mut(fd) {
        Some(file) => {
            file.offset = 42;
        }
        None => panic!("descriptor is open"),
    }
    assert_eq!(table.get(fd).map(|f| f.offset), Some(42));
    assert_eq!(table.close(fd), Ok(()));
    assert!(table.get_mut(fd).is_none());
    assert_eq!(table.get(fd), None);
}

#[test]
fn split_path_cases() {
    assert_eq!(split_path("/a"), Ok(("/", "a")));
    assert_eq!(split_path("/home/user/test.txt"), Ok(("/home/user", "test.txt")));
    assert_eq!(split_path("/a/b"), Ok(("/a", "b")));
    assert_eq!(split_path("a/b"), Ok(("a", "b")));
    assert_eq!(split_path("/é/ü"), Ok(("/é", "ü")));
    assert_eq!(split_path("//x"), Ok(("/", "x")));
    assert_eq!(split_path("/"), Err(VfsError::InvalidPath));
    assert_eq!(split_path(""), Err(VfsError::InvalidPath));
    assert_eq!(split_path("name"), Err(VfsError::InvalidPath));
    assert_eq!(split_path("/a/"), Err(VfsError::InvalidPath));
    assert_eq!(split_path("a/"), Err(VfsError::InvalidPath));
}

#[test]
fn path_chars_gives_the_characters() {
    assert_eq!(path_chars(""), Vec::<char>::new());
    assert_eq!(path_chars("/aé"), vec!['/', 'a', 'é']);
}

#[test]
fn name_rank_is_bytewise() {
    assert_eq!(name_rank("a", "a"), NameRank::Same);
    assert_eq!(name_rank("", ""), NameRank::Same);
    assert_eq!(name_rank("", "a"), NameRank::Before);
    assert_eq!(name_rank("a", ""), NameRank::After);
    assert_eq!(name_rank("a", "b"), NameRank::Before);
    assert_eq!(name_rank("b", "a"), NameRank::After);
    assert_eq!(name_rank("a", "ab"), NameRank::Before);
    assert_eq!(name_rank("ab", "a"), NameRank::After);
    assert_eq!(name_rank("Z", "a"), NameRank::Before);
    assert_eq!(name_rank("z", "é"), NameRank::Before);
    assert_eq!(name_rank("10", "9"), NameRank::Before);
    for (a, b) in [("x", "y"), ("abc", "abd"), ("", "q"), ("é", "ê")] {
        assert_eq!(a < b, name_rank(a, b) == NameRank::Before);
    }
}

#[test]
fn ram_file_reads_and_writes() {
    let mut f = RamFile::new(3);
    let mut buf = [1u8; 4];
    assert_eq!(f.read_at(0, &mut buf), 0);
    assert_eq!(buf, [1u8; 4]);
    assert_eq!(f.write_at(2, b"ab"), Ok(2));
    assert_eq!(f.read_at(0, &mut buf), 4);
    assert_eq!(&buf, b"\0\0ab");
    let mut one = [0u8; 1];
    assert_eq!(f.read_at(3, &mut one), 1);
    assert_eq!(&one, b"b");
    assert_eq!(f.read_at(4, &mut one), 0);
    assert_eq!(f.write_at(usize::MAX - 1, b"abc"), Err(VfsError::NoSpace));
}

#[test]
fn ram_directory_is_a_sorted_map() {
    let mut d = RamDirectory::new(1);
    assert_eq!(d.list(), Vec::<String>::new());
    assert_eq!(d.get("a"), None);
    d.insert(String::from("m"), VfsNodeRef::Ram(1));
    d.insert(String::from("a"), VfsNodeRef::Ram(2));
    d.insert(String::from("z"), VfsNodeRef::Device(DeviceNode::Null));
    assert_eq!(d.list(), vec!["a", "m", "z"]);
    assert_eq!(d.get("m"), Some(VfsNodeRef::Ram(1)));
    assert_eq!(d.get("z"), Some(VfsNodeRef::Device(DeviceNode::Null)));
    assert_eq!(d.get("b"), None);
    assert!(d.contains("a"));
    assert!(!d.contains(""));
    d.insert(String::from("m"), VfsNodeRef::Ram(9));
    assert_eq!(d.list(), vec!["a", "m", "z"]);
    assert_eq!(d.get("m"), Some(VfsNodeRef::Ram(9)));
}

#[test]
fn inode_counter_hands_out_and_wraps() {
    let mut counter = 1u64;
    assert_eq!(next_inode_number(&mut counter), 1);
    assert_eq!(next_inode_number(&mut counter), 2);
    assert_eq!(counter, 3);
    let mut last = u64::MAX;
    assert_eq!(next_inode_number(&mut last), u64::MAX);
    assert_eq!(last, 0);
}

#[test]
fn ramfs_root_and_inode_numbers() {
    let mut fs = RamFs::new();
    assert_eq!(fs.root_node(), VfsNodeRef::Ram(0));
    assert_eq!(fs.node_count(), 1);
    assert_eq!(fs.node(0).inode().inode_number, 0);
    assert_eq!(fs.node(0).file_type(), FileType::Directory);
    assert_eq!(fs.create(0, "a", FileType::Regular), Ok(VfsNodeRef::Ram(1)));
    assert_eq!(fs.create(0, "bad", FileType::Symlink), Err(VfsError::IoError));
    assert_eq!(fs.create(0, "b", FileType::Directory), Ok(VfsNodeRef::Ram(2)));
    assert_eq!(fs.node(1).inode().inode_number, 1);
    assert_eq!(fs.node(2).inode().inode_number, 3);
    assert_eq!(fs.node_count(), 3);
    assert_eq!(fs.create(0, "a", FileType::Directory), Err(VfsError::AlreadyExists));
    assert_eq!(fs.create(1, "x", FileType::Regular), Err(VfsError::NotADirectory));
    assert_eq!(fs.create(2, "a", FileType::Regular), Ok(VfsNodeRef::Ram(3)));
    assert_eq!(fs.node(3).inode().inode_number, 4);
    assert_eq!(fs.node(0).readdir(), Ok(vec![String::from("a"), String::from("b")]));
    assert_eq!(fs.node(0).lookup("b"), Ok(VfsNodeRef::Ram(2)));
    assert_eq!(fs.node(1).lookup("b"), Err(VfsError::NotADirectory));
    assert_eq!(fs.node(1).readdir(), Err(VfsError::NotADirectory));
}

#[test]
fn ramfs_write_updates_size_in_inode() {
    let mut fs = RamFs::new();
    assert_eq!(fs.create(0, "f", FileType::Regular), Ok(VfsNodeRef::Ram(1)));
    assert_eq!(fs.write_at(1, 5, b"abc"), Ok(3));
    assert_eq!(fs.node(1).size(), 8);
    assert_eq!(fs.node(1).inode().size, 8);
    assert_eq!(fs.node(1).permissions().mode, 0o644);
    assert_eq!(fs.write_at(0, 0, b"abc"), Err(VfsError::IsADirectory));
    let mut buf = [0u8; 2];
    assert_eq!(fs.node(0).read_at(0, &mut buf), Err(VfsError::IsADirectory));
    assert_eq!(fs.node(1).read_at(6, &mut buf), Ok(2));
    assert_eq!(&buf, b"bc");
}

#[test]
fn ramfs_devices_can_be_attached() {
    let mut fs = RamFs::new();
    assert_eq!(fs.create(0, "dev", FileType::Directory), Ok(VfsNodeRef::Ram(1)));
    assert_eq!(fs.add_device(1, "zero", DeviceNode::Zero), Ok(()));
    assert_eq!(fs.add_device(1, "zero", DeviceNode::Null), Err(VfsError::AlreadyExists));
    assert_eq!(fs.add_device(1, "null", DeviceNode::Null), Ok(()));
    assert_eq!(fs.node(1).lookup("zero"), Ok(VfsNodeRef::Device(DeviceNode::Zero)));
    assert_eq!(fs.node(1).readdir(), Ok(vec![String::from("null"), String::from("zero")]));
    assert_eq!(fs.create(1, "f", FileType::Regular), Ok(VfsNodeRef::Ram(2)));
    assert_eq!(fs.add_device(2, "x", DeviceNode::Null), Err(VfsError::NotADirectory));
    match fs.node(2) {
        RamFsNode::File(_) => {}
        RamFsNode::Directory(_) => panic!("a file was created"),
    }
}
