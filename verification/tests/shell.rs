use lithos::shell::{is_space, split_words, PathCommand, Shell, ShellReply};
use lithos::vfs::devfs::DeviceNode;
use lithos::vfs::fd_table::OpenFlags;
use lithos::vfs::ops::{attach_device, init, vfs_mkdir, vfs_open, vfs_read, vfs_readdir, vfs_write, Vfs};
use lithos::vfs::ramfs::RamFs;
use lithos::vfs::VfsError;

fn mounted() -> Vfs {
    let fs = RamFs::new();
    let root = fs.root_node();
    let mut vfs = Vfs::new(fs);
    init(&mut vfs, root);
    vfs
}

fn strings(list: &[&str]) -> Vec<String> {
    list.iter().map(|s| String::from(*s)).collect()
}

#[test]
fn spaces_are_unicode_white_space() {
    for c in ['\t', '\n', '\u{0B}', '\u{0C}', '\r', ' ', '\u{85}', '\u{A0}', '\u{1680}', '\u{2000}', '\u{200A}', '\u{2028}', '\u{2029}', '\u{202F}', '\u{205F}', '\u{3000}'] {
        assert!(is_space(c));
    }
    for c in ['a', '/', '\0', '\u{08}', '\u{0E}', '\u{200B}', '\u{1F}', '\u{2027}', '\u{3001}'] {
        assert!(!is_space(c));
    }
    for n in 0..0x3100u32 {
        if let Some(c) = char::from_u32(n) {
            assert_eq!(is_space(c), c.is_whitespace());
        }
    }
}

#[test]
fn lines_split_into_words() {
    assert_eq!(split_words(""), strings(&[]));
    assert_eq!(split_words("   \t "), strings(&[]));
    assert_eq!(split_words("ls"), strings(&["ls"]));
    assert_eq!(split_words("  mkdir   /usr/local  "), strings(&["mkdir", "/usr/local"]));
    assert_eq!(split_words("echo a\tb\u{3000}c"), strings(&["echo", "a", "b", "c"]));
    for line in ["a b  c", " x", "é ü", "one"] {
        let expected: Vec<String> = line.split_whitespace().map(String::from).collect();
        assert_eq!(split_words(line), expected);
    }
}

#[test]
fn demo_session() {
    let mut vfs = mounted();
    let mut shell = Shell::new();
    assert_eq!(shell.cwd(), "/");
    assert_eq!(shell.execute(&mut vfs, "help"), ShellReply::Help);
    assert_eq!(shell.execute(&mut vfs, "pwd"), ShellReply::WorkingDirectory(String::from("/")));
    assert_eq!(shell.execute(&mut vfs, "ls /"), ShellReply::EmptyDirectory);
    assert_eq!(vfs_mkdir(&mut vfs, "/usr"), Ok(()));
    assert_eq!(shell.execute(&mut vfs, "cd /usr"), ShellReply::Changed(String::from("/usr")));
    assert_eq!(shell.execute(&mut vfs, "pwd"), ShellReply::WorkingDirectory(String::from("/usr")));
    assert_eq!(shell.execute(&mut vfs, "ls /usr"), ShellReply::EmptyDirectory);
    assert_eq!(
        shell.execute(&mut vfs, "mkdir /usr/local"),
        ShellReply::CreatedDirectory(String::from("/usr/local"))
    );
    assert_eq!(
        shell.execute(&mut vfs, "touch /usr/local/test.txt"),
        ShellReply::CreatedFile(String::from("/usr/local/test.txt"))
    );
    assert_eq!(shell.execute(&mut vfs, "ls /usr/local"), ShellReply::Listing(strings(&["test.txt"])));
    assert_eq!(shell.execute(&mut vfs, "ls"), ShellReply::Listing(strings(&["local"])));
    assert_eq!(shell.execute(&mut vfs, "cd /"), ShellReply::Changed(String::from("/")));
    assert_eq!(
        shell.execute(&mut vfs, "echo Lithos OS is running!"),
        ShellReply::Echo(strings(&["Lithos", "OS", "is", "running!"]))
    );
    assert_eq!(vfs_readdir(&vfs, "/usr/local"), Ok(strings(&["test.txt"])));
}

#[test]
fn other_commands_and_errors() {
    let mut vfs = mounted();
    let mut shell = Shell::new();
    assert_eq!(shell.execute(&mut vfs, ""), ShellReply::Nothing);
    assert_eq!(shell.execute(&mut vfs, "   "), ShellReply::Nothing);
    assert_eq!(shell.execute(&mut vfs, "clear"), ShellReply::Clear);
    assert_eq!(shell.execute(&mut vfs, "echo"), ShellReply::Echo(strings(&[])));
    assert_eq!(shell.execute(&mut vfs, "frobnicate now"), ShellReply::Unknown(String::from("frobnicate")));
    assert_eq!(shell.execute(&mut vfs, "HELP"), ShellReply::Unknown(String::from("HELP")));
    assert_eq!(shell.execute(&mut vfs, "mkdir"), ShellReply::MissingPath(PathCommand::Mkdir));
    assert_eq!(shell.execute(&mut vfs, "touch"), ShellReply::MissingPath(PathCommand::Touch));
    assert_eq!(shell.execute(&mut vfs, "cd relative"), ShellReply::NotAbsolute);
    assert_eq!(shell.cwd(), "/");
    assert_eq!(shell.execute(&mut vfs, "cd /nowhere"), ShellReply::Changed(String::from("/nowhere")));
    assert_eq!(shell.execute(&mut vfs, "ls"), ShellReply::Failed(PathCommand::Ls, VfsError::NotFound));
    assert_eq!(shell.execute(&mut vfs, "cd"), ShellReply::Changed(String::from("/")));
    assert_eq!(shell.cwd(), "/");
    assert_eq!(
        shell.execute(&mut vfs, "ls relative"),
        ShellReply::Failed(PathCommand::Ls, VfsError::InvalidPath)
    );
    assert_eq!(
        shell.execute(&mut vfs, "mkdir /a/b"),
        ShellReply::Failed(PathCommand::Mkdir, VfsError::NotFound)
    );
    assert_eq!(shell.execute(&mut vfs, "touch /f"), ShellReply::CreatedFile(String::from("/f")));
    assert_eq!(
        shell.execute(&mut vfs, "touch /f"),
        ShellReply::Failed(PathCommand::Touch, VfsError::AlreadyExists)
    );
    assert_eq!(
        shell.execute(&mut vfs, "mkdir /f/x"),
        ShellReply::Failed(PathCommand::Mkdir, VfsError::NotADirectory)
    );
}

#[test]
fn device_files_by_path() {
    let mut vfs = mounted();
    assert_eq!(vfs_mkdir(&mut vfs, "/dev"), Ok(()));
    assert_eq!(attach_device(&mut vfs, "/dev/null", DeviceNode::Null), Ok(()));
    assert_eq!(attach_device(&mut vfs, "/dev/zero", DeviceNode::Zero), Ok(()));
    assert_eq!(attach_device(&mut vfs, "/dev/random", DeviceNode::Random), Ok(()));
    assert_eq!(attach_device(&mut vfs, "/dev/zero", DeviceNode::Null), Err(VfsError::AlreadyExists));
    assert_eq!(attach_device(&mut vfs, "/nodir/zero", DeviceNode::Zero), Err(VfsError::NotFound));
    assert_eq!(attach_device(&mut vfs, "/dev/zero/x", DeviceNode::Zero), Err(VfsError::NotADirectory));
    assert_eq!(attach_device(&mut vfs, "zero", DeviceNode::Zero), Err(VfsError::InvalidPath));
    assert_eq!(
        vfs_readdir(&vfs, "/dev"),
        Ok(strings(&["null", "random", "zero"]))
    );
    let zero = vfs_open(&mut vfs, "/dev/zero", OpenFlags::read_write()).unwrap();
    let mut buf = [0xFFu8; 16];
    assert_eq!(vfs_read(&mut vfs, zero, &mut buf), Ok(16));
    assert_eq!(buf, [0u8; 16]);
    assert_eq!(vfs_write(&mut vfs, zero, &buf), Err(VfsError::PermissionDenied));
    let random = vfs_open(&mut vfs, "/dev/random", OpenFlags::read_only()).unwrap();
    let mut four = [0u8; 4];
    assert_eq!(vfs_read(&mut vfs, random, &mut four), Ok(4));
    assert_eq!(four, [0xF8, 0x4F, 0x76, 0x28]);
    let null = vfs_open(&mut vfs, "/dev/null", OpenFlags::read_write()).unwrap();
    assert_eq!(vfs_write(&mut vfs, null, b"discard"), Ok(7));
    assert_eq!(vfs_read(&mut vfs, null, &mut four), Ok(0));
}
