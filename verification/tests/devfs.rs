use lithos::vfs::devfs::{
    create_dev_nodes, lcg_advance, lcg_output, DeviceNode, RANDOM_SEED,
};
use lithos::vfs::{FileType, VfsError, VfsNodeRef};

#[test]
fn dev_zero_reads_zeros_and_refuses_writes() {
    let mut seed = RANDOM_SEED;
    let mut zero = DeviceNode::Zero;
    let mut buf = [0xFFu8; 16];
    assert_eq!(zero.read_at(0, &mut buf, &mut seed), Ok(16));
    assert_eq!(buf, [0u8; 16]);
    assert_eq!(seed, RANDOM_SEED);
    assert_eq!(zero.write_at(0, &buf), Err(VfsError::PermissionDenied));
}

#[test]
fn dev_null_reads_nothing_and_swallows_writes() {
    let mut seed = RANDOM_SEED;
    let mut null = DeviceNode::Null;
    let mut buf = [0xABu8; 8];
    assert_eq!(null.read_at(5, &mut buf, &mut seed), Ok(0));
    assert_eq!(buf, [0xABu8; 8]);
    assert_eq!(null.write_at(0, &buf), Ok(8));
    assert_eq!(null.write_at(99, &[]), Ok(0));
    assert_eq!(seed, RANDOM_SEED);
}

#[test]
fn dev_random_first_bytes_follow_the_recurrence() {
    assert_eq!(RANDOM_SEED, 0x123456789ABCDEF0);
    let mut seed = RANDOM_SEED;
    let mut random = DeviceNode::Random;
    let mut buf = [0u8; 4];
    assert_eq!(random.read_at(0, &mut buf, &mut seed), Ok(4));
    assert_eq!(buf, [0xF8, 0x4F, 0x76, 0x28]);
    assert_eq!(seed, 0x0F61AFD02928FA1C);
    let mut more = [0u8; 4];
    assert_eq!(random.read_at(1000, &mut more, &mut seed), Ok(4));
    assert_eq!(more, [0x4F, 0xD7, 0x55, 0xD9]);
    assert_eq!(seed, 0xEED01BFBCAD99C08);
    assert_eq!(random.write_at(0, &buf), Err(VfsError::PermissionDenied));
}

#[test]
fn dev_random_empty_read_keeps_the_seed() {
    let mut seed = 42u64;
    let mut buf = [0u8; 0];
    assert_eq!(DeviceNode::Random.read_at(0, &mut buf, &mut seed), Ok(0));
    assert_eq!(seed, 42);
}

#[test]
fn lcg_step_and_output() {
    assert_eq!(lcg_advance(0), 12345);
    assert_eq!(lcg_advance(1), 1103515245 + 12345);
    assert_eq!(lcg_advance(0x123456789ABCDEF0), 0x3333332ECBF83C69);
    assert_eq!(lcg_advance(u64::MAX), 12345u64.wrapping_sub(1103515245));
    assert_eq!(lcg_output(0x3333332ECBF83C69), 0xF8);
    assert_eq!(lcg_output(0x0000_0000_00AB_0000), 0xAB);
    assert_eq!(lcg_output(0xFFFF_FFFF_FF00_FFFF), 0x00);
}

#[test]
fn devices_report_device_type_and_mode() {
    for dev in [DeviceNode::Null, DeviceNode::Zero, DeviceNode::Random] {
        assert_eq!(dev.file_type(), FileType::Device);
        assert_eq!(dev.size(), 0);
        assert_eq!(dev.permissions().mode, 0o666);
    }
}

#[test]
fn devices_are_no_directories() {
    for dev in [DeviceNode::Null, DeviceNode::Zero, DeviceNode::Random] {
        let mut dev = dev;
        assert_eq!(dev.readdir(), Err(VfsError::NotADirectory));
        assert_eq!(dev.lookup("x"), Err(VfsError::NotADirectory));
        assert_eq!(dev.create("x", FileType::Regular), Err(VfsError::NotADirectory));
    }
}

#[test]
fn dev_nodes_are_null_zero_random() {
    let nodes = create_dev_nodes();
    assert_eq!(
        nodes,
        vec![
            ("null", VfsNodeRef::Device(DeviceNode::Null)),
            ("zero", VfsNodeRef::Device(DeviceNode::Zero)),
            ("random", VfsNodeRef::Device(DeviceNode::Random)),
        ]
    );
}
