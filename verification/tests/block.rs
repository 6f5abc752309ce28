use lithos::drivers::ata::{
    bytes_to_words, is_ready, words_to_bytes, AtaAction, AtaDrive, ATA_BLOCK_COUNT,
};
use lithos::drivers::block::ramdisk::RamDisk;
use lithos::drivers::block::{BlockDevice, BlockError, BLOCK_SIZE};

#[test]
fn ramdisk_write_pattern_then_read_back() {
    let mut disk = RamDisk::new(100);
    let mut write_buf = [0u8; 512];
    for i in 0..512 {
        write_buf[i] = (i % 256) as u8;
    }
    assert_eq!(disk.write_block(0, &write_buf), Ok(()));
    let mut read_buf = [0u8; 512];
    assert_eq!(disk.read_block(0, &mut read_buf), Ok(()));
    assert_eq!(read_buf, write_buf);
    assert_eq!(disk.block_count(), 100);
}

#[test]
fn ramdisk_round_trip_on_every_block_keeps_the_others() {
    let mut disk = RamDisk::new(4);
    for n in 0..4u64 {
        let data = [n as u8 + 1; 512];
        assert_eq!(disk.write_block(n, &data), Ok(()));
    }
    for n in 0..4u64 {
        let mut buf = [0xEEu8; 512];
        assert_eq!(disk.read_block(n, &mut buf), Ok(()));
        assert_eq!(buf, [n as u8 + 1; 512]);
    }
}

#[test]
fn ramdisk_new_is_zeroed() {
    let disk = RamDisk::new(3);
    let mut buf = [0xFFu8; 512];
    assert_eq!(disk.read_block(2, &mut buf), Ok(()));
    assert_eq!(buf, [0u8; 512]);
}

#[test]
fn ramdisk_rejects_block_past_the_end() {
    let mut disk = RamDisk::new(2);
    let mut buf = [0u8; 512];
    assert_eq!(disk.read_block(2, &mut buf), Err(BlockError::InvalidBlock));
    assert_eq!(disk.write_block(2, &buf), Err(BlockError::InvalidBlock));
    assert_eq!(disk.read_block(u64::MAX, &mut buf), Err(BlockError::InvalidBlock));
}

#[test]
fn ramdisk_rejects_short_buffer_and_leaves_it() {
    let mut disk = RamDisk::new(2);
    let mut small = [7u8; 511];
    assert_eq!(disk.read_block(0, &mut small), Err(BlockError::IoError));
    assert_eq!(small, [7u8; 511]);
    assert_eq!(disk.write_block(0, &small), Err(BlockError::IoError));
    let mut buf = [1u8; 512];
    assert_eq!(disk.read_block(0, &mut buf), Ok(()));
    assert_eq!(buf, [0u8; 512]);
}

#[test]
fn ramdisk_invalid_block_comes_before_short_buffer() {
    let disk = RamDisk::new(1);
    let mut small = [0u8; 10];
    assert_eq!(disk.read_block(5, &mut small), Err(BlockError::InvalidBlock));
}

#[test]
fn ramdisk_long_buffer_uses_first_block_only() {
    let mut disk = RamDisk::new(2);
    let mut data = vec![0u8; 600];
    for i in 0..600 {
        data[i] = (i % 251) as u8;
    }
    assert_eq!(disk.write_block(1, &data), Ok(()));
    let mut buf = vec![0xAAu8; 600];
    assert_eq!(disk.read_block(1, &mut buf), Ok(()));
    assert_eq!(&buf[..512], &data[..512]);
    assert_eq!(&buf[512..], &[0xAAu8; 88][..]);
    let mut other = [0xFFu8; 512];
    assert_eq!(disk.read_block(0, &mut other), Ok(()));
    assert_eq!(other, [0u8; 512]);
}

#[test]
fn ramdisk_from_data_counts_whole_blocks() {
    let mut data = vec![0u8; 1024 + 100];
    data[512] = 0x42;
    data[1023] = 0x43;
    let disk = RamDisk::from_data(data);
    assert_eq!(disk.block_count(), 2);
    let mut buf = [0u8; 512];
    assert_eq!(disk.read_block(1, &mut buf), Ok(()));
    assert_eq!(buf[0], 0x42);
    assert_eq!(buf[511], 0x43);
    assert_eq!(disk.read_block(2, &mut buf), Err(BlockError::InvalidBlock));
}

#[test]
fn ramdisk_defaults() {
    let disk = RamDisk::new(0);
    assert_eq!(disk.block_size(), 512);
    assert_eq!(BLOCK_SIZE, 512);
    assert!(!disk.is_read_only());
    assert_eq!(disk.block_count(), 0);
}

#[test]
fn block_error_messages() {
    assert_eq!(BlockError::InvalidBlock.message(), "Invalid block number");
    assert_eq!(BlockError::IoError.message(), "I/O error");
    assert_eq!(BlockError::ReadOnly.message(), "Device is read-only");
    assert_eq!(BlockError::DeviceError.message(), "Device error");
}

#[test]
fn ata_read_sequence_for_master() {
    let drive = AtaDrive::new(true);
    assert!(drive.is_master());
    let actions = drive.read_sector(0x0A12_3456);
    assert_eq!(
        actions,
        vec![
            AtaAction::WaitReady,
            AtaAction::Out { port: 0x1F6, value: 0xEA },
            AtaAction::Out { port: 0x1F2, value: 1 },
            AtaAction::Out { port: 0x1F3, value: 0x56 },
            AtaAction::Out { port: 0x1F4, value: 0x34 },
            AtaAction::Out { port: 0x1F5, value: 0x12 },
            AtaAction::Out { port: 0x1F7, value: 0x20 },
            AtaAction::WaitReady,
            AtaAction::ReadData,
        ]
    );
}

#[test]
fn ata_write_sequence_for_slave_flushes() {
    let drive = AtaDrive::new(false);
    let actions = drive.write_sector(0xFF00_0001);
    assert_eq!(
        actions,
        vec![
            AtaAction::WaitReady,
            AtaAction::Out { port: 0x1F6, value: 0xFF },
            AtaAction::Out { port: 0x1F2, value: 1 },
            AtaAction::Out { port: 0x1F3, value: 0x01 },
            AtaAction::Out { port: 0x1F4, value: 0x00 },
            AtaAction::Out { port: 0x1F5, value: 0x00 },
            AtaAction::Out { port: 0x1F7, value: 0x30 },
            AtaAction::WaitReady,
            AtaAction::WriteData,
            AtaAction::Out { port: 0x1F7, value: 0xE7 },
            AtaAction::WaitReady,
        ]
    );
}

#[test]
fn ata_ready_needs_not_busy_and_data_request() {
    assert!(is_ready(0x08));
    assert!(is_ready(0x58));
    assert!(!is_ready(0x88));
    assert!(!is_ready(0x80));
    assert!(!is_ready(0x00));
    assert!(!is_ready(0x50));
}

#[test]
fn ata_block_checks() {
    let drive = AtaDrive::new(true);
    assert_eq!(drive.block_count(), 2097152);
    assert_eq!(ATA_BLOCK_COUNT, 2097152);
    assert_eq!(drive.read_block(0, 511), Err(BlockError::IoError));
    assert_eq!(drive.write_block(0, 0), Err(BlockError::IoError));
    assert_eq!(drive.read_block(2097152, 512), Err(BlockError::InvalidBlock));
    assert_eq!(drive.write_block(2097152, 512), Err(BlockError::InvalidBlock));
    assert_eq!(drive.read_block(2097152, 3), Err(BlockError::IoError));
    assert_eq!(drive.read_block(7, 512), Ok(drive.read_sector(7)));
    assert_eq!(drive.write_block(2097151, 600), Ok(drive.write_sector(2097151)));
}

#[test]
fn ata_words_and_bytes() {
    let mut words = [0u16; 256];
    for i in 0..256 {
        words[i] = (i as u16) << 8 | (255 - i as u16);
    }
    let mut buf = [0xCCu8; 514];
    words_to_bytes(&words, &mut buf);
    for i in 0..256 {
        assert_eq!(buf[2 * i], 255 - i as u8);
        assert_eq!(buf[2 * i + 1], i as u8);
    }
    assert_eq!(buf[512], 0xCC);
    assert_eq!(buf[513], 0xCC);
    let back = bytes_to_words(&buf);
    assert_eq!(back, words.to_vec());
    assert_eq!(bytes_to_words(&[0x34, 0x12].repeat(256))[0], 0x1234);
}

#[test]
fn read_only_ramdisk_refuses_every_write() {
    let mut disk = RamDisk::new(2);
    assert_eq!(disk.write_block(1, &[5u8; 512]), Ok(()));
    disk.set_read_only(true);
    assert!(disk.is_read_only());
    assert_eq!(disk.write_block(1, &[9u8; 512]), Err(BlockError::ReadOnly));
    assert_eq!(disk.write_block(7, &[9u8; 512]), Err(BlockError::ReadOnly));
    assert_eq!(disk.write_block(0, &[9u8; 3]), Err(BlockError::ReadOnly));
    let mut buf = [0u8; 512];
    assert_eq!(disk.read_block(1, &mut buf), Ok(()));
    assert_eq!(buf, [5u8; 512]);
    disk.set_read_only(false);
    assert!(!disk.is_read_only());
    assert_eq!(disk.write_block(1, &[9u8; 512]), Ok(()));
    assert_eq!(disk.read_block(1, &mut buf), Ok(()));
    assert_eq!(buf, [9u8; 512]);
}
