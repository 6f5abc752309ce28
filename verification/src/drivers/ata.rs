//! The PIO-mode IDE drive on the primary bus: which bytes go to which I/O
//! port to read or write one sector with a 28-bit block address, when the
//! drive counts as ready, and how the 256 words of a sector map to the 512
//! bytes of a block.
//!
//! Nothing here touches a port. A transfer is described as a sequence of
//! actions, which the code that owns the ports carries out in order.

use vstd::prelude::*;
use super::block::{BlockError, BlockResult, BLOCK_SIZE};

verus! {

/// The data port, through which the words of a sector pass.
pub const DATA_PORT: u16 = 0x1F0;

pub const ERROR_PORT: u16 = 0x1F1;

pub const SECTOR_COUNT_PORT: u16 = 0x1F2;

pub const LBA_LOW_PORT: u16 = 0x1F3;

pub const LBA_MID_PORT: u16 = 0x1F4;

pub const LBA_HIGH_PORT: u16 = 0x1F5;

pub const DRIVE_PORT: u16 = 0x1F6;

/// Read as the status port, written as the command port.
pub const STATUS_PORT: u16 = 0x1F7;

pub const COMMAND_PORT: u16 = 0x1F7;

/// The command READ SECTORS.
pub const CMD_READ: u8 = 0x20;

/// The command WRITE SECTORS.
pub const CMD_WRITE: u8 = 0x30;

/// The command FLUSH CACHE.
pub const CMD_FLUSH: u8 = 0xE7;

/// The status bit BSY.
pub const STATUS_BUSY: u8 = 0x80;

/// The status bit DRQ.
pub const STATUS_DATA_REQUEST: u8 = 0x08;

/// The number of 16-bit words in a sector.
pub const WORDS_PER_SECTOR: usize = 256;

/// The number of blocks that the drive reports: 1 GiB in sectors.
pub const ATA_BLOCK_COUNT: u64 = 2097152;

/// One step of a transfer.
#[derive(Debug, Clone, Copy, PartialEq, Eq, Structural)]
pub enum AtaAction {
    /// Read the status port again and again until `is_ready` holds of it.
    WaitReady,
    /// Write `value` to the 8-bit port `port`.
    Out { port: u16, value: u8 },
    /// Read the 256 words of the sector from the data port.
    ReadData,
    /// Write the 256 words of the sector to the data port.
    WriteData,
}

/// The drive is ready when it is not busy and asks for data.
pub open spec fn spec_is_ready(status: u8) -> bool {
    status & STATUS_BUSY == 0 && status & STATUS_DATA_REQUEST != 0
}

/// Whether a status byte says that the drive is ready.
#[verifier::when_used_as_spec(spec_is_ready)]
pub fn is_ready(status: u8) -> (b: bool)
    ensures
        b == spec_is_ready(status),
{
    (status & STATUS_BUSY) == 0 && (status & STATUS_DATA_REQUEST) != 0
}

/// The byte that selects the drive and carries bits 24 to 27 of the block
/// address.
pub open spec fn drive_select(is_master: bool, lba: u32) -> u8 {
    if is_master {
        0xE0u8 | (((lba >> 24) & 0x0F) as u8)
    } else {
        0xF0u8 | (((lba >> 24) & 0x0F) as u8)
    }
}

/// Bits 0 to 7 of the block address.
pub open spec fn lba_low(lba: u32) -> u8 {
    (lba & 0xFF) as u8
}

/// Bits 8 to 15 of the block address.
pub open spec fn lba_mid(lba: u32) -> u8 {
    ((lba >> 8) & 0xFF) as u8
}

/// Bits 16 to 23 of the block address.
pub open spec fn lba_high(lba: u32) -> u8 {
    ((lba >> 16) & 0xFF) as u8
}

/// The actions that address sector `lba` and issue `command`.
pub open spec fn address_and_command(is_master: bool, lba: u32, command: u8) -> Seq<AtaAction> {
    seq![
        AtaAction::WaitReady,
        AtaAction::Out { port: DRIVE_PORT, value: drive_select(is_master, lba) },
        AtaAction::Out { port: SECTOR_COUNT_PORT, value: 1 },
        AtaAction::Out { port: LBA_LOW_PORT, value: lba_low(lba) },
        AtaAction::Out { port: LBA_MID_PORT, value: lba_mid(lba) },
        AtaAction::Out { port: LBA_HIGH_PORT, value: lba_high(lba) },
        AtaAction::Out { port: COMMAND_PORT, value: command },
        AtaAction::WaitReady,
    ]
}

/// The actions that read sector `lba`.
pub open spec fn read_actions(is_master: bool, lba: u32) -> Seq<AtaAction> {
    address_and_command(is_master, lba, CMD_READ).push(AtaAction::ReadData)
}

/// The actions that write sector `lba`: the data, then a flush of the
/// drive's cache.
pub open spec fn write_actions(is_master: bool, lba: u32) -> Seq<AtaAction> {
    address_and_command(is_master, lba, CMD_WRITE).push(AtaAction::WriteData).push(
        AtaAction::Out { port: COMMAND_PORT, value: CMD_FLUSH },
    ).push(AtaAction::WaitReady)
}

/// The low byte of a word.
pub open spec fn word_low(word: u16) -> u8 {
    (word & 0xFF) as u8
}

/// The high byte of a word.
pub open spec fn word_high(word: u16) -> u8 {
    ((word >> 8) & 0xFF) as u8
}

/// The word with the given low and high byte.
pub open spec fn word_of(low: u8, high: u8) -> u16 {
    (low as u16) | ((high as u16) << 8)
}

/// The bytes of a sector, given its words: each word gives its low byte,
/// then its high byte.
pub open spec fn sector_bytes(words: Seq<u16>) -> Seq<u8> {
    Seq::new(
        2 * words.len(),
        |i: int|
            if i % 2 == 0 {
                word_low(words[i / 2])
            } else {
                word_high(words[i / 2])
            },
    )
}

/// The words of a sector, given the bytes of a block.
pub open spec fn sector_words(bytes: Seq<u8>) -> Seq<u16> {
    Seq::new(WORDS_PER_SECTOR as nat, |i: int| word_of(bytes[2 * i], bytes[2 * i + 1]))
}

/// Splitting a word into its bytes and joining them gives the word back,
/// and the other way round.
pub proof fn lemma_word_bytes(word: u16, low: u8, high: u8)
    ensures
        word_of(word_low(word), word_high(word)) == word,
        word_low(word_of(low, high)) == low,
        word_high(word_of(low, high)) == high,
{
    assert(((word & 0xFF) as u8 as u16) | ((((word >> 8) & 0xFF) as u8 as u16) << 8) == word)
        by (bit_vector);
    assert((((low as u16) | ((high as u16) << 8)) & 0xFF) as u8 == low) by (bit_vector);
    assert(((((low as u16) | ((high as u16) << 8)) >> 8) & 0xFF) as u8 == high) by (bit_vector);
}

/// The words that a block is written as are read back as the same block.
pub proof fn lemma_sector_round_trip(bytes: Seq<u8>)
    requires
        bytes.len() == BLOCK_SIZE,
    ensures
        sector_bytes(sector_words(bytes)) == bytes,
{
    let back = sector_bytes(sector_words(bytes));
    assert forall|i: int| 0 <= i < BLOCK_SIZE implies back[i] == bytes[i] by {
        lemma_word_bytes(0, bytes[2 * (i / 2)], bytes[2 * (i / 2) + 1]);
    }
    assert(back =~= bytes);
}

/// A drive on the primary IDE bus.
#[derive(Debug, Clone, Copy, PartialEq, Eq, Structural)]
pub struct AtaDrive {
    is_master: bool,
}

impl AtaDrive {
    /// Whether this is the master drive of the bus.
    pub closed spec fn master(&self) -> bool {
        self.is_master
    }

    /// The master or the slave drive of the primary bus.
    pub fn new(is_master: bool) -> (drive: Self)
        ensures
            drive.master() == is_master,
    {
        AtaDrive { is_master }
    }

    /// Whether this is the master drive of the bus.
    pub fn is_master(&self) -> (b: bool)
        ensures
            b == self.master(),
    {
        self.is_master
    }

    /// Appends the actions that address sector `lba` and issue `command`.
    fn address(&self, lba: u32, command: u8) -> (actions: Vec<AtaAction>)
        ensures
            actions@ == address_and_command(self.master(), lba, command),
    {
        let top = (lba >> 24) & 0x0F;
        let low = lba & 0xFF;
        let mid = (lba >> 8) & 0xFF;
        let high = (lba >> 16) & 0xFF;
        assert(top <= 0x0F && low <= 0xFF && mid <= 0xFF && high <= 0xFF) by (bit_vector)
            requires
                top == (lba >> 24) & 0x0F,
                low == lba & 0xFF,
                mid == (lba >> 8) & 0xFF,
                high == (lba >> 16) & 0xFF,
        ;
        let select: u8 = if self.is_master {
            0xE0u8 | (top as u8)
        } else {
            0xF0u8 | (top as u8)
        };
        let mut actions: Vec<AtaAction> = Vec::new();
        actions.push(AtaAction::WaitReady);
        actions.push(AtaAction::Out { port: DRIVE_PORT, value: select });
        actions.push(AtaAction::Out { port: SECTOR_COUNT_PORT, value: 1 });
        actions.push(AtaAction::Out { port: LBA_LOW_PORT, value: low as u8 });
        actions.push(AtaAction::Out { port: LBA_MID_PORT, value: mid as u8 });
        actions.push(AtaAction::Out { port: LBA_HIGH_PORT, value: high as u8 });
        actions.push(AtaAction::Out { port: COMMAND_PORT, value: command });
        actions.push(AtaAction::WaitReady);
        assert(actions@ =~= address_and_command(self.master(), lba, command));
        actions
    }

    /// The actions that read sector `lba`.
    pub fn read_sector(&self, lba: u32) -> (actions: Vec<AtaAction>)
        ensures
            actions@ == read_actions(self.master(), lba),
    {
        let mut actions = self.address(lba, CMD_READ);
        actions.push(AtaAction::ReadData);
        actions
    }

    /// The actions that write sector `lba`.
    pub fn write_sector(&self, lba: u32) -> (actions: Vec<AtaAction>)
        ensures
            actions@ == write_actions(self.master(), lba),
    {
        let mut actions = self.address(lba, CMD_WRITE);
        actions.push(AtaAction::WriteData);
        actions.push(AtaAction::Out { port: COMMAND_PORT, value: CMD_FLUSH });
        actions.push(AtaAction::WaitReady);
        actions
    }

    /// The number of blocks that the drive reports.
    pub fn block_count(&self) -> (n: u64)
        ensures
            n == ATA_BLOCK_COUNT,
    {
        ATA_BLOCK_COUNT
    }

    /// What a transfer of block `block_num` with a buffer of `buf_len`
    /// bytes fails with before any port is touched, if it does.
    pub open spec fn refusal(block_num: u64, buf_len: nat) -> Option<BlockError> {
        if buf_len < BLOCK_SIZE {
            Some(BlockError::IoError)
        } else if block_num >= ATA_BLOCK_COUNT {
            Some(BlockError::InvalidBlock)
        } else {
            None
        }
    }

    /// The actions that read block `block_num` into a buffer of `buf_len`
    /// bytes. A buffer shorter than a block is refused with `IoError`, a
    /// block number that the drive does not have with `InvalidBlock`.
    pub fn read_block(&self, block_num: u64, buf_len: usize) -> (r: BlockResult<Vec<AtaAction>>)
        ensures
            match r {
                Ok(actions) => Self::refusal(block_num, buf_len as nat) is None && actions@
                    == read_actions(self.master(), block_num as u32),
                Err(e) => Self::refusal(block_num, buf_len as nat) == Some(e),
            },
    {
        if buf_len < BLOCK_SIZE {
            return Err(BlockError::IoError);
        }
        if block_num >= ATA_BLOCK_COUNT {
            return Err(BlockError::InvalidBlock);
        }
        Ok(self.read_sector(block_num as u32))
    }

    /// The actions that write block `block_num` from a buffer of `buf_len`
    /// bytes, refused as in `read_block`.
    pub fn write_block(&self, block_num: u64, buf_len: usize) -> (r: BlockResult<Vec<AtaAction>>)
        ensures
            match r {
                Ok(actions) => Self::refusal(block_num, buf_len as nat) is None && actions@
                    == write_actions(self.master(), block_num as u32),
                Err(e) => Self::refusal(block_num, buf_len as nat) == Some(e),
            },
    {
        if buf_len < BLOCK_SIZE {
            return Err(BlockError::IoError);
        }
        if block_num >= ATA_BLOCK_COUNT {
            return Err(BlockError::InvalidBlock);
        }
        Ok(self.write_sector(block_num as u32))
    }
}

/// Stores the 256 words read from the data port as the first 512 bytes of
/// `buf`, low byte first.
pub fn words_to_bytes(words: &[u16], buf: &mut [u8])
    requires
        words@.len() == WORDS_PER_SECTOR,
        old(buf)@.len() >= BLOCK_SIZE,
    ensures
        final(buf)@ == sector_bytes(words@) + old(buf)@.subrange(
            BLOCK_SIZE as int,
            old(buf)@.len() as int,
        ),
{
    let mut i: usize = 0;
    while i < WORDS_PER_SECTOR
        invariant
            i <= WORDS_PER_SECTOR,
            words@.len() == WORDS_PER_SECTOR,
            buf@.len() == old(buf)@.len(),
            buf@.len() >= BLOCK_SIZE,
            forall|j: int| 0 <= j < 2 * i ==> buf@[j] == sector_bytes(words@)[j],
            forall|j: int| 2 * i <= j < buf@.len() ==> buf@[j] == old(buf)@[j],
        decreases WORDS_PER_SECTOR - i,
    {
        let word = words[i];
        let low = word & 0xFF;
        let high = (word >> 8) & 0xFF;
        assert(low <= 0xFF && high <= 0xFF) by (bit_vector)
            requires
                low == word & 0xFF,
                high == (word >> 8) & 0xFF,
        ;
        buf[i * 2] = low as u8;
        buf[i * 2 + 1] = high as u8;
        i += 1;
    }
    assert(buf@ =~= sector_bytes(words@) + old(buf)@.subrange(
        BLOCK_SIZE as int,
        old(buf)@.len() as int,
    ));
}

/// The 256 words to write to the data port for the first 512 bytes of
/// `buf`.
pub fn bytes_to_words(buf: &[u8]) -> (words: Vec<u16>)
    requires
        buf@.len() >= BLOCK_SIZE,
    ensures
        words@ == sector_words(buf@),
{
    let mut words: Vec<u16> = Vec::new();
    let mut i: usize = 0;
    while i < WORDS_PER_SECTOR
        invariant
            i <= WORDS_PER_SECTOR,
            buf@.len() >= BLOCK_SIZE,
            words@.len() == i,
            forall|j: int| 0 <= j < i ==> words@[j] == word_of(buf@[2 * j], buf@[2 * j + 1]),
        decreases WORDS_PER_SECTOR - i,
    {
        let low = buf[i * 2] as u16;
        let high = buf[i * 2 + 1] as u16;
        words.push(low | (high << 8));
        i += 1;
    }
    assert(words@ =~= sector_words(buf@));
    words
}

} // verus!
