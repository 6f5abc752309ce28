//! Block devices: storage that is read and written in blocks of 512 bytes,
//! numbered densely from 0.

use vstd::prelude::*;

pub mod ramdisk;

verus! {

/// The size of a block in bytes.
pub const BLOCK_SIZE: usize = 512;

/// Why a block operation failed.
#[derive(Debug, Clone, Copy, PartialEq, Eq, Structural)]
pub enum BlockError {
    /// The block number is not below the device's block count.
    InvalidBlock,
    /// The buffer is shorter than a block.
    IoError,
    /// A write to a read-only device.
    ReadOnly,
    /// The hardware reported a failure.
    DeviceError,
}

impl BlockError {
    /// The text shown to a user for this error.
    pub fn message(&self) -> (s: &'static str)
        ensures
            s@ == match *self {
                BlockError::InvalidBlock => "Invalid block number"@,
                BlockError::IoError => "I/O error"@,
                BlockError::ReadOnly => "Device is read-only"@,
                BlockError::DeviceError => "Device error"@,
            },
    {
        match self {
            BlockError::InvalidBlock => "Invalid block number",
            BlockError::IoError => "I/O error",
            BlockError::ReadOnly => "Device is read-only",
            BlockError::DeviceError => "Device error",
        }
    }
}

pub type BlockResult<T> = Result<T, BlockError>;

/// A block of zero bytes.
pub open spec fn zero_block() -> Seq<u8> {
    Seq::new(BLOCK_SIZE as nat, |j: int| 0u8)
}

/// The block that a write takes from a buffer: its first 512 bytes.
pub open spec fn block_of(buf: Seq<u8>) -> Seq<u8> {
    buf.subrange(0, BLOCK_SIZE as int)
}

/// A buffer after `block` was read into it: the block, then what the buffer
/// held behind its first 512 bytes.
pub open spec fn buffer_with_block(buf: Seq<u8>, block: Seq<u8>) -> Seq<u8> {
    block + buf.subrange(BLOCK_SIZE as int, buf.len() as int)
}

/// The blocks of a device after the first 512 bytes of `buf` were written to
/// block `n`.
pub open spec fn blocks_after_write(blocks: Seq<Seq<u8>>, n: int, buf: Seq<u8>) -> Seq<Seq<u8>> {
    blocks.update(n, block_of(buf))
}

/// A block that was written is what a read of the same block returns, byte
/// for byte, whatever the buffer held before; the other blocks stay.
pub proof fn lemma_write_then_read(blocks: Seq<Seq<u8>>, n: int, written: Seq<u8>, buf: Seq<u8>)
    requires
        0 <= n < blocks.len(),
        written.len() >= BLOCK_SIZE,
        buf.len() >= BLOCK_SIZE,
    ensures
        block_of(buffer_with_block(buf, blocks_after_write(blocks, n, written)[n])) == block_of(
            written,
        ),
        buf.len() == BLOCK_SIZE && written.len() == BLOCK_SIZE ==> buffer_with_block(
            buf,
            blocks_after_write(blocks, n, written)[n],
        ) == written,
        forall|m: int|
            0 <= m < blocks.len() && m != n ==> blocks_after_write(blocks, n, written)[m]
                == blocks[m],
{
    let block = blocks_after_write(blocks, n, written)[n];
    assert(block_of(buffer_with_block(buf, block)) =~= block_of(written));
    if buf.len() == BLOCK_SIZE && written.len() == BLOCK_SIZE {
        assert(buffer_with_block(buf, block) =~= written);
    }
}

/// The content of a block device: its blocks in order.
pub type BlockContents = Seq<Seq<u8>>;

/// A block device. `blocks` is the content of the device, block by block;
/// an implementation says in `wf` what it needs to hold of itself, and in
/// `readable` which blocks it promises to read.
pub trait BlockDevice {
    /// The content of the device.
    spec fn blocks(&self) -> BlockContents;

    /// What the implementation needs to hold of its own state.
    spec fn wf(&self) -> bool;

    /// Whether the device refuses every write.
    spec fn read_only(&self) -> bool;

    /// Whether a read of block `block_num` into a buffer that is long
    /// enough is sure to succeed. A device that can fail on any read, as
    /// hardware can, says `false` of every block.
    spec fn readable(&self, block_num: u64) -> bool;

    /// Reads block `block_num` into the first 512 bytes of `buf`. A success
    /// means that the block exists, that the buffer was long enough, and
    /// that it now holds the block.
    fn read_block(&self, block_num: u64, buf: &mut [u8]) -> (r: BlockResult<()>)
        requires
            self.wf(),
        ensures
            final(buf)@.len() == old(buf)@.len(),
            self.readable(block_num) && old(buf)@.len() >= BLOCK_SIZE ==> r is Ok,
            r is Ok ==> block_num < self.blocks().len() && old(buf)@.len() >= BLOCK_SIZE
                && final(buf)@ == buffer_with_block(old(buf)@, self.blocks()[block_num as int]),
            r == Err::<(), BlockError>(BlockError::InvalidBlock) ==> block_num
                >= self.blocks().len(),
            r == Err::<(), BlockError>(BlockError::IoError) ==> old(buf)@.len() < BLOCK_SIZE,
    ;

    /// Writes the first 512 bytes of `buf` to block `block_num`. A success
    /// means that the block exists, that the buffer was long enough, and
    /// that the device now holds the bytes there; a failure leaves the
    /// content as it was. A read-only device refuses every write with
    /// `ReadOnly`.
    fn write_block(&mut self, block_num: u64, buf: &[u8]) -> (r: BlockResult<()>)
        requires
            old(self).wf(),
        ensures
            final(self).wf(),
            final(self).read_only() == old(self).read_only(),
            old(self).read_only() ==> r == Err::<(), BlockError>(BlockError::ReadOnly),
            r == Err::<(), BlockError>(BlockError::ReadOnly) ==> old(self).read_only(),
            forall|n: u64| old(self).readable(n) ==> final(self).readable(n),
            r is Ok ==> block_num < old(self).blocks().len() && buf@.len() >= BLOCK_SIZE
                && final(self).blocks() == blocks_after_write(
                old(self).blocks(),
                block_num as int,
                buf@,
            ),
            r is Err ==> final(self).blocks() == old(self).blocks(),
            r == Err::<(), BlockError>(BlockError::InvalidBlock) ==> block_num >= old(
                self,
            ).blocks().len(),
            r == Err::<(), BlockError>(BlockError::IoError) ==> buf@.len() < BLOCK_SIZE,
    ;

    /// The number of blocks.
    fn block_count(&self) -> (n: u64)
        requires
            self.wf(),
        ensures
            n == self.blocks().len(),
    ;

    /// The size of a block in bytes.
    fn block_size(&self) -> (n: usize)
        ensures
            n == BLOCK_SIZE,
    {
        BLOCK_SIZE
    }

    /// Whether the device refuses writes.
    fn is_read_only(&self) -> (b: bool)
        ensures
            b == self.read_only(),
    ;
}

} // verus!
