//! A block device that keeps its blocks in memory.

use vstd::prelude::*;
use super::{
    blocks_after_write, buffer_with_block, zero_block, BlockDevice, BlockError, BlockResult,
    BLOCK_SIZE,
};

verus! {

/// A RAM disk: `block_count` blocks in one flat vector of bytes.
pub struct RamDisk {
    data: Vec<u8>,
    block_count: u64,
    read_only: bool,
}

impl RamDisk {
    /// The bytes of block `i` within `data`.
    pub open spec fn block_at(data: Seq<u8>, i: int) -> Seq<u8> {
        data.subrange(i * BLOCK_SIZE, i * BLOCK_SIZE + BLOCK_SIZE)
    }

    /// A disk of `block_count` blocks, all zero.
    pub fn new(block_count: u64) -> (disk: Self)
        requires
            block_count * BLOCK_SIZE <= usize::MAX,
        ensures
            disk.wf(),
            !disk.read_only(),
            disk.blocks().len() == block_count,
            forall|i: int| 0 <= i < block_count ==> #[trigger] disk.blocks()[i] == zero_block(),
    {
        let size = (block_count as usize) * BLOCK_SIZE;
        let mut data: Vec<u8> = Vec::new();
        data.resize(size, 0);
        let disk = RamDisk { data, block_count, read_only: false };
        assert forall|i: int| 0 <= i < block_count implies #[trigger] disk.blocks()[i]
            == zero_block() by {
            assert(disk.blocks()[i] =~= zero_block());
        }
        disk
    }

    /// A disk over `data`. It has as many blocks as `data` holds whole
    /// blocks; bytes behind the last whole block are out of reach.
    pub fn from_data(data: Vec<u8>) -> (disk: Self)
        ensures
            disk.wf(),
            !disk.read_only(),
            disk.blocks().len() == data@.len() / (BLOCK_SIZE as nat),
            forall|i: int|
                0 <= i < disk.blocks().len() ==> #[trigger] disk.blocks()[i] == Self::block_at(
                    data@,
                    i,
                ),
    {
        let block_count = (data.len() / BLOCK_SIZE) as u64;
        RamDisk { data, block_count, read_only: false }
    }

    /// Makes the disk refuse writes, or accept them again.
    pub fn set_read_only(&mut self, read_only: bool)
        requires
            old(self).wf(),
        ensures
            final(self).wf(),
            final(self).read_only() == read_only,
            final(self).blocks() == old(self).blocks(),
    {
        self.read_only = read_only;
    }
}

impl BlockDevice for RamDisk {
    closed spec fn blocks(&self) -> Seq<Seq<u8>> {
        Seq::new(self.block_count as nat, |i: int| Self::block_at(self.data@, i))
    }

    closed spec fn wf(&self) -> bool {
        self.block_count * BLOCK_SIZE <= self.data@.len()
    }

    closed spec fn read_only(&self) -> bool {
        self.read_only
    }

    /// Every block of a RAM disk can be read.
    open spec fn readable(&self, block_num: u64) -> bool {
        block_num < self.blocks().len()
    }

    /// Fails with `InvalidBlock` when there is no such block, else with
    /// `IoError` when the buffer is shorter than a block; a failure leaves
    /// the buffer as it was.
    fn read_block(&self, block_num: u64, buf: &mut [u8]) -> (r: BlockResult<()>)
        ensures
            block_num >= self.blocks().len() ==> r == Err::<(), BlockError>(
                BlockError::InvalidBlock,
            ),
            block_num < self.blocks().len() && old(buf)@.len() < BLOCK_SIZE ==> r == Err::<
                (),
                BlockError,
            >(BlockError::IoError),
            block_num < self.blocks().len() && old(buf)@.len() >= BLOCK_SIZE ==> r is Ok,
            r is Err ==> final(buf)@ == old(buf)@,
    {
        if block_num >= self.block_count {
            return Err(BlockError::InvalidBlock);
        }
        if buf.len() < BLOCK_SIZE {
            return Err(BlockError::IoError);
        }
        let len = self.data.len();
        assert(block_num * BLOCK_SIZE + BLOCK_SIZE <= len);
        let offset = (block_num as usize) * BLOCK_SIZE;
        let mut i: usize = 0;
        while i < BLOCK_SIZE
            invariant
                i <= BLOCK_SIZE,
                self.wf(),
                block_num < self.block_count,
                offset == block_num * BLOCK_SIZE,
                len == self.data@.len(),
                buf@.len() == old(buf)@.len(),
                buf@.len() >= BLOCK_SIZE,
                forall|j: int| 0 <= j < i ==> buf@[j] == self.data@[offset + j],
                forall|j: int| i <= j < buf@.len() ==> buf@[j] == old(buf)@[j],
            decreases BLOCK_SIZE - i,
        {
            buf[i] = self.data[offset + i];
            i += 1;
        }
        assert(buf@ =~= buffer_with_block(old(buf)@, self.blocks()[block_num as int]));
        Ok(())
    }

    /// Fails with `ReadOnly` on a disk that refuses writes, else with
    /// `InvalidBlock` when there is no such block, else with `IoError` when
    /// the buffer is shorter than a block.
    fn write_block(&mut self, block_num: u64, buf: &[u8]) -> (r: BlockResult<()>)
        ensures
            !old(self).read_only() && block_num >= old(self).blocks().len() ==> r == Err::<
                (),
                BlockError,
            >(BlockError::InvalidBlock),
            !old(self).read_only() && block_num < old(self).blocks().len() && buf@.len()
                < BLOCK_SIZE ==> r == Err::<(), BlockError>(BlockError::IoError),
            !old(self).read_only() && block_num < old(self).blocks().len() && buf@.len()
                >= BLOCK_SIZE ==> r is Ok,
    {
        if self.read_only {
            return Err(BlockError::ReadOnly);
        }
        if block_num >= self.block_count {
            return Err(BlockError::InvalidBlock);
        }
        if buf.len() < BLOCK_SIZE {
            return Err(BlockError::IoError);
        }
        let len = self.data.len();
        assert(block_num * BLOCK_SIZE + BLOCK_SIZE <= len);
        let offset = (block_num as usize) * BLOCK_SIZE;
        let mut i: usize = 0;
        while i < BLOCK_SIZE
            invariant
                i <= BLOCK_SIZE,
                self.wf(),
                self.block_count == old(self).block_count,
                self.read_only == old(self).read_only,
                self.data@.len() == old(self).data@.len(),
                len == self.data@.len(),
                block_num < self.block_count,
                offset == block_num * BLOCK_SIZE,
                buf@.len() >= BLOCK_SIZE,
                forall|j: int| offset <= j < offset + i ==> self.data@[j] == buf@[j - offset],
                forall|j: int|
                    0 <= j < self.data@.len() && !(offset <= j < offset + i) ==> self.data@[j]
                        == old(self).data@[j],
            decreases BLOCK_SIZE - i,
        {
            self.data[offset + i] = buf[i];
            i += 1;
        }
        proof {
            let after = blocks_after_write(old(self).blocks(), block_num as int, buf@);
            assert forall|k: int| 0 <= k < self.block_count implies #[trigger] self.blocks()[k]
                == after[k] by {
                assert(self.blocks()[k] =~= after[k]);
            }
            assert(self.blocks() =~= after);
        }
        Ok(())
    }

    fn block_count(&self) -> (n: u64) {
        self.block_count
    }

    fn is_read_only(&self) -> (b: bool) {
        self.read_only
    }
}

} // verus!
