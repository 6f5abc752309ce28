//! The device files `/dev/null`, `/dev/zero` and `/dev/random`.

use vstd::prelude::*;
use vstd::arithmetic::div_mod::lemma_add_mod_noop;
use vstd::arithmetic::div_mod::lemma_small_mod;
use super::{FileType, Permissions, VfsError, VfsNodeRef, VfsResult};

verus! {

/// The value that the generator behind `/dev/random` starts from.
pub const RANDOM_SEED: u64 = 0x123456789ABCDEF0;

/// One step of the linear congruential generator: `s * 1103515245 + 12345`
/// modulo 2^64.
pub open spec fn lcg_next(s: u64) -> u64 {
    ((s as nat * 1103515245 + 12345) % 0x1_0000_0000_0000_0000) as u64
}

/// The generator's state after `n` steps from `seed`.
pub open spec fn lcg_state(seed: u64, n: nat) -> u64
    decreases n,
{
    if n == 0 {
        seed
    } else {
        lcg_next(lcg_state(seed, (n - 1) as nat))
    }
}

/// The byte that a state emits: bits 16 to 23.
pub open spec fn lcg_byte(s: u64) -> u8 {
    ((s >> 16) & 0xff) as u8
}

/// The first `n` bytes that the generator emits when started from `seed`:
/// byte `i` comes from the state after `i + 1` steps.
pub open spec fn random_bytes(seed: u64, n: nat) -> Seq<u8> {
    Seq::new(n, |i: int| lcg_byte(lcg_state(seed, (i + 1) as nat)))
}

/// A sequence of `n` zero bytes.
pub open spec fn zero_bytes(n: nat) -> Seq<u8> {
    Seq::new(n, |i: int| 0u8)
}

/// Advances the generator by one step and returns the new state.
pub fn lcg_advance(s: u64) -> (next: u64)
    ensures
        next == lcg_next(s),
{
    let product = s.wrapping_mul(1103515245);
    let next = product.wrapping_add(12345);
    proof {
        let r: int = 0x1_0000_0000_0000_0000;
        let x: int = s as int * 1103515245;
        assert(product as int == x % r);
        lemma_small_mod(12345, r as nat);
        lemma_add_mod_noop(x, 12345, r);
        assert((x + 12345) % r == (product + 12345) % r);
        if product + 12345 >= r {
            assert((product + 12345) % r == product + 12345 - r) by (nonlinear_arith)
                requires
                    r <= product + 12345 < 2 * r,
            ;
        } else {
            lemma_small_mod((product + 12345) as nat, r as nat);
        }
    }
    next
}

/// The byte that the state `s` emits.
pub fn lcg_output(s: u64) -> (b: u8)
    ensures
        b == lcg_byte(s),
{
    let masked = (s >> 16) & 0xff;
    assert(masked <= 0xff) by (bit_vector)
        requires
            masked == (s >> 16) & 0xff,
    ;
    masked as u8
}

/// The device files. All report type `Device`, size 0 and mode `0o666`.
#[derive(Debug, Clone, Copy, PartialEq, Eq, Structural)]
pub enum DeviceNode {
    /// Reads report end of file; writes are discarded.
    Null,
    /// Reads yield zero bytes; writes are refused.
    Zero,
    /// Reads yield the generator's bytes; writes are refused.
    Random,
}

impl DeviceNode {
    pub fn file_type(&self) -> (t: FileType)
        ensures
            t == FileType::Device,
    {
        FileType::Device
    }

    pub fn size(&self) -> (n: usize)
        ensures
            n == 0,
    {
        0
    }

    pub fn permissions(&self) -> (p: Permissions)
        ensures
            p.mode == 0o666,
    {
        Permissions::new(0o666)
    }

    /// What a read of `len` bytes leaves in the buffer, given the buffer's
    /// old content and the generator's state.
    pub open spec fn read_content(self, before: Seq<u8>, seed: u64) -> Seq<u8> {
        match self {
            DeviceNode::Null => before,
            DeviceNode::Zero => zero_bytes(before.len()),
            DeviceNode::Random => random_bytes(seed, before.len()),
        }
    }

    /// The generator's state after a read into a buffer of `len` bytes.
    pub open spec fn seed_after_read(self, len: nat, seed: u64) -> u64 {
        match self {
            DeviceNode::Random => lcg_state(seed, len),
            _ => seed,
        }
    }

    /// The number of bytes that a read into a buffer of `len` bytes reports.
    pub open spec fn read_count(self, len: nat) -> nat {
        match self {
            DeviceNode::Null => 0,
            _ => len,
        }
    }

    /// Reads from the device. The offset is ignored. `seed` is the state of
    /// the generator behind `/dev/random`, which every read of that device
    /// advances by one step per byte.
    pub fn read_at(&self, offset: usize, buf: &mut [u8], seed: &mut u64) -> (r: VfsResult<usize>)
        ensures
            r == Ok::<usize, VfsError>(self.read_count(old(buf)@.len()) as usize),
            final(buf)@ == self.read_content(old(buf)@, *old(seed)),
            *final(seed) == self.seed_after_read(old(buf)@.len(), *old(seed)),
    {
        match self {
            DeviceNode::Null => Ok(0),
            DeviceNode::Zero => {
                let n = buf.len();
                let mut i: usize = 0;
                while i < n
                    invariant
                        i <= n,
                        n == buf@.len(),
                        buf@.len() == old(buf)@.len(),
                        forall|j: int| 0 <= j < i ==> buf@[j] == 0u8,
                    decreases n - i,
                {
                    buf[i] = 0;
                    i += 1;
                }
                assert(buf@ =~= zero_bytes(old(buf)@.len()));
                Ok(n)
            },
            DeviceNode::Random => {
                let n = buf.len();
                let mut i: usize = 0;
                while i < n
                    invariant
                        i <= n,
                        n == buf@.len(),
                        buf@.len() == old(buf)@.len(),
                        *seed == lcg_state(*old(seed), i as nat),
                        forall|j: int|
                            0 <= j < i ==> buf@[j] == lcg_byte(
                                lcg_state(*old(seed), (j + 1) as nat),
                            ),
                    decreases n - i,
                {
                    let next = lcg_advance(*seed);
                    *seed = next;
                    buf[i] = lcg_output(next);
                    i += 1;
                }
                assert(buf@ =~= random_bytes(*old(seed), old(buf)@.len()));
                Ok(n)
            },
        }
    }

    /// Writes to the device. Only `/dev/null` accepts writes, and discards
    /// them.
    pub fn write_at(&mut self, offset: usize, buf: &[u8]) -> (r: VfsResult<usize>)
        ensures
            *final(self) == *old(self),
            r == match *old(self) {
                DeviceNode::Null => Ok::<usize, VfsError>(buf@.len() as usize),
                _ => Err::<usize, VfsError>(VfsError::PermissionDenied),
            },
    {
        match self {
            DeviceNode::Null => Ok(buf.len()),
            DeviceNode::Zero => Err(VfsError::PermissionDenied),
            DeviceNode::Random => Err(VfsError::PermissionDenied),
        }
    }

    /// A device is no directory.
    pub fn readdir(&self) -> (r: VfsResult<Vec<String>>)
        ensures
            r is Err,
            r->Err_0 == VfsError::NotADirectory,
    {
        Err(VfsError::NotADirectory)
    }

    /// A device is no directory.
    pub fn lookup(&self, name: &str) -> (r: VfsResult<VfsNodeRef>)
        ensures
            r == Err::<VfsNodeRef, VfsError>(VfsError::NotADirectory),
    {
        Err(VfsError::NotADirectory)
    }

    /// A device is no directory.
    pub fn create(&mut self, name: &str, file_type: FileType) -> (r: VfsResult<VfsNodeRef>)
        ensures
            *final(self) == *old(self),
            r == Err::<VfsNodeRef, VfsError>(VfsError::NotADirectory),
    {
        Err(VfsError::NotADirectory)
    }
}

/// The three device files with the names they have under `/dev`.
pub fn create_dev_nodes() -> (nodes: Vec<(&'static str, VfsNodeRef)>)
    ensures
        nodes@.len() == 3,
        nodes@[0].0@ == "null"@ && nodes@[0].1 == VfsNodeRef::Device(DeviceNode::Null),
        nodes@[1].0@ == "zero"@ && nodes@[1].1 == VfsNodeRef::Device(DeviceNode::Zero),
        nodes@[2].0@ == "random"@ && nodes@[2].1 == VfsNodeRef::Device(DeviceNode::Random),
{
    let mut nodes: Vec<(&'static str, VfsNodeRef)> = Vec::new();
    nodes.push(("null", VfsNodeRef::Device(DeviceNode::Null)));
    nodes.push(("zero", VfsNodeRef::Device(DeviceNode::Zero)));
    nodes.push(("random", VfsNodeRef::Device(DeviceNode::Random)));
    nodes
}

} // verus!
