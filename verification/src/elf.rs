//! ELF64 images: decoding the file header and the program headers, and the
//! checks that a loader makes before it maps the segments.

use vstd::prelude::*;
use crate::endian::{le16, le32, le64, read_le16, read_le32, read_le64};

verus! {

/// The size of the file header in bytes.
pub const ELF_HEADER_SIZE: usize = 64;

/// The size of a program header in bytes.
pub const PROGRAM_HEADER_SIZE: usize = 56;

pub const PT_NULL: u32 = 0;

/// A segment to load.
pub const PT_LOAD: u32 = 1;

pub const PT_DYNAMIC: u32 = 2;

pub const PT_INTERP: u32 = 3;

pub const PT_NOTE: u32 = 4;

/// The class of 64-bit images.
pub const ELF_CLASS_64: u8 = 2;

/// The encoding of little-endian images.
pub const ELF_DATA_LITTLE_ENDIAN: u8 = 1;

/// The type of executable images.
pub const ELF_TYPE_EXECUTABLE: u16 = 2;

/// Why an image is refused.
#[derive(Debug, Clone, Copy, PartialEq, Eq, Structural)]
pub enum ElfError {
    InvalidMagic,
    UnsupportedClass,
    UnsupportedEndian,
    InvalidHeader,
}

impl ElfError {
    /// The text shown to a user for this error.
    pub fn message(&self) -> (s: &'static str)
        ensures
            s@ == match *self {
                ElfError::InvalidMagic => "Invalid ELF magic number"@,
                ElfError::UnsupportedClass => "Unsupported ELF class"@,
                ElfError::UnsupportedEndian => "Unsupported endianness"@,
                ElfError::InvalidHeader => "Invalid ELF header"@,
            },
    {
        match self {
            ElfError::InvalidMagic => "Invalid ELF magic number",
            ElfError::UnsupportedClass => "Unsupported ELF class",
            ElfError::UnsupportedEndian => "Unsupported endianness",
            ElfError::InvalidHeader => "Invalid ELF header",
        }
    }
}

pub type ElfResult<T> = Result<T, ElfError>;

/// The magic number: `0x7F`, `E`, `L`, `F`.
pub open spec fn elf_magic() -> Seq<u8> {
    seq![0x7Fu8, 0x45u8, 0x4Cu8, 0x46u8]
}

/// The file header.
#[derive(Debug, Clone, Copy, PartialEq, Eq)]
pub struct ElfHeader {
    pub magic: [u8; 4],
    pub class: u8,
    pub data: u8,
    pub version: u8,
    pub os_abi: u8,
    pub abi_version: u8,
    pub padding: [u8; 7],
    pub elf_type: u16,
    pub machine: u16,
    pub version2: u32,
    pub entry: u64,
    pub phoff: u64,
    pub shoff: u64,
    pub flags: u32,
    pub ehsize: u16,
    pub phentsize: u16,
    pub phnum: u16,
    pub shentsize: u16,
    pub shnum: u16,
    pub shstrndx: u16,
}

/// A program header: one segment of the image.
#[derive(Debug, Clone, Copy, PartialEq, Eq, Structural)]
pub struct ProgramHeader {
    pub p_type: u32,
    pub flags: u32,
    pub offset: u64,
    pub vaddr: u64,
    pub paddr: u64,
    pub filesz: u64,
    pub memsz: u64,
    pub align: u64,
}

impl ProgramHeader {
    /// This header is what the 56 bytes of `bytes` from `at` on hold.
    pub open spec fn decodes(self, bytes: Seq<u8>, at: int) -> bool {
        &&& self.p_type == le32(bytes, at)
        &&& self.flags == le32(bytes, at + 4)
        &&& self.offset == le64(bytes, at + 8)
        &&& self.vaddr == le64(bytes, at + 16)
        &&& self.paddr == le64(bytes, at + 24)
        &&& self.filesz == le64(bytes, at + 32)
        &&& self.memsz == le64(bytes, at + 40)
        &&& self.align == le64(bytes, at + 48)
    }

    /// Decodes the program header that starts at `at`.
    pub fn parse(data: &[u8], at: usize) -> (header: Self)
        requires
            at + PROGRAM_HEADER_SIZE <= data@.len(),
        ensures
            header.decodes(data@, at as int),
    {
        let len = data.len();
        assert(at + PROGRAM_HEADER_SIZE <= len);
        ProgramHeader {
            p_type: read_le32(data, at),
            flags: read_le32(data, at + 4),
            offset: read_le64(data, at + 8),
            vaddr: read_le64(data, at + 16),
            paddr: read_le64(data, at + 24),
            filesz: read_le64(data, at + 32),
            memsz: read_le64(data, at + 40),
            align: read_le64(data, at + 48),
        }
    }

    /// A segment to load lies within an image of `len` bytes.
    pub open spec fn fits(self, len: nat) -> bool {
        self.p_type == PT_LOAD ==> self.offset + self.filesz <= len
    }
}

impl ElfHeader {
    /// This header is what the first 64 bytes of `bytes` hold.
    pub open spec fn decodes(self, bytes: Seq<u8>) -> bool {
        &&& self.magic@ == bytes.subrange(0, 4)
        &&& self.class == bytes[4]
        &&& self.data == bytes[5]
        &&& self.version == bytes[6]
        &&& self.os_abi == bytes[7]
        &&& self.abi_version == bytes[8]
        &&& self.padding@ == bytes.subrange(9, 16)
        &&& self.elf_type == le16(bytes, 16)
        &&& self.machine == le16(bytes, 18)
        &&& self.version2 == le32(bytes, 20)
        &&& self.entry == le64(bytes, 24)
        &&& self.phoff == le64(bytes, 32)
        &&& self.shoff == le64(bytes, 40)
        &&& self.flags == le32(bytes, 48)
        &&& self.ehsize == le16(bytes, 52)
        &&& self.phentsize == le16(bytes, 54)
        &&& self.phnum == le16(bytes, 56)
        &&& self.shentsize == le16(bytes, 58)
        &&& self.shnum == le16(bytes, 60)
        &&& self.shstrndx == le16(bytes, 62)
    }

    /// Why `parse` refuses `bytes`, if it does: an image shorter than a
    /// header, then a wrong magic number, then a class other than 64-bit,
    /// then an encoding other than little-endian.
    pub open spec fn refusal(bytes: Seq<u8>) -> Option<ElfError> {
        if bytes.len() < ELF_HEADER_SIZE {
            Some(ElfError::InvalidHeader)
        } else if bytes.subrange(0, 4) != elf_magic() {
            Some(ElfError::InvalidMagic)
        } else if bytes[4] != ELF_CLASS_64 {
            Some(ElfError::UnsupportedClass)
        } else if bytes[5] != ELF_DATA_LITTLE_ENDIAN {
            Some(ElfError::UnsupportedEndian)
        } else {
            None
        }
    }

    /// Decodes and checks the file header of an image.
    pub fn parse(data: &[u8]) -> (r: ElfResult<Self>)
        ensures
            match r {
                Ok(header) => Self::refusal(data@) is None && header.decodes(data@),
                Err(e) => Self::refusal(data@) == Some(e),
            },
    {
        if data.len() < ELF_HEADER_SIZE {
            return Err(ElfError::InvalidHeader);
        }
        let header = ElfHeader {
            magic: [data[0], data[1], data[2], data[3]],
            class: data[4],
            data: data[5],
            version: data[6],
            os_abi: data[7],
            abi_version: data[8],
            padding: [data[9], data[10], data[11], data[12], data[13], data[14], data[15]],
            elf_type: read_le16(data, 16),
            machine: read_le16(data, 18),
            version2: read_le32(data, 20),
            entry: read_le64(data, 24),
            phoff: read_le64(data, 32),
            shoff: read_le64(data, 40),
            flags: read_le32(data, 48),
            ehsize: read_le16(data, 52),
            phentsize: read_le16(data, 54),
            phnum: read_le16(data, 56),
            shentsize: read_le16(data, 58),
            shnum: read_le16(data, 60),
            shstrndx: read_le16(data, 62),
        };
        proof {
            assert(header.magic@ =~= data@.subrange(0, 4));
            assert(header.padding@ =~= data@.subrange(9, 16));
        }
        if header.magic[0] != 0x7F || header.magic[1] != 0x45 || header.magic[2] != 0x4C
            || header.magic[3] != 0x46 {
            assert(data@.subrange(0, 4) != elf_magic()) by {
                if data@.subrange(0, 4) == elf_magic() {
                    assert(elf_magic()[0] == 0x7F && elf_magic()[1] == 0x45 && elf_magic()[2]
                        == 0x4C && elf_magic()[3] == 0x46);
                }
            }
            return Err(ElfError::InvalidMagic);
        }
        assert(data@.subrange(0, 4) =~= elf_magic());
        if header.class != ELF_CLASS_64 {
            return Err(ElfError::UnsupportedClass);
        }
        if header.data != ELF_DATA_LITTLE_ENDIAN {
            return Err(ElfError::UnsupportedEndian);
        }
        Ok(header)
    }

    /// The program header table lies within an image of `len` bytes.
    pub open spec fn table_fits(&self, len: nat) -> bool {
        self.phoff + self.phnum * PROGRAM_HEADER_SIZE <= len
    }

    /// The program headers of the image `data`, whose file header this is.
    /// A table that reaches beyond the image is refused with
    /// `InvalidHeader`.
    pub fn program_headers(&self, data: &[u8]) -> (r: ElfResult<Vec<ProgramHeader>>)
        ensures
            match r {
                Ok(headers) => self.table_fits(data@.len()) && headers@.len() == self.phnum
                    && forall|i: int|
                    0 <= i < headers@.len() ==> (#[trigger] headers@[i]).decodes(
                        data@,
                        self.phoff + i * PROGRAM_HEADER_SIZE,
                    ),
                Err(e) => e == ElfError::InvalidHeader && !self.table_fits(data@.len()),
            },
    {
        let len = data.len();
        let count = self.phnum as usize;
        let size = count * PROGRAM_HEADER_SIZE;
        if self.phoff > len as u64 || size > len - (self.phoff as usize) {
            return Err(ElfError::InvalidHeader);
        }
        let start = self.phoff as usize;
        let mut headers: Vec<ProgramHeader> = Vec::new();
        let mut i: usize = 0;
        while i < count
            invariant
                i <= count,
                count == self.phnum,
                start == self.phoff,
                len == data@.len(),
                start + count * PROGRAM_HEADER_SIZE <= len,
                headers@.len() == i,
                forall|k: int|
                    0 <= k < i ==> (#[trigger] headers@[k]).decodes(
                        data@,
                        self.phoff + k * PROGRAM_HEADER_SIZE,
                    ),
            decreases count - i,
        {
            assert(i * PROGRAM_HEADER_SIZE + PROGRAM_HEADER_SIZE <= count * PROGRAM_HEADER_SIZE)
                by (nonlinear_arith)
                requires
                    i < count,
            ;
            headers.push(ProgramHeader::parse(data, start + i * PROGRAM_HEADER_SIZE));
            i += 1;
        }
        Ok(headers)
    }

    pub open spec fn spec_is_executable(&self) -> bool {
        self.elf_type == ELF_TYPE_EXECUTABLE
    }

    /// Whether the image is an executable.
    #[verifier::when_used_as_spec(spec_is_executable)]
    pub fn is_executable(&self) -> (b: bool)
        ensures
            b == self.spec_is_executable(),
    {
        self.elf_type == ELF_TYPE_EXECUTABLE
    }
}

/// Every segment to load among `headers` lies within an image of `len`
/// bytes.
pub open spec fn segments_fit(headers: Seq<ProgramHeader>, len: nat) -> bool {
    forall|i: int| 0 <= i < headers.len() ==> (#[trigger] headers[i]).fits(len)
}

/// What `load_elf` makes of an image with the file header `header` and the
/// program headers `headers`: the entry point of an executable whose
/// segments lie within the image.
pub open spec fn load_result(header: ElfHeader, headers: Seq<ProgramHeader>, len: nat) -> ElfResult<
    u64,
> {
    if header.spec_is_executable() && segments_fit(headers, len) {
        Ok(header.entry)
    } else {
        Err(ElfError::InvalidHeader)
    }
}

/// Checks the segments of an executable image and returns its entry point.
pub fn check_segments(header: &ElfHeader, headers: &Vec<ProgramHeader>, len: usize) -> (r:
    ElfResult<u64>)
    ensures
        r == load_result(*header, headers@, len as nat),
{
    if !header.is_executable() {
        return Err(ElfError::InvalidHeader);
    }
    let count = headers.len();
    let mut i: usize = 0;
    while i < count
        invariant
            i <= count,
            count == headers@.len(),
            forall|k: int| 0 <= k < i ==> (#[trigger] headers@[k]).fits(len as nat),
        decreases count - i,
    {
        let ph = &headers[i];
        if ph.p_type == PT_LOAD {
            if ph.offset > len as u64 || ph.filesz > len as u64 - ph.offset {
                assert(!headers@[i as int].fits(len as nat));
                return Err(ElfError::InvalidHeader);
            }
        }
        i += 1;
    }
    Ok(header.entry)
}

/// The segment with index `i` of the image `data`, if it is to be loaded,
/// lies within the image.
pub open spec fn image_segment_fits(data: Seq<u8>, i: int) -> bool {
    let at = le64(data, 32) + i * PROGRAM_HEADER_SIZE;
    le32(data, at) == PT_LOAD ==> le64(data, at + 8) + le64(data, at + 32) <= data.len()
}

/// What `load_elf` makes of the image `data`: a refused header gives its
/// error; an image that is no executable, that does not hold its program
/// header table, or that does not hold a segment to load, is refused with
/// `InvalidHeader`; every other image gives its entry point.
pub open spec fn load_outcome(data: Seq<u8>) -> ElfResult<u64> {
    match ElfHeader::refusal(data) {
        Some(e) => Err(e),
        None => if le16(data, 16) == ELF_TYPE_EXECUTABLE && le64(data, 32) + le16(data, 56)
            * PROGRAM_HEADER_SIZE <= data.len() && forall|i: int|
            0 <= i < le16(data, 56) ==> #[trigger] image_segment_fits(data, i) {
            Ok(le64(data, 24))
        } else {
            Err(ElfError::InvalidHeader)
        },
    }
}

/// Validates an ELF image and returns its entry point.
pub fn load_elf(data: &[u8]) -> (r: ElfResult<u64>)
    ensures
        r == load_outcome(data@),
{
    let header = match ElfHeader::parse(data) {
        Ok(header) => header,
        Err(e) => {
            return Err(e);
        },
    };
    if !header.is_executable() {
        return Err(ElfError::InvalidHeader);
    }
    let headers = match header.program_headers(data) {
        Ok(headers) => headers,
        Err(e) => {
            return Err(e);
        },
    };
    let r = check_segments(&header, &headers, data.len());
    proof {
        assert forall|i: int| 0 <= i < headers@.len() implies (headers@[i].fits(data@.len())
            <==> #[trigger] image_segment_fits(data@, i)) by {
            assert(headers@[i].decodes(data@, header.phoff + i * PROGRAM_HEADER_SIZE));
        }
        if segments_fit(headers@, data@.len()) {
            assert forall|i: int| 0 <= i < le16(data@, 56) implies #[trigger] image_segment_fits(
                data@,
                i,
            ) by {
                assert(headers@[i].fits(data@.len()));
            }
        } else {
            let i = choose|i: int| 0 <= i < headers@.len() && !(#[trigger] headers@[i]).fits(
                data@.len(),
            );
            assert(!image_segment_fits(data@, i));
        }
    }
    r
}

} // verus!
