use vstd::prelude::*;

verus! {

/// Why decoding a block failed.
#[derive(Debug, Clone, Copy, PartialEq, Eq, Structural)]
pub enum BlockDeserialiserError {
    UnsupportedCompressionAlgorithm(u16),
    UnsupportedBlockKind(u16),
    IsNotCompressed,
    DataLengthMissMatch,
    TryFromSliceError,
    EncodingError(u16),
}

/// Checksum mode negotiated for a whole file: decides the width of the
/// trailer that follows each block's payload.
#[derive(Debug, Clone, Copy, PartialEq, Eq, Structural)]
pub enum FileChecksum {
    NoChecksum,
    Crc32,
}

impl FileChecksum {
    /// Width in bytes of the trailer of each block.
    pub open spec fn trailer_width(self) -> int {
        match self {
            FileChecksum::NoChecksum => 0,
            FileChecksum::Crc32 => 4,
        }
    }

    pub fn checksum_byte_size(&self) -> (r: usize)
        ensures
            r == self.trailer_width(),
    {
        match *self {
            FileChecksum::NoChecksum => 0,
            FileChecksum::Crc32 => 4,
        }
    }
}

/// Little-endian value of the two bytes of `s` at `at`.
pub open spec fn u16_at(s: Seq<u8>, at: int) -> int {
    s[at] + 256 * s[at + 1]
}

/// Little-endian value of the four bytes of `s` at `at`.
pub open spec fn u32_at(s: Seq<u8>, at: int) -> int {
    s[at] + 256 * s[at + 1] + 65536 * s[at + 2] + 16777216 * s[at + 3]
}

#[derive(Debug, Clone, Copy, PartialEq, Eq, Structural)]
pub enum BlockKind {
    FileMetadata,
    GCode,
    SlicerMetadata,
    PrinterMetadata,
    PrintMetadata,
    Thumbnail,
}

impl BlockKind {
    /// The 16-bit tag that stands for this kind on the wire.
    pub open spec fn code(self) -> u16 {
        match self {
            BlockKind::FileMetadata => 0,
            BlockKind::GCode => 1,
            BlockKind::SlicerMetadata => 2,
            BlockKind::PrinterMetadata => 3,
            BlockKind::PrintMetadata => 4,
            BlockKind::Thumbnail => 5,
        }
    }

    /// Width of the parameter region that follows the header.
    pub open spec fn param_width(self) -> int {
        match self {
            BlockKind::Thumbnail => 6,
            _ => 2,
        }
    }

    /// Kind decoded from a tag, with the error for an unknown tag.
    pub open spec fn decode(value: u16) -> Result<BlockKind, BlockDeserialiserError> {
        if value == 0 {
            Ok(BlockKind::FileMetadata)
        } else if value == 1 {
            Ok(BlockKind::GCode)
        } else if value == 2 {
            Ok(BlockKind::SlicerMetadata)
        } else if value == 3 {
            Ok(BlockKind::PrinterMetadata)
        } else if value == 4 {
            Ok(BlockKind::PrintMetadata)
        } else if value == 5 {
            Ok(BlockKind::Thumbnail)
        } else {
            Err(BlockDeserialiserError::UnsupportedBlockKind(value))
        }
    }

    pub fn new(value: u16) -> (r: Result<Self, BlockDeserialiserError>)
        ensures
            r == Self::decode(value),
            r is Ok <==> value <= 5,
            r is Ok ==> r->Ok_0.code() == value,
    {
        match value {
            0 => Ok(Self::FileMetadata),
            1 => Ok(Self::GCode),
            2 => Ok(Self::SlicerMetadata),
            3 => Ok(Self::PrinterMetadata),
            4 => Ok(Self::PrintMetadata),
            5 => Ok(Self::Thumbnail),
            v => Err(BlockDeserialiserError::UnsupportedBlockKind(v)),
        }
    }

    /// The tag of this kind as two little-endian bytes.
    pub fn to_le_bytes(&self) -> (r: [u8; 2])
        ensures
            r@.len() == 2,
            u16_at(r@, 0) == self.code(),
            Self::decode(u16_at(r@, 0) as u16) == Ok::<BlockKind, BlockDeserialiserError>(*self),
    {
        let r: [u8; 2] = match *self {
            BlockKind::FileMetadata => [0, 0],
            BlockKind::GCode => [1, 0],
            BlockKind::SlicerMetadata => [2, 0],
            BlockKind::PrinterMetadata => [3, 0],
            BlockKind::PrintMetadata => [4, 0],
            BlockKind::Thumbnail => [5, 0],
        };
        r
    }

    pub fn from_le_bytes(bytes: [u8; 2]) -> (r: Result<Self, BlockDeserialiserError>)
        ensures
            r == Self::decode(u16_at(bytes@, 0) as u16),
    {
        let value = le_u16(bytes[0], bytes[1]);
        BlockKind::new(value)
    }

    pub fn parameter_byte_size(&self) -> (r: usize)
        ensures
            r == self.param_width(),
            *self == BlockKind::Thumbnail ==> r == 6,
            *self != BlockKind::Thumbnail ==> r == 2,
    {
        match *self {
            BlockKind::Thumbnail => 6,
            _ => 2,
        }
    }
}

#[derive(Debug, Clone, Copy, PartialEq, Eq, Structural)]
pub enum CompressionAlgorithm {
    Uncompressed,
    /// zlib stream.
    Deflate,
    /// Heatshrink, window 11, lookahead 4.
    Heatshrink11_4,
    /// Heatshrink, window 12, lookahead 4.
    Heatshrink12_4,
}

impl CompressionAlgorithm {
    /// The 16-bit tag that stands for this algorithm on the wire.
    pub open spec fn code(self) -> u16 {
        match self {
            CompressionAlgorithm::Uncompressed => 0,
            CompressionAlgorithm::Deflate => 1,
            CompressionAlgorithm::Heatshrink11_4 => 2,
            CompressionAlgorithm::Heatshrink12_4 => 3,
        }
    }

    /// Algorithm decoded from a tag, with the error for an unknown tag.
    pub open spec fn decode(value: u16) -> Result<CompressionAlgorithm, BlockDeserialiserError> {
        if value == 0 {
            Ok(CompressionAlgorithm::Uncompressed)
        } else if value == 1 {
            Ok(CompressionAlgorithm::Deflate)
        } else if value == 2 {
            Ok(CompressionAlgorithm::Heatshrink11_4)
        } else if value == 3 {
            Ok(CompressionAlgorithm::Heatshrink12_4)
        } else {
            Err(BlockDeserialiserError::UnsupportedCompressionAlgorithm(value))
        }
    }

    pub fn new(value: u16) -> (r: Result<Self, BlockDeserialiserError>)
        ensures
            r == Self::decode(value),
            r is Ok <==> value <= 3,
            r is Ok ==> r->Ok_0.code() == value,
    {
        match value {
            0 => Ok(Self::Uncompressed),
            1 => Ok(Self::Deflate),
            2 => Ok(Self::Heatshrink11_4),
            3 => Ok(Self::Heatshrink12_4),
            v => Err(BlockDeserialiserError::UnsupportedCompressionAlgorithm(v)),
        }
    }

    /// The tag of this algorithm as two little-endian bytes.
    pub fn to_le_bytes(&self) -> (r: [u8; 2])
        ensures
            r@.len() == 2,
            u16_at(r@, 0) == self.code(),
            Self::decode(u16_at(r@, 0) as u16) == Ok::<CompressionAlgorithm, BlockDeserialiserError>(*self),
    {
        let r: [u8; 2] = match *self {
            CompressionAlgorithm::Uncompressed => [0, 0],
            CompressionAlgorithm::Deflate => [1, 0],
            CompressionAlgorithm::Heatshrink11_4 => [2, 0],
            CompressionAlgorithm::Heatshrink12_4 => [3, 0],
        };
        r
    }

    pub fn from_le_bytes(bytes: [u8; 2]) -> (r: Result<Self, BlockDeserialiserError>)
        ensures
            r == Self::decode(u16_at(bytes@, 0) as u16),
    {
        let value = le_u16(bytes[0], bytes[1]);
        CompressionAlgorithm::new(value)
    }
}

/// The 16-bit integer whose little-endian bytes are `lo`, `hi`.
fn le_u16(lo: u8, hi: u8) -> (r: u16)
    ensures
        r == lo + 256 * hi,
{
    lo as u16 + 256 * (hi as u16)
}

/// The two bytes of `buf` at `at` as a little-endian integer, or
/// `TryFromSliceError` where `buf` ends before them.
fn read_u16_le(buf: &Vec<u8>, at: usize) -> (r: Result<u16, BlockDeserialiserError>)
    requires
        at <= 12,
    ensures
        at + 2 <= buf@.len() ==> r == Ok::<u16, BlockDeserialiserError>(u16_at(buf@, at as int) as u16),
        at + 2 > buf@.len() ==> r == Err::<u16, BlockDeserialiserError>(BlockDeserialiserError::TryFromSliceError),
{
    if buf.len() < at + 2 {
        return Err(BlockDeserialiserError::TryFromSliceError);
    }
    Ok(le_u16(buf[at], buf[at + 1]))
}

/// The four bytes of `buf` at `at` as a little-endian integer, or
/// `TryFromSliceError` where `buf` ends before them.
fn read_u32_le(buf: &Vec<u8>, at: usize) -> (r: Result<u32, BlockDeserialiserError>)
    requires
        at <= 12,
    ensures
        at + 4 <= buf@.len() ==> r == Ok::<u32, BlockDeserialiserError>(u32_at(buf@, at as int) as u32),
        at + 4 > buf@.len() ==> r == Err::<u32, BlockDeserialiserError>(BlockDeserialiserError::TryFromSliceError),
{
    if buf.len() < at + 4 {
        return Err(BlockDeserialiserError::TryFromSliceError);
    }
    let b0 = buf[at] as u32;
    let b1 = buf[at + 1] as u32;
    let b2 = buf[at + 2] as u32;
    let b3 = buf[at + 3] as u32;
    Ok(b0 + 256 * b1 + 65536 * b2 + 16777216 * b3)
}

/// Kind tag of a block whose bytes start `s`.
pub open spec fn kind_of(s: Seq<u8>) -> Result<BlockKind, BlockDeserialiserError> {
    if s.len() < 2 {
        Err(BlockDeserialiserError::TryFromSliceError)
    } else {
        BlockKind::decode(u16_at(s, 0) as u16)
    }
}

/// Compression tag of a block whose bytes start `s`.
pub open spec fn compression_of(s: Seq<u8>) -> Result<CompressionAlgorithm, BlockDeserialiserError> {
    if s.len() < 4 {
        Err(BlockDeserialiserError::TryFromSliceError)
    } else {
        CompressionAlgorithm::decode(u16_at(s, 2) as u16)
    }
}

/// Uncompressed payload size field, bytes `[4, 8)`.
pub open spec fn uncompressed_size_of(s: Seq<u8>) -> Result<int, BlockDeserialiserError> {
    if s.len() < 8 {
        Err(BlockDeserialiserError::TryFromSliceError)
    } else {
        Ok(u32_at(s, 4))
    }
}

/// Compressed payload size field, bytes `[8, 12)`, present only when the
/// block is compressed.
pub open spec fn compressed_size_of(s: Seq<u8>) -> Result<int, BlockDeserialiserError> {
    match compression_of(s) {
        Err(e) => Err(e),
        Ok(CompressionAlgorithm::Uncompressed) => Err(BlockDeserialiserError::IsNotCompressed),
        Ok(_) => if s.len() < 12 {
            Err(BlockDeserialiserError::TryFromSliceError)
        } else {
            Ok(u32_at(s, 8))
        },
    }
}

/// A byte count after the probe window, refused when negative or when the
/// whole block could not be addressed.
pub open spec fn checked_size(size: int) -> Result<int, BlockDeserialiserError> {
    if 0 <= size && 12 + size <= usize::MAX {
        Ok(size)
    } else {
        Err(BlockDeserialiserError::DataLengthMissMatch)
    }
}

/// The size arithmetic of the header model: parameter width plus trailer
/// width, then less the four probe bytes that belong to the payload region
/// plus the uncompressed size when uncompressed, or plus the compressed
/// size otherwise.
pub open spec fn size_formula(k: BlockKind, c: CompressionAlgorithm, tw: int, usize_: int, csize: int) -> int {
    if c == CompressionAlgorithm::Uncompressed {
        k.param_width() + tw - 4 + usize_
    } else {
        k.param_width() + tw + csize
    }
}

/// Number of bytes of the block that follow its 12-byte probe window.
pub open spec fn block_size_of(s: Seq<u8>, cs: FileChecksum) -> Result<int, BlockDeserialiserError> {
    match kind_of(s) {
        Err(e) => Err(e),
        Ok(k) => match compression_of(s) {
            Err(e) => Err(e),
            Ok(c) => if c == CompressionAlgorithm::Uncompressed {
                match uncompressed_size_of(s) {
                    Err(e) => Err(e),
                    Ok(u) => checked_size(size_formula(k, c, cs.trailer_width(), u, 0)),
                }
            } else {
                match compressed_size_of(s) {
                    Err(e) => Err(e),
                    Ok(z) => checked_size(size_formula(k, c, cs.trailer_width(), 0, z)),
                }
            },
        },
    }
}

/// Offset of the encoding tag: the header is 8 bytes wide when
/// uncompressed, 12 otherwise.
pub open spec fn encoding_offset(c: CompressionAlgorithm) -> int {
    if c == CompressionAlgorithm::Uncompressed {
        8
    } else {
        12
    }
}

/// Whether `tag` is an encoding that a block of kind `k` may carry.
pub open spec fn encoding_allowed(k: BlockKind, tag: int) -> bool {
    if k == BlockKind::Thumbnail {
        tag <= 2
    } else {
        tag == 0
    }
}

/// What decoding a buffer that holds exactly `s` gives.
pub open spec fn decoded(s: Seq<u8>, cs: FileChecksum) -> Result<Seq<u8>, BlockDeserialiserError> {
    match block_size_of(s, cs) {
        Err(e) => Err(e),
        Ok(size) => if s.len() != 12 + size {
            Err(BlockDeserialiserError::DataLengthMissMatch)
        } else {
            let k = kind_of(s)->Ok_0;
            let c = compression_of(s)->Ok_0;
            let idx = encoding_offset(c);
            let tag = u16_at(s, idx);
            if k == BlockKind::GCode {
                Err(BlockDeserialiserError::UnsupportedBlockKind(1))
            } else if !encoding_allowed(k, tag) {
                Err(BlockDeserialiserError::EncodingError(tag as u16))
            } else if c != CompressionAlgorithm::Uncompressed {
                Err(BlockDeserialiserError::UnsupportedCompressionAlgorithm(c.code()))
            } else {
                Ok(s.subrange(idx + 2, s.len() - cs.trailer_width()))
            }
        },
    }
}

/// The size of a block after its probe window: parameter width plus trailer
/// width, less four plus the uncompressed size when uncompressed, plus the
/// compressed size otherwise (where that count is addressable).
pub proof fn lemma_block_size_formula(s: Seq<u8>, cs: FileChecksum)
    requires
        s.len() >= 12,
        kind_of(s) is Ok,
        compression_of(s) is Ok,
        0 <= size_formula(kind_of(s)->Ok_0, compression_of(s)->Ok_0, cs.trailer_width(), u32_at(s, 4), u32_at(s, 8)),
        12 + size_formula(kind_of(s)->Ok_0, compression_of(s)->Ok_0, cs.trailer_width(), u32_at(s, 4), u32_at(s, 8))
            <= usize::MAX,
    ensures
        compression_of(s)->Ok_0 == CompressionAlgorithm::Uncompressed ==> block_size_of(s, cs) == Ok::<int, BlockDeserialiserError>(
            kind_of(s)->Ok_0.param_width() + cs.trailer_width() - 4 + u32_at(s, 4)),
        compression_of(s)->Ok_0 != CompressionAlgorithm::Uncompressed ==> block_size_of(s, cs) == Ok::<int, BlockDeserialiserError>(
            kind_of(s)->Ok_0.param_width() + cs.trailer_width() + u32_at(s, 8)),
        kind_of(s)->Ok_0 == BlockKind::Thumbnail ==> kind_of(s)->Ok_0.param_width() == 6,
        kind_of(s)->Ok_0 != BlockKind::Thumbnail ==> kind_of(s)->Ok_0.param_width() == 2,
{
}

/// Decoder of one block: a byte buffer that starts with the block's 12-byte
/// probe window, and the checksum mode of the file.
#[derive(Debug)]
pub struct BlockDeserialiser {
    buf: Vec<u8>,
    checksum: FileChecksum,
}

impl BlockDeserialiser {
    /// The bytes held so far.
    pub closed spec fn bytes(&self) -> Seq<u8> {
        self.buf@
    }

    /// The checksum mode given at construction.
    pub closed spec fn checksum_mode(&self) -> FileChecksum {
        self.checksum
    }

    pub fn new(checksum: FileChecksum) -> (r: Self)
        ensures
            r.bytes() == Seq::<u8>::empty(),
            r.checksum_mode() == checksum,
    {
        Self { buf: Vec::with_capacity(12), checksum }
    }

    /// A decoder that already holds `buf`.
    pub fn with_bytes(checksum: FileChecksum, buf: Vec<u8>) -> (r: Self)
        ensures
            r.bytes() == buf@,
            r.checksum_mode() == checksum,
    {
        Self { buf, checksum }
    }

    pub fn kind(&self) -> (r: Result<BlockKind, BlockDeserialiserError>)
        ensures
            r == kind_of(self.bytes()),
    {
        let value = read_u16_le(&self.buf, 0)?;
        BlockKind::new(value)
    }

    pub fn compression(&self) -> (r: Result<CompressionAlgorithm, BlockDeserialiserError>)
        ensures
            r == compression_of(self.bytes()),
    {
        let value = read_u16_le(&self.buf, 2)?;
        CompressionAlgorithm::new(value)
    }

    pub fn compressed_size(&self) -> (r: Result<usize, BlockDeserialiserError>)
        ensures
            compressed_size_of(self.bytes()) is Ok ==> r == Ok::<usize, BlockDeserialiserError>(
                compressed_size_of(self.bytes())->Ok_0 as usize),
            compressed_size_of(self.bytes()) is Err ==> r == Err::<usize, BlockDeserialiserError>(
                compressed_size_of(self.bytes())->Err_0),
    {
        let ca = self.compression()?;
        match ca {
            CompressionAlgorithm::Uncompressed => Err(BlockDeserialiserError::IsNotCompressed),
            _ => {
                let v = read_u32_le(&self.buf, 8)?;
                Ok(v as usize)
            },
        }
    }

    pub fn uncompressed_size(&self) -> (r: Result<usize, BlockDeserialiserError>)
        ensures
            uncompressed_size_of(self.bytes()) is Ok ==> r == Ok::<usize, BlockDeserialiserError>(
                uncompressed_size_of(self.bytes())->Ok_0 as usize),
            uncompressed_size_of(self.bytes()) is Err ==> r == Err::<usize, BlockDeserialiserError>(
                uncompressed_size_of(self.bytes())->Err_0),
    {
        let v = read_u32_le(&self.buf, 4)?;
        Ok(v as usize)
    }

    /// The encoding tag, which follows the header: at offset 8 when
    /// uncompressed, 12 otherwise.
    pub fn encoding(&self) -> (r: Result<u16, BlockDeserialiserError>)
        ensures
            compression_of(self.bytes()) is Err ==> r == Err::<u16, BlockDeserialiserError>(
                compression_of(self.bytes())->Err_0),
            compression_of(self.bytes()) is Ok ==> {
                let idx = encoding_offset(compression_of(self.bytes())->Ok_0);
                &&& idx + 2 <= self.bytes().len() ==> r == Ok::<u16, BlockDeserialiserError>(
                    u16_at(self.bytes(), idx) as u16)
                &&& idx + 2 > self.bytes().len() ==> r == Err::<u16, BlockDeserialiserError>(
                    BlockDeserialiserError::TryFromSliceError)
            },
    {
        let idx: usize = match self.compression()? {
            CompressionAlgorithm::Uncompressed => 8,
            _ => 12,
        };
        read_u16_le(&self.buf, idx)
    }

    /// Number of bytes of the block after its 12-byte probe window.
    pub fn block_size(&self) -> (r: Result<usize, BlockDeserialiserError>)
        ensures
            block_size_of(self.bytes(), self.checksum_mode()) is Ok ==> r == Ok::<usize, BlockDeserialiserError>(
                block_size_of(self.bytes(), self.checksum_mode())->Ok_0 as usize),
            block_size_of(self.bytes(), self.checksum_mode()) is Err ==> r == Err::<usize, BlockDeserialiserError>(
                block_size_of(self.bytes(), self.checksum_mode())->Err_0),
    {
        let mut size: u64 = 0;
        size += self.kind()?.parameter_byte_size() as u64;
        size += self.checksum.checksum_byte_size() as u64;
        let c = self.compression()?;
        match c {
            CompressionAlgorithm::Uncompressed => {
                // the header is 8 bytes wide: the probe window's last four
                // bytes already belong to the parameter and payload region
                size += self.uncompressed_size()? as u64;
                if size < 4 {
                    return Err(BlockDeserialiserError::DataLengthMissMatch);
                }
                size -= 4;
            },
            _ => size += self.compressed_size()? as u64,
        }
        if size > usize::MAX as u64 - 12 {
            return Err(BlockDeserialiserError::DataLengthMissMatch);
        }
        let size = size as usize;
        Ok(size)
    }

    /// Clears the buffer to 12 zero bytes and hands it out, for the probe
    /// window to be read into.
    pub fn header_buf(&mut self) -> (r: &mut [u8])
        ensures
            r@ == Seq::<u8>::new(12, |i: int| 0u8),
            final(self).bytes() == final(r)@,
            final(self).checksum_mode() == old(self).checksum_mode(),
    {
        self.buf = Vec::with_capacity(12);
        let mut i: usize = 0;
        while i < 12
            invariant
                i <= 12,
                self.buf@ == Seq::<u8>::new(i as nat, |j: int| 0u8),
                self.checksum == old(self).checksum,
            decreases 12 - i,
        {
            self.buf.push(0);
            i += 1;
            assert(self.buf@ =~= Seq::<u8>::new(i as nat, |j: int| 0u8));
        }
        assert(self.checksum == old(self).checksum);
        self.buf.as_mut_slice()
    }

    /// Grows the buffer by the block's size in zero bytes after its probe
    /// window, and hands out that region to be filled.
    pub fn data_buf(&mut self) -> (r: Result<&mut [u8], BlockDeserialiserError>)
        requires
            old(self).bytes().len() == 12,
        ensures
            block_size_of(old(self).bytes(), old(self).checksum_mode()) is Err ==> {
                &&& r is Err
                &&& r->Err_0 == block_size_of(old(self).bytes(), old(self).checksum_mode())->Err_0
                &&& final(self).bytes() == old(self).bytes()
            },
            block_size_of(old(self).bytes(), old(self).checksum_mode()) is Ok ==> {
                &&& r is Ok
                &&& r->Ok_0@ == Seq::<u8>::new(
                    block_size_of(old(self).bytes(), old(self).checksum_mode())->Ok_0 as nat,
                    |i: int| 0u8,
                )
                &&& final(self).bytes() == old(self).bytes() + final(r->Ok_0)@
            },
            final(self).checksum_mode() == old(self).checksum_mode(),
    {
        let additional = match self.block_size() {
            Ok(n) => n,
            Err(e) => return Err(e),
        };
        let ghost head = self.buf@;
        let mut i: usize = 0;
        while i < additional
            invariant
                i <= additional,
                head.len() == 12,
                12 + additional <= usize::MAX,
                self.buf@ == head + Seq::<u8>::new(i as nat, |j: int| 0u8),
                self.checksum == old(self).checksum,
            decreases additional - i,
        {
            self.buf.push(0);
            i += 1;
            assert(self.buf@ =~= head + Seq::<u8>::new(i as nat, |j: int| 0u8));
        }
        assert(self.buf@.subrange(12, 12 + additional as int) =~= Seq::<u8>::new(additional as nat, |j: int| 0u8));
        assert(self.buf@.subrange(0, 12) =~= head);
        let whole = self.buf.as_mut_slice();
        let (_, tail) = whole.split_at_mut(12);
        Ok(tail)
    }

    /// Decodes the block that the buffer holds: checks that the buffer is
    /// exactly as long as the header says, then dispatches on the kind.
    pub fn deserialise(&self) -> (r: Result<Vec<u8>, BlockDeserialiserError>)
        ensures
            decoded(self.bytes(), self.checksum_mode()) is Ok ==> {
                &&& r is Ok
                &&& r->Ok_0@ == decoded(self.bytes(), self.checksum_mode())->Ok_0
            },
            decoded(self.bytes(), self.checksum_mode()) is Err ==> r == Err::<Vec<u8>, BlockDeserialiserError>(
                decoded(self.bytes(), self.checksum_mode())->Err_0),
    {
        // a buffer of another length means that a read was missed or overrun
        let size = self.block_size()?;
        if 12 + size != self.buf.len() {
            return Err(BlockDeserialiserError::DataLengthMissMatch);
        }
        match self.kind()? {
            BlockKind::FileMetadata => self.deserialise_ini_data(),
            BlockKind::GCode => Err(BlockDeserialiserError::UnsupportedBlockKind(1)),
            BlockKind::PrintMetadata => self.deserialise_ini_data(),
            BlockKind::PrinterMetadata => self.deserialise_ini_data(),
            BlockKind::SlicerMetadata => self.deserialise_ini_data(),
            BlockKind::Thumbnail => self.deserialise_thumbnail_data(),
        }
    }

    /// Start and end of the payload of a block of the right length, after
    /// checking its encoding tag against what its kind allows.
    fn payload_bounds(&self, thumbnail: bool) -> (r: Result<(usize, usize), BlockDeserialiserError>)
        requires
            block_size_of(self.bytes(), self.checksum_mode()) is Ok,
            self.bytes().len() == 12 + block_size_of(self.bytes(), self.checksum_mode())->Ok_0,
            thumbnail <==> kind_of(self.bytes())->Ok_0 == BlockKind::Thumbnail,
        ensures
            ({
                let s = self.bytes();
                let idx = encoding_offset(compression_of(s)->Ok_0);
                let tag = u16_at(s, idx);
                &&& encoding_allowed(kind_of(s)->Ok_0, tag) ==> r == Ok::<(usize, usize), BlockDeserialiserError>(
                    ((idx + 2) as usize, (s.len() - self.checksum_mode().trailer_width()) as usize))
                &&& !encoding_allowed(kind_of(s)->Ok_0, tag) ==> r == Err::<(usize, usize), BlockDeserialiserError>(
                    BlockDeserialiserError::EncodingError(tag as u16))
                &&& idx + 2 <= s.len() - self.checksum_mode().trailer_width()
            }),
    {
        let c = self.compression()?;
        let idx: usize = match c {
            CompressionAlgorithm::Uncompressed => 8,
            _ => 12,
        };
        let encoding = read_u16_le(&self.buf, idx)?;
        if (thumbnail && encoding > 2) || (!thumbnail && encoding != 0) {
            return Err(BlockDeserialiserError::EncodingError(encoding));
        }
        let start = idx + 2;
        // the checksum trailer is left out of the payload; nothing checks it yet
        let end = match self.checksum {
            FileChecksum::NoChecksum => self.buf.len(),
            FileChecksum::Crc32 => self.buf.len() - 4,
        };
        Ok((start, end))
    }

    /// Payload of an image block, whose encoding is one of 0, 1, 2.
    fn deserialise_thumbnail_data(&self) -> (r: Result<Vec<u8>, BlockDeserialiserError>)
        requires
            block_size_of(self.bytes(), self.checksum_mode()) is Ok,
            self.bytes().len() == 12 + block_size_of(self.bytes(), self.checksum_mode())->Ok_0,
            kind_of(self.bytes())->Ok_0 == BlockKind::Thumbnail,
        ensures
            decoded(self.bytes(), self.checksum_mode()) is Ok ==> {
                &&& r is Ok
                &&& r->Ok_0@ == decoded(self.bytes(), self.checksum_mode())->Ok_0
            },
            decoded(self.bytes(), self.checksum_mode()) is Err ==> r == Err::<Vec<u8>, BlockDeserialiserError>(
                decoded(self.bytes(), self.checksum_mode())->Err_0),
    {
        let (start, end) = self.payload_bounds(true)?;
        self.deserialise_data(start, end)
    }

    /// Payload of a text metadata block, whose encoding must be 0.
    fn deserialise_ini_data(&self) -> (r: Result<Vec<u8>, BlockDeserialiserError>)
        requires
            block_size_of(self.bytes(), self.checksum_mode()) is Ok,
            self.bytes().len() == 12 + block_size_of(self.bytes(), self.checksum_mode())->Ok_0,
            kind_of(self.bytes())->Ok_0 != BlockKind::Thumbnail,
            kind_of(self.bytes())->Ok_0 != BlockKind::GCode,
        ensures
            decoded(self.bytes(), self.checksum_mode()) is Ok ==> {
                &&& r is Ok
                &&& r->Ok_0@ == decoded(self.bytes(), self.checksum_mode())->Ok_0
            },
            decoded(self.bytes(), self.checksum_mode()) is Err ==> r == Err::<Vec<u8>, BlockDeserialiserError>(
                decoded(self.bytes(), self.checksum_mode())->Err_0),
    {
        let (start, end) = self.payload_bounds(false)?;
        self.deserialise_data(start, end)
    }

    /// Bytes `[start, end)` of the buffer, decompressed: a copy when
    /// uncompressed; no codec is provided for the other algorithms.
    fn deserialise_data(&self, start: usize, end: usize) -> (r: Result<Vec<u8>, BlockDeserialiserError>)
        requires
            start <= end <= self.bytes().len(),
            compression_of(self.bytes()) is Ok,
        ensures
            compression_of(self.bytes())->Ok_0 == CompressionAlgorithm::Uncompressed ==> {
                &&& r is Ok
                &&& r->Ok_0@ == self.bytes().subrange(start as int, end as int)
            },
            compression_of(self.bytes())->Ok_0 != CompressionAlgorithm::Uncompressed ==> r == Err::<Vec<u8>, BlockDeserialiserError>(
                BlockDeserialiserError::UnsupportedCompressionAlgorithm(compression_of(self.bytes())->Ok_0.code())),
    {
        let c = self.compression()?;
        match c {
            CompressionAlgorithm::Uncompressed => {
                let mut data: Vec<u8> = Vec::with_capacity(end - start);
                let mut i: usize = start;
                while i < end
                    invariant
                        start <= i <= end,
                        end <= self.buf@.len(),
                        data@ == self.buf@.subrange(start as int, i as int),
                    decreases end - i,
                {
                    data.push(self.buf[i]);
                    i += 1;
                    assert(data@ =~= self.buf@.subrange(start as int, i as int));
                }
                Ok(data)
            },
            CompressionAlgorithm::Deflate => Err(BlockDeserialiserError::UnsupportedCompressionAlgorithm(1)),
            CompressionAlgorithm::Heatshrink11_4 => Err(BlockDeserialiserError::UnsupportedCompressionAlgorithm(2)),
            CompressionAlgorithm::Heatshrink12_4 => Err(BlockDeserialiserError::UnsupportedCompressionAlgorithm(3)),
        }
    }
}

} // verus!
