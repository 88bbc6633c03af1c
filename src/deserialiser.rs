use vstd::prelude::*;

use crate::block::{
    block_size_of, compression_of, decoded, encoding_offset, kind_of, u16_at, u32_at, BlockDeserialiser,
    BlockDeserialiserError, BlockKind, CompressionAlgorithm, FileChecksum,
};

verus! {

/// A block taken off the front of the stream.
#[derive(Debug)]
pub struct DecodedBlock {
    pub kind: BlockKind,
    pub compression: CompressionAlgorithm,
    /// The encoding tag, checked against what the kind allows.
    pub encoding: u16,
    /// The payload, decompressed.
    pub data: Vec<u8>,
    /// How many bytes of the stream the block took.
    pub length: usize,
}

/// What one call of `Deserialiser::deserialise` gives when it does not fail.
#[derive(Debug)]
pub enum DeserialisedResult {
    /// The block at the front needs this many more bytes.
    MoreBytesRequired(usize),
    Block(DecodedBlock),
}

/// What the front of a buffer allows.
pub enum Step {
    /// This many more bytes are needed.
    More(int),
    /// A block of this many bytes is complete.
    Ready(int),
    /// The probe window of the front block is invalid.
    Fail(BlockDeserialiserError),
}

/// What the front of the buffered bytes `s` allows, under checksum mode `cs`.
pub open spec fn step(s: Seq<u8>, cs: FileChecksum) -> Step {
    if s.len() < 12 {
        Step::More(12 - s.len())
    } else {
        match block_size_of(s.subrange(0, 12), cs) {
            Err(e) => Step::Fail(e),
            Ok(size) => if s.len() < 12 + size {
                Step::More(12 + size - s.len())
            } else {
                Step::Ready(12 + size)
            },
        }
    }
}

/// The bytes left buffered after one call of `deserialise` on `s`.
pub open spec fn remaining(s: Seq<u8>, cs: FileChecksum) -> Seq<u8> {
    match step(s, cs) {
        Step::Ready(t) => s.subrange(t, s.len() as int),
        _ => s,
    }
}

/// The bytes buffered after `chunks` are digested, in order, on top of `start`.
pub open spec fn digested(start: Seq<u8>, chunks: Seq<Seq<u8>>) -> Seq<u8>
    decreases chunks.len(),
{
    if chunks.len() == 0 {
        start
    } else {
        digested(start + chunks[0], chunks.drop_first())
    }
}

/// The header model reads nothing beyond the 12-byte probe window.
pub proof fn lemma_probe_decides(a: Seq<u8>, b: Seq<u8>, cs: FileChecksum)
    requires
        a.len() >= 12,
        b.len() >= 12,
        a.subrange(0, 12) == b.subrange(0, 12),
    ensures
        block_size_of(a, cs) == block_size_of(b, cs),
        kind_of(a) == kind_of(b),
        compression_of(a) == compression_of(b),
{
    assert forall|i: int| 0 <= i < 12 implies a[i] == b[i] by {
        assert(a[i] == a.subrange(0, 12)[i]);
        assert(b[i] == b.subrange(0, 12)[i]);
    }
    assert(u16_at(a, 0) == u16_at(b, 0));
    assert(u16_at(a, 2) == u16_at(b, 2));
    assert(u32_at(a, 4) == u32_at(b, 4));
    assert(u32_at(a, 8) == u32_at(b, 8));
}

/// Digesting chunks leaves buffered what was there before followed by the
/// chunks' concatenation.
pub proof fn lemma_digested_concat(start: Seq<u8>, chunks: Seq<Seq<u8>>)
    ensures
        digested(start, chunks) == start + chunks.flatten(),
    decreases chunks.len(),
{
    if chunks.len() > 0 {
        lemma_digested_concat(start + chunks[0], chunks.drop_first());
        assert(chunks.flatten() == chunks[0] + chunks.drop_first().flatten());
        assert(start + chunks[0] + chunks.drop_first().flatten() =~= start + (chunks[0]
            + chunks.drop_first().flatten()));
    } else {
        assert(start + chunks.flatten() =~= start);
    }
}

/// How a byte stream is cut into chunks does not matter: two chunkings of the
/// same bytes, digested into an empty decoder, leave the same bytes buffered,
/// so every later call of `deserialise` gives the same result and leaves the
/// same bytes behind.
pub proof fn lemma_any_chunking(a: Seq<Seq<u8>>, b: Seq<Seq<u8>>, cs: FileChecksum)
    requires
        a.flatten() == b.flatten(),
    ensures
        digested(Seq::empty(), a) == a.flatten(),
        digested(Seq::empty(), a) == digested(Seq::empty(), b),
        step(digested(Seq::empty(), a), cs) == step(digested(Seq::empty(), b), cs),
        remaining(digested(Seq::empty(), a), cs) == remaining(digested(Seq::empty(), b), cs),
{
    lemma_digested_concat(Seq::empty(), a);
    lemma_digested_concat(Seq::empty(), b);
    assert(Seq::<u8>::empty() + a.flatten() =~= a.flatten());
    assert(Seq::<u8>::empty() + b.flatten() =~= b.flatten());
}

/// While more bytes are needed, `deserialise` takes nothing off, so calling it
/// again without digesting gives the same count.
pub proof fn lemma_more_bytes_idempotent(s: Seq<u8>, cs: FileChecksum)
    requires
        step(s, cs) is More,
    ensures
        remaining(s, cs) == s,
        step(remaining(s, cs), cs) == step(s, cs),
{
}

/// A buffer one byte short of a whole block needs exactly one more byte; a
/// buffer that holds exactly the block gives it and is left empty.
pub proof fn lemma_block_boundary(s: Seq<u8>, cs: FileChecksum)
    requires
        s.len() >= 12,
        block_size_of(s, cs) is Ok,
        s.len() == 12 + block_size_of(s, cs)->Ok_0,
    ensures
        step(s.subrange(0, s.len() - 1), cs) == Step::More(1),
        step(s, cs) == Step::Ready(s.len() as int),
        remaining(s, cs) == Seq::<u8>::empty(),
{
    assert(s.subrange(0, 12).subrange(0, 12) =~= s.subrange(0, 12));
    lemma_probe_decides(s, s.subrange(0, 12), cs);
    let short = s.subrange(0, s.len() - 1);
    if short.len() >= 12 {
        assert(short.subrange(0, 12) =~= s.subrange(0, 12));
        lemma_probe_decides(short, s.subrange(0, 12), cs);
    }
    assert(s.subrange(s.len() as int, s.len() as int) =~= Seq::<u8>::empty());
}

/// Stream decoder: bytes are digested in chunks of any size, and blocks are
/// taken off the front in the order they arrived.
#[derive(Debug)]
pub struct Deserialiser {
    buf: Vec<u8>,
    checksum: FileChecksum,
}

impl Default for Deserialiser {
    fn default() -> (r: Self)
        ensures
            r.bytes() == Seq::<u8>::empty(),
            r.checksum_mode() == FileChecksum::NoChecksum,
    {
        Self::new(FileChecksum::NoChecksum)
    }
}

impl Deserialiser {
    /// The bytes digested and not yet taken off.
    pub closed spec fn bytes(&self) -> Seq<u8> {
        self.buf@
    }

    /// The checksum mode given at construction.
    pub closed spec fn checksum_mode(&self) -> FileChecksum {
        self.checksum
    }

    pub fn new(checksum: FileChecksum) -> (r: Self)
        ensures
            r.bytes() == Seq::<u8>::empty(),
            r.checksum_mode() == checksum,
    {
        Self { buf: Vec::new(), checksum }
    }

    /// Appends `bytes` to what is buffered.
    pub fn digest(&mut self, bytes: &[u8])
        ensures
            final(self).bytes() == old(self).bytes() + bytes@,
            final(self).checksum_mode() == old(self).checksum_mode(),
    {
        let ghost start = self.buf@;
        let mut i: usize = 0;
        while i < bytes.len()
            invariant
                i <= bytes@.len(),
                self.buf@ == start + bytes@.subrange(0, i as int),
                self.checksum == old(self).checksum,
            decreases bytes@.len() - i,
        {
            self.buf.push(bytes[i]);
            i += 1;
            assert(self.buf@ =~= start + bytes@.subrange(0, i as int));
        }
        assert(bytes@.subrange(0, bytes@.len() as int) =~= bytes@);
    }

    /// Takes one block off the front of the buffer, or says how many more
    /// bytes it needs. Nothing is taken off unless the whole block is there.
    pub fn deserialise(&mut self) -> (r: Result<DeserialisedResult, BlockDeserialiserError>)
        ensures
            final(self).bytes() == remaining(old(self).bytes(), old(self).checksum_mode()),
            final(self).checksum_mode() == old(self).checksum_mode(),
            ({
                let s = old(self).bytes();
                let cs = old(self).checksum_mode();
                match step(s, cs) {
                    Step::More(n) => r == Ok::<DeserialisedResult, BlockDeserialiserError>(
                        DeserialisedResult::MoreBytesRequired(n as usize)),
                    Step::Fail(e) => r == Err::<DeserialisedResult, BlockDeserialiserError>(e),
                    Step::Ready(t) => {
                        let block = s.subrange(0, t);
                        match decoded(block, cs) {
                            Ok(d) => {
                                &&& r is Ok
                                &&& r->Ok_0 is Block
                                &&& r->Ok_0->Block_0.data@ == d
                                &&& r->Ok_0->Block_0.kind == kind_of(block)->Ok_0
                                &&& r->Ok_0->Block_0.compression == compression_of(block)->Ok_0
                                &&& r->Ok_0->Block_0.length == t
                                &&& r->Ok_0->Block_0.encoding == u16_at(block, encoding_offset(
                                    compression_of(block)->Ok_0))
                            },
                            Err(e) => r == Err::<DeserialisedResult, BlockDeserialiserError>(e),
                        }
                    },
                }
            }),
    {
        let len = self.buf.len();
        if len < 12 {
            return Ok(DeserialisedResult::MoreBytesRequired(12 - len));
        }
        let mut probe: Vec<u8> = Vec::with_capacity(12);
        let mut i: usize = 0;
        while i < 12
            invariant
                i <= 12,
                12 <= self.buf@.len(),
                probe@ == self.buf@.subrange(0, i as int),
            decreases 12 - i,
        {
            probe.push(self.buf[i]);
            i += 1;
            assert(probe@ =~= self.buf@.subrange(0, i as int));
        }
        let header = BlockDeserialiser::with_bytes(self.checksum, probe);
        let size = match header.block_size() {
            Ok(size) => size,
            Err(e) => return Err(e),
        };
        if len - 12 < size {
            return Ok(DeserialisedResult::MoreBytesRequired(12 + size - len));
        }
        let total = 12 + size;
        let ghost s = self.buf@;
        let mut rest = self.buf.split_off(total);
        core::mem::swap(&mut self.buf, &mut rest);
        let block = BlockDeserialiser::with_bytes(self.checksum, rest);
        proof {
            assert(s.subrange(0, total as int).subrange(0, 12) =~= s.subrange(0, 12));
            assert(s.subrange(0, 12).subrange(0, 12) =~= s.subrange(0, 12));
            lemma_probe_decides(s.subrange(0, total as int), s.subrange(0, 12), self.checksum);
        }
        let kind = block.kind()?;
        let compression = block.compression()?;
        let data = block.deserialise()?;
        let encoding = block.encoding()?;
        Ok(DeserialisedResult::Block(DecodedBlock { kind, compression, encoding, data, length: total }))
    }
}

} // verus!
