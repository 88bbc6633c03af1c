use bgcode::block::{
    BlockDeserialiser, BlockDeserialiserError, BlockKind, CompressionAlgorithm, FileChecksum,
};
use bgcode::deserialiser::{DeserialisedResult, Deserialiser};

/// An uncompressed block: 8-byte header, parameter bytes, payload, trailer.
fn uncompressed_block(kind: u16, params: &[u8], payload: &[u8], trailer: &[u8]) -> Vec<u8> {
    let mut v = Vec::new();
    v.extend_from_slice(&kind.to_le_bytes());
    v.extend_from_slice(&0u16.to_le_bytes());
    v.extend_from_slice(&(payload.len() as u32).to_le_bytes());
    v.extend_from_slice(params);
    v.extend_from_slice(payload);
    v.extend_from_slice(trailer);
    v
}

/// A compressed block: 12-byte header, parameter bytes, compressed payload, trailer.
fn compressed_block(kind: u16, compression: u16, params: &[u8], payload: &[u8], trailer: &[u8]) -> Vec<u8> {
    let mut v = Vec::new();
    v.extend_from_slice(&kind.to_le_bytes());
    v.extend_from_slice(&compression.to_le_bytes());
    v.extend_from_slice(&((payload.len() * 3) as u32).to_le_bytes());
    v.extend_from_slice(&(payload.len() as u32).to_le_bytes());
    v.extend_from_slice(params);
    v.extend_from_slice(payload);
    v.extend_from_slice(trailer);
    v
}

fn sample_file() -> Vec<u8> {
    let mut v = Vec::new();
    v.extend(uncompressed_block(0, &[0, 0], b"Producer=PrusaSlicer 2.6.0\n", &[]));
    v.extend(uncompressed_block(3, &[0, 0], b"printer_model=MINI\nfilament_type=PLA\n", &[]));
    v.extend(uncompressed_block(5, &[0, 0, 16, 0, 16, 0], &[0x89, b'P', b'N', b'G', 1, 2, 3], &[]));
    v.extend(uncompressed_block(4, &[0, 0], b"estimated printing time=12m\n", &[]));
    v.extend(uncompressed_block(2, &[0, 0], b"layer_height=0.2\n", &[]));
    v
}

fn take_block(d: &mut Deserialiser) -> bgcode::deserialiser::DecodedBlock {
    match d.deserialise().unwrap() {
        DeserialisedResult::Block(b) => b,
        DeserialisedResult::MoreBytesRequired(n) => panic!("{} more bytes required", n),
    }
}

fn more_required(d: &mut Deserialiser) -> usize {
    match d.deserialise().unwrap() {
        DeserialisedResult::MoreBytesRequired(n) => n,
        DeserialisedResult::Block(_) => panic!("a block came out"),
    }
}

#[test]
fn deser_test_file() {
    let mut deserialiser = Deserialiser::default();
    deserialiser.digest(&sample_file());

    let mut blocks = 0;
    loop {
        let r = deserialiser.deserialise().unwrap();
        match r {
            DeserialisedResult::MoreBytesRequired(_) => {
                break;
            }
            _ => blocks += 1,
        }
    }
    assert_eq!(blocks, 5);
}

#[test]
fn block_kind_tags() {
    assert_eq!(BlockKind::new(0).unwrap(), BlockKind::FileMetadata);
    assert_eq!(BlockKind::new(1).unwrap(), BlockKind::GCode);
    assert_eq!(BlockKind::new(5).unwrap(), BlockKind::Thumbnail);
    assert_eq!(BlockKind::from_le_bytes([4, 0]).unwrap(), BlockKind::PrintMetadata);
    assert_eq!(BlockKind::new(6).unwrap_err(), BlockDeserialiserError::UnsupportedBlockKind(6));
    assert_eq!(
        BlockKind::from_le_bytes([0, 1]).unwrap_err(),
        BlockDeserialiserError::UnsupportedBlockKind(256)
    );
    for k in [
        BlockKind::FileMetadata,
        BlockKind::GCode,
        BlockKind::SlicerMetadata,
        BlockKind::PrinterMetadata,
        BlockKind::PrintMetadata,
        BlockKind::Thumbnail,
    ] {
        assert_eq!(BlockKind::from_le_bytes(k.to_le_bytes()).unwrap(), k);
    }
    assert_eq!(BlockKind::GCode.to_le_bytes(), [1, 0]);
    assert_eq!(BlockKind::Thumbnail.to_le_bytes(), [5, 0]);
}

#[test]
fn compression_tags() {
    assert_eq!(CompressionAlgorithm::new(0).unwrap(), CompressionAlgorithm::Uncompressed);
    assert_eq!(CompressionAlgorithm::new(3).unwrap(), CompressionAlgorithm::Heatshrink12_4);
    assert_eq!(
        CompressionAlgorithm::new(4).unwrap_err(),
        BlockDeserialiserError::UnsupportedCompressionAlgorithm(4)
    );
    assert_eq!(CompressionAlgorithm::Deflate.to_le_bytes(), [1, 0]);
    assert_eq!(CompressionAlgorithm::from_le_bytes([2, 0]).unwrap(), CompressionAlgorithm::Heatshrink11_4);
}

#[test]
fn parameter_widths() {
    assert_eq!(BlockKind::Thumbnail.parameter_byte_size(), 6);
    assert_eq!(BlockKind::FileMetadata.parameter_byte_size(), 2);
    assert_eq!(BlockKind::GCode.parameter_byte_size(), 2);
    assert_eq!(BlockKind::SlicerMetadata.parameter_byte_size(), 2);
    assert_eq!(BlockKind::PrinterMetadata.parameter_byte_size(), 2);
    assert_eq!(BlockKind::PrintMetadata.parameter_byte_size(), 2);
    assert_eq!(FileChecksum::NoChecksum.checksum_byte_size(), 0);
    assert_eq!(FileChecksum::Crc32.checksum_byte_size(), 4);
}

#[test]
fn block_size_uncompressed_and_compressed() {
    // uncompressed: 2 + 4 - 4 + 10
    let bytes = uncompressed_block(0, &[0, 0], b"abcdefghij", &[1, 2, 3, 4]);
    let d = BlockDeserialiser::with_bytes(FileChecksum::Crc32, bytes.clone());
    assert_eq!(d.block_size().unwrap(), 12);
    assert_eq!(d.uncompressed_size().unwrap(), 10);
    assert_eq!(d.compressed_size().unwrap_err(), BlockDeserialiserError::IsNotCompressed);
    assert_eq!(bytes.len(), 12 + 12);
    // compressed thumbnail: 6 + 0 + 5
    let bytes = compressed_block(5, 1, &[0, 0, 1, 0, 1, 0], &[9, 9, 9, 9, 9], &[]);
    let d = BlockDeserialiser::with_bytes(FileChecksum::NoChecksum, bytes.clone());
    assert_eq!(d.block_size().unwrap(), 11);
    assert_eq!(d.compressed_size().unwrap(), 5);
    assert_eq!(d.uncompressed_size().unwrap(), 15);
    assert_eq!(bytes.len(), 12 + 11);
}

#[test]
fn accessors_on_short_buffer() {
    let d = BlockDeserialiser::new(FileChecksum::NoChecksum);
    assert_eq!(d.kind().unwrap_err(), BlockDeserialiserError::TryFromSliceError);
    let d = BlockDeserialiser::with_bytes(FileChecksum::NoChecksum, vec![5, 0, 1]);
    assert_eq!(d.kind().unwrap(), BlockKind::Thumbnail);
    assert_eq!(d.compression().unwrap_err(), BlockDeserialiserError::TryFromSliceError);
    assert_eq!(d.block_size().unwrap_err(), BlockDeserialiserError::TryFromSliceError);
    let d = BlockDeserialiser::with_bytes(FileChecksum::NoChecksum, vec![0, 0, 1, 0, 0, 0, 0, 0, 7]);
    assert_eq!(d.compressed_size().unwrap_err(), BlockDeserialiserError::TryFromSliceError);
}

#[test]
fn block_size_below_probe_window() {
    // an empty metadata block is 10 bytes long, shorter than the probe window
    let bytes = uncompressed_block(0, &[0, 0], b"", &[]);
    let d = BlockDeserialiser::with_bytes(FileChecksum::NoChecksum, bytes);
    assert_eq!(d.block_size().unwrap_err(), BlockDeserialiserError::DataLengthMissMatch);
}

#[test]
fn header_and_data_buffers() {
    let bytes = uncompressed_block(2, &[0, 0], b"key=value\n", &[0xaa, 0xbb, 0xcc, 0xdd]);
    let mut d = BlockDeserialiser::new(FileChecksum::Crc32);
    let header = d.header_buf();
    assert_eq!(header.len(), 12);
    header.copy_from_slice(&bytes[..12]);
    let data = d.data_buf().unwrap();
    assert_eq!(data.len(), bytes.len() - 12);
    assert!(data.iter().all(|b| *b == 0));
    data.copy_from_slice(&bytes[12..]);
    assert_eq!(d.deserialise().unwrap(), b"key=value\n".to_vec());
}

#[test]
fn data_length_mismatch() {
    let mut bytes = uncompressed_block(0, &[0, 0], b"abc=1\n", &[]);
    bytes.push(0);
    let d = BlockDeserialiser::with_bytes(FileChecksum::NoChecksum, bytes.clone());
    assert_eq!(d.deserialise().unwrap_err(), BlockDeserialiserError::DataLengthMissMatch);
    bytes.pop();
    bytes.pop();
    let d = BlockDeserialiser::with_bytes(FileChecksum::NoChecksum, bytes);
    assert_eq!(d.deserialise().unwrap_err(), BlockDeserialiserError::DataLengthMissMatch);
}

#[test]
fn metadata_encoding_must_be_zero() {
    let bytes = uncompressed_block(0, &[1, 0], b"a=b\n", &[]);
    let d = BlockDeserialiser::with_bytes(FileChecksum::NoChecksum, bytes);
    assert_eq!(d.deserialise().unwrap_err(), BlockDeserialiserError::EncodingError(1));
}

#[test]
fn thumbnail_encodings() {
    let bytes = uncompressed_block(5, &[3, 0, 8, 0, 8, 0], &[1, 2, 3], &[]);
    let d = BlockDeserialiser::with_bytes(FileChecksum::NoChecksum, bytes);
    assert_eq!(d.deserialise().unwrap_err(), BlockDeserialiserError::EncodingError(3));
    let bytes = uncompressed_block(5, &[2, 0, 8, 0, 8, 0], &[1, 2, 3], &[]);
    let d = BlockDeserialiser::with_bytes(FileChecksum::NoChecksum, bytes);
    // the payload region starts right after the encoding tag
    assert_eq!(d.deserialise().unwrap(), vec![8, 0, 8, 0, 1, 2, 3]);
}

#[test]
fn compressed_payload_has_no_codec() {
    let bytes = compressed_block(0, 1, &[0, 0], &[1, 2, 3], &[]);
    let d = BlockDeserialiser::with_bytes(FileChecksum::NoChecksum, bytes);
    assert_eq!(
        d.deserialise().unwrap_err(),
        BlockDeserialiserError::UnsupportedCompressionAlgorithm(1)
    );
    let bytes = compressed_block(0, 1, &[1, 0], &[1, 2, 3], &[]);
    let d = BlockDeserialiser::with_bytes(FileChecksum::NoChecksum, bytes);
    assert_eq!(d.deserialise().unwrap_err(), BlockDeserialiserError::EncodingError(1));
}

#[test]
fn gcode_payload_is_not_decoded() {
    let bytes = uncompressed_block(1, &[0, 0], b"G1 X1\n", &[]);
    let d = BlockDeserialiser::with_bytes(FileChecksum::NoChecksum, bytes);
    assert_eq!(d.deserialise().unwrap_err(), BlockDeserialiserError::UnsupportedBlockKind(1));
}

#[test]
fn stream_unknown_tags() {
    let mut d = Deserialiser::default();
    let mut bytes = uncompressed_block(6, &[0, 0], b"abc", &[]);
    d.digest(&bytes);
    assert_eq!(d.deserialise().unwrap_err(), BlockDeserialiserError::UnsupportedBlockKind(6));
    bytes[0] = 0;
    bytes[2] = 4;
    let mut d = Deserialiser::default();
    d.digest(&bytes);
    assert_eq!(
        d.deserialise().unwrap_err(),
        BlockDeserialiserError::UnsupportedCompressionAlgorithm(4)
    );
}

#[test]
fn file_metadata_end_to_end() {
    let payload = b"Producer=PrusaSlicer\n";
    let bytes = uncompressed_block(0, &[0, 0], payload, &[]);
    let mut d = Deserialiser::new(FileChecksum::NoChecksum);
    d.digest(&bytes);
    let b = take_block(&mut d);
    assert_eq!(b.data, payload.to_vec());
    assert_eq!(b.kind, BlockKind::FileMetadata);
    assert_eq!(b.compression, CompressionAlgorithm::Uncompressed);
    // 12 + (2 + 0 - 4 + 21)
    assert_eq!(b.length, 31);
    assert_eq!(b.encoding, 0);
    assert_eq!(b.length, bytes.len());
    assert_eq!(more_required(&mut d), 12);
}

#[test]
fn crc_trailer_is_cut_off() {
    let bytes = uncompressed_block(4, &[0, 0], b"x=1\n", &[1, 2, 3, 4]);
    let mut d = Deserialiser::new(FileChecksum::Crc32);
    d.digest(&bytes);
    let b = take_block(&mut d);
    assert_eq!(b.data, b"x=1\n".to_vec());
    assert_eq!(b.length, 18);
}

#[test]
fn chunking_gives_same_result() {
    let file = sample_file();
    let mut whole = Deserialiser::default();
    whole.digest(&file);
    let mut bytewise = Deserialiser::default();
    let mut from_bytes = Vec::new();
    for b in file.iter() {
        bytewise.digest(&[*b]);
        if let DeserialisedResult::Block(block) = bytewise.deserialise().unwrap() {
            from_bytes.push(block);
        }
    }
    let mut from_whole = Vec::new();
    while let DeserialisedResult::Block(block) = whole.deserialise().unwrap() {
        from_whole.push(block);
    }
    assert_eq!(from_whole.len(), 5);
    assert_eq!(from_bytes.len(), 5);
    for (a, b) in from_whole.iter().zip(from_bytes.iter()) {
        assert_eq!(a.data, b.data);
        assert_eq!(a.kind, b.kind);
        assert_eq!(a.length, b.length);
    }
}

#[test]
fn more_bytes_is_idempotent() {
    let bytes = uncompressed_block(0, &[0, 0], b"abcdef", &[]);
    let mut d = Deserialiser::default();
    d.digest(&bytes[..5]);
    assert_eq!(more_required(&mut d), 7);
    assert_eq!(more_required(&mut d), 7);
    d.digest(&bytes[5..13]);
    assert_eq!(more_required(&mut d), 3);
    assert_eq!(more_required(&mut d), 3);
    d.digest(&bytes[13..]);
    assert_eq!(take_block(&mut d).data, b"abcdef".to_vec());
}

#[test]
fn one_byte_short_boundary() {
    let bytes = uncompressed_block(5, &[1, 0, 2, 0, 2, 0], &[7; 20], &[]);
    let mut d = Deserialiser::default();
    d.digest(&bytes[..bytes.len() - 1]);
    assert_eq!(more_required(&mut d), 1);
    d.digest(&bytes[bytes.len() - 1..]);
    d.digest(&[0, 0]);
    let b = take_block(&mut d);
    assert_eq!(b.length, bytes.len());
    assert_eq!(b.encoding, 1);
    // only the two bytes after the block are left
    assert_eq!(more_required(&mut d), 10);
}
