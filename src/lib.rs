//! Decoding of the blocks of a block-structured binary container: header
//! model, per-block decoder and an incremental byte-feeding front end.

pub mod block;
pub mod deserialiser;
