//! Typed failures for every fallible entry point of the codec.  Malformed
//! input never panics; it surfaces as one of these values.

use vstd::prelude::*;

verus! {

/// Details of one chunk whose stored checksum does not match the checksum
/// computed over its type and payload bytes.
#[derive(Clone, Copy, Debug, PartialEq, Eq)]
pub struct CrcFailure {
    /// Position of the chunk in the file, counted from zero.
    pub index: usize,
    /// The four type bytes of the chunk.
    pub chunk_type: [u8; 4],
    /// The declared payload length of the chunk.
    pub length: u32,
    /// The checksum stored after the payload.
    pub stored_crc: u32,
    /// The checksum computed over the type and payload bytes.
    pub computed_crc: u32,
}

/// Everything that can go wrong while reading, building or interpreting a
/// container.
#[derive(Debug, PartialEq, Eq)]
pub enum PNGError {
    /// The buffer is shorter than the signature or does not begin with it.
    MalformedSignature,
    /// A chunk type is not four bytes of ASCII letters.
    InvalidChunkType,
    /// A declared payload length exceeds the format's maximum.
    LengthOverflow,
    /// One or more chunks failed checksum validation; every failing chunk
    /// is listed, in file order.
    CrcMismatch(Vec<CrcFailure>),
    /// A read would run past the end of the buffer.
    TruncatedBuffer,
    /// A build was attempted without a leading `IHDR` chunk.
    MissingHeader,
    /// A width or height of an image header is zero or negative.
    InvalidDimension,
    /// A bit depth outside 1, 2, 4, 8 and 16.
    InvalidBitDepth,
    /// A color type outside 0, 2, 3, 4 and 6.
    InvalidColorType,
    /// A bit depth the given color type does not allow.
    IncompatibleBitDepthForColorType,
    /// A compression method other than 0.
    InvalidCompressionMethod,
    /// A filter method other than 0.
    InvalidFilterMethod,
    /// An interlace method other than 0 or 1.
    InvalidInterlaceMethod,
}

} // verus!
