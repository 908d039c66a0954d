//! The four-byte chunk type code.  Type codes are restricted to ASCII
//! letters, and bit 5 of each byte — the ASCII case bit — carries one
//! property of the chunk: ancillary, private, reserved, safe-to-copy.

use crate::error::PNGError;
use crate::format::{is_type_byte, valid_type_bytes};
use vstd::prelude::*;
use vstd::string::*;

verus! {

/// Mask for bit 5, the property bit of each type byte.
pub const BIT_FIVE_MASK: u8 = 0x20;

/// Checks one byte against the type-code alphabet (ASCII letters only).
pub fn check_type_byte(b: u8) -> (r: bool)
    ensures
        r == is_type_byte(b),
{
    (65 <= b && b <= 90) || (97 <= b && b <= 122)
}

/// Relies on `String::from_utf8_lossy`: bytes below `0x80` are valid UTF-8
/// and decode one character per byte, with equal code points.
#[verifier::external_body]
pub(crate) fn ascii_to_string(bytes: &[u8]) -> (r: String)
    ensures
        (forall|i: int| 0 <= i < bytes@.len() ==> bytes@[i] < 128) ==> (r@.len()
            == bytes@.len() && (forall|i: int|
            0 <= i < bytes@.len() ==> r@[i] == #[trigger] bytes@[i] as char)),
{
    String::from_utf8_lossy(bytes).into_owned()
}

/// A four-byte chunk type code.  Codes are fixed binary values; decoders
/// compare them byte for byte and never case-fold them.
#[derive(Clone, Copy, Debug)]
pub struct ChunkType {
    code: [u8; 4],
}

impl ChunkType {
    /// The four type bytes.
    pub closed spec fn bytes(&self) -> Seq<u8> {
        self.code@
    }

    /// The ancillary property: bit 5 of the first byte.  A chunk with the
    /// bit set may be skipped by a decoder that does not recognise it.
    pub open spec fn spec_is_ancillary(&self) -> bool {
        self.bytes()[0] & BIT_FIVE_MASK != 0
    }

    /// The private property: bit 5 of the second byte.
    pub open spec fn spec_is_private(&self) -> bool {
        self.bytes()[1] & BIT_FIVE_MASK != 0
    }

    /// The reserved property: bit 5 of the third byte.  Must be 0 in files
    /// conforming to the current version of the format.
    pub open spec fn spec_is_reserved(&self) -> bool {
        self.bytes()[2] & BIT_FIVE_MASK != 0
    }

    /// The safe-to-copy property: bit 5 of the fourth byte.
    pub open spec fn spec_is_safe_to_copy(&self) -> bool {
        self.bytes()[3] & BIT_FIVE_MASK != 0
    }

    /// Builds a code from four raw bytes, without validation.
    pub(crate) fn from_code(code: [u8; 4]) -> (r: ChunkType)
        ensures
            r.bytes() == code@,
    {
        ChunkType { code }
    }

    /// Reads the four bytes of the code.
    pub fn get_chunk_type(&self) -> (r: [u8; 4])
        ensures
            r@ == self.bytes(),
    {
        self.code
    }

    /// Replaces the code with the bytes of `chunk_type`, unless they are
    /// not exactly four ASCII letters; then nothing changes.
    pub fn set_chunk_type(&mut self, chunk_type: &str) -> (r: Result<(), PNGError>)
        ensures
            valid_type_bytes(chunk_type.spec_bytes()) ==> (r == Ok::<(), PNGError>(())
                && final(self).bytes() == chunk_type.spec_bytes()),
            !valid_type_bytes(chunk_type.spec_bytes()) ==> (r == Err::<(), PNGError>(
                PNGError::InvalidChunkType,
            ) && *final(self) == *old(self)),
    {
        let bytes = chunk_type.as_bytes();
        if bytes.len() != 4 {
            return Err(PNGError::InvalidChunkType);
        }
        let b0 = bytes[0];
        let b1 = bytes[1];
        let b2 = bytes[2];
        let b3 = bytes[3];
        if !(check_type_byte(b0) && check_type_byte(b1) && check_type_byte(b2)
            && check_type_byte(b3)) {
            return Err(PNGError::InvalidChunkType);
        }
        self.code = [b0, b1, b2, b3];
        proof {
            assert(self.code@ =~= chunk_type.spec_bytes());
        }
        Ok(())
    }

    /// Checks that the stored code is four ASCII letters.
    pub fn validate(&self) -> (r: Result<(), PNGError>)
        ensures
            valid_type_bytes(self.bytes()) ==> r == Ok::<(), PNGError>(()),
            !valid_type_bytes(self.bytes()) ==> r == Err::<(), PNGError>(
                PNGError::InvalidChunkType,
            ),
    {
        if check_type_byte(self.code[0]) && check_type_byte(self.code[1]) && check_type_byte(
            self.code[2],
        ) && check_type_byte(self.code[3]) {
            Ok(())
        } else {
            Err(PNGError::InvalidChunkType)
        }
    }

    /// True when the chunk is ancillary: bit 5 of the first byte is set.
    pub fn is_ancillary(&self) -> (r: bool)
        ensures
            r == self.spec_is_ancillary(),
    {
        self.code[0] & BIT_FIVE_MASK != 0
    }

    /// True when the chunk is private: bit 5 of the second byte is set.
    pub fn is_private(&self) -> (r: bool)
        ensures
            r == self.spec_is_private(),
    {
        self.code[1] & BIT_FIVE_MASK != 0
    }

    /// True when the reserved bit is set: bit 5 of the third byte.
    pub fn is_reserved(&self) -> (r: bool)
        ensures
            r == self.spec_is_reserved(),
    {
        self.code[2] & BIT_FIVE_MASK != 0
    }

    /// True when the chunk is safe to copy: bit 5 of the fourth byte is set.
    pub fn is_safe_to_copy(&self) -> (r: bool)
        ensures
            r == self.spec_is_safe_to_copy(),
    {
        self.code[3] & BIT_FIVE_MASK != 0
    }

    /// Builds a code from a string of exactly four ASCII letters.
    pub fn new(chunk_type_str: &str) -> (r: Result<ChunkType, PNGError>)
        ensures
            valid_type_bytes(chunk_type_str.spec_bytes()) ==> (r matches Ok(t)
                && t.bytes() == chunk_type_str.spec_bytes()),
            !valid_type_bytes(chunk_type_str.spec_bytes()) ==> r == Err::<ChunkType, PNGError>(
                PNGError::InvalidChunkType,
            ),
    {
        let mut chunk = ChunkType { code: [0, 0, 0, 0] };
        match chunk.set_chunk_type(chunk_type_str) {
            Ok(()) => Ok(chunk),
            Err(e) => Err(e),
        }
    }

    /// Checks that a string is exactly four ASCII letters, as a type code
    /// must be.
    pub fn validate_chunk_type(chunk_type: &str) -> (r: Result<(), PNGError>)
        ensures
            valid_type_bytes(chunk_type.spec_bytes()) ==> r == Ok::<(), PNGError>(()),
            !valid_type_bytes(chunk_type.spec_bytes()) ==> r == Err::<(), PNGError>(
                PNGError::InvalidChunkType,
            ),
    {
        let bytes = chunk_type.as_bytes();
        if bytes.len() != 4 {
            return Err(PNGError::InvalidChunkType);
        }
        if check_type_byte(bytes[0]) && check_type_byte(bytes[1]) && check_type_byte(bytes[2])
            && check_type_byte(bytes[3]) {
            Ok(())
        } else {
            Err(PNGError::InvalidChunkType)
        }
    }
}

} // verus!
