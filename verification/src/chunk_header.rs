//! The fixed eight-byte chunk header: a 32-bit big-endian payload length
//! followed by the four-byte type code.

use crate::chunk_type::{ascii_to_string, ChunkType};
use crate::error::PNGError;
use crate::format::{valid_type_bytes, MAX_CHUNK_LENGTH};
use vstd::prelude::*;
use vstd::string::*;

verus! {

/// The header of one chunk: payload length and type code.  In the byte
/// stream the length occupies four big-endian bytes and the type code the
/// four bytes after them.
#[derive(Clone, Copy, Debug)]
pub struct ChunkHeader {
    length: u32,
    chunk_type: ChunkType,
}

impl ChunkHeader {
    /// The declared payload length.
    pub closed spec fn spec_length(&self) -> u32 {
        self.length
    }

    /// The four type bytes.
    pub closed spec fn spec_type(&self) -> Seq<u8> {
        self.chunk_type.bytes()
    }

    /// Builds a header from a length and a type string.  The type must be
    /// four ASCII letters; the length is stored as given, as the byte
    /// format can carry any 32-bit value.
    pub fn new(length: u32, chunk_type_str: &str) -> (r: Result<ChunkHeader, PNGError>)
        ensures
            valid_type_bytes(chunk_type_str.spec_bytes()) ==> (r matches Ok(h)
                && h.spec_length() == length && h.spec_type() == chunk_type_str.spec_bytes()),
            !valid_type_bytes(chunk_type_str.spec_bytes()) ==> r == Err::<ChunkHeader, PNGError>(
                PNGError::InvalidChunkType,
            ),
    {
        match ChunkType::new(chunk_type_str) {
            Ok(chunk_type) => Ok(ChunkHeader { length, chunk_type }),
            Err(e) => Err(e),
        }
    }

    /// Builds a header from raw parts, without validation.
    pub(crate) fn from_parts(length: u32, code: [u8; 4]) -> (r: ChunkHeader)
        ensures
            r.spec_length() == length,
            r.spec_type() == code@,
    {
        ChunkHeader { length, chunk_type: ChunkType::from_code(code) }
    }

    /// The declared payload length.
    pub fn get_length(&self) -> (r: u32)
        ensures
            r == self.spec_length(),
    {
        self.length
    }

    /// Replaces the length, unless the new value exceeds the format's
    /// maximum of `0x80000000`; then nothing changes and `false` comes back.
    pub fn set_length(&mut self, length: u32) -> (r: bool)
        ensures
            length > MAX_CHUNK_LENGTH ==> (!r && *final(self) == *old(self)),
            length <= MAX_CHUNK_LENGTH ==> (r && final(self).spec_length() == length
                && final(self).spec_type() == old(self).spec_type()),
    {
        if length > MAX_CHUNK_LENGTH {
            return false;
        }
        self.length = length;
        true
    }

    /// The type code as a string of four characters.  Exact when the code
    /// is ASCII, which every validated code is.
    pub fn get_chunk_type_as_str(&self) -> (r: String)
        ensures
            valid_type_bytes(self.spec_type()) ==> (r@.len() == 4 && (forall|i: int|
                0 <= i < 4 ==> r@[i] == #[trigger] self.spec_type()[i] as char)),
    {
        let code = self.chunk_type.get_chunk_type();
        let r = ascii_to_string(code.as_slice());
        proof {
            if valid_type_bytes(self.spec_type()) {
                assert(forall|i: int| 0 <= i < 4 ==> code@[i] < 128);
            }
        }
        r
    }

    /// The four type bytes.
    pub fn get_chunk_type(&self) -> (r: [u8; 4])
        ensures
            r@ == self.spec_type(),
    {
        self.chunk_type.get_chunk_type()
    }

    /// Checks that the stored type code is four ASCII letters.
    pub fn validate_chunk_type(&self) -> (r: Result<(), PNGError>)
        ensures
            valid_type_bytes(self.spec_type()) ==> r == Ok::<(), PNGError>(()),
            !valid_type_bytes(self.spec_type()) ==> r == Err::<(), PNGError>(
                PNGError::InvalidChunkType,
            ),
    {
        self.chunk_type.validate()
    }

    /// Replaces the type code, unless `chunk_type` is not four ASCII
    /// letters; then nothing changes.
    pub fn set_chunk_type(&mut self, chunk_type: &str) -> (r: Result<(), PNGError>)
        ensures
            valid_type_bytes(chunk_type.spec_bytes()) ==> (r == Ok::<(), PNGError>(())
                && final(self).spec_type() == chunk_type.spec_bytes() && final(self).spec_length()
                == old(self).spec_length()),
            !valid_type_bytes(chunk_type.spec_bytes()) ==> (r == Err::<(), PNGError>(
                PNGError::InvalidChunkType,
            ) && *final(self) == *old(self)),
    {
        self.chunk_type.set_chunk_type(chunk_type)
    }
}

} // verus!
