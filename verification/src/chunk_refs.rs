//! A read-only view of one chunk: copies of the fixed-size header and
//! checksum fields, and a borrowed slice of the payload.  The view never
//! outlives the buffer the payload lives in.

use crate::chunk_header::ChunkHeader;
use crate::crc::{crc, crc_of, ChunkCRC};
use crate::format::{valid_type_bytes, ChunkModel};
use vstd::prelude::*;

verus! {

/// Read-only access to the parts of one chunk.  Many views over one buffer
/// may coexist; none owns the payload bytes.
#[derive(Clone, Copy, Debug)]
pub struct ChunkRefs<'a> {
    pub(crate) header: ChunkHeader,
    pub(crate) chunk_data: &'a [u8],
    pub(crate) crc: ChunkCRC,
}

impl<'a> ChunkRefs<'a> {
    /// The chunk this view denotes.
    pub closed spec fn model(&self) -> ChunkModel {
        ChunkModel {
            ty: self.header.spec_type(),
            data: self.chunk_data@,
            crc: self.crc.value(),
        }
    }

    /// The length field of the header.
    pub closed spec fn spec_header_length(&self) -> u32 {
        self.header.spec_length()
    }

    /// Gets the `length` field of the header.
    pub fn get_length(&self) -> (r: u32)
        ensures
            r == self.spec_header_length(),
    {
        self.header.get_length()
    }

    /// Gets the chunk type as a string of four characters.  Exact whenever
    /// the code is four ASCII letters, which every valid code is.
    pub fn get_chunk_type(&self) -> (r: String)
        ensures
            valid_type_bytes(self.model().ty) ==> (r@.len() == 4 && (forall|i: int|
                0 <= i < 4 ==> r@[i] == #[trigger] self.model().ty[i] as char)),
    {
        self.header.get_chunk_type_as_str()
    }

    /// The four type bytes of the chunk.
    pub(crate) fn type_code(&self) -> (r: [u8; 4])
        ensures
            r@ == self.model().ty,
    {
        self.header.get_chunk_type()
    }

    /// Gets the payload as a slice of the backing buffer.
    pub fn get_chunk_data(&self) -> (r: &'a [u8])
        ensures
            r@ == self.model().data,
    {
        self.chunk_data
    }

    /// The bytes the chunk's checksum is taken over: the four type bytes
    /// followed by the payload.  The length field is excluded.
    fn crc_input(&self) -> (r: Vec<u8>)
        ensures
            r@ == self.model().ty + self.model().data,
    {
        let code = self.header.get_chunk_type();
        let mut out: Vec<u8> = Vec::new();
        out.push(code[0]);
        out.push(code[1]);
        out.push(code[2]);
        out.push(code[3]);
        out.extend_from_slice(self.chunk_data);
        proof {
            assert(out@ =~= self.model().ty + self.model().data);
        }
        out
    }

    /// True when the stored checksum matches the checksum computed over
    /// the type and payload bytes.
    pub fn validate_crc(&self) -> (r: bool)
        ensures
            r == (self.model().crc == crc_of(self.model().ty + self.model().data)),
    {
        let input = self.crc_input();
        self.crc.is_valid_crc(input.as_slice())
    }

    /// Computes the chunk's checksum over its type and payload bytes.
    pub fn calculate_crc(&self) -> (r: u32)
        ensures
            r == crc_of(self.model().ty + self.model().data),
    {
        let input = self.crc_input();
        crc(input.as_slice())
    }

    /// Gets the stored checksum value.
    pub fn get_crc(&self) -> (r: u32)
        ensures
            r == self.model().crc,
    {
        self.crc.get_crc()
    }

    /// Creates a view from the parts of a chunk.  The header and checksum
    /// fields are copied; the payload stays borrowed.
    pub fn new(header: &ChunkHeader, chunk_data: &'a [u8], crc: &ChunkCRC) -> (r: ChunkRefs<'a>)
        ensures
            r.model() == (ChunkModel {
                ty: header.spec_type(),
                data: chunk_data@,
                crc: crc.value(),
            }),
            r.spec_header_length() == header.spec_length(),
    {
        ChunkRefs { header: *header, chunk_data, crc: *crc }
    }
}

} // verus!
