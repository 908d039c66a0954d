//! An owned chunk: header, payload buffer and checksum held together,
//! independent of any backing file buffer.

use crate::chunk_header::ChunkHeader;
use crate::chunk_refs::ChunkRefs;
use crate::crc::{crc, crc_of, ChunkCRC};
use crate::error::PNGError;
use crate::format::{
    spec_chunk_bytes, u32_to_be, valid_type_bytes, ChunkModel, MAX_CHUNK_LENGTH,
};
use vstd::prelude::*;
use vstd::slice::slice_to_vec;
use vstd::string::*;

verus! {

/// A fully formed chunk that owns its payload.  Changing the payload does
/// not recompute the stored checksum; callers recompute it explicitly with
/// `calculate_and_set_crc`, so read-only traffic pays nothing.
#[derive(Debug)]
pub struct PNGChunk {
    pub(crate) header: ChunkHeader,
    pub(crate) chunk_data: Vec<u8>,
    pub(crate) crc: ChunkCRC,
}

impl PNGChunk {
    /// The chunk this value denotes.
    pub closed spec fn model(&self) -> ChunkModel {
        ChunkModel {
            ty: self.header.spec_type(),
            data: self.chunk_data@,
            crc: self.crc.value(),
        }
    }

    /// The length field of the header.
    pub closed spec fn spec_header_length(&self) -> u32 {
        self.header.spec_length()
    }

    /// A well-formed chunk: the header length matches the payload, the
    /// payload fits the length field's maximum, and the type is four ASCII
    /// letters.
    pub open spec fn wf(&self) -> bool {
        &&& self.spec_header_length() == self.model().data.len()
        &&& self.model().data.len() <= MAX_CHUNK_LENGTH
        &&& valid_type_bytes(self.model().ty)
    }

    /// The serialised bytes of this chunk: big-endian header length, type,
    /// payload, big-endian checksum.
    pub open spec fn spec_ser(&self) -> Seq<u8> {
        u32_to_be(self.spec_header_length()) + self.model().ty + self.model().data + u32_to_be(
            self.model().crc,
        )
    }

    /// Builds a chunk from raw parts and computes its checksum.
    pub(crate) fn from_parts(code: [u8; 4], chunk_data: Vec<u8>) -> (r: PNGChunk)
        requires
            chunk_data@.len() <= MAX_CHUNK_LENGTH,
            valid_type_bytes(code@),
        ensures
            r.wf(),
            r.model().ty == code@,
            r.model().data == chunk_data@,
            r.model().crc == crc_of(code@ + chunk_data@),
            r.spec_header_length() == chunk_data@.len(),
    {
        let header = ChunkHeader::from_parts(chunk_data.len() as u32, code);
        let mut input: Vec<u8> = Vec::new();
        input.push(code[0]);
        input.push(code[1]);
        input.push(code[2]);
        input.push(code[3]);
        input.extend_from_slice(chunk_data.as_slice());
        proof {
            assert(input@ =~= code@ + chunk_data@);
        }
        let crc_field = ChunkCRC::new(input.as_slice());
        PNGChunk { header, chunk_data, crc: crc_field }
    }

    /// Builds a chunk from a type string and a payload, copying the
    /// payload and computing the checksum over type and payload bytes.
    /// Fails with `LengthOverflow` when the payload exceeds the length
    /// field's maximum, and with `InvalidChunkType` when the type is not
    /// four ASCII letters.
    pub fn new(chunk_type: &str, chunk_data: &[u8]) -> (r: Result<PNGChunk, PNGError>)
        ensures
            r matches Ok(c) <==> (chunk_data@.len() <= MAX_CHUNK_LENGTH && valid_type_bytes(
                chunk_type.spec_bytes(),
            )),
            r matches Ok(c) ==> {
                &&& c.wf()
                &&& c.model().ty == chunk_type.spec_bytes()
                &&& c.model().data == chunk_data@
                &&& c.model().crc == crc_of(chunk_type.spec_bytes() + chunk_data@)
                &&& c.spec_header_length() == chunk_data@.len()
            },
            chunk_data@.len() > MAX_CHUNK_LENGTH ==> r == Err::<PNGChunk, PNGError>(
                PNGError::LengthOverflow,
            ),
            (chunk_data@.len() <= MAX_CHUNK_LENGTH && !valid_type_bytes(chunk_type.spec_bytes()))
                ==> r == Err::<PNGChunk, PNGError>(PNGError::InvalidChunkType),
    {
        if chunk_data.len() > MAX_CHUNK_LENGTH as usize {
            return Err(PNGError::LengthOverflow);
        }
        let code = match crate::chunk_type::ChunkType::new(chunk_type) {
            Ok(t) => t.get_chunk_type(),
            Err(e) => {
                return Err(e);
            },
        };
        let data = slice_to_vec(chunk_data);
        Ok(PNGChunk::from_parts(code, data))
    }

    /// The four type bytes of the chunk.
    pub(crate) fn type_code(&self) -> (r: [u8; 4])
        ensures
            r@ == self.model().ty,
    {
        self.header.get_chunk_type()
    }

    /// A read-only view of this chunk.
    pub fn as_chunk_refs(&self) -> (r: ChunkRefs<'_>)
        ensures
            r.model() == self.model(),
            r.spec_header_length() == self.spec_header_length(),
    {
        ChunkRefs::new(&self.header, self.chunk_data.as_slice(), &self.crc)
    }

    /// The full serialised byte representation: header, payload, checksum.
    pub fn as_slice(&self) -> (r: Vec<u8>)
        ensures
            r@ == self.spec_ser(),
            self.wf() ==> r@ == spec_chunk_bytes(self.model()),
    {
        let mut out: Vec<u8> = Vec::new();
        crate::format::push_u32_be(&mut out, self.header.get_length());
        let code = self.header.get_chunk_type();
        out.push(code[0]);
        out.push(code[1]);
        out.push(code[2]);
        out.push(code[3]);
        out.extend_from_slice(self.chunk_data.as_slice());
        crate::format::push_u32_be(&mut out, self.crc.get_crc());
        proof {
            assert(out@ =~= self.spec_ser());
            if self.wf() {
                assert(out@ =~= spec_chunk_bytes(self.model()));
            }
        }
        out
    }

    /// The length field of the header.
    pub fn get_length(&self) -> (r: u32)
        ensures
            r == self.spec_header_length(),
    {
        self.header.get_length()
    }

    /// Replaces the header length, unless the new value exceeds the
    /// format's maximum; then nothing changes and `false` comes back.  The
    /// payload itself is untouched.
    pub fn set_length(&mut self, len: u32) -> (r: bool)
        ensures
            len > MAX_CHUNK_LENGTH ==> (!r && final(self).model() == old(self).model()
                && final(self).spec_header_length() == old(self).spec_header_length()),
            len <= MAX_CHUNK_LENGTH ==> (r && final(self).spec_header_length() == len
                && final(self).model() == old(self).model()),
    {
        self.header.set_length(len)
    }

    /// The chunk type as a string of four characters.  Exact whenever the
    /// code is four ASCII letters, which it is for every constructed chunk.
    pub fn get_chunk_type(&self) -> (r: String)
        ensures
            valid_type_bytes(self.model().ty) ==> (r@.len() == 4 && (forall|i: int|
                0 <= i < 4 ==> r@[i] == #[trigger] self.model().ty[i] as char)),
    {
        self.header.get_chunk_type_as_str()
    }

    /// Replaces the type code, unless `chunk_type` is not four ASCII
    /// letters; then nothing changes.  The stored checksum is not
    /// recomputed.
    pub fn set_chunk_type(&mut self, chunk_type: &str) -> (r: Result<(), PNGError>)
        ensures
            valid_type_bytes(chunk_type.spec_bytes()) ==> (r == Ok::<(), PNGError>(())
                && final(self).model().ty == chunk_type.spec_bytes() && final(self).model().data
                == old(self).model().data && final(self).model().crc == old(self).model().crc
                && final(self).spec_header_length() == old(self).spec_header_length()),
            !valid_type_bytes(chunk_type.spec_bytes()) ==> (r == Err::<(), PNGError>(
                PNGError::InvalidChunkType,
            ) && final(self).model() == old(self).model() && final(self).spec_header_length()
                == old(self).spec_header_length()),
    {
        self.header.set_chunk_type(chunk_type)
    }

    /// The payload bytes.
    pub fn get_chunk_data(&self) -> (r: &[u8])
        ensures
            r@ == self.model().data,
    {
        self.chunk_data.as_slice()
    }

    /// Mutable access to the payload bytes.  The stored checksum is not
    /// recomputed; call `calculate_and_set_crc` afterwards.
    pub fn get_chunk_data_mut(&mut self) -> (r: &mut [u8])
        ensures
            r@ == old(self).model().data,
            final(self).model().ty == old(self).model().ty,
            final(self).model().data == final(r)@,
            final(self).model().crc == old(self).model().crc,
            final(self).spec_header_length() == old(self).spec_header_length(),
    {
        self.chunk_data.as_mut_slice()
    }

    /// The bytes the checksum is taken over: type bytes, then payload.
    fn crc_input(&self) -> (r: Vec<u8>)
        ensures
            r@ == self.model().ty + self.model().data,
    {
        let code = self.header.get_chunk_type();
        let mut out: Vec<u8> = Vec::new();
        out.push(code[0]);
        out.push(code[1]);
        out.push(code[2]);
        out.push(code[3]);
        out.extend_from_slice(self.chunk_data.as_slice());
        proof {
            assert(out@ =~= self.model().ty + self.model().data);
        }
        out
    }

    /// True when the stored checksum matches the checksum computed over
    /// the type and payload bytes.
    pub fn is_valid_crc(&self) -> (r: bool)
        ensures
            r == (self.model().crc == crc_of(self.model().ty + self.model().data)),
    {
        let input = self.crc_input();
        self.crc.is_valid_crc(input.as_slice())
    }

    /// Computes the checksum over the type and payload bytes.
    pub fn calculate_crc(&self) -> (r: u32)
        ensures
            r == crc_of(self.model().ty + self.model().data),
    {
        let input = self.crc_input();
        crc(input.as_slice())
    }

    /// The stored checksum value.
    pub fn get_crc(&self) -> (r: u32)
        ensures
            r == self.model().crc,
    {
        self.crc.get_crc()
    }

    /// Recomputes the checksum over the current type and payload bytes and
    /// stores it.
    pub fn calculate_and_set_crc(&mut self)
        ensures
            final(self).model().ty == old(self).model().ty,
            final(self).model().data == old(self).model().data,
            final(self).model().crc == crc_of(old(self).model().ty + old(self).model().data),
            final(self).spec_header_length() == old(self).spec_header_length(),
    {
        let value = self.calculate_crc();
        self.crc.set_crc_by_value(value);
    }
}

} // verus!
