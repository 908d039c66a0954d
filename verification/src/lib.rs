//! A verified codec for the PNG container format.
//!
//! The library validates the fixed eight-byte signature, walks the chunk
//! records that follow it, checks every chunk's CRC-32, and reassembles a
//! byte-exact stream from an ordered list of chunks.  It never interprets
//! pixel data: consumers receive and provide only the raw byte payload of
//! chunks.
//!
//! Reads are strict: a chunk whose declared length runs past the end of
//! the buffer is reported as a truncation, never silently dropped.

use vstd::prelude::*;

pub mod builder;
pub mod chunk;
pub mod chunk_header;
pub mod chunk_refs;
pub mod chunk_type;
pub mod crc;
pub mod error;
pub mod format;
pub mod ihdr;

use chunk_header::ChunkHeader;
use chunk_refs::ChunkRefs;
use crc::{crc_of, ChunkCRC};
use error::{CrcFailure, PNGError};
use format::{
    chunk_crc_ok, code_is_iend, crcs_ok, lengths_ok, matching_chunks, parse_chunks, parse_png,
    read_u32_be, sig_ok, signature_bytes, spec_iend_type, spec_signature, structured, types_ok,
    valid_png, valid_type_bytes, ChunkModel, MAX_CHUNK_LENGTH,
};
use vstd::pervasive::unreached;
use vstd::slice::slice_subrange;
use vstd::string::*;

verus! {

/// The chunks denoted by a list of views, in the same order.
pub open spec fn refs_models<'a>(v: Seq<ChunkRefs<'a>>) -> Seq<ChunkModel> {
    v.map_values(|c: ChunkRefs<'a>| c.model())
}

/// A faithful aggregated checksum report over the chunk list `cs`: every
/// entry describes a chunk whose stored checksum is wrong, every such
/// chunk has an entry, and entries come in file order.
pub open spec fn crc_report_ok(report: Seq<CrcFailure>, cs: Seq<ChunkModel>) -> bool {
    &&& forall|j: int|
        0 <= j < report.len() ==> {
            let f = #[trigger] report[j];
            &&& 0 <= f.index < cs.len()
            &&& !chunk_crc_ok(cs[f.index as int])
            &&& f.chunk_type@ == cs[f.index as int].ty
            &&& f.length as int == cs[f.index as int].data.len()
            &&& f.stored_crc == cs[f.index as int].crc
            &&& f.computed_crc == crc_of(cs[f.index as int].ty + cs[f.index as int].data)
        }
    &&& forall|i: int|
        0 <= i < cs.len() && !chunk_crc_ok(#[trigger] cs[i]) ==> exists|j: int|
            0 <= j < report.len() && (#[trigger] report[j]).index == i
    &&& forall|j1: int, j2: int|
        0 <= j1 < j2 < report.len() ==> (#[trigger] report[j1]).index < (#[trigger] report[j2]).index
}

/// Walks the chunk records after the signature and hands out one view per
/// record, up to and including the `IEND` record.  Fails with
/// `TruncatedBuffer` exactly when a read would run past the end of the
/// buffer before that record.
fn read_chunks<'a>(buffer: &'a [u8]) -> (r: Result<Vec<ChunkRefs<'a>>, PNGError>)
    requires
        buffer@.len() >= 8,
    ensures
        match r {
            Ok(v) => {
                &&& parse_png(buffer@) == Some(refs_models(v@))
                &&& forall|i: int|
                    0 <= i < v@.len() ==> {
                        &&& (#[trigger] v@[i]).spec_header_length() as int
                            == v@[i].model().data.len()
                        &&& v@[i].model().ty.len() == 4
                    }
            },
            Err(e) => e == PNGError::TruncatedBuffer && parse_png(buffer@) is None,
        },
{
    let mut out: Vec<ChunkRefs<'a>> = Vec::new();
    let mut pos: usize = 8;
    loop
        invariant
            8 <= pos <= buffer@.len(),
            forall|i: int|
                0 <= i < out@.len() ==> {
                    &&& (#[trigger] out@[i]).spec_header_length() as int
                        == out@[i].model().data.len()
                    &&& out@[i].model().ty.len() == 4
                },
            match parse_chunks(buffer@.skip(pos as int)) {
                Some(rest) => parse_chunks(buffer@.skip(8)) == Some(refs_models(out@) + rest),
                None => parse_chunks(buffer@.skip(8)) is None,
            },
        decreases buffer@.len() - pos,
    {
        let ghost s = buffer@.skip(pos as int);
        let remaining = buffer.len() - pos;
        if remaining < 8 {
            proof {
                assert(s.len() < 8);
            }
            return Err(PNGError::TruncatedBuffer);
        }
        let length_field = read_u32_be(buffer, pos);
        let data_len = length_field as usize;
        proof {
            assert(s.subrange(0, 4) =~= buffer@.subrange(pos as int, pos as int + 4));
            assert(data_len == length_field as int);
        }
        if remaining - 8 < data_len || remaining - 8 - data_len < 4 {
            proof {
                assert(s.len() < 12 + length_field as int);
            }
            return Err(PNGError::TruncatedBuffer);
        }
        let code: [u8; 4] = [buffer[pos + 4], buffer[pos + 5], buffer[pos + 6], buffer[pos + 7]];
        let data: &'a [u8] = slice_subrange(buffer, pos + 8, pos + 8 + data_len);
        let crc_value = read_u32_be(buffer, pos + 8 + data_len);
        let header = ChunkHeader::from_parts(length_field, code);
        let crc_field = ChunkCRC::from_value(crc_value);
        let refs = ChunkRefs::new(&header, data, &crc_field);
        let is_end = code_is_iend(&code);
        let ghost old_out = out@;
        proof {
            let n = length_field as int;
            assert(s.subrange(4, 8) =~= code@);
            assert(s.subrange(8, 8 + n) =~= buffer@.subrange(
                pos as int + 8,
                pos as int + 8 + n,
            ));
            assert(s.subrange(8 + n, 12 + n) =~= buffer@.subrange(
                pos as int + 8 + n,
                pos as int + 12 + n,
            ));
            let parsed = ChunkModel {
                ty: s.subrange(4, 8),
                data: s.subrange(8, 8 + n),
                crc: format::u32_from_be(s.subrange(8 + n, 12 + n)),
            };
            assert(parsed == refs.model());
            assert(s.skip(12 + n) =~= buffer@.skip(pos as int + 12 + n));
        }
        out.push(refs);
        proof {
            assert(refs_models(out@) =~= refs_models(old_out).push(refs.model()));
        }
        if is_end {
            proof {
                let n = length_field as int;
                assert(parse_chunks(s) == Some(seq![refs.model()]));
                assert(refs_models(old_out) + seq![refs.model()] =~= refs_models(out@));
            }
            return Ok(out);
        }
        proof {
            let n = length_field as int;
            let next = buffer@.skip(pos as int + 12 + n);
            match parse_chunks(next) {
                Some(rest) => {
                    assert(parse_chunks(s) == Some(seq![refs.model()] + rest));
                    assert(refs_models(old_out) + (seq![refs.model()] + rest) =~= refs_models(
                        out@,
                    ) + rest);
                },
                None => {
                    assert(parse_chunks(s) is None);
                },
            }
        }
        pos = pos + 8 + data_len + 4;
    }
}

/// A container reader over one byte buffer.  Constructed through `new`,
/// which validates the signature, parses every chunk record strictly, and
/// checks every chunk's type, declared length and CRC-32.
#[derive(Debug)]
pub struct PNGReader<'a> {
    buffer: &'a [u8],
}

impl<'a> View for PNGReader<'a> {
    type V = Seq<u8>;

    closed spec fn view(&self) -> Seq<u8> {
        self.buffer@
    }
}

impl<'a> PNGReader<'a> {
    /// Validates the buffer as a whole container and wraps it.  The
    /// signature, the chunk framing, each chunk's declared length and type
    /// and every chunk's checksum are checked; checksum mismatches are
    /// collected into one aggregated report rather than failing fast.
    #[verifier::loop_isolation(false)]
    pub fn new(buffer: &'a [u8]) -> (r: Result<PNGReader<'a>, PNGError>)
        ensures
            r matches Ok(p) ==> p@ == buffer@ && valid_png(buffer@),
            valid_png(buffer@) ==> r matches Ok(_),
            r == Err::<PNGReader<'a>, PNGError>(PNGError::MalformedSignature) <==> !sig_ok(
                buffer@,
            ),
            r == Err::<PNGReader<'a>, PNGError>(PNGError::TruncatedBuffer) <==> (sig_ok(buffer@)
                && parse_png(buffer@) is None),
            r == Err::<PNGReader<'a>, PNGError>(PNGError::LengthOverflow) <==> (sig_ok(buffer@)
                && parse_png(buffer@) is Some && !lengths_ok(parse_png(buffer@)->Some_0)),
            r == Err::<PNGReader<'a>, PNGError>(PNGError::InvalidChunkType) <==> (sig_ok(buffer@)
                && parse_png(buffer@) is Some && lengths_ok(parse_png(buffer@)->Some_0)
                && !types_ok(parse_png(buffer@)->Some_0)),
            r matches Err(PNGError::CrcMismatch(v)) ==> (sig_ok(buffer@)
                && parse_png(buffer@) is Some && lengths_ok(parse_png(buffer@)->Some_0)
                && types_ok(parse_png(buffer@)->Some_0) && !crcs_ok(parse_png(buffer@)->Some_0)
                && crc_report_ok(v@, parse_png(buffer@)->Some_0)),
            (sig_ok(buffer@) && parse_png(buffer@) is Some && lengths_ok(
                parse_png(buffer@)->Some_0,
            ) && types_ok(parse_png(buffer@)->Some_0) && !crcs_ok(parse_png(buffer@)->Some_0))
                ==> r matches Err(PNGError::CrcMismatch(_)),
    {
        let png = PNGReader { buffer };
        proof {
            assert(png@ == buffer@);
        }
        match png.validate_header() {
            Err(e) => {
                return Err(e);
            },
            Ok(()) => {},
        }
        let chunks = match read_chunks(buffer) {
            Ok(v) => v,
            Err(e) => {
                return Err(e);
            },
        };
        let ghost cs = parse_png(buffer@)->Some_0;
        proof {
            assert(cs.len() == chunks@.len());
            assert forall|k: int| 0 <= k < chunks@.len() implies cs[k] == (
            #[trigger] chunks@[k]).model() by {
                assert(cs[k] == refs_models(chunks@)[k]);
            }
        }
        // Declared lengths: every payload must fit the length field's
        // maximum of 0x80000000 bytes.
        let mut i: usize = 0;
        while i < chunks.len()
            invariant
                i <= chunks@.len(),
                cs == parse_png(buffer@)->Some_0,
                parse_png(buffer@) == Some(refs_models(chunks@)),
                cs.len() == chunks@.len(),
                forall|k: int|
                    0 <= k < chunks@.len() ==> cs[k] == (#[trigger] chunks@[k]).model(),
                forall|k: int|
                    0 <= k < chunks@.len() ==> (#[trigger] chunks@[k]).spec_header_length() as int
                        == chunks@[k].model().data.len(),
                forall|k: int| 0 <= k < i ==> #[trigger] cs[k].data.len() <= MAX_CHUNK_LENGTH,
            decreases chunks@.len() - i,
        {
            if chunks[i].get_length() > MAX_CHUNK_LENGTH {
                proof {
                    assert(cs[i as int].data.len() > MAX_CHUNK_LENGTH);
                }
                return Err(PNGError::LengthOverflow);
            }
            i = i + 1;
        }
        // Chunk types: four ASCII letters each.
        let mut i: usize = 0;
        while i < chunks.len()
            invariant
                i <= chunks@.len(),
                cs == parse_png(buffer@)->Some_0,
                parse_png(buffer@) == Some(refs_models(chunks@)),
                cs.len() == chunks@.len(),
                forall|k: int|
                    0 <= k < chunks@.len() ==> cs[k] == (#[trigger] chunks@[k]).model(),
                lengths_ok(cs),
                forall|k: int|
                    0 <= k < chunks@.len() ==> (#[trigger] chunks@[k]).model().ty.len() == 4,
                forall|k: int| 0 <= k < i ==> valid_type_bytes(#[trigger] cs[k].ty),
            decreases chunks@.len() - i,
        {
            let code = chunks[i].type_code();
            if !(chunk_type::check_type_byte(code[0]) && chunk_type::check_type_byte(code[1])
                && chunk_type::check_type_byte(code[2]) && chunk_type::check_type_byte(
                code[3],
            )) {
                proof {
                    assert(!valid_type_bytes(cs[i as int].ty));
                }
                return Err(PNGError::InvalidChunkType);
            }
            proof {
                assert(valid_type_bytes(cs[i as int].ty));
            }
            i = i + 1;
        }
        // Checksums, aggregated.
        match png.validate_chunks() {
            Err(e) => {
                return Err(e);
            },
            Ok(()) => {},
        }
        proof {
            assert(sig_ok(buffer@));
            assert(lengths_ok(cs));
            assert(types_ok(cs));
            assert(crcs_ok(parse_png(png@)->Some_0));
            assert(crcs_ok(cs));
            assert(valid_png(buffer@));
        }
        Ok(png)
    }

    /// Checks that the buffer is at least as long as the signature and
    /// begins with it.
    pub fn validate_header(&self) -> (r: Result<(), PNGError>)
        ensures
            r == Ok::<(), PNGError>(()) <==> sig_ok(self@),
            !sig_ok(self@) ==> r == Err::<(), PNGError>(PNGError::MalformedSignature),
    {
        if self.buffer.len() < 8 {
            return Err(PNGError::MalformedSignature);
        }
        let sig = signature_bytes();
        let mut i: usize = 0;
        while i < 8
            invariant
                i <= 8,
                self.buffer@.len() >= 8,
                sig@ == spec_signature(),
                forall|j: int| 0 <= j < i ==> self.buffer@[j] == spec_signature()[j],
            decreases 8 - i,
        {
            if self.buffer[i] != sig[i] {
                proof {
                    assert(self@.subrange(0, 8)[i as int] != spec_signature()[i as int]);
                }
                return Err(PNGError::MalformedSignature);
            }
            i = i + 1;
        }
        proof {
            assert(self@.subrange(0, 8) =~= spec_signature());
        }
        Ok(())
    }

    /// Checks the stored CRC-32 of every chunk against the checksum
    /// computed over its type and payload bytes.  Instead of failing fast,
    /// every mismatching chunk is reported, with its position, type,
    /// length, stored checksum and computed checksum.
    #[verifier::loop_isolation(false)]
    pub fn validate_chunks(&self) -> (r: Result<(), PNGError>)
        requires
            structured(self@),
        ensures
            r is Ok <==> crcs_ok(parse_png(self@)->Some_0),
            match r {
                Ok(()) => true,
                Err(PNGError::CrcMismatch(v)) => !crcs_ok(parse_png(self@)->Some_0)
                    && crc_report_ok(v@, parse_png(self@)->Some_0),
                Err(_) => false,
            },
    {
        let chunks = match read_chunks(self.buffer) {
            Ok(v) => v,
            Err(_) => unreached(),
        };
        let ghost cs = parse_png(self@)->Some_0;
        proof {
            assert(cs.len() == chunks@.len());
            assert forall|k: int| 0 <= k < chunks@.len() implies cs[k] == (
            #[trigger] chunks@[k]).model() by {
                assert(cs[k] == refs_models(chunks@)[k]);
            }
        }
        let mut failures: Vec<CrcFailure> = Vec::new();
        let mut i: usize = 0;
        while i < chunks.len()
            invariant
                i <= chunks@.len(),
                cs == refs_models(chunks@),
                cs.len() == chunks@.len(),
                forall|k: int|
                    0 <= k < chunks@.len() ==> cs[k] == (#[trigger] chunks@[k]).model(),
                forall|k: int|
                    0 <= k < chunks@.len() ==> (#[trigger] chunks@[k]).spec_header_length() as int
                        == chunks@[k].model().data.len(),
                forall|j: int|
                    0 <= j < failures@.len() ==> {
                        let f = #[trigger] failures@[j];
                        &&& 0 <= f.index < i
                        &&& !chunk_crc_ok(cs[f.index as int])
                        &&& f.chunk_type@ == cs[f.index as int].ty
                        &&& f.length as int == cs[f.index as int].data.len()
                        &&& f.stored_crc == cs[f.index as int].crc
                        &&& f.computed_crc == crc_of(
                            cs[f.index as int].ty + cs[f.index as int].data,
                        )
                    },
                forall|k: int|
                    0 <= k < i && !chunk_crc_ok(#[trigger] cs[k]) ==> exists|j: int|
                        0 <= j < failures@.len() && (#[trigger] failures@[j]).index == k,
                forall|j1: int, j2: int|
                    0 <= j1 < j2 < failures@.len() ==> (#[trigger] failures@[j1]).index < (
                    #[trigger] failures@[j2]).index,
            decreases chunks@.len() - i,
        {
            let c = chunks[i];
            proof {
                assert(cs[i as int] == refs_models(chunks@)[i as int]);
                assert(cs[i as int] == chunks@[i as int].model());
            }
            let computed = c.calculate_crc();
            let stored = c.get_crc();
            if computed != stored {
                let f = CrcFailure {
                    index: i,
                    chunk_type: c.type_code(),
                    length: c.get_length(),
                    stored_crc: stored,
                    computed_crc: computed,
                };
                let ghost old_fail = failures@;
                failures.push(f);
                proof {
                    assert(failures@ == old_fail.push(f));
                    assert(failures@[old_fail.len() as int].index == i as int);
                    assert forall|k: int|
                        0 <= k < i + 1 && !chunk_crc_ok(#[trigger] cs[k]) implies exists|j: int|
                        0 <= j < failures@.len() && (#[trigger] failures@[j]).index == k by {
                        if k < i {
                            let j = choose|j: int|
                                0 <= j < old_fail.len() && (#[trigger] old_fail[j]).index == k;
                            assert(failures@[j].index == k);
                        } else {
                            assert(failures@[old_fail.len() as int].index == k);
                        }
                    }
                }
            } else {
                proof {
                    assert(chunk_crc_ok(cs[i as int]));
                }
            }
            i = i + 1;
        }
        if failures.len() == 0 {
            proof {
                assert(crcs_ok(cs)) by {
                    assert forall|k: int| 0 <= k < cs.len() implies chunk_crc_ok(
                        #[trigger] cs[k],
                    ) by {
                        if !chunk_crc_ok(cs[k]) {
                            assert(exists|j: int|
                                0 <= j < failures@.len() && (#[trigger] failures@[j]).index == k);
                        }
                    }
                }
            }
            Ok(())
        } else {
            proof {
                let f = failures@[0];
                assert(!chunk_crc_ok(cs[f.index as int]));
            }
            Err(PNGError::CrcMismatch(failures))
        }
    }

    /// All chunk views of the container, in file order.
    pub fn get_all_chunk_info(&self) -> (r: Vec<ChunkRefs<'a>>)
        requires
            structured(self@),
        ensures
            refs_models(r@) == parse_png(self@)->Some_0,
            forall|i: int|
                0 <= i < r@.len() ==> {
                    &&& (#[trigger] r@[i]).spec_header_length() as int == r@[i].model().data.len()
                    &&& r@[i].model().ty.len() == 4
                },
    {
        match read_chunks(self.buffer) {
            Ok(v) => v,
            Err(_) => unreached(),
        }
    }

    /// The first chunk of the given type, or `None` when no chunk has it.
    #[verifier::loop_isolation(false)]
    pub fn get_chunk_of_type(&self, chunk_type: &str) -> (r: Option<ChunkRefs<'a>>)
        requires
            structured(self@),
        ensures
            ({
                let ms = matching_chunks(parse_png(self@)->Some_0, chunk_type.spec_bytes());
                match r {
                    Some(c) => ms.len() > 0 && c.model() == ms[0],
                    None => ms.len() == 0,
                }
            }),
    {
        let chunks = self.get_all_chunk_info();
        let ts = chunk_type.as_bytes();
        let ghost cs = parse_png(self@)->Some_0;
        let ghost tsb = chunk_type.spec_bytes();
        proof {
            assert(cs.skip(0) =~= cs);
        }
        let mut i: usize = 0;
        while i < chunks.len()
            invariant
                i <= chunks@.len(),
                ts@ == tsb,
                cs == refs_models(chunks@),
                matching_chunks(cs, tsb) == matching_chunks(cs.skip(i as int), tsb),
            decreases chunks@.len() - i,
        {
            let code = chunks[i].type_code();
            let ghost suffix = cs.skip(i as int);
            proof {
                assert(cs[i as int] == refs_models(chunks@)[i as int]);
                assert(cs[i as int] == chunks@[i as int].model());
                assert(suffix.len() > 0 && suffix[0] == cs[i as int]);
                assert(suffix.drop_first() =~= cs.skip(i as int + 1));
            }
            if format::code_eq_bytes(&code, ts) {
                proof {
                    assert(matching_chunks(suffix, tsb) == seq![cs[i as int]] + matching_chunks(
                        cs.skip(i as int + 1),
                        tsb,
                    ));
                    assert(matching_chunks(cs, tsb)[0] == cs[i as int]);
                }
                return Some(chunks[i]);
            }
            i = i + 1;
        }
        proof {
            assert(cs.skip(cs.len() as int) =~= Seq::<ChunkModel>::empty());
        }
        None
    }

    /// Every chunk of the given type, in file order.
    #[verifier::loop_isolation(false)]
    pub fn get_chunks_of_type(&self, chunk_type: &str) -> (r: Vec<ChunkRefs<'a>>)
        requires
            structured(self@),
        ensures
            refs_models(r@) == matching_chunks(parse_png(self@)->Some_0, chunk_type.spec_bytes()),
    {
        let chunks = self.get_all_chunk_info();
        let ts = chunk_type.as_bytes();
        let ghost cs = parse_png(self@)->Some_0;
        let ghost tsb = chunk_type.spec_bytes();
        proof {
            assert(cs.skip(0) =~= cs);
        }
        let mut out: Vec<ChunkRefs<'a>> = Vec::new();
        let mut i: usize = 0;
        while i < chunks.len()
            invariant
                i <= chunks@.len(),
                ts@ == tsb,
                cs == refs_models(chunks@),
                matching_chunks(cs, tsb) == refs_models(out@) + matching_chunks(
                    cs.skip(i as int),
                    tsb,
                ),
            decreases chunks@.len() - i,
        {
            let code = chunks[i].type_code();
            let ghost suffix = cs.skip(i as int);
            let ghost old_out = out@;
            proof {
                assert(cs[i as int] == refs_models(chunks@)[i as int]);
                assert(cs[i as int] == chunks@[i as int].model());
                assert(suffix.len() > 0 && suffix[0] == cs[i as int]);
                assert(suffix.drop_first() =~= cs.skip(i as int + 1));
            }
            if format::code_eq_bytes(&code, ts) {
                out.push(chunks[i]);
                proof {
                    assert(refs_models(out@) =~= refs_models(old_out).push(cs[i as int]));
                    assert(refs_models(old_out) + (seq![cs[i as int]] + matching_chunks(
                        cs.skip(i as int + 1),
                        tsb,
                    )) =~= refs_models(out@) + matching_chunks(cs.skip(i as int + 1), tsb));
                }
            }
            i = i + 1;
        }
        proof {
            assert(cs.skip(cs.len() as int) =~= Seq::<ChunkModel>::empty());
            assert(refs_models(out@) + matching_chunks(
                cs.skip(cs.len() as int),
                tsb,
            ) =~= refs_models(out@));
        }
        out
    }
}

} // verus!
