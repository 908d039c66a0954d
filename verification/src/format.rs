//! The byte-level shape of the container: the fixed signature, big-endian
//! 32-bit fields, and the chunk record layout `length ++ type ++ data ++ crc`.

use crate::crc::crc_of;
use vstd::prelude::*;

verus! {

/// Largest value the length field of a chunk header may carry.
pub const MAX_CHUNK_LENGTH: u32 = 0x8000_0000;

/// The fixed eight-byte signature: `0x89` followed by the letters `PNG`,
/// a CR/LF pair, an EOF mark and a LF.
pub open spec fn spec_signature() -> Seq<u8> {
    seq![0x89u8, 0x50u8, 0x4Eu8, 0x47u8, 0x0Du8, 0x0Au8, 0x1Au8, 0x0Au8]
}

/// The four type bytes of an `IEND` chunk.
pub open spec fn spec_iend_type() -> Seq<u8> {
    seq![0x49u8, 0x45u8, 0x4Eu8, 0x44u8]
}

/// The four type bytes of an `IHDR` chunk.
pub open spec fn spec_ihdr_type() -> Seq<u8> {
    seq![0x49u8, 0x48u8, 0x44u8, 0x52u8]
}

/// A chunk type byte must be an ASCII letter, upper or lower case.
pub open spec fn is_type_byte(b: u8) -> bool {
    (65 <= b && b <= 90) || (97 <= b && b <= 122)
}

/// A chunk type is exactly four bytes, each an ASCII letter.
pub open spec fn valid_type_bytes(s: Seq<u8>) -> bool {
    s.len() == 4 && (forall|i: int| 0 <= i < 4 ==> is_type_byte(#[trigger] s[i]))
}

/// The value of four bytes read as a big-endian 32-bit integer.
pub open spec fn u32_from_be(s: Seq<u8>) -> u32
    recommends
        s.len() == 4,
{
    (s[0] as u32) << 24 | (s[1] as u32) << 16 | (s[2] as u32) << 8 | (s[3] as u32)
}

/// The four big-endian bytes of a 32-bit integer.
pub open spec fn u32_to_be(x: u32) -> Seq<u8> {
    seq![(x >> 24) as u8, (x >> 16) as u8, (x >> 8) as u8, x as u8]
}

/// Reading back the four big-endian bytes of `x` yields `x`.
pub proof fn lemma_u32_be_round_trip(x: u32)
    ensures
        u32_to_be(x).len() == 4,
        u32_from_be(u32_to_be(x)) == x,
{
    assert((((x >> 24) as u8) as u32) << 24 | (((x >> 16) as u8) as u32) << 16 | (((x >> 8)
        as u8) as u32) << 8 | ((x as u8) as u32) == x) by (bit_vector);
}

/// Reads the big-endian 32-bit value stored at `pos`.
pub fn read_u32_be(buffer: &[u8], pos: usize) -> (r: u32)
    requires
        pos + 4 <= buffer@.len(),
    ensures
        r == u32_from_be(buffer@.subrange(pos as int, pos as int + 4)),
{
    let b0 = buffer[pos];
    let b1 = buffer[pos + 1];
    let b2 = buffer[pos + 2];
    let b3 = buffer[pos + 3];
    let r = (b0 as u32) << 24 | (b1 as u32) << 16 | (b2 as u32) << 8 | (b3 as u32);
    proof {
        let s = buffer@.subrange(pos as int, pos as int + 4);
        assert(s[0] == b0 && s[1] == b1 && s[2] == b2 && s[3] == b3);
    }
    r
}

/// Appends the four big-endian bytes of `x` to `out`.
pub fn push_u32_be(out: &mut Vec<u8>, x: u32)
    ensures
        final(out)@ == old(out)@ + u32_to_be(x),
{
    out.push((x >> 24) as u8);
    out.push((x >> 16) as u8);
    out.push((x >> 8) as u8);
    out.push(x as u8);
    proof {
        assert(out@ =~= old(out)@ + u32_to_be(x));
    }
}

/// Returns the fixed signature as an array.
pub fn signature_bytes() -> (r: [u8; 8])
    ensures
        r@ == spec_signature(),
{
    let r: [u8; 8] = [0x89, 0x50, 0x4E, 0x47, 0x0D, 0x0A, 0x1A, 0x0A];
    proof {
        assert(r@ =~= spec_signature());
    }
    r
}

/// Returns the fixed signature as a fresh vector.
pub fn signature_vec() -> (r: Vec<u8>)
    ensures
        r@ == spec_signature(),
{
    let mut r: Vec<u8> = Vec::new();
    r.push(0x89);
    r.push(0x50);
    r.push(0x4E);
    r.push(0x47);
    r.push(0x0D);
    r.push(0x0A);
    r.push(0x1A);
    r.push(0x0A);
    proof {
        assert(r@ =~= spec_signature());
    }
    r
}

/// True when a four-byte code reads `IEND`.
pub fn code_is_iend(code: &[u8; 4]) -> (r: bool)
    ensures
        r == (code@ == spec_iend_type()),
{
    let r = code[0] == 0x49 && code[1] == 0x45 && code[2] == 0x4E && code[3] == 0x44;
    proof {
        if r {
            assert(code@ =~= spec_iend_type());
        } else {
            assert(code@ != spec_iend_type());
        }
    }
    r
}

/// True when a four-byte code reads `IHDR`.
pub fn code_is_ihdr(code: &[u8; 4]) -> (r: bool)
    ensures
        r == (code@ == spec_ihdr_type()),
{
    let r = code[0] == 0x49 && code[1] == 0x48 && code[2] == 0x44 && code[3] == 0x52;
    proof {
        if r {
            assert(code@ =~= spec_ihdr_type());
        } else {
            assert(code@ != spec_ihdr_type());
        }
    }
    r
}

/// True when a four-byte code equals the bytes of `s`.
pub fn code_eq_bytes(code: &[u8; 4], s: &[u8]) -> (r: bool)
    ensures
        r == (code@ == s@),
{
    if s.len() != 4 {
        proof {
            assert(code@.len() == 4);
        }
        return false;
    }
    let r = code[0] == s[0] && code[1] == s[1] && code[2] == s[2] && code[3] == s[3];
    proof {
        if r {
            assert(code@ =~= s@);
        } else {
            assert(code@ != s@);
        }
    }
    r
}

/// The mathematical content of one chunk record: its type bytes, its
/// payload, and the checksum value stored after the payload.
#[verifier::ext_equal]
pub struct ChunkModel {
    /// The four type bytes.
    pub ty: Seq<u8>,
    /// The payload bytes.
    pub data: Seq<u8>,
    /// The checksum stored after the payload.
    pub crc: u32,
}

/// A record the byte format can carry faithfully: four type bytes and a
/// payload no longer than the length field's maximum.
pub open spec fn chunk_model_wf(c: ChunkModel) -> bool {
    c.ty.len() == 4 && c.data.len() <= MAX_CHUNK_LENGTH
}

/// The stored checksum of a chunk matches the checksum of its type bytes
/// followed by its payload.
pub open spec fn chunk_crc_ok(c: ChunkModel) -> bool {
    c.crc == crc_of(c.ty + c.data)
}

/// The serialised bytes of one chunk: big-endian payload length, type,
/// payload, big-endian checksum.
pub open spec fn spec_chunk_bytes(c: ChunkModel) -> Seq<u8> {
    u32_to_be(c.data.len() as u32) + c.ty + c.data + u32_to_be(c.crc)
}

/// The serialised bytes of a list of chunks, in order.
pub open spec fn spec_chunks_bytes(cs: Seq<ChunkModel>) -> Seq<u8>
    decreases cs.len(),
{
    if cs.len() == 0 {
        Seq::<u8>::empty()
    } else {
        spec_chunk_bytes(cs[0]) + spec_chunks_bytes(cs.drop_first())
    }
}

/// The canonical terminal chunk: type `IEND`, empty payload, checksum of
/// the four type bytes alone.
pub open spec fn spec_iend_model() -> ChunkModel {
    ChunkModel { ty: spec_iend_type(), data: Seq::<u8>::empty(), crc: crc_of(spec_iend_type()) }
}

/// Parses successive chunk records from the front of `b`, until and
/// including the first record typed `IEND`.  `None` when a read would run
/// past the end of `b` before that record is seen; bytes after it are
/// ignored.
pub open spec fn parse_chunks(b: Seq<u8>) -> Option<Seq<ChunkModel>>
    decreases b.len(),
{
    if b.len() < 8 {
        None
    } else {
        let len = u32_from_be(b.subrange(0, 4)) as int;
        if b.len() < 12 + len {
            None
        } else {
            let c = ChunkModel {
                ty: b.subrange(4, 8),
                data: b.subrange(8, 8 + len),
                crc: u32_from_be(b.subrange(8 + len, 12 + len)),
            };
            if c.ty == spec_iend_type() {
                Some(seq![c])
            } else {
                match parse_chunks(b.skip(12 + len)) {
                    Some(rest) => Some(seq![c] + rest),
                    None => None,
                }
            }
        }
    }
}

/// The buffer opens with the fixed signature.
pub open spec fn sig_ok(b: Seq<u8>) -> bool {
    b.len() >= 8 && b.subrange(0, 8) == spec_signature()
}

/// The chunk records of a whole file: everything after the signature.
pub open spec fn parse_png(b: Seq<u8>) -> Option<Seq<ChunkModel>> {
    if b.len() < 8 {
        None
    } else {
        parse_chunks(b.skip(8))
    }
}

/// The buffer's chunk records parse to completion.
pub open spec fn structured(b: Seq<u8>) -> bool {
    b.len() >= 8 && parse_png(b) is Some
}

/// Every chunk's payload fits the length field's maximum.
pub open spec fn lengths_ok(cs: Seq<ChunkModel>) -> bool {
    forall|i: int| 0 <= i < cs.len() ==> #[trigger] cs[i].data.len() <= MAX_CHUNK_LENGTH
}

/// Every chunk's type is four ASCII letters.
pub open spec fn types_ok(cs: Seq<ChunkModel>) -> bool {
    forall|i: int| 0 <= i < cs.len() ==> valid_type_bytes(#[trigger] cs[i].ty)
}

/// Every chunk's stored checksum matches its computed checksum.
pub open spec fn crcs_ok(cs: Seq<ChunkModel>) -> bool {
    forall|i: int| 0 <= i < cs.len() ==> chunk_crc_ok(#[trigger] cs[i])
}

/// A fully valid file: correct signature, chunk records that parse to
/// completion, in-range lengths, well-formed types, matching checksums.
pub open spec fn valid_png(b: Seq<u8>) -> bool {
    &&& sig_ok(b)
    &&& parse_png(b) is Some
    &&& lengths_ok(parse_png(b)->Some_0)
    &&& types_ok(parse_png(b)->Some_0)
    &&& crcs_ok(parse_png(b)->Some_0)
}

/// The chunks matching a given type code, in file order.
pub open spec fn matching_chunks(cs: Seq<ChunkModel>, ts: Seq<u8>) -> Seq<ChunkModel>
    decreases cs.len(),
{
    if cs.len() == 0 {
        Seq::<ChunkModel>::empty()
    } else if cs[0].ty == ts {
        seq![cs[0]] + matching_chunks(cs.drop_first(), ts)
    } else {
        matching_chunks(cs.drop_first(), ts)
    }
}

/// A successful parse yields at least one chunk, ends with the `IEND`
/// record it stopped at, and holds no earlier `IEND`.
pub proof fn lemma_parse_chunks_shape(b: Seq<u8>)
    requires
        parse_chunks(b) is Some,
    ensures
        parse_chunks(b)->Some_0.len() > 0,
        parse_chunks(b)->Some_0.last().ty == spec_iend_type(),
        forall|i: int|
            0 <= i < parse_chunks(b)->Some_0.len() - 1 ==> parse_chunks(b)->Some_0[i].ty
                != spec_iend_type(),
        forall|i: int|
            0 <= i < parse_chunks(b)->Some_0.len() ==> parse_chunks(b)->Some_0[i].ty.len() == 4,
    decreases b.len(),
{
    let cs = parse_chunks(b)->Some_0;
    let len = u32_from_be(b.subrange(0, 4)) as int;
    let c = ChunkModel {
        ty: b.subrange(4, 8),
        data: b.subrange(8, 8 + len),
        crc: u32_from_be(b.subrange(8 + len, 12 + len)),
    };
    if c.ty == spec_iend_type() {
        assert(cs =~= seq![c]);
    } else {
        let rest = parse_chunks(b.skip(12 + len))->Some_0;
        lemma_parse_chunks_shape(b.skip(12 + len));
        assert(cs =~= seq![c] + rest);
        assert(cs.last() == rest.last());
    }
}

/// Parsing the serialised bytes of a well-shaped chunk list gives the list
/// back: the serialiser and the parser are inverse on lists whose only
/// `IEND` record is the final one.
/// Serialising a list with one chunk appended adds that chunk's bytes at
/// the end.
pub proof fn lemma_chunks_bytes_push(cs: Seq<ChunkModel>, c: ChunkModel)
    ensures
        spec_chunks_bytes(cs.push(c)) == spec_chunks_bytes(cs) + spec_chunk_bytes(c),
    decreases cs.len(),
{
    if cs.len() == 0 {
        assert(cs.push(c)[0] == c);
        assert(cs.push(c).drop_first() =~= Seq::<ChunkModel>::empty());
        assert(spec_chunks_bytes(cs.push(c)) == spec_chunk_bytes(c) + spec_chunks_bytes(
            Seq::<ChunkModel>::empty(),
        ));
        assert(spec_chunk_bytes(c) + Seq::<u8>::empty() =~= spec_chunk_bytes(c));
        assert(spec_chunks_bytes(cs) + spec_chunk_bytes(c) =~= spec_chunk_bytes(c));
    } else {
        assert(cs.push(c)[0] == cs[0]);
        assert(cs.push(c).drop_first() =~= cs.drop_first().push(c));
        lemma_chunks_bytes_push(cs.drop_first(), c);
        assert(spec_chunk_bytes(cs[0]) + (spec_chunks_bytes(cs.drop_first()) + spec_chunk_bytes(
            c,
        )) =~= (spec_chunk_bytes(cs[0]) + spec_chunks_bytes(cs.drop_first())) + spec_chunk_bytes(
            c,
        ));
    }
}

/// The pieces of one serialised chunk sit at fixed offsets, whatever
/// follows it in the stream.
pub proof fn lemma_chunk_bytes_layout(c: ChunkModel, tail: Seq<u8>)
    requires
        chunk_model_wf(c),
    ensures
        (spec_chunk_bytes(c) + tail).len() == 12 + c.data.len() + tail.len(),
        (spec_chunk_bytes(c) + tail).subrange(0, 4) == u32_to_be(c.data.len() as u32),
        (spec_chunk_bytes(c) + tail).subrange(4, 8) == c.ty,
        (spec_chunk_bytes(c) + tail).subrange(8, 8 + c.data.len() as int) == c.data,
        (spec_chunk_bytes(c) + tail).subrange(
            8 + c.data.len() as int,
            12 + c.data.len() as int,
        ) == u32_to_be(c.crc),
        (spec_chunk_bytes(c) + tail).skip(12 + c.data.len() as int) == tail,
{
    let b = spec_chunk_bytes(c) + tail;
    let n = c.data.len() as int;
    let p0 = u32_to_be(c.data.len() as u32);
    let p3 = u32_to_be(c.crc);
    assert(p0.len() == 4 && p3.len() == 4);
    assert(spec_chunk_bytes(c).len() == 12 + n);
    assert(b.subrange(0, 4) =~= p0) by {
        assert forall|i: int| 0 <= i < 4 implies b.subrange(0, 4)[i] == p0[i] by {
            assert(b[i] == spec_chunk_bytes(c)[i]);
            assert(spec_chunk_bytes(c)[i] == p0[i]);
        }
    }
    assert(b.subrange(4, 8) =~= c.ty) by {
        assert forall|i: int| 0 <= i < 4 implies b.subrange(4, 8)[i] == c.ty[i] by {
            assert(b[4 + i] == spec_chunk_bytes(c)[4 + i]);
            assert(spec_chunk_bytes(c)[4 + i] == c.ty[i]);
        }
    }
    assert(b.subrange(8, 8 + n) =~= c.data) by {
        assert forall|i: int| 0 <= i < n implies b.subrange(8, 8 + n)[i] == c.data[i] by {
            assert(b[8 + i] == spec_chunk_bytes(c)[8 + i]);
            assert(spec_chunk_bytes(c)[8 + i] == c.data[i]);
        }
    }
    assert(b.subrange(8 + n, 12 + n) =~= p3) by {
        assert forall|i: int| 0 <= i < 4 implies b.subrange(8 + n, 12 + n)[i] == p3[i] by {
            assert(b[8 + n + i] == spec_chunk_bytes(c)[8 + n + i]);
            assert(spec_chunk_bytes(c)[8 + n + i] == p3[i]);
        }
    }
    assert(b.skip(12 + n) =~= tail) by {
        assert forall|i: int| 0 <= i < tail.len() implies b.skip(12 + n)[i] == tail[i] by {
            assert(b[12 + n + i] == tail[i]);
        }
    }
}

/// Parsing the serialised bytes of a well-shaped chunk list gives the list
/// back: the serialiser and the parser are inverse on lists whose only
/// `IEND` record is the final one.
#[verifier::spinoff_prover]
#[verifier::rlimit(100)]
pub proof fn lemma_parse_serialised(cs: Seq<ChunkModel>)
    requires
        cs.len() > 0,
        forall|i: int| 0 <= i < cs.len() ==> chunk_model_wf(#[trigger] cs[i]),
        forall|i: int| 0 <= i < cs.len() - 1 ==> #[trigger] cs[i].ty != spec_iend_type(),
        cs.last().ty == spec_iend_type(),
    ensures
        parse_chunks(spec_chunks_bytes(cs)) == Some(cs),
    decreases cs.len(),
{
    let b = spec_chunks_bytes(cs);
    let c = cs[0];
    let n = c.data.len() as int;
    let tail = spec_chunks_bytes(cs.drop_first());
    assert(b == spec_chunk_bytes(c) + tail);
    lemma_chunk_bytes_layout(c, tail);
    lemma_u32_be_round_trip(c.data.len() as u32);
    lemma_u32_be_round_trip(c.crc);
    assert(u32_from_be(b.subrange(0, 4)) as int == n);
    let parsed = ChunkModel {
        ty: b.subrange(4, 8),
        data: b.subrange(8, 8 + n),
        crc: u32_from_be(b.subrange(8 + n, 12 + n)),
    };
    assert(parsed == c);
    if cs.len() == 1 {
        assert(c.ty == spec_iend_type());
        assert(seq![parsed] =~= cs);
    } else {
        assert(c.ty != spec_iend_type());
        assert(b.skip(12 + n) == tail);
        lemma_parse_serialised(cs.drop_first());
        assert(parse_chunks(b.skip(12 + n)) == Some(cs.drop_first()));
        assert(seq![parsed] + cs.drop_first() =~= cs);
    }
}

} // verus!
