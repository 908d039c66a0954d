//! Accumulates chunks in insertion order and serialises a complete file:
//! the fixed signature, every retained chunk byte for byte, and a
//! synthesised terminal `IEND` chunk.

use crate::chunk::PNGChunk;
use crate::error::PNGError;
use crate::format::{
    code_is_iend, code_is_ihdr, crcs_ok, lengths_ok, parse_png, sig_ok, signature_vec,
    spec_chunk_bytes, spec_chunks_bytes, valid_png,
    spec_iend_model, spec_iend_type, spec_ihdr_type, spec_signature, structured, types_ok,
    valid_type_bytes, ChunkModel,
};
use crate::{refs_models, PNGReader};
use vstd::prelude::*;
use vstd::slice::slice_to_vec;

verus! {

/// The chunks denoted by a list of owned chunks, in order.
pub open spec fn chunk_models(cs: Seq<PNGChunk>) -> Seq<ChunkModel> {
    cs.map_values(|c: PNGChunk| c.model())
}

/// The serialised bytes of a list of owned chunks, in order; each chunk
/// contributes its header, payload and checksum exactly as stored.
pub open spec fn spec_ser_list(cs: Seq<PNGChunk>) -> Seq<u8>
    decreases cs.len(),
{
    if cs.len() == 0 {
        Seq::<u8>::empty()
    } else {
        cs[0].spec_ser() + spec_ser_list(cs.drop_first())
    }
}

/// The chunks of a list that are not typed `IEND`, in order.
pub open spec fn non_iend(cs: Seq<ChunkModel>) -> Seq<ChunkModel>
    decreases cs.len(),
{
    if cs.len() == 0 {
        Seq::<ChunkModel>::empty()
    } else if cs[0].ty == spec_iend_type() {
        non_iend(cs.drop_first())
    } else {
        seq![cs[0]] + non_iend(cs.drop_first())
    }
}

/// The owned chunks of a list that are not typed `IEND`, in order.
pub open spec fn non_iend_chunks(cs: Seq<PNGChunk>) -> Seq<PNGChunk>
    decreases cs.len(),
{
    if cs.len() == 0 {
        Seq::<PNGChunk>::empty()
    } else if cs[0].model().ty == spec_iend_type() {
        non_iend_chunks(cs.drop_first())
    } else {
        seq![cs[0]] + non_iend_chunks(cs.drop_first())
    }
}

/// Collects chunks in insertion order and emits a complete container.
/// Any appended chunk typed `IEND` is dropped: the builder owns the
/// terminal marker and always synthesises its own.
pub struct PNGBuilder {
    chunks: Vec<PNGChunk>,
}

impl PNGBuilder {
    /// The retained chunks, in insertion order.
    pub closed spec fn chunk_list(&self) -> Seq<PNGChunk> {
        self.chunks@
    }

    /// An empty builder.
    pub fn new() -> (r: PNGBuilder)
        ensures
            r.chunk_list() == Seq::<PNGChunk>::empty(),
    {
        let r = PNGBuilder { chunks: Vec::new() };
        proof {
            assert(r.chunk_list() =~= Seq::<PNGChunk>::empty());
        }
        r
    }

    /// Appends one chunk, unless it is typed `IEND`; such a chunk is
    /// silently dropped.
    pub fn with_chunk(self, chunk: PNGChunk) -> (r: PNGBuilder)
        ensures
            chunk.model().ty == spec_iend_type() ==> r.chunk_list() == self.chunk_list(),
            chunk.model().ty != spec_iend_type() ==> r.chunk_list() == self.chunk_list().push(
                chunk,
            ),
    {
        let mut this = self;
        let code = chunk.type_code();
        if !code_is_iend(&code) {
            this.chunks.push(chunk);
        }
        this
    }

    /// Appends every chunk of a validated container, in file order,
    /// dropping any `IEND`.  Each chunk's payload is copied out of the
    /// container's buffer, and its checksum is recomputed over type and
    /// payload bytes, which preserves it because the container's
    /// checksums are valid.
    pub fn with_png(self, png: &PNGReader<'_>) -> (r: PNGBuilder)
        requires
            structured(png@),
            lengths_ok(parse_png(png@)->Some_0),
            types_ok(parse_png(png@)->Some_0),
            crcs_ok(parse_png(png@)->Some_0),
        ensures
            chunk_models(r.chunk_list()) == chunk_models(self.chunk_list()) + non_iend(
                parse_png(png@)->Some_0,
            ),
            forall|i: int|
                0 <= i < self.chunk_list().len() ==> #[trigger] r.chunk_list()[i]
                    == self.chunk_list()[i],
            forall|i: int|
                self.chunk_list().len() <= i < r.chunk_list().len() ==> (
                #[trigger] r.chunk_list()[i]).wf(),
    {
        let refs = png.get_all_chunk_info();
        let ghost cs = parse_png(png@)->Some_0;
        let ghost base = chunk_models(self.chunk_list());
        let ghost base_list = self.chunk_list();
        let mut this = self;
        proof {
            assert(cs.skip(0) =~= cs);
        }
        let mut i: usize = 0;
        while i < refs.len()
            invariant
                i <= refs@.len(),
                cs == refs_models(refs@),
                lengths_ok(cs),
                types_ok(cs),
                crcs_ok(cs),
                base + non_iend(cs) == chunk_models(this.chunk_list()) + non_iend(
                    cs.skip(i as int),
                ),
                this.chunk_list().len() >= base_list.len(),
                forall|k: int|
                    0 <= k < base_list.len() ==> #[trigger] this.chunk_list()[k] == base_list[k],
                forall|k: int|
                    base_list.len() <= k < this.chunk_list().len() ==> (
                    #[trigger] this.chunk_list()[k]).wf(),
            decreases refs@.len() - i,
        {
            let c = refs[i];
            let ghost suffix = cs.skip(i as int);
            proof {
                assert(cs[i as int] == refs_models(refs@)[i as int]);
                assert(cs[i as int] == refs@[i as int].model());
                assert(suffix.len() > 0 && suffix[0] == cs[i as int]);
                assert(suffix.drop_first() =~= cs.skip(i as int + 1));
                assert(cs[i as int].data.len() <= crate::format::MAX_CHUNK_LENGTH);
                assert(valid_type_bytes(cs[i as int].ty));
                assert(crate::format::chunk_crc_ok(cs[i as int]));
            }
            let data = slice_to_vec(c.get_chunk_data());
            let chunk = PNGChunk::from_parts(c.type_code(), data);
            let ghost before = this.chunk_list();
            let ghost m = chunk.model();
            this = this.with_chunk(chunk);
            proof {
                assert(m == cs[i as int]);
                if m.ty == spec_iend_type() {
                    assert(non_iend(suffix) == non_iend(cs.skip(i as int + 1)));
                } else {
                    assert(chunk_models(this.chunk_list()) =~= chunk_models(before).push(m));
                    assert(non_iend(suffix) == seq![m] + non_iend(cs.skip(i as int + 1)));
                    assert(chunk_models(before) + (seq![m] + non_iend(cs.skip(i as int + 1)))
                        =~= chunk_models(this.chunk_list()) + non_iend(cs.skip(i as int + 1)));
                }
            }
            i = i + 1;
        }
        proof {
            assert(cs.skip(cs.len() as int) =~= Seq::<ChunkModel>::empty());
            assert(chunk_models(this.chunk_list()) + non_iend(cs.skip(cs.len() as int))
                =~= chunk_models(this.chunk_list()));
        }
        this
    }

    /// Appends many chunks in order, dropping any typed `IEND`.
    pub fn with_chunks(self, chunks: Vec<PNGChunk>) -> (r: PNGBuilder)
        ensures
            r.chunk_list() == self.chunk_list() + non_iend_chunks(chunks@),
    {
        let ghost base = self.chunk_list();
        let ghost orig = chunks@;
        let mut this = self;
        let mut rest = chunks;
        proof {
            assert(base + non_iend_chunks(orig) =~= this.chunk_list() + non_iend_chunks(rest@));
        }
        while rest.len() > 0
            invariant
                base + non_iend_chunks(orig) == this.chunk_list() + non_iend_chunks(rest@),
            decreases rest@.len(),
        {
            let ghost before_rest = rest@;
            let c = rest.remove(0);
            proof {
                assert(before_rest.remove(0) =~= before_rest.drop_first());
            }
            let ghost before = this.chunk_list();
            let ghost m = c.model();
            this = this.with_chunk(c);
            proof {
                if m.ty == spec_iend_type() {
                    assert(non_iend_chunks(before_rest) == non_iend_chunks(rest@));
                } else {
                    assert(before + (seq![before_rest[0]] + non_iend_chunks(rest@)) =~= this
                        .chunk_list() + non_iend_chunks(rest@));
                }
            }
        }
        proof {
            assert(non_iend_chunks(rest@) =~= Seq::<PNGChunk>::empty());
            assert(this.chunk_list() + non_iend_chunks(rest@) =~= this.chunk_list());
        }
        this
    }

    /// Serialises the retained chunks into a complete container: the fixed
    /// signature, then every retained chunk in insertion order exactly as
    /// stored, then a synthesised `IEND` chunk of length zero.  Fails with
    /// `MissingHeader` unless the first retained chunk is typed `IHDR`;
    /// the builder's state is left untouched either way.
    pub fn build(&self) -> (r: Result<Vec<u8>, PNGError>)
        ensures
            r == Err::<Vec<u8>, PNGError>(PNGError::MissingHeader) <==> (self.chunk_list().len()
                == 0 || self.chunk_list()[0].model().ty != spec_ihdr_type()),
            r matches Ok(out) ==> out@ == spec_signature() + spec_ser_list(self.chunk_list())
                + spec_chunk_bytes(spec_iend_model()),
            (self.chunk_list().len() > 0 && self.chunk_list()[0].model().ty == spec_ihdr_type())
                ==> r matches Ok(_),
    {
        if self.chunks.len() == 0 {
            return Err(PNGError::MissingHeader);
        }
        let first_code = self.chunks[0].type_code();
        if !code_is_ihdr(&first_code) {
            return Err(PNGError::MissingHeader);
        }
        let ghost csl = self.chunk_list();
        let mut out = signature_vec();
        proof {
            assert(csl.skip(0) =~= csl);
            assert(out@ + spec_ser_list(csl.skip(0)) =~= spec_signature() + spec_ser_list(csl));
        }
        let mut i: usize = 0;
        while i < self.chunks.len()
            invariant
                i <= csl.len(),
                csl == self.chunk_list(),
                out@ + spec_ser_list(csl.skip(i as int)) == spec_signature() + spec_ser_list(csl),
            decreases csl.len() - i,
        {
            let bytes = self.chunks[i].as_slice();
            let ghost old_out = out@;
            out.extend_from_slice(bytes.as_slice());
            proof {
                let suffix = csl.skip(i as int);
                assert(suffix.len() > 0 && suffix[0] == csl[i as int]);
                assert(suffix.drop_first() =~= csl.skip(i as int + 1));
                assert(old_out + (csl[i as int].spec_ser() + spec_ser_list(
                    csl.skip(i as int + 1),
                )) =~= out@ + spec_ser_list(csl.skip(i as int + 1)));
            }
            i = i + 1;
        }
        proof {
            assert(csl.skip(csl.len() as int) =~= Seq::<PNGChunk>::empty());
            assert(out@ + spec_ser_list(csl.skip(csl.len() as int)) =~= out@);
        }
        let iend_code: [u8; 4] = [0x49, 0x45, 0x4E, 0x44];
        proof {
            assert(iend_code@ =~= spec_iend_type());
            assert(valid_type_bytes(iend_code@));
        }
        let iend = PNGChunk::from_parts(iend_code, Vec::new());
        let iend_bytes = iend.as_slice();
        let ghost before_end = out@;
        out.extend_from_slice(iend_bytes.as_slice());
        proof {
            assert(iend.model().ty + iend.model().data =~= spec_iend_type());
            assert(iend.model() == spec_iend_model());
            assert(iend_bytes@ == spec_chunk_bytes(spec_iend_model()));
            assert(out@ == spec_signature() + spec_ser_list(csl) + spec_chunk_bytes(
                spec_iend_model(),
            ));
        }
        Ok(out)
    }
}

/// For well-formed chunks the stored serialisation equals the
/// serialisation of the chunks they denote: a well-formed chunk's header
/// length is its payload length.
pub proof fn lemma_ser_list_models(cs: Seq<PNGChunk>)
    requires
        forall|i: int| 0 <= i < cs.len() ==> (#[trigger] cs[i]).wf(),
    ensures
        spec_ser_list(cs) == spec_chunks_bytes(chunk_models(cs)),
    decreases cs.len(),
{
    if cs.len() == 0 {
        assert(chunk_models(cs).len() == 0);
    } else {
        lemma_ser_list_models(cs.drop_first());
        assert(chunk_models(cs.drop_first()) =~= chunk_models(cs).drop_first());
        assert(cs[0].spec_header_length() == cs[0].model().data.len() as u32);
        assert(cs[0].spec_ser() =~= spec_chunk_bytes(cs[0].model()));
        assert(chunk_models(cs)[0] == cs[0].model());
        assert(chunk_models(cs).len() != 0);
        assert(spec_chunks_bytes(chunk_models(cs)) == spec_chunk_bytes(chunk_models(cs)[0])
            + spec_chunks_bytes(chunk_models(cs).drop_first()));
    }
}

/// When the only `IEND` record of a list is its last, dropping the `IEND`
/// records is dropping the last record.
pub proof fn lemma_non_iend_only_last(cs: Seq<ChunkModel>)
    requires
        cs.len() > 0,
        cs.last().ty == spec_iend_type(),
        forall|i: int| 0 <= i < cs.len() - 1 ==> #[trigger] cs[i].ty != spec_iend_type(),
    ensures
        non_iend(cs) == cs.drop_last(),
    decreases cs.len(),
{
    if cs.len() == 1 {
        assert(cs[0].ty == spec_iend_type());
        assert(cs.drop_first() =~= Seq::<ChunkModel>::empty());
        assert(non_iend(cs) == non_iend(cs.drop_first()));
        assert(non_iend(cs.drop_first()) =~= Seq::<ChunkModel>::empty());
        assert(cs.drop_last() =~= Seq::<ChunkModel>::empty());
    } else {
        assert(cs[0].ty != spec_iend_type());
        let rest = cs.drop_first();
        assert(rest.last() == cs.last());
        lemma_non_iend_only_last(rest);
        assert(non_iend(cs) == seq![cs[0]] + non_iend(rest));
        assert(seq![cs[0]] + rest.drop_last() =~= cs.drop_last());
    }
}

/// Round trip.  For the chunk records `cs` of a valid container, the byte
/// stream the builder emits from them — the signature, every record of
/// `cs` except the terminal `IEND`, then the canonical `IEND` — parses
/// back to exactly those records with the canonical `IEND` at the end,
/// every checksum in the rebuilt stream is valid, and the only `IEND`
/// record of the rebuilt stream is the terminal one the builder wrote.
pub proof fn lemma_round_trip(b: Seq<u8>)
    requires
        valid_png(b),
    ensures
        ({
            let cs = parse_png(b)->Some_0;
            let rebuilt = spec_signature() + spec_chunks_bytes(non_iend(cs)) + spec_chunk_bytes(
                spec_iend_model(),
            );
            &&& non_iend(cs) == cs.drop_last()
            &&& sig_ok(rebuilt)
            &&& parse_png(rebuilt) == Some(cs.drop_last().push(spec_iend_model()))
            &&& valid_png(rebuilt)
            &&& (forall|i: int|
                0 <= i < cs.len() - 1 ==> (#[trigger] cs.drop_last().push(spec_iend_model())[i]).ty
                    != spec_iend_type())
        }),
{
    let cs = parse_png(b)->Some_0;
    crate::format::lemma_parse_chunks_shape(b.skip(8));
    lemma_non_iend_only_last(cs);
    let retained = cs.drop_last();
    let iend = spec_iend_model();
    let full = retained.push(iend);
    assert(valid_type_bytes(spec_iend_type()));
    assert(spec_iend_type() + Seq::<u8>::empty() =~= spec_iend_type());
    assert(crate::format::chunk_crc_ok(iend));
    assert(crate::format::chunk_model_wf(iend));
    assert forall|i: int| 0 <= i < full.len() implies crate::format::chunk_model_wf(
        #[trigger] full[i],
    ) by {
        if i < retained.len() {
            assert(full[i] == cs[i]);
            assert(cs[i].data.len() <= crate::format::MAX_CHUNK_LENGTH);
            assert(cs[i].ty.len() == 4);
        } else {
            assert(full[i] == iend);
        }
    }
    assert forall|i: int| 0 <= i < full.len() - 1 implies (#[trigger] full[i]).ty
        != spec_iend_type() by {
        assert(full[i] == cs[i]);
    }
    assert(full.last() == iend);
    crate::format::lemma_parse_serialised(full);
    crate::format::lemma_chunks_bytes_push(retained, iend);
    let body = crate::format::spec_chunks_bytes(full);
    let rebuilt = spec_signature() + spec_chunks_bytes(retained) + spec_chunk_bytes(iend);
    assert(rebuilt =~= spec_signature() + body);
    assert(rebuilt.subrange(0, 8) =~= spec_signature());
    assert(rebuilt.skip(8) =~= body);
    assert(parse_png(rebuilt) == Some(full));
    assert(lengths_ok(full));
    assert forall|i: int| 0 <= i < full.len() implies valid_type_bytes(
        (#[trigger] full[i]).ty,
    ) by {
        if i < retained.len() {
            assert(full[i] == cs[i]);
            assert(valid_type_bytes(cs[i].ty));
        } else {
            assert(full[i] == iend);
        }
    }
    assert forall|i: int| 0 <= i < full.len() implies crate::format::chunk_crc_ok(
        #[trigger] full[i],
    ) by {
        if i < retained.len() {
            assert(full[i] == cs[i]);
            assert(crate::format::chunk_crc_ok(cs[i]));
        } else {
            assert(full[i] == iend);
        }
    }
    assert(valid_png(rebuilt));
}

} // verus!
