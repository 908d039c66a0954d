//! CRC-32 in the zlib/PNG variant: reflected polynomial `0xEDB88320`,
//! initial register all ones, final inversion.  The checksum of a chunk is
//! taken over its four type bytes followed by its payload; the length field
//! is excluded.

use vstd::prelude::*;

verus! {

/// One round of the reflected polynomial `0xEDB88320` on the table register.
pub open spec fn crc_table_step(c: u32) -> u32 {
    if c & 1 == 1 {
        0xEDB88320u32 ^ (c >> 1)
    } else {
        c >> 1
    }
}

/// `k` rounds of the polynomial step applied to `c`.
pub open spec fn crc_table_rounds(c: u32, k: nat) -> u32
    decreases k,
{
    if k == 0 {
        c
    } else {
        crc_table_step(crc_table_rounds(c, (k - 1) as nat))
    }
}

/// Entry `i` of the byte table: eight polynomial rounds on `i`.
pub open spec fn crc_table_entry(i: u8) -> u32 {
    crc_table_rounds(i as u32, 8)
}

/// Folds one byte into the running register.
pub open spec fn crc_step(c: u32, b: u8) -> u32 {
    crc_table_entry((c as u8) ^ b) ^ (c >> 8)
}

/// Folds a byte sequence into the running register, front to back.
pub open spec fn crc_accum(c: u32, s: Seq<u8>) -> u32
    decreases s.len(),
{
    if s.len() == 0 {
        c
    } else {
        crc_accum(crc_step(c, s[0]), s.drop_first())
    }
}

/// The CRC-32 of a byte sequence: register seeded with all ones, folded
/// over every byte, and inverted at the end.
pub open spec fn crc_of(s: Seq<u8>) -> u32 {
    crc_accum(0xFFFFFFFFu32, s) ^ 0xFFFFFFFFu32
}

/// Folding `s` and then one more byte equals folding `s.push(b)`.
pub proof fn lemma_crc_accum_push(c: u32, s: Seq<u8>, b: u8)
    ensures
        crc_accum(c, s.push(b)) == crc_step(crc_accum(c, s), b),
    decreases s.len(),
{
    if s.len() == 0 {
        assert(s.push(b)[0] == b);
        assert(s.push(b).drop_first() =~= Seq::<u8>::empty());
        assert(crc_accum(c, s.push(b)) == crc_accum(crc_step(c, b), Seq::<u8>::empty()));
        assert(crc_accum(crc_step(c, b), Seq::<u8>::empty()) == crc_step(c, b));
        assert(crc_accum(c, s) == c);
    } else {
        assert(s.push(b)[0] == s[0]);
        assert(s.push(b).drop_first() =~= s.drop_first().push(b));
        assert(crc_accum(c, s.push(b)) == crc_accum(crc_step(c, s[0]), s.drop_first().push(b)));
        lemma_crc_accum_push(crc_step(c, s[0]), s.drop_first(), b);
        assert(crc_accum(c, s) == crc_accum(crc_step(c, s[0]), s.drop_first()));
    }
}

/// Builds the 256-entry byte table.
fn make_crc_table() -> (table: Vec<u32>)
    ensures
        table@.len() == 256,
        forall|i: int| 0 <= i < 256 ==> table@[i] == crc_table_entry(i as u8),
{
    let mut table: Vec<u32> = Vec::new();
    let mut n: usize = 0;
    while n < 256
        invariant
            n <= 256,
            table@.len() == n,
            forall|i: int| 0 <= i < n ==> table@[i] == crc_table_entry(i as u8),
        decreases 256 - n,
    {
        let mut c: u32 = n as u32;
        let mut k: usize = 0;
        while k < 8
            invariant
                k <= 8,
                c == crc_table_rounds(n as u32, k as nat),
            decreases 8 - k,
        {
            proof {
                assert(c & 1 == 0 || c & 1 == 1) by (bit_vector);
            }
            if c & 1 != 0 {
                c = 0xEDB88320 ^ (c >> 1);
            } else {
                c = c >> 1;
            }
            k = k + 1;
        }
        table.push(c);
        n = n + 1;
    }
    table
}

/// Runs the register over every byte of `buffer`.
fn update_crc(start: u32, buffer: &[u8]) -> (r: u32)
    ensures
        r == crc_accum(start, buffer@),
{
    let table = make_crc_table();
    let mut cur: u32 = start;
    let mut n: usize = 0;
    while n < buffer.len()
        invariant
            n <= buffer@.len(),
            table@.len() == 256,
            forall|i: int| 0 <= i < 256 ==> table@[i] == crc_table_entry(i as u8),
            cur == crc_accum(start, buffer@.take(n as int)),
        decreases buffer@.len() - n,
    {
        let b = buffer[n];
        let idx: u8 = (cur as u8) ^ b;
        let next: u32 = table[idx as usize] ^ (cur >> 8);
        proof {
            assert(buffer@.take(n as int).push(buffer@[n as int]) =~= buffer@.take(
                n as int + 1,
            ));
            lemma_crc_accum_push(start, buffer@.take(n as int), buffer@[n as int]);
        }
        cur = next;
        n = n + 1;
    }
    proof {
        assert(buffer@.take(buffer@.len() as int) =~= buffer@);
    }
    cur
}

/// Computes the CRC-32 (zlib/PNG variant) of `buffer`.
pub fn crc(buffer: &[u8]) -> (r: u32)
    ensures
        r == crc_of(buffer@),
{
    update_crc(0xFFFFFFFF, buffer) ^ 0xFFFFFFFF
}

/// The stored checksum field of a chunk, kept as a 32-bit value and written
/// out big-endian.
#[derive(Clone, Copy, Debug)]
pub struct ChunkCRC {
    stored: u32,
}

impl ChunkCRC {
    /// The 32-bit value held in the field.
    pub closed spec fn value(&self) -> u32 {
        self.stored
    }

    /// Builds the field from the bytes the checksum is taken over.
    pub fn new(data: &[u8]) -> (r: ChunkCRC)
        ensures
            r.value() == crc_of(data@),
    {
        ChunkCRC { stored: crc(data) }
    }

    /// True when the stored value is the checksum of `data`.
    pub fn is_valid_crc(&self, data: &[u8]) -> (r: bool)
        ensures
            r == (self.value() == crc_of(data@)),
    {
        crc(data) == self.stored
    }

    /// The stored 32-bit value.
    pub fn get_crc(&self) -> (r: u32)
        ensures
            r == self.value(),
    {
        self.stored
    }

    /// Replaces the stored value with the checksum of `data`.
    pub fn set_crc(&mut self, data: &[u8])
        ensures
            final(self).value() == crc_of(data@),
    {
        self.stored = crc(data);
    }

    /// Builds the field from an already-known value.
    pub(crate) fn from_value(value: u32) -> (r: ChunkCRC)
        ensures
            r.value() == value,
    {
        ChunkCRC { stored: value }
    }

    /// Replaces the stored value directly.
    pub(crate) fn set_crc_by_value(&mut self, value: u32)
        ensures
            final(self).value() == value,
    {
        self.stored = value;
    }
}

} // verus!
