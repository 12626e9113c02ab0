//! Byte-level encoding of gate and generator parameters.
//!
//! The compiled-circuit persistence format stores each parameter as a fixed
//! eight-byte little-endian word: lengths and rows as plain integers, field
//! elements as their canonical representatives.

use vstd::prelude::*;

verus! {

/// The eight little-endian bytes of a 64-bit word.
pub open spec fn u64_le_bytes(x: u64) -> Seq<u8> {
    seq![
        (x & 0xff) as u8,
        ((x >> 8) & 0xff) as u8,
        ((x >> 16) & 0xff) as u8,
        ((x >> 24) & 0xff) as u8,
        ((x >> 32) & 0xff) as u8,
        ((x >> 40) & 0xff) as u8,
        ((x >> 48) & 0xff) as u8,
        ((x >> 56) & 0xff) as u8,
    ]
}

/// The 64-bit word read from eight little-endian bytes.
pub open spec fn u64_from_le(s: Seq<u8>) -> u64
    recommends
        s.len() == 8,
{
    ((s[0] as u64) | ((s[1] as u64) << 8) | ((s[2] as u64) << 16) | ((s[3] as u64) << 24)
        | ((s[4] as u64) << 32) | ((s[5] as u64) << 40) | ((s[6] as u64) << 48) | ((
    s[7] as u64) << 56)) as u64
}

/// Reading a word at `pos`: defined when eight bytes are available.
pub open spec fn parse_u64(s: Seq<u8>, pos: int) -> Option<(u64, int)> {
    if 0 <= pos && pos + 8 <= s.len() {
        Some((u64_from_le(s.subrange(pos, pos + 8)), pos + 8))
    } else {
        None
    }
}

/// Appends the little-endian encoding of `x`.
pub fn write_u64_le(dst: &mut Vec<u8>, x: u64)
    ensures
        final(dst)@ == old(dst)@ + u64_le_bytes(x),
{
    dst.push(#[verifier::truncate] ((x & 0xff) as u8));
    dst.push(#[verifier::truncate] (((x >> 8) & 0xff) as u8));
    dst.push(#[verifier::truncate] (((x >> 16) & 0xff) as u8));
    dst.push(#[verifier::truncate] (((x >> 24) & 0xff) as u8));
    dst.push(#[verifier::truncate] (((x >> 32) & 0xff) as u8));
    dst.push(#[verifier::truncate] (((x >> 40) & 0xff) as u8));
    dst.push(#[verifier::truncate] (((x >> 48) & 0xff) as u8));
    dst.push(#[verifier::truncate] (((x >> 56) & 0xff) as u8));
    proof {
        assert(dst@ =~= old(dst)@ + u64_le_bytes(x));
    }
}

/// Reads the little-endian word at `pos`, if eight bytes are available.
pub fn read_u64_le(bytes: &Vec<u8>, pos: usize) -> (r: Option<(u64, usize)>)
    ensures
        match r {
            Some((v, p)) => parse_u64(bytes@, pos as int) == Some((v, p as int)),
            None => parse_u64(bytes@, pos as int) is None,
        },
{
    if bytes.len() < 8 || pos > bytes.len() - 8 {
        return None;
    }
    let v: u64 = (bytes[pos] as u64) | ((bytes[pos + 1] as u64) << 8) | ((bytes[pos + 2] as u64)
        << 16) | ((bytes[pos + 3] as u64) << 24) | ((bytes[pos + 4] as u64) << 32) | ((bytes[pos
        + 5] as u64) << 40) | ((bytes[pos + 6] as u64) << 48) | ((bytes[pos + 7] as u64) << 56);
    proof {
        let s = bytes@.subrange(pos as int, pos as int + 8);
        assert(s[0] == bytes@[pos as int]);
        assert(s[1] == bytes@[pos as int + 1]);
        assert(s[2] == bytes@[pos as int + 2]);
        assert(s[3] == bytes@[pos as int + 3]);
        assert(s[4] == bytes@[pos as int + 4]);
        assert(s[5] == bytes@[pos as int + 5]);
        assert(s[6] == bytes@[pos as int + 6]);
        assert(s[7] == bytes@[pos as int + 7]);
    }
    Some((v, pos + 8))
}

/// Writing a word and reading it back yields the word.
pub proof fn lemma_u64_le_round_trip(x: u64)
    ensures
        u64_from_le(u64_le_bytes(x)) == x,
{
    let b0 = (x & 0xff) as u8;
    let b1 = ((x >> 8) & 0xff) as u8;
    let b2 = ((x >> 16) & 0xff) as u8;
    let b3 = ((x >> 24) & 0xff) as u8;
    let b4 = ((x >> 32) & 0xff) as u8;
    let b5 = ((x >> 40) & 0xff) as u8;
    let b6 = ((x >> 48) & 0xff) as u8;
    let b7 = ((x >> 56) & 0xff) as u8;
    assert(((b0 as u64) | ((b1 as u64) << 8) | ((b2 as u64) << 16) | ((b3 as u64) << 24) | ((
    b4 as u64) << 32) | ((b5 as u64) << 40) | ((b6 as u64) << 48) | ((b7 as u64) << 56)) == x)
        by (bit_vector)
        requires
            b0 == (x & 0xff) as u8,
            b1 == ((x >> 8) & 0xff) as u8,
            b2 == ((x >> 16) & 0xff) as u8,
            b3 == ((x >> 24) & 0xff) as u8,
            b4 == ((x >> 32) & 0xff) as u8,
            b5 == ((x >> 40) & 0xff) as u8,
            b6 == ((x >> 48) & 0xff) as u8,
            b7 == ((x >> 56) & 0xff) as u8,
    ;
}

/// Reading at the start of a freshly written word, whatever lies around it,
/// yields the word that was written.
pub proof fn lemma_parse_u64_of_write(prefix: Seq<u8>, x: u64, suffix: Seq<u8>)
    ensures
        parse_u64(prefix + u64_le_bytes(x) + suffix, prefix.len() as int) == Some(
            (x, prefix.len() as int + 8),
        ),
{
    let s = prefix + u64_le_bytes(x) + suffix;
    assert(s.subrange(prefix.len() as int, prefix.len() as int + 8) =~= u64_le_bytes(x));
    lemma_u64_le_round_trip(x);
}

} // verus!
