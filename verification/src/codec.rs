//! Big-endian encoding of `u64` values, as stored in the key-value store.

use vstd::prelude::*;

verus! {

/// The number that eight big-endian bytes stand for.
pub open spec fn be_u64_value(s: Seq<u8>) -> int
    recommends
        s.len() == 8,
{
    s[0] * 0x100000000000000int + s[1] * 0x1000000000000int + s[2] * 0x10000000000int + s[3]
        * 0x100000000int + s[4] * 0x1000000int + s[5] * 0x10000int + s[6] * 0x100int + s[7]
}

/// The eight big-endian bytes of `x`, as `x.to_be_bytes()` gives them.
pub open spec fn be_u64_bytes(x: u64) -> Seq<u8> {
    seq![
        ((x >> 56u64) & 0xffu64) as u8,
        ((x >> 48u64) & 0xffu64) as u8,
        ((x >> 40u64) & 0xffu64) as u8,
        ((x >> 32u64) & 0xffu64) as u8,
        ((x >> 24u64) & 0xffu64) as u8,
        ((x >> 16u64) & 0xffu64) as u8,
        ((x >> 8u64) & 0xffu64) as u8,
        (x & 0xffu64) as u8,
    ]
}

proof fn lemma_split_bytes(x: u64)
    ensures
        (x >> 56u64) & 0xffu64 < 256,
        (x >> 48u64) & 0xffu64 < 256,
        (x >> 40u64) & 0xffu64 < 256,
        (x >> 32u64) & 0xffu64 < 256,
        (x >> 24u64) & 0xffu64 < 256,
        (x >> 16u64) & 0xffu64 < 256,
        (x >> 8u64) & 0xffu64 < 256,
        x & 0xffu64 < 256,
        x == ((x >> 56u64) & 0xffu64) * 0x100000000000000u64 + ((x >> 48u64) & 0xffu64)
            * 0x1000000000000u64 + ((x >> 40u64) & 0xffu64) * 0x10000000000u64 + ((x >> 32u64)
            & 0xffu64) * 0x100000000u64 + ((x >> 24u64) & 0xffu64) * 0x1000000u64 + ((x >> 16u64)
            & 0xffu64) * 0x10000u64 + ((x >> 8u64) & 0xffu64) * 0x100u64 + (x & 0xffu64),
{
    assert((x >> 56u64) & 0xffu64 < 256) by (bit_vector);
    assert((x >> 48u64) & 0xffu64 < 256) by (bit_vector);
    assert((x >> 40u64) & 0xffu64 < 256) by (bit_vector);
    assert((x >> 32u64) & 0xffu64 < 256) by (bit_vector);
    assert((x >> 24u64) & 0xffu64 < 256) by (bit_vector);
    assert((x >> 16u64) & 0xffu64 < 256) by (bit_vector);
    assert((x >> 8u64) & 0xffu64 < 256) by (bit_vector);
    assert(x & 0xffu64 < 256) by (bit_vector);
    assert(x == ((x >> 56u64) & 0xffu64) * 0x100000000000000u64 + ((x >> 48u64) & 0xffu64)
        * 0x1000000000000u64 + ((x >> 40u64) & 0xffu64) * 0x10000000000u64 + ((x >> 32u64)
        & 0xffu64) * 0x100000000u64 + ((x >> 24u64) & 0xffu64) * 0x1000000u64 + ((x >> 16u64)
        & 0xffu64) * 0x10000u64 + ((x >> 8u64) & 0xffu64) * 0x100u64 + (x & 0xffu64))
        by (bit_vector);
}

proof fn lemma_join_bytes(b0: u64, b1: u64, b2: u64, b3: u64, b4: u64, b5: u64, b6: u64, b7: u64)
    requires
        b0 < 256,
        b1 < 256,
        b2 < 256,
        b3 < 256,
        b4 < 256,
        b5 < 256,
        b6 < 256,
        b7 < 256,
    ensures
        ({
            let x = (b0 * 0x100000000000000u64 + b1 * 0x1000000000000u64 + b2 * 0x10000000000u64
                + b3 * 0x100000000u64 + b4 * 0x1000000u64 + b5 * 0x10000u64 + b6 * 0x100u64
                + b7) as u64;
            &&& (x >> 56u64) & 0xffu64 == b0
            &&& (x >> 48u64) & 0xffu64 == b1
            &&& (x >> 40u64) & 0xffu64 == b2
            &&& (x >> 32u64) & 0xffu64 == b3
            &&& (x >> 24u64) & 0xffu64 == b4
            &&& (x >> 16u64) & 0xffu64 == b5
            &&& (x >> 8u64) & 0xffu64 == b6
            &&& x & 0xffu64 == b7
        }),
{
    assert({
        let x = (b0 * 0x100000000000000u64 + b1 * 0x1000000000000u64 + b2 * 0x10000000000u64
            + b3 * 0x100000000u64 + b4 * 0x1000000u64 + b5 * 0x10000u64 + b6 * 0x100u64
            + b7) as u64;
        &&& (x >> 56u64) & 0xffu64 == b0
        &&& (x >> 48u64) & 0xffu64 == b1
        &&& (x >> 40u64) & 0xffu64 == b2
        &&& (x >> 32u64) & 0xffu64 == b3
        &&& (x >> 24u64) & 0xffu64 == b4
        &&& (x >> 16u64) & 0xffu64 == b5
        &&& (x >> 8u64) & 0xffu64 == b6
        &&& x & 0xffu64 == b7
    }) by (bit_vector)
        requires
            b0 < 256,
            b1 < 256,
            b2 < 256,
            b3 < 256,
            b4 < 256,
            b5 < 256,
            b6 < 256,
            b7 < 256,
    ;
}

/// Decoding the encoding of a number gives the number back.
pub proof fn law_be_decode_encode(x: u64)
    ensures
        be_u64_bytes(x).len() == 8,
        be_u64_value(be_u64_bytes(x)) == x,
{
    lemma_split_bytes(x);
}

/// Encoding the value of eight bytes gives the same eight bytes back.
pub proof fn law_be_encode_decode(s: Seq<u8>)
    requires
        s.len() == 8,
    ensures
        0 <= be_u64_value(s) <= u64::MAX,
        be_u64_bytes(be_u64_value(s) as u64) =~= s,
{
    lemma_join_bytes(
        s[0] as u64,
        s[1] as u64,
        s[2] as u64,
        s[3] as u64,
        s[4] as u64,
        s[5] as u64,
        s[6] as u64,
        s[7] as u64,
    );
}

/// The eight big-endian bytes of `x`.
pub fn encode_u64_be(x: u64) -> (r: Vec<u8>)
    ensures
        r@ == be_u64_bytes(x),
{
    proof {
        lemma_split_bytes(x);
    }
    let mut r: Vec<u8> = Vec::new();
    r.push(((x >> 56u64) & 0xffu64) as u8);
    r.push(((x >> 48u64) & 0xffu64) as u8);
    r.push(((x >> 40u64) & 0xffu64) as u8);
    r.push(((x >> 32u64) & 0xffu64) as u8);
    r.push(((x >> 24u64) & 0xffu64) as u8);
    r.push(((x >> 16u64) & 0xffu64) as u8);
    r.push(((x >> 8u64) & 0xffu64) as u8);
    r.push((x & 0xffu64) as u8);
    assert(r@ =~= be_u64_bytes(x));
    r
}

/// The number that eight big-endian bytes stand for, as `u64::from_be_bytes`
/// reads them.
pub fn decode_u64_be(s: &[u8]) -> (r: u64)
    requires
        s@.len() == 8,
    ensures
        r == be_u64_value(s@),
{
    (s[0] as u64) * 0x100000000000000u64 + (s[1] as u64) * 0x1000000000000u64 + (s[2] as u64)
        * 0x10000000000u64 + (s[3] as u64) * 0x100000000u64 + (s[4] as u64) * 0x1000000u64
        + (s[5] as u64) * 0x10000u64 + (s[6] as u64) * 0x100u64 + (s[7] as u64)
}

/// Reads a stored counter: exactly eight bytes stand for a number, anything
/// else for none.
pub open spec fn stored_u64_spec(stored: Option<Seq<u8>>) -> Option<u64> {
    match stored {
        Some(s) => if s.len() == 8 {
            Some(be_u64_value(s) as u64)
        } else {
            None
        },
        None => None,
    }
}

/// Reads a stored counter: exactly eight bytes stand for a number, anything
/// else for none.
pub fn stored_u64(stored: &Option<Vec<u8>>) -> (r: Option<u64>)
    ensures
        r == stored_u64_spec(match stored {
            Some(v) => Some(v@),
            None => None,
        }),
{
    match stored {
        Some(v) => {
            if v.len() == 8 {
                Some(decode_u64_be(v.as_slice()))
            } else {
                None
            }
        },
        None => None,
    }
}

} // verus!

verus! {

/// `a + b` in 64-bit unsigned arithmetic that wraps past `u64::MAX`.
pub open spec fn wrapped_sum(a: u64, b: u64) -> u64 {
    if a + b <= u64::MAX {
        (a + b) as u64
    } else {
        (a + b - 0x1_0000_0000_0000_0000) as u64
    }
}

/// `a + b`, wrapping past `u64::MAX` as a release build does.
pub fn add_wrapping(a: u64, b: u64) -> (r: u64)
    ensures
        r == wrapped_sum(a, b),
{
    if a <= u64::MAX - b {
        a + b
    } else {
        b - (u64::MAX - a) - 1
    }
}

} // verus!

verus! {

/// The value a store read found: the bytes of a present entry, and none for
/// a missing entry or a failed read.
pub open spec fn read_value(read: Result<Option<Vec<u8>>, sled::Error>) -> Option<Seq<u8>> {
    match read {
        Ok(Some(v)) => Some(v@),
        Ok(None) => None,
        Err(_) => None,
    }
}

/// The counter a store read found: eight bytes stand for a number; a
/// missing entry, one of another length, or a failed read, for none.
pub fn counter_from_read(read: &Result<Option<Vec<u8>>, sled::Error>) -> (r: Option<u64>)
    ensures
        r == stored_u64_spec(read_value(*read)),
{
    match read {
        Ok(stored) => stored_u64(stored),
        Err(_) => None,
    }
}

} // verus!
