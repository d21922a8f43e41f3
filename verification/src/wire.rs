//! Big-endian byte packing for the wire formats: the 4-byte length prefix
//! and the 4-byte integer fields of request and piece payloads, plus the
//! 2-byte port field of the compact peer list.

use vstd::prelude::*;

verus! {

/// The unsigned value of four big-endian bytes.
pub open spec fn be32_value(b: Seq<u8>) -> int
    recommends
        b.len() == 4,
{
    b[0] * 0x1000000 + b[1] * 0x10000 + b[2] * 0x100 + b[3]
}

/// The four big-endian bytes of a 32-bit value.
pub open spec fn be32_bytes(n: u32) -> Seq<u8> {
    seq![
        (n / 0x1000000) as u8,
        ((n / 0x10000) % 0x100) as u8,
        ((n / 0x100) % 0x100) as u8,
        (n % 0x100) as u8,
    ]
}

/// The unsigned value of two big-endian bytes.
pub open spec fn be16_value(b0: u8, b1: u8) -> int {
    b0 * 0x100 + b1
}

/// Packing a 32-bit value big-endian and reading the bytes back gives the value.
pub proof fn lemma_be32_round_trip(n: u32)
    ensures
        be32_value(be32_bytes(n)) == n,
{
    let b0 = (n / 0x1000000) as u8;
    let b1 = ((n / 0x10000) % 0x100) as u8;
    let b2 = ((n / 0x100) % 0x100) as u8;
    let b3 = (n % 0x100) as u8;
    assert((n / 0x1000000) as u8 * 0x1000000 + ((n / 0x10000) % 0x100) as u8 * 0x10000
        + ((n / 0x100) % 0x100) as u8 * 0x100 + (n % 0x100) as u8 == n) by (bit_vector);
    assert(be32_bytes(n) == seq![b0, b1, b2, b3]);
}

/// Reads a 32-bit big-endian value from four bytes.
pub fn be32_decode(b0: u8, b1: u8, b2: u8, b3: u8) -> (n: u32)
    ensures
        n == be32_value(seq![b0, b1, b2, b3]),
{
    let n = b0 as u32 * 0x1000000 + b1 as u32 * 0x10000 + b2 as u32 * 0x100 + b3 as u32;
    proof {
        let s = seq![b0, b1, b2, b3];
        assert(s[0] == b0 && s[1] == b1 && s[2] == b2 && s[3] == b3);
    }
    n
}

/// Appends the four big-endian bytes of `n` to `out`.
pub fn be32_encode_push(out: &mut Vec<u8>, n: u32)
    requires
        old(out)@.len() + 4 <= usize::MAX,
    ensures
        final(out)@ == old(out)@ + be32_bytes(n),
{
    out.push((n / 0x1000000) as u8);
    out.push(((n / 0x10000) % 0x100) as u8);
    out.push(((n / 0x100) % 0x100) as u8);
    out.push((n % 0x100) as u8);
    proof {
        assert(out@ =~= old(out)@ + be32_bytes(n));
    }
}

/// Reads a 16-bit big-endian value from two bytes.
pub fn be16_decode(b0: u8, b1: u8) -> (n: u16)
    ensures
        n == be16_value(b0, b1),
{
    b0 as u16 * 0x100 + b1 as u16
}

} // verus!
