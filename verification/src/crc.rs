//! The CRC-32 checksum.
use vstd::prelude::*;

verus! {

/// One step of the division by the CRC-32 polynomial, lowest bit first.
pub open spec fn shifted(x: u32) -> u32 {
    if x & 1 == 1 {
        (x >> 1) ^ 0xEDB8_8320
    } else {
        x >> 1
    }
}

/// The steps for one byte.
pub open spec fn shifted8(x: u32) -> u32 {
    shifted(shifted(shifted(shifted(shifted(shifted(shifted(shifted(x))))))))
}

/// What the division leaves after `bytes`, starting from all ones.
pub open spec fn crc32_state(bytes: Seq<u8>) -> u32
    decreases bytes.len(),
{
    if bytes.len() == 0 {
        0xFFFF_FFFF
    } else {
        shifted8(crc32_state(bytes.drop_last()) ^ bytes.last() as u32)
    }
}

/// The CRC-32 checksum (IEEE) of bytes: what is left, with all bits flipped.
pub open spec fn crc32_checksum(bytes: Seq<u8>) -> u32 {
    crc32_state(bytes) ^ 0xFFFF_FFFF
}

/// Returns the CRC-32 checksum of bytes.
///
/// Calls `crc32fast::hash`. Assumed: it computes the CRC-32 (IEEE) checksum, with
/// the reflected polynomial `EDB88320`, all ones at the start and all bits flipped
/// at the end.
#[verifier::external_body]
pub(crate) fn crc32(bytes: &[u8]) -> (sum: u32)
    ensures
        sum == crc32_checksum(bytes@),
{
    crc32fast::hash(bytes)
}

proof fn shifted_injective(x: u32, y: u32)
    by (bit_vector)
    requires
        shifted(x) == shifted(y),
    ensures
        x == y,
{
}

proof fn shifted_linear(x: u32, y: u32)
    by (bit_vector)
    ensures
        shifted(x ^ y) == shifted(x) ^ shifted(y),
{
}

proof fn shifted_down(z: u32)
    by (bit_vector)
    requires
        z < 0x100_0000,
    ensures
        shifted(z << 8) == z << 7,
        shifted(z << 7) == z << 6,
        shifted(z << 6) == z << 5,
        shifted(z << 5) == z << 4,
        shifted(z << 4) == z << 3,
        shifted(z << 3) == z << 2,
        shifted(z << 2) == z << 1,
        shifted(z << 1) == z,
{
}

proof fn shifted8_injective(x: u32, y: u32)
    requires
        shifted8(x) == shifted8(y),
    ensures
        x == y,
{
    let x1 = shifted(x);
    let y1 = shifted(y);
    let x2 = shifted(x1);
    let y2 = shifted(y1);
    let x3 = shifted(x2);
    let y3 = shifted(y2);
    let x4 = shifted(x3);
    let y4 = shifted(y3);
    let x5 = shifted(x4);
    let y5 = shifted(y4);
    let x6 = shifted(x5);
    let y6 = shifted(y5);
    let x7 = shifted(x6);
    let y7 = shifted(y6);
    shifted_injective(x7, y7);
    shifted_injective(x6, y6);
    shifted_injective(x5, y5);
    shifted_injective(x4, y4);
    shifted_injective(x3, y3);
    shifted_injective(x2, y2);
    shifted_injective(x1, y1);
    shifted_injective(x, y);
}

proof fn shifted8_linear(x: u32, y: u32)
    ensures
        shifted8(x ^ y) == shifted8(x) ^ shifted8(y),
{
    let x1 = shifted(x);
    let y1 = shifted(y);
    let x2 = shifted(x1);
    let y2 = shifted(y1);
    let x3 = shifted(x2);
    let y3 = shifted(y2);
    let x4 = shifted(x3);
    let y4 = shifted(y3);
    let x5 = shifted(x4);
    let y5 = shifted(y4);
    let x6 = shifted(x5);
    let y6 = shifted(y5);
    let x7 = shifted(x6);
    let y7 = shifted(y6);
    shifted_linear(x, y);
    shifted_linear(x1, y1);
    shifted_linear(x2, y2);
    shifted_linear(x3, y3);
    shifted_linear(x4, y4);
    shifted_linear(x5, y5);
    shifted_linear(x6, y6);
    shifted_linear(x7, y7);
}

proof fn shifted8_down(z: u32)
    requires
        z < 0x100_0000,
    ensures
        shifted8(z << 8) == z,
{
    shifted_down(z);
}

proof fn difference(x: u32, y: u32, a: u32, b: u32)
    ensures
        shifted8(x ^ a) ^ shifted8(y ^ b) == shifted8((x ^ y) ^ (a ^ b)),
{
    shifted8_linear(x ^ a, y ^ b);
    assert((x ^ a) ^ (y ^ b) == (x ^ y) ^ (a ^ b)) by (bit_vector);
}

proof fn no_difference(e0: u32, e1: u32, e2: u32, e3: u32, d1: u32, d2: u32, d3: u32)
    requires
        e0 < 256,
        e1 < 256,
        e2 < 256,
        e3 < 256,
        d1 == shifted8(e0),
        d2 == shifted8(d1 ^ e1),
        d3 == shifted8(d2 ^ e2),
        shifted8(d3 ^ e3) == 0,
    ensures
        e0 == 0,
        e1 == 0,
        e2 == 0,
        e3 == 0,
{
    assert(0u32 << 8 == 0) by (bit_vector);
    shifted8_down(0);
    shifted8_injective(d3 ^ e3, 0);
    assert(d3 == e3) by (bit_vector)
        requires
            d3 ^ e3 == 0,
    ;
    shifted8_down(e3);
    shifted8_injective(d2 ^ e2, e3 << 8);
    assert(d2 == (e3 << 8) ^ e2 && d2 < 0x1_0000) by (bit_vector)
        requires
            d2 ^ e2 == e3 << 8,
            e2 < 256,
            e3 < 256,
    ;
    shifted8_down(d2);
    shifted8_injective(d1 ^ e1, d2 << 8);
    assert(d1 == (d2 << 8) ^ e1 && d1 < 0x100_0000) by (bit_vector)
        requires
            d1 ^ e1 == d2 << 8,
            e1 < 256,
            d2 < 0x1_0000,
    ;
    shifted8_down(d1);
    shifted8_injective(e0, d1 << 8);
    assert(e0 == 0 && e1 == 0 && e2 == 0 && e3 == 0) by (bit_vector)
        requires
            e0 == d1 << 8,
            d1 == (d2 << 8) ^ e1,
            d2 == (e3 << 8) ^ e2,
            e0 < 256,
            e1 < 256,
            e2 < 256,
            e3 < 256,
    ;
}

proof fn same_start(s: Seq<u8>, t: Seq<u8>, tail: Seq<u8>)
    requires
        crc32_state(s + tail) == crc32_state(t + tail),
    ensures
        crc32_state(s) == crc32_state(t),
    decreases tail.len(),
{
    if tail.len() == 0 {
        assert(s + tail =~= s);
        assert(t + tail =~= t);
    } else {
        let rest = tail.drop_last();
        let c = tail.last() as u32;
        assert((s + tail).drop_last() =~= s + rest);
        assert((t + tail).drop_last() =~= t + rest);
        let x = crc32_state(s + rest);
        let y = crc32_state(t + rest);
        shifted8_injective(x ^ c, y ^ c);
        assert(x == y) by (bit_vector)
            requires
                x ^ c == y ^ c,
        ;
        same_start(s, t, rest);
    }
}

proof fn byte_difference(a: u8, b: u8)
    by (bit_vector)
    ensures
        (a as u32) ^ (b as u32) < 256u32,
        (a as u32) ^ (b as u32) == 0 ==> a == b,
{
}

/// Bytes that differ in a run of four bytes only have different checksums.
pub proof fn runs_are_told_apart(start: Seq<u8>, r: Seq<u8>, q: Seq<u8>, tail: Seq<u8>)
    requires
        r.len() == 4,
        q.len() == 4,
        crc32_checksum(start + r + tail) == crc32_checksum(start + q + tail),
    ensures
        r == q,
{
    let all = crc32_state(start + r + tail);
    let other = crc32_state(start + q + tail);
    assert(all == other) by (bit_vector)
        requires
            all ^ 0xFFFF_FFFF == other ^ 0xFFFF_FFFF,
    ;
    same_start(start + r, start + q, tail);
    let s = crc32_state(start);
    let x1 = shifted8(s ^ r[0] as u32);
    let y1 = shifted8(s ^ q[0] as u32);
    let x2 = shifted8(x1 ^ r[1] as u32);
    let y2 = shifted8(y1 ^ q[1] as u32);
    let x3 = shifted8(x2 ^ r[2] as u32);
    let y3 = shifted8(y2 ^ q[2] as u32);
    run_state(start, r);
    run_state(start, q);
    let x4 = crc32_state(start + r);
    byte_difference(r[0], q[0]);
    byte_difference(r[1], q[1]);
    byte_difference(r[2], q[2]);
    byte_difference(r[3], q[3]);
    difference(s, s, r[0] as u32, q[0] as u32);
    let e0 = r[0] as u32 ^ q[0] as u32;
    assert((s ^ s) ^ e0 == e0) by (bit_vector);
    difference(x1, y1, r[1] as u32, q[1] as u32);
    difference(x2, y2, r[2] as u32, q[2] as u32);
    difference(x3, y3, r[3] as u32, q[3] as u32);
    assert(x4 ^ x4 == 0) by (bit_vector);
    no_difference(
        e0,
        r[1] as u32 ^ q[1] as u32,
        r[2] as u32 ^ q[2] as u32,
        r[3] as u32 ^ q[3] as u32,
        x1 ^ y1,
        x2 ^ y2,
        x3 ^ y3,
    );
    assert(r =~= q);
}

proof fn run_state(start: Seq<u8>, r: Seq<u8>)
    requires
        r.len() == 4,
    ensures
        crc32_state(start + r) == shifted8(
            shifted8(
                shifted8(shifted8(crc32_state(start) ^ r[0] as u32) ^ r[1] as u32) ^ r[2] as u32,
            ) ^ r[3] as u32,
        ),
{
    let s4 = start + r;
    let s3 = s4.drop_last();
    let s2 = s3.drop_last();
    let s1 = s2.drop_last();
    assert(s1.drop_last() =~= start);
    assert(crc32_state(s1) == shifted8(crc32_state(start) ^ r[0] as u32));
    assert(crc32_state(s2) == shifted8(crc32_state(s1) ^ r[1] as u32));
    assert(crc32_state(s3) == shifted8(crc32_state(s2) ^ r[2] as u32));
}

} // verus!
