//! Little-endian integer fields of the archive format.
//!
//! Every multi-byte integer in the container format is stored
//! least-significant byte first; these helpers read and write such fields
//! and are the base of every header codec in the crate.

use vstd::prelude::*;

verus! {

/// The `u16` stored little-endian at offset `i` of `s`.
pub open spec fn u16_le(s: Seq<u8>, i: int) -> u16
    recommends
        0 <= i,
        i + 2 <= s.len(),
{
    (s[i] + s[i + 1] * 0x100) as u16
}

/// The `u32` stored little-endian at offset `i` of `s`.
pub open spec fn u32_le(s: Seq<u8>, i: int) -> u32
    recommends
        0 <= i,
        i + 4 <= s.len(),
{
    (s[i] + s[i + 1] * 0x100 + s[i + 2] * 0x10000 + s[i + 3] * 0x1000000) as u32
}

/// The two bytes of `x`, least-significant first.
pub open spec fn u16_le_bytes(x: u16) -> Seq<u8> {
    seq![(x % 0x100) as u8, (x / 0x100) as u8]
}

/// The four bytes of `x`, least-significant first.
pub open spec fn u32_le_bytes(x: u32) -> Seq<u8> {
    seq![
        (x % 0x100) as u8,
        ((x / 0x100) % 0x100) as u8,
        ((x / 0x10000) % 0x100) as u8,
        ((x / 0x1000000) % 0x100) as u8,
    ]
}

/// Writing a `u16` and reading it back at the same place is the identity.
pub proof fn lemma_u16_le_round_trip(x: u16)
    ensures
        u16_le(u16_le_bytes(x), 0) == x,
{
}

/// Writing a `u32` and reading it back at the same place is the identity.
pub proof fn lemma_u32_le_round_trip(x: u32)
    ensures
        u32_le(u32_le_bytes(x), 0) == x,
{
}

/// A window of a prefix is the same window of the longer sequence.
pub proof fn lemma_prefix_subrange(s1: Seq<u8>, s2: Seq<u8>, a: int, b: int)
    requires
        0 <= a <= b <= s1.len(),
        s1.len() <= s2.len(),
        s2.subrange(0, s1.len() as int) == s1,
    ensures
        s2.subrange(a, b) == s1.subrange(a, b),
{
    assert forall|k: int| 0 <= k < s1.len() implies s2[k] == s1[k] by {
        assert(s2.subrange(0, s1.len() as int)[k] == s2[k]);
    }
    assert(s2.subrange(a, b) =~= s1.subrange(a, b));
}

pub fn read_u16_le(data: &Vec<u8>, off: usize) -> (r: u16)
    requires
        off + 2 <= data@.len(),
    ensures
        r == u16_le(data@, off as int),
{
    let data_len = data.len();
    let b0 = data[off] as u16;
    proof {
        assert(off + 2 <= data_len);
    }
    let b1 = data[off + 1] as u16;
    b0 + b1 * 0x100
}

pub fn read_u32_le(data: &Vec<u8>, off: usize) -> (r: u32)
    requires
        off + 4 <= data@.len(),
    ensures
        r == u32_le(data@, off as int),
{
    let data_len = data.len();
    let b0 = data[off] as u32;
    proof {
        assert(off + 4 <= data_len);
    }
    let b1 = data[off + 1] as u32;
    let b2 = data[off + 2] as u32;
    let b3 = data[off + 3] as u32;
    b0 + b1 * 0x100 + b2 * 0x10000 + b3 * 0x1000000
}

pub fn push_u16_le(out: &mut Vec<u8>, x: u16)
    ensures
        final(out)@ == old(out)@ + u16_le_bytes(x),
{
    out.push((x % 0x100) as u8);
    out.push((x / 0x100) as u8);
    assert(out@ =~= old(out)@ + u16_le_bytes(x));
}

/// Appends every byte of `data` to `out`, in order.
pub fn push_bytes(out: &mut Vec<u8>, data: &Vec<u8>)
    ensures
        final(out)@ == old(out)@ + data@,
{
    let ghost base = out@;
    let n = data.len();
    let mut i: usize = 0;
    while i < n
        invariant
            0 <= i <= n,
            n == data@.len(),
            out@ == base + data@.subrange(0, i as int),
        decreases n - i,
    {
        out.push(data[i]);
        proof {
            assert(out@ =~= base + data@.subrange(0, i + 1));
        }
        i = i + 1;
    }
    proof {
        assert(data@.subrange(0, n as int) =~= data@);
    }
}

pub fn push_u32_le(out: &mut Vec<u8>, x: u32)
    ensures
        final(out)@ == old(out)@ + u32_le_bytes(x),
{
    out.push((x % 0x100) as u8);
    out.push(((x / 0x100) % 0x100) as u8);
    out.push(((x / 0x10000) % 0x100) as u8);
    out.push(((x / 0x1000000) % 0x100) as u8);
    assert(out@ =~= old(out)@ + u32_le_bytes(x));
}

} // verus!
