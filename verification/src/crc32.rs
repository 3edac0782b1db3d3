//! CRC-32 over a byte stream, as the archive format uses it: once to verify
//! every extracted entry against the checksum its header declares, and once
//! inside the legacy stream cipher's key schedule.

use vstd::prelude::*;

verus! {

/// IEEE CRC-32 state after folding `data` into the running value `value`;
/// `crc32_of` is the checksum of a whole stream.
pub uninterp spec fn crc32_update_of(value: u32, data: Seq<u8>) -> u32;

/// The IEEE CRC-32 checksum of `data`.
pub open spec fn crc32_of(data: Seq<u8>) -> u32 {
    crc32_update_of(0, data)
}

/// Relies on crc::crc32::update with the IEEE table: it folds `data` byte by
/// byte into the running value, so the result depends on `value` and `data`
/// alone, an empty slice leaves the value unchanged, and folding two slices
/// one after the other equals folding their concatenation.
#[verifier::external_body]
fn crc32_update(value: u32, data: &[u8]) -> (r: u32)
    ensures
        r == crc32_update_of(value, data@),
        data@.len() == 0 ==> r == value,
        forall|rest: Seq<u8>| crc32_update_of(r, rest) == crc32_update_of(value, data@ + rest),
{
    crc::crc32::update(value, &crc::crc32::IEEE_TABLE, data)
}

/// The IEEE CRC-32 of a byte stream, folded in bounded chunks exactly as a
/// reader of a large file would feed them; the checksum of the empty stream
/// is the initial value `0`.
pub fn calculate_checksum(data: &Vec<u8>) -> (r: u32)
    ensures
        r == crc32_of(data@),
        data@.len() == 0 ==> r == 0,
{
    let n = data.len();
    let mut value: u32 = 0;
    let mut i: usize = 0;
    assert(data@.subrange(0, n as int) =~= data@);
    while i < n
        invariant
            0 <= i <= n,
            n == data@.len(),
            crc32_update_of(value, data@.subrange(i as int, n as int)) == crc32_of(data@),
            i == 0 ==> value == 0,
        decreases n - i,
    {
        let end = if n - i < 1048576 {
            n
        } else {
            i + 1048576
        };
        let chunk = &data[i..end];
        let next = crc32_update(value, chunk);
        proof {
            assert(chunk@ + data@.subrange(end as int, n as int) =~= data@.subrange(
                i as int,
                n as int,
            ));
        }
        value = next;
        i = end;
    }
    let empty_tail = &data[n..n];
    let r = crc32_update(value, empty_tail);
    assert(r == value);
    r
}

} // verus!
