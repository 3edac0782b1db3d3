//! The trailing data descriptor: three 32-bit fields written after an
//! entry's data by streaming writers.  This crate refuses entries that use
//! one, but can still decode the record itself.

use vstd::prelude::*;

use crate::bytes::{read_u32_le, u32_le};

verus! {

pub struct DataDescriptor {
    pub crc32: u32,
    pub compressed_size: u32,
    pub uncompressed_size: u32,
}

impl DataDescriptor {
    /// Decodes the three fields at the front of `bytes`.
    pub fn from_bytes(bytes: &Vec<u8>) -> (r: Self)
        requires
            bytes@.len() >= 12,
        ensures
            r.crc32 == u32_le(bytes@, 0),
            r.compressed_size == u32_le(bytes@, 4),
            r.uncompressed_size == u32_le(bytes@, 8),
    {
        DataDescriptor {
            crc32: read_u32_le(bytes, 0),
            compressed_size: read_u32_le(bytes, 4),
            uncompressed_size: read_u32_le(bytes, 8),
        }
    }
}

} // verus!
