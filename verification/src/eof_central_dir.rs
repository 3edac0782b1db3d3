//! The End-Of-Central-Directory record: the 22-byte trailer that says how
//! many entries the archive holds and where their directory starts, with an
//! optional comment after it.

use vstd::prelude::*;

use crate::bytes::{
    push_bytes, push_u16_le, push_u32_le, read_u16_le, read_u32_le, u16_le, u16_le_bytes, u32_le,
    u32_le_bytes,
};
use crate::errors::HeaderParseError;
use crate::mem_map::END_OF_CENTRAL_DIR_SIGNATURE;

verus! {

pub const MIN_EOF_CENTRAL_DIRECTORY_SIZE: usize = 22;

/// The fixed 22-byte window is present and starts with the right signature.
pub open spec fn eocd_basic_ok(data: Seq<u8>) -> bool {
    &&& data.len() >= 22
    &&& u32_le(data, 0) == END_OF_CENTRAL_DIR_SIGNATURE
}

/// Declared length of the archive comment.
pub open spec fn eocd_comment_len(data: Seq<u8>) -> u16 {
    u16_le(data, 20)
}

/// The comment also fits in the buffer.
pub open spec fn eocd_fits(data: Seq<u8>) -> bool {
    22 + eocd_comment_len(data) <= data.len()
}

pub struct EndOfCentralDirectory {
    pub signature: u32,
    pub num_of_disk: u16,
    pub num_of_disk_start_central_dir: u16,
    pub num_of_central_dir: u16,
    pub total_num_of_central_dir: u16,
    pub size_of_central_dir: u32,
    pub cdfh_start_offset: u32,
    pub zip_comment_len: u16,
    pub zip_comment: Vec<u8>,
}

/// The fields a well-formed trailer decodes to.
pub open spec fn eocd_decoded(h: EndOfCentralDirectory, data: Seq<u8>) -> bool {
    &&& h.signature == END_OF_CENTRAL_DIR_SIGNATURE
    &&& h.num_of_disk == u16_le(data, 4)
    &&& h.num_of_disk_start_central_dir == u16_le(data, 6)
    &&& h.num_of_central_dir == u16_le(data, 8)
    &&& h.total_num_of_central_dir == u16_le(data, 10)
    &&& h.size_of_central_dir == u32_le(data, 12)
    &&& h.cdfh_start_offset == u32_le(data, 16)
    &&& h.zip_comment_len == eocd_comment_len(data)
    &&& h.zip_comment@ == data.subrange(22, 22 + eocd_comment_len(data))
}

/// The serialized form of the trailer: fixed fields packed little-endian,
/// then the comment.
pub open spec fn eocd_to_binary(h: EndOfCentralDirectory) -> Seq<u8> {
    u32_le_bytes(END_OF_CENTRAL_DIR_SIGNATURE) + u16_le_bytes(h.num_of_disk) + u16_le_bytes(
        h.num_of_disk_start_central_dir,
    ) + u16_le_bytes(h.num_of_central_dir) + u16_le_bytes(h.total_num_of_central_dir)
        + u32_le_bytes(h.size_of_central_dir) + u32_le_bytes(h.cdfh_start_offset) + u16_le_bytes(
        h.zip_comment_len,
    ) + h.zip_comment@
}

/// The trailer written for a fresh archive, as a function of the entry
/// count, directory size and directory start alone; such a trailer has no
/// comment.
pub open spec fn eocd_binary_for(num_of_cdfh: u16, cdfh_size: u32, cdfh_start_offset: u32) -> Seq<
    u8,
> {
    u32_le_bytes(END_OF_CENTRAL_DIR_SIGNATURE) + u16_le_bytes(0) + u16_le_bytes(0) + u16_le_bytes(
        num_of_cdfh,
    ) + u16_le_bytes(num_of_cdfh) + u32_le_bytes(cdfh_size) + u32_le_bytes(cdfh_start_offset)
        + u16_le_bytes(0)
}

/// Writing a fresh trailer and reading it back is the identity on its
/// fields: the record is 22 bytes, carries the right signature, and its
/// count, directory size and directory start decode to what was written.
pub proof fn lemma_eocd_binary_parses(num_of_cdfh: u16, cdfh_size: u32, cdfh_start_offset: u32)
    ensures
        eocd_binary_for(num_of_cdfh, cdfh_size, cdfh_start_offset).len() == 22,
        eocd_basic_ok(eocd_binary_for(num_of_cdfh, cdfh_size, cdfh_start_offset)),
        eocd_fits(eocd_binary_for(num_of_cdfh, cdfh_size, cdfh_start_offset)),
        eocd_comment_len(eocd_binary_for(num_of_cdfh, cdfh_size, cdfh_start_offset)) == 0,
        u16_le(eocd_binary_for(num_of_cdfh, cdfh_size, cdfh_start_offset), 10) == num_of_cdfh,
        u16_le(eocd_binary_for(num_of_cdfh, cdfh_size, cdfh_start_offset), 8) == num_of_cdfh,
        u32_le(eocd_binary_for(num_of_cdfh, cdfh_size, cdfh_start_offset), 12) == cdfh_size,
        u32_le(eocd_binary_for(num_of_cdfh, cdfh_size, cdfh_start_offset), 16)
            == cdfh_start_offset,
{
    let s = eocd_binary_for(num_of_cdfh, cdfh_size, cdfh_start_offset);
    assert(s.len() == 22);
    assert(s[0] == 0x50 && s[1] == 0x4b && s[2] == 0x05 && s[3] == 0x06);
    assert(u32_le(s, 0) == END_OF_CENTRAL_DIR_SIGNATURE) by {
        assert(0x50 + 0x4b * 0x100 + 0x05 * 0x10000 + 0x06 * 0x1000000 == 0x06054b50);
    }
    assert(s[8] == num_of_cdfh % 0x100 && s[9] == num_of_cdfh / 0x100);
    assert(s[10] == num_of_cdfh % 0x100 && s[11] == num_of_cdfh / 0x100);
    assert(s[12] == cdfh_size % 0x100 && s[13] == (cdfh_size / 0x100) % 0x100 && s[14] == (
    cdfh_size / 0x10000) % 0x100 && s[15] == (cdfh_size / 0x1000000) % 0x100);
    assert(s[16] == cdfh_start_offset % 0x100 && s[17] == (cdfh_start_offset / 0x100) % 0x100
        && s[18] == (cdfh_start_offset / 0x10000) % 0x100 && s[19] == (cdfh_start_offset
        / 0x1000000) % 0x100);
    assert(s[20] == 0 && s[21] == 0);
}

impl EndOfCentralDirectory {
    pub fn cdfh_start_offset(&self) -> (r: u32)
        ensures
            r == self.cdfh_start_offset,
    {
        self.cdfh_start_offset
    }

    pub fn total_num_of_central_dir(&self) -> (r: u16)
        ensures
            r == self.total_num_of_central_dir,
    {
        self.total_num_of_central_dir
    }

    /// Decodes the trailer at the front of `eof_bin`, validating the
    /// signature first.
    pub fn from(eof_bin: &Vec<u8>) -> (r: Result<Self, HeaderParseError>)
        ensures
            match r {
                Ok(h) => {
                    &&& eocd_basic_ok(eof_bin@)
                    &&& eocd_fits(eof_bin@)
                    &&& eocd_decoded(h, eof_bin@)
                },
                Err(HeaderParseError::MalformedHeader) => !eocd_basic_ok(eof_bin@) || !eocd_fits(
                    eof_bin@,
                ),
                Err(HeaderParseError::DataDescriptorUnsupported) => false,
            },
    {
        let data_len = eof_bin.len();
        if data_len < MIN_EOF_CENTRAL_DIRECTORY_SIZE {
            return Err(HeaderParseError::MalformedHeader);
        }
        let signature = read_u32_le(eof_bin, 0);
        if signature != END_OF_CENTRAL_DIR_SIGNATURE {
            return Err(HeaderParseError::MalformedHeader);
        }
        let zip_comment_len = read_u16_le(eof_bin, 20);
        if (zip_comment_len as usize) > data_len - 22 {
            return Err(HeaderParseError::MalformedHeader);
        }
        let comment_end = 22 + (zip_comment_len as usize);
        let zip_comment = vstd::slice::slice_to_vec(&eof_bin[22..comment_end]);
        Ok(
            EndOfCentralDirectory {
                signature: END_OF_CENTRAL_DIR_SIGNATURE,
                num_of_disk: read_u16_le(eof_bin, 4),
                num_of_disk_start_central_dir: read_u16_le(eof_bin, 6),
                num_of_central_dir: read_u16_le(eof_bin, 8),
                total_num_of_central_dir: read_u16_le(eof_bin, 10),
                size_of_central_dir: read_u32_le(eof_bin, 12),
                cdfh_start_offset: read_u32_le(eof_bin, 16),
                zip_comment_len,
                zip_comment,
            },
        )
    }

    /// The trailer written after a fresh archive's directory.
    pub fn from_zip_creator(num_of_cdfh: u16, cdfh_size: u32, cdfh_start_offset: u32) -> (r: Self)
        ensures
            r.signature == END_OF_CENTRAL_DIR_SIGNATURE,
            r.num_of_disk == 0,
            r.num_of_disk_start_central_dir == 0,
            r.num_of_central_dir == num_of_cdfh,
            r.total_num_of_central_dir == num_of_cdfh,
            r.size_of_central_dir == cdfh_size,
            r.cdfh_start_offset == cdfh_start_offset,
            r.zip_comment_len == 0,
            r.zip_comment@.len() == 0,
    {
        Self {
            signature: END_OF_CENTRAL_DIR_SIGNATURE,
            num_of_disk: 0,
            num_of_disk_start_central_dir: 0,
            num_of_central_dir: num_of_cdfh,
            total_num_of_central_dir: num_of_cdfh,
            size_of_central_dir: cdfh_size,
            cdfh_start_offset,
            zip_comment_len: 0,
            zip_comment: Vec::new(),
        }
    }

    /// Serializes the trailer exactly as `eocd_to_binary` lays it out.
    pub fn to_binary(&self) -> (r: Vec<u8>)
        ensures
            r@ == eocd_to_binary(*self),
    {
        let mut out: Vec<u8> = Vec::new();
        push_u32_le(&mut out, END_OF_CENTRAL_DIR_SIGNATURE);
        push_u16_le(&mut out, self.num_of_disk);
        push_u16_le(&mut out, self.num_of_disk_start_central_dir);
        push_u16_le(&mut out, self.num_of_central_dir);
        push_u16_le(&mut out, self.total_num_of_central_dir);
        push_u32_le(&mut out, self.size_of_central_dir);
        push_u32_le(&mut out, self.cdfh_start_offset);
        push_u16_le(&mut out, self.zip_comment_len);
        push_bytes(&mut out, &self.zip_comment);
        proof {
            assert(out@ =~= eocd_to_binary(*self));
        }
        out
    }
}

} // verus!
