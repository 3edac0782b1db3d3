//! The Local File Header: the 30-byte fixed record in front of every
//! entry's bytes, plus its variable-length name and extra field.  It is the
//! copy an extractor trusts, since only it carries the vendor extension
//! fields needed to tell the encryption schemes apart.

use vstd::prelude::*;

use crate::bytes::{read_u16_le, read_u32_le, push_bytes, push_u16_le, push_u32_le, u16_le, u32_le, u16_le_bytes, u32_le_bytes};
use crate::date_time::{dos_date_addr, dos_date_time_of, dos_time_addr, ZipDateTime};
use crate::errors::HeaderParseError;
use crate::mem_map::{
    compression_method_addr, compression_method_of, encryption_method_of, zip_version_of,
    CompressionMethod, EncryptionMethod, ZipVersion, FILE_HEADER_SIGNATURE,
};
use crate::zip_item::ZipItem;

verus! {

/// The fixed 30-byte window is present and starts with the right signature.
pub open spec fn lfh_basic_ok(data: Seq<u8>, off: int) -> bool {
    &&& 0 <= off
    &&& off + 30 <= data.len()
    &&& u32_le(data, off) == FILE_HEADER_SIGNATURE
}

/// Declared length of the file name.
pub open spec fn lfh_name_len(data: Seq<u8>, off: int) -> u16 {
    u16_le(data, off + 26)
}

/// Declared length of the extra field.
pub open spec fn lfh_extra_len(data: Seq<u8>, off: int) -> u16 {
    u16_le(data, off + 28)
}

/// Flag bit 3: sizes and checksum trail the data in a descriptor, which
/// this crate does not support.
pub open spec fn lfh_has_data_descriptor(data: Seq<u8>, off: int) -> bool {
    (u16_le(data, off + 6) >> 3) & 1 == 1
}

/// The variable-length fields also fit in the buffer.
pub open spec fn lfh_fits(data: Seq<u8>, off: int) -> bool {
    off + 30 + lfh_name_len(data, off) + lfh_extra_len(data, off) <= data.len()
}

/// Where the entry's own bytes start: after the fixed window, name and
/// extra field.
pub open spec fn lfh_content_start(data: Seq<u8>, off: int) -> int {
    off + 30 + lfh_name_len(data, off) + lfh_extra_len(data, off)
}

pub struct LocalFileHeader {
    pub signature: u32,
    pub version_needed_to_extract: ZipVersion,
    pub general_purpose_flag: u16,
    pub encryption_method: EncryptionMethod,
    pub compression_method: CompressionMethod,
    pub last_modified_date_time: ZipDateTime,
    pub crc32: u32,
    pub compressed_size: u32,
    pub uncompressed_size: u32,
    pub file_name_length: u16,
    pub file_name: Vec<u8>,
    pub extra_field_length: u16,
    pub extra_field: Vec<u8>,
    pub content_start_offset: u64,
}

/// The fields a well-formed window at `off` decodes to.
pub open spec fn lfh_decoded(h: LocalFileHeader, data: Seq<u8>, off: int) -> bool {
    &&& h.signature == FILE_HEADER_SIGNATURE
    &&& h.version_needed_to_extract == zip_version_of(data[off + 4])
    &&& h.general_purpose_flag == u16_le(data, off + 6)
    &&& h.compression_method == compression_method_of(u16_le(data, off + 8))
    &&& h.encryption_method == encryption_method_of(
        u16_le(data, off + 6),
        compression_method_of(u16_le(data, off + 8)),
    )
    &&& h.last_modified_date_time == dos_date_time_of(
        u16_le(data, off + 12),
        u16_le(data, off + 10),
    )
    &&& h.crc32 == u32_le(data, off + 14)
    &&& h.compressed_size == u32_le(data, off + 18)
    &&& h.uncompressed_size == u32_le(data, off + 22)
    &&& h.file_name_length == lfh_name_len(data, off)
    &&& h.extra_field_length == lfh_extra_len(data, off)
    &&& h.file_name@ == data.subrange(off + 30, off + 30 + lfh_name_len(data, off))
    &&& h.extra_field@ == data.subrange(
        off + 30 + lfh_name_len(data, off),
        lfh_content_start(data, off),
    )
    &&& h.content_start_offset == lfh_content_start(data, off)
}

/// The serialized form this crate writes for a header: fixed fields packed
/// little-endian at their documented offsets, then name and extra field.
pub open spec fn lfh_to_binary(h: LocalFileHeader) -> Seq<u8>
    recommends
        h.last_modified_date_time.year >= 1980,
{
    u32_le_bytes(FILE_HEADER_SIGNATURE) + seq![0x14u8, 0x00u8] + u16_le_bytes(
        if h.encryption_method != EncryptionMethod::NoEncryption {
            1u16
        } else {
            0u16
        },
    ) + u16_le_bytes(compression_method_addr(h.compression_method)) + u16_le_bytes(
        dos_time_addr(h.last_modified_date_time),
    ) + u16_le_bytes(dos_date_addr(h.last_modified_date_time)) + u32_le_bytes(h.crc32)
        + u32_le_bytes(h.compressed_size) + u32_le_bytes(h.uncompressed_size) + u16_le_bytes(
        h.file_name_length,
    ) + u16_le_bytes(h.extra_field_length) + h.file_name@ + h.extra_field@
}

/// The header bytes written in front of an entry, as a function of the
/// entry alone: what `from_zip_item` followed by `to_binary` produces.
pub open spec fn lfh_item_binary(item: crate::zip_item::ZipItemView) -> Seq<u8>
    recommends
        item.modified_date_time.year >= 1980,
        item.item_path.len() <= u16::MAX,
{
    u32_le_bytes(FILE_HEADER_SIGNATURE) + seq![0x14u8, 0x00u8] + u16_le_bytes(
        if item.encryption_method != EncryptionMethod::NoEncryption {
            1u16
        } else {
            0u16
        },
    ) + u16_le_bytes(compression_method_addr(item.compression_method)) + u16_le_bytes(
        dos_time_addr(item.modified_date_time),
    ) + u16_le_bytes(dos_date_addr(item.modified_date_time)) + u32_le_bytes(item.crc32)
        + u32_le_bytes(item.compressed_size) + u32_le_bytes(item.uncompressed_size) + u16_le_bytes(
        item.item_path.len() as u16,
    ) + u16_le_bytes(0) + item.item_path
}

/// On-disk length of the header written for an entry.
pub open spec fn lfh_item_len(item: crate::zip_item::ZipItemView) -> int {
    30 + item.item_path.len() as int
}

pub proof fn lemma_lfh_item_binary_len(item: crate::zip_item::ZipItemView)
    ensures
        lfh_item_binary(item).len() == lfh_item_len(item),
{
}

/// A header written for an unencrypted entry decodes back where it lies:
/// the signature is right, the flag word is clear (so no data descriptor
/// and no declared encryption), the method field carries the entry's
/// method, and the variable lengths are the path length and zero.
pub proof fn lemma_lfh_item_binary_decodes(
    archive: Seq<u8>,
    off: int,
    item: crate::zip_item::ZipItemView,
)
    requires
        0 <= off,
        item.item_path.len() <= u16::MAX,
        item.encryption_method == EncryptionMethod::NoEncryption,
        off + lfh_item_len(item) <= archive.len(),
        archive.subrange(off, off + lfh_item_len(item)) == lfh_item_binary(item),
    ensures
        lfh_basic_ok(archive, off),
        !lfh_has_data_descriptor(archive, off),
        lfh_fits(archive, off),
        lfh_name_len(archive, off) == item.item_path.len(),
        lfh_extra_len(archive, off) == 0,
        lfh_content_start(archive, off) == off + lfh_item_len(item),
        u16_le(archive, off + 6) == 0,
        u16_le(archive, off + 8) == compression_method_addr(item.compression_method),
{
    let s = lfh_item_binary(item);
    lemma_lfh_item_binary_len(item);
    assert forall|k: int| 0 <= k < lfh_item_len(item) implies archive[off + k] == s[k] by {
        assert(archive.subrange(off, off + lfh_item_len(item))[k] == archive[off + k]);
    }
    assert(s[0] == 0x50 && s[1] == 0x4b && s[2] == 0x03 && s[3] == 0x04);
    assert(u32_le(archive, off) == FILE_HEADER_SIGNATURE) by {
        assert(0x50 + 0x4b * 0x100 + 0x03 * 0x10000 + 0x04 * 0x1000000 == 0x04034b50);
    }
    assert(s[6] == 0 && s[7] == 0);
    assert(u16_le(archive, off + 6) == 0);
    assert((0u16 >> 3) & 1 == 0) by (bit_vector);
    let addr = compression_method_addr(item.compression_method);
    assert(s[8] == addr % 0x100 && s[9] == addr / 0x100);
    assert(u16_le(archive, off + 8) == addr);
    let name_len = item.item_path.len() as u16;
    assert(s[26] == name_len % 0x100 && s[27] == name_len / 0x100);
    assert(u16_le(archive, off + 26) == name_len);
    assert(s[28] == 0 && s[29] == 0);
    assert(u16_le(archive, off + 28) == 0);
}

impl LocalFileHeader {
    /// Decodes the header whose fixed window starts at `offset`, validating
    /// the signature first; an entry that declares a trailing data
    /// descriptor is refused as a feature gap, not as corruption.
    pub fn from_bytes(data: &Vec<u8>, offset: usize) -> (r: Result<Self, HeaderParseError>)
        ensures
            match r {
                Ok(h) => {
                    &&& lfh_basic_ok(data@, offset as int)
                    &&& !lfh_has_data_descriptor(data@, offset as int)
                    &&& lfh_fits(data@, offset as int)
                    &&& lfh_decoded(h, data@, offset as int)
                },
                Err(HeaderParseError::DataDescriptorUnsupported) => {
                    &&& lfh_basic_ok(data@, offset as int)
                    &&& lfh_has_data_descriptor(data@, offset as int)
                },
                Err(HeaderParseError::MalformedHeader) => {
                    ||| !lfh_basic_ok(data@, offset as int)
                    ||| (!lfh_has_data_descriptor(data@, offset as int) && !lfh_fits(
                        data@,
                        offset as int,
                    ))
                },
            },
    {
        let data_len = data.len();
        if offset > data_len || data_len - offset < 30 {
            return Err(HeaderParseError::MalformedHeader);
        }
        let reader_signature = read_u32_le(data, offset);
        if reader_signature != FILE_HEADER_SIGNATURE {
            return Err(HeaderParseError::MalformedHeader);
        }
        let general_purpose_flag = read_u16_le(data, offset + 6);
        if (general_purpose_flag >> 3) & 1 == 1 {
            return Err(HeaderParseError::DataDescriptorUnsupported);
        }
        let file_name_length = read_u16_le(data, offset + 26);
        let extra_field_length = read_u16_le(data, offset + 28);
        let rest = data_len - (offset + 30);
        if (file_name_length as usize) + (extra_field_length as usize) > rest {
            return Err(HeaderParseError::MalformedHeader);
        }
        let compression_method = CompressionMethod::from_addr(read_u16_le(data, offset + 8));
        let encryption_method = crate::mem_map::encryption_method_from_flag(
            general_purpose_flag,
            &compression_method,
        );
        let name_end = offset + 30 + (file_name_length as usize);
        let content_start = name_end + (extra_field_length as usize);
        let file_name = vstd::slice::slice_to_vec(&data[offset + 30..name_end]);
        let extra_field = vstd::slice::slice_to_vec(&data[name_end..content_start]);
        let content_start_offset = (offset as u64) + 30u64 + (file_name_length as u64) + (
        extra_field_length as u64);
        Ok(
            LocalFileHeader {
                signature: FILE_HEADER_SIGNATURE,
                version_needed_to_extract: ZipVersion::from_byte(data[offset + 4]),
                general_purpose_flag,
                compression_method,
                encryption_method,
                last_modified_date_time: ZipDateTime::from_addr(
                    read_u16_le(data, offset + 12),
                    read_u16_le(data, offset + 10),
                ),
                crc32: read_u32_le(data, offset + 14),
                compressed_size: read_u32_le(data, offset + 18),
                uncompressed_size: read_u32_le(data, offset + 22),
                file_name_length,
                extra_field_length,
                file_name,
                extra_field,
                content_start_offset,
            },
        )
    }

    /// The header written in front of a fresh entry; offsets into the
    /// archive are not known yet.
    pub fn from_zip_item(zip_item: &ZipItem) -> (r: Self)
        requires
            zip_item.item_path@.len() <= u16::MAX,
        ensures
            r.signature == FILE_HEADER_SIGNATURE,
            r.version_needed_to_extract == (ZipVersion { major: 2, minor: 0 }),
            r.general_purpose_flag == if zip_item.encryption_method == EncryptionMethod::ZipCrypto {
                1u16
            } else {
                0u16
            },
            r.compression_method == zip_item.compression_method,
            r.encryption_method == zip_item.encryption_method,
            r.last_modified_date_time == zip_item.modified_date_time,
            r.crc32 == zip_item.crc32,
            r.compressed_size == zip_item.compressed_size,
            r.uncompressed_size == zip_item.uncompressed_size,
            r.file_name_length == zip_item.item_path@.len(),
            r.file_name@ == zip_item.item_path@,
            r.extra_field_length == 0,
            r.extra_field@.len() == 0,
            r.content_start_offset == 0,
    {
        let general_purpose_flag: u16 = if zip_item.encryption_method()
            == EncryptionMethod::ZipCrypto {
            0x01
        } else {
            0x00
        };
        LocalFileHeader {
            signature: FILE_HEADER_SIGNATURE,
            version_needed_to_extract: ZipVersion::new(2, 0),
            general_purpose_flag,
            compression_method: zip_item.compression_method(),
            encryption_method: zip_item.encryption_method(),
            last_modified_date_time: *zip_item.modified_date_time(),
            crc32: zip_item.crc32(),
            compressed_size: zip_item.compressed_size(),
            uncompressed_size: zip_item.uncompressed_size(),
            file_name_length: zip_item.item_path().len() as u16,
            file_name: vstd::slice::slice_to_vec(zip_item.item_path().as_slice()),
            extra_field_length: 0,
            extra_field: Vec::new(),
            content_start_offset: 0,
        }
    }

    pub fn compression_method(&self) -> (r: CompressionMethod)
        ensures
            r == self.compression_method,
    {
        self.compression_method
    }

    pub fn content_start_offset(&self) -> (r: u64)
        ensures
            r == self.content_start_offset,
    {
        self.content_start_offset
    }

    pub fn encryption_method(&self) -> (r: &EncryptionMethod)
        ensures
            r == self.encryption_method,
    {
        &self.encryption_method
    }

    pub fn crc32(&self) -> (r: u32)
        ensures
            r == self.crc32,
    {
        self.crc32
    }

    /// Serializes the header exactly as `lfh_to_binary` lays it out.
    pub fn to_binary(&self) -> (r: Vec<u8>)
        requires
            self.last_modified_date_time.year >= 1980,
        ensures
            r@ == lfh_to_binary(*self),
    {
        let mut out: Vec<u8> = Vec::new();
        push_u32_le(&mut out, FILE_HEADER_SIGNATURE);
        out.push(0x14);
        out.push(0x00);
        let flag: u16 = if self.encryption_method != EncryptionMethod::NoEncryption {
            1
        } else {
            0
        };
        push_u16_le(&mut out, flag);
        push_u16_le(&mut out, self.compression_method.to_addr());
        let mut last_modification_day: u16 = 0;
        let mut last_modification_time: u16 = 0;
        self.last_modified_date_time.to_addr(
            &mut last_modification_day,
            &mut last_modification_time,
        );
        push_u16_le(&mut out, last_modification_time);
        push_u16_le(&mut out, last_modification_day);
        push_u32_le(&mut out, self.crc32);
        push_u32_le(&mut out, self.compressed_size);
        push_u32_le(&mut out, self.uncompressed_size);
        push_u16_le(&mut out, self.file_name_length);
        push_u16_le(&mut out, self.extra_field_length);
        push_bytes(&mut out, &self.file_name);
        push_bytes(&mut out, &self.extra_field);
        proof {
            assert(out@ =~= lfh_to_binary(*self));
        }
        out
    }
}

} // verus!
