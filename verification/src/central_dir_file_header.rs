//! The Central Directory File Header: the 46-byte fixed record kept once
//! per entry in the directory near the end of the archive, plus its name,
//! extra field and comment.  It is the copy a listing trusts, and the one
//! that carries each entry's offset.

use vstd::prelude::*;

use crate::bytes::{
    push_bytes, push_u16_le, push_u32_le, read_u16_le, read_u32_le, u16_le, u16_le_bytes, u32_le,
    u32_le_bytes,
};
use crate::date_time::{dos_date_addr, dos_date_time_of, dos_time_addr, ZipDateTime};
use crate::errors::HeaderParseError;
use crate::mem_map::{
    compression_method_addr, compression_method_of, encryption_method_of, host_os_of_byte,
    zip_version_of, CompressionMethod, EncryptionMethod, HostOS, ZipVersion, CENTRAL_DIR_SIGNATURE,
};
use crate::zip_item::ZipItem;

verus! {

/// The fixed 46-byte window is present and starts with the right signature.
pub open spec fn cdfh_basic_ok(data: Seq<u8>, off: int) -> bool {
    &&& 0 <= off
    &&& off + 46 <= data.len()
    &&& u32_le(data, off) == CENTRAL_DIR_SIGNATURE
}

/// Declared length of the file name.
pub open spec fn cdfh_name_len(data: Seq<u8>, off: int) -> u16 {
    u16_le(data, off + 28)
}

/// Declared length of the extra field.
pub open spec fn cdfh_extra_len(data: Seq<u8>, off: int) -> u16 {
    u16_le(data, off + 30)
}

/// Declared length of the entry comment.
pub open spec fn cdfh_comment_len(data: Seq<u8>, off: int) -> u16 {
    u16_le(data, off + 32)
}

/// The variable-length fields also fit in the buffer.
pub open spec fn cdfh_fits(data: Seq<u8>, off: int) -> bool {
    off + 46 + cdfh_name_len(data, off) + cdfh_extra_len(data, off) + cdfh_comment_len(data, off)
        <= data.len()
}

/// Total size of the record on disk, variable fields included.
pub open spec fn cdfh_total_len(data: Seq<u8>, off: int) -> int {
    46 + cdfh_name_len(data, off) + cdfh_extra_len(data, off) + cdfh_comment_len(data, off)
}

pub struct CentralDirectoryFileHeader {
    pub signature: u32,
    pub host_os: HostOS,
    pub zip_specification: ZipVersion,
    pub version_needed_to_extract: ZipVersion,
    pub general_purpose_flag: u16,
    pub encryption_method: EncryptionMethod,
    pub compression_method: CompressionMethod,
    pub last_modified_date_time: ZipDateTime,
    pub crc32: u32,
    pub compressed_size: u32,
    pub uncompressed_size: u32,
    pub file_name_length: u16,
    pub extra_field_length: u16,
    pub file_comment_length: u16,
    pub disk_number_start: u16,
    pub internal_file_attr: u16,
    pub external_file_attr: u32,
    pub relative_offset: u32,
    pub file_name: Vec<u8>,
    pub file_comment: Vec<u8>,
}

/// The fields a well-formed window at `off` decodes to.
pub open spec fn cdfh_decoded(h: CentralDirectoryFileHeader, data: Seq<u8>, off: int) -> bool {
    &&& h.signature == CENTRAL_DIR_SIGNATURE
    &&& h.zip_specification == zip_version_of(data[off + 4])
    &&& h.host_os == host_os_of_byte(data[off + 5])
    &&& h.version_needed_to_extract == zip_version_of(data[off + 6])
    &&& h.general_purpose_flag == u16_le(data, off + 8)
    &&& h.compression_method == compression_method_of(u16_le(data, off + 10))
    &&& h.encryption_method == encryption_method_of(
        u16_le(data, off + 8),
        compression_method_of(u16_le(data, off + 10)),
    )
    &&& h.last_modified_date_time == dos_date_time_of(
        u16_le(data, off + 14),
        u16_le(data, off + 12),
    )
    &&& h.crc32 == u32_le(data, off + 16)
    &&& h.compressed_size == u32_le(data, off + 20)
    &&& h.uncompressed_size == u32_le(data, off + 24)
    &&& h.file_name_length == cdfh_name_len(data, off)
    &&& h.extra_field_length == cdfh_extra_len(data, off)
    &&& h.file_comment_length == cdfh_comment_len(data, off)
    &&& h.disk_number_start == u16_le(data, off + 34)
    &&& h.internal_file_attr == u16_le(data, off + 36)
    &&& h.external_file_attr == u32_le(data, off + 38)
    &&& h.relative_offset == u32_le(data, off + 42)
    &&& h.file_name@ == data.subrange(off + 46, off + 46 + cdfh_name_len(data, off))
    &&& h.file_comment@ == data.subrange(
        off + 46 + cdfh_name_len(data, off) + cdfh_extra_len(data, off),
        off + cdfh_total_len(data, off),
    )
}

/// The serialized form this crate writes for a directory record: fixed
/// fields packed little-endian at their documented offsets, then the name
/// and the comment (the extra field is not kept, only its length).
pub open spec fn cdfh_to_binary(h: CentralDirectoryFileHeader) -> Seq<u8>
    recommends
        h.last_modified_date_time.year >= 1980,
{
    u32_le_bytes(CENTRAL_DIR_SIGNATURE) + seq![0x14u8, 0x00u8] + seq![0x14u8, 0x00u8]
        + u16_le_bytes(
        if h.encryption_method != EncryptionMethod::NoEncryption {
            1u16
        } else {
            0u16
        },
    ) + u16_le_bytes(compression_method_addr(h.compression_method)) + u16_le_bytes(
        dos_time_addr(h.last_modified_date_time),
    ) + u16_le_bytes(dos_date_addr(h.last_modified_date_time)) + u32_le_bytes(h.crc32)
        + u32_le_bytes(h.compressed_size) + u32_le_bytes(h.uncompressed_size) + u16_le_bytes(
        h.file_name_length,
    ) + u16_le_bytes(h.extra_field_length) + u16_le_bytes(h.file_comment_length) + u16_le_bytes(
        h.disk_number_start,
    ) + u16_le_bytes(h.internal_file_attr) + u32_le_bytes(h.external_file_attr) + u32_le_bytes(
        h.relative_offset,
    ) + h.file_name@ + h.file_comment@
}

/// The directory record written for an entry, as a function of the entry
/// alone: what `from_zip_item` followed by `to_binary` produces.
pub open spec fn cdfh_item_binary(item: crate::zip_item::ZipItemView) -> Seq<u8>
    recommends
        item.modified_date_time.year >= 1980,
        item.item_path.len() <= u16::MAX,
{
    u32_le_bytes(CENTRAL_DIR_SIGNATURE) + seq![0x14u8, 0x00u8] + seq![0x14u8, 0x00u8]
        + u16_le_bytes(
        if item.encryption_method != EncryptionMethod::NoEncryption {
            1u16
        } else {
            0u16
        },
    ) + u16_le_bytes(compression_method_addr(item.compression_method)) + u16_le_bytes(
        dos_time_addr(item.modified_date_time),
    ) + u16_le_bytes(dos_date_addr(item.modified_date_time)) + u32_le_bytes(item.crc32)
        + u32_le_bytes(item.compressed_size) + u32_le_bytes(item.uncompressed_size) + u16_le_bytes(
        item.item_path.len() as u16,
    ) + u16_le_bytes(0) + u16_le_bytes(0) + u16_le_bytes(0) + u16_le_bytes(0) + u32_le_bytes(0)
        + u32_le_bytes(item.start_offset) + item.item_path
}

/// The directory section for a list of entries: one record per entry, one
/// after another.
pub open spec fn cdfh_concat(items: Seq<crate::zip_item::ZipItemView>) -> Seq<u8>
    decreases items.len(),
{
    if items.len() == 0 {
        Seq::empty()
    } else {
        cdfh_item_binary(items.first()) + cdfh_concat(items.drop_first())
    }
}

pub proof fn lemma_cdfh_concat_snoc(items: Seq<crate::zip_item::ZipItemView>, x: crate::zip_item::ZipItemView)
    ensures
        cdfh_concat(items.push(x)) == cdfh_concat(items) + cdfh_item_binary(x),
    decreases items.len(),
{
    if items.len() == 0 {
        assert(items.push(x).first() == x);
        assert(items.push(x).drop_first() =~= Seq::<crate::zip_item::ZipItemView>::empty());
        assert(cdfh_concat(Seq::<crate::zip_item::ZipItemView>::empty())
            == Seq::<u8>::empty());
        assert(cdfh_concat(items.push(x)) =~= cdfh_concat(items) + cdfh_item_binary(x));
    } else {
        assert(items.push(x).first() == items.first());
        assert(items.push(x).drop_first() =~= items.drop_first().push(x));
        lemma_cdfh_concat_snoc(items.drop_first(), x);
        assert(cdfh_concat(items.push(x)) =~= cdfh_concat(items) + cdfh_item_binary(x));
    }
}

/// On-disk length of the directory record written for an entry.
pub open spec fn cdfh_item_len(item: crate::zip_item::ZipItemView) -> int {
    46 + item.item_path.len() as int
}

pub proof fn lemma_cdfh_item_binary_len(item: crate::zip_item::ZipItemView)
    ensures
        cdfh_item_binary(item).len() == cdfh_item_len(item),
{
}

/// The directory section splits at any entry boundary.
#[verifier::rlimit(100)]
pub proof fn lemma_cdfh_concat_split(items: Seq<crate::zip_item::ZipItemView>, i: int)
    requires
        0 <= i <= items.len(),
    ensures
        cdfh_concat(items) == cdfh_concat(items.take(i)) + cdfh_concat(items.skip(i)),
    decreases i,
{
    if i == 0 {
        assert(items.take(0) =~= Seq::<crate::zip_item::ZipItemView>::empty());
        assert(items.skip(0) =~= items);
        assert(cdfh_concat(items.take(0)) =~= Seq::<u8>::empty());
        assert(cdfh_concat(items) =~= cdfh_concat(items.take(0)) + cdfh_concat(items.skip(0)));
    } else {
        lemma_cdfh_concat_split(items, i - 1);
        lemma_cdfh_concat_snoc(items.take(i - 1), items[i - 1]);
        assert(items.take(i) =~= items.take(i - 1).push(items[i - 1]));
        assert(items.skip(i - 1).first() == items[i - 1]);
        assert(items.skip(i - 1).drop_first() =~= items.skip(i));
        assert(cdfh_concat(items.skip(i - 1)) == cdfh_item_binary(items[i - 1]) + cdfh_concat(
            items.skip(i),
        ));
        assert(cdfh_concat(items.take(i - 1)) + (cdfh_item_binary(items[i - 1]) + cdfh_concat(
            items.skip(i),
        )) =~= (cdfh_concat(items.take(i - 1)) + cdfh_item_binary(items[i - 1])) + cdfh_concat(
            items.skip(i),
        ));
    }
}

/// Two entry lists with the same paths have directory sections of the
/// same length: every other field of a record has a fixed width.
pub proof fn lemma_cdfh_concat_len_same_paths(
    a: Seq<crate::zip_item::ZipItemView>,
    b: Seq<crate::zip_item::ZipItemView>,
)
    requires
        a.len() == b.len(),
        forall|i: int| 0 <= i < a.len() ==> (#[trigger] a[i]).item_path == b[i].item_path,
    ensures
        cdfh_concat(a).len() == cdfh_concat(b).len(),
    decreases a.len(),
{
    if a.len() > 0 {
        lemma_cdfh_item_binary_len(a.first());
        lemma_cdfh_item_binary_len(b.first());
        assert(a.first() == a[0] && b.first() == b[0]);
        assert(forall|i: int|
            0 <= i < a.drop_first().len() ==> (#[trigger] a.drop_first()[i]).item_path
                == b.drop_first()[i].item_path);
        lemma_cdfh_concat_len_same_paths(a.drop_first(), b.drop_first());
    }
}

/// A directory record written for an entry decodes back where it lies: the
/// signature is right, the variable lengths are the path length and two
/// zeroes, and the whole record spans exactly its own bytes.
pub proof fn lemma_cdfh_item_binary_decodes(
    archive: Seq<u8>,
    off: int,
    item: crate::zip_item::ZipItemView,
)
    requires
        0 <= off,
        item.item_path.len() <= u16::MAX,
        off + cdfh_item_len(item) <= archive.len(),
        archive.subrange(off, off + cdfh_item_len(item)) == cdfh_item_binary(item),
    ensures
        cdfh_basic_ok(archive, off),
        cdfh_fits(archive, off),
        cdfh_name_len(archive, off) == item.item_path.len(),
        cdfh_extra_len(archive, off) == 0,
        cdfh_comment_len(archive, off) == 0,
        cdfh_total_len(archive, off) == cdfh_item_len(item),
{
    let s = cdfh_item_binary(item);
    lemma_cdfh_item_binary_len(item);
    assert forall|k: int| 0 <= k < cdfh_item_len(item) implies archive[off + k] == s[k] by {
        assert(archive.subrange(off, off + cdfh_item_len(item))[k] == archive[off + k]);
    }
    assert(s[0] == 0x50 && s[1] == 0x4b && s[2] == 0x01 && s[3] == 0x02);
    assert(u32_le(archive, off) == CENTRAL_DIR_SIGNATURE) by {
        assert(0x50 + 0x4b * 0x100 + 0x01 * 0x10000 + 0x02 * 0x1000000 == 0x02014b50);
    }
    let name_len = item.item_path.len() as u16;
    assert(s[28] == name_len % 0x100 && s[29] == name_len / 0x100);
    assert(u16_le(archive, off + 28) == name_len);
    assert(s[30] == 0 && s[31] == 0 && s[32] == 0 && s[33] == 0);
    assert(u16_le(archive, off + 30) == 0);
    assert(u16_le(archive, off + 32) == 0);
}

impl CentralDirectoryFileHeader {
    /// Decodes the directory record whose fixed window starts at `offset`,
    /// validating the signature first.
    pub fn from_bytes(data: &Vec<u8>, offset: usize) -> (r: Result<Self, HeaderParseError>)
        ensures
            match r {
                Ok(h) => {
                    &&& cdfh_basic_ok(data@, offset as int)
                    &&& cdfh_fits(data@, offset as int)
                    &&& cdfh_decoded(h, data@, offset as int)
                },
                Err(HeaderParseError::MalformedHeader) => !cdfh_basic_ok(data@, offset as int)
                    || !cdfh_fits(data@, offset as int),
                Err(HeaderParseError::DataDescriptorUnsupported) => false,
            },
    {
        let data_len = data.len();
        if offset > data_len || data_len - offset < 46 {
            return Err(HeaderParseError::MalformedHeader);
        }
        let reader_signature = read_u32_le(data, offset);
        if reader_signature != CENTRAL_DIR_SIGNATURE {
            return Err(HeaderParseError::MalformedHeader);
        }
        let file_name_length = read_u16_le(data, offset + 28);
        let extra_field_length = read_u16_le(data, offset + 30);
        let file_comment_length = read_u16_le(data, offset + 32);
        let rest = data_len - (offset + 46);
        if (file_name_length as usize) + (extra_field_length as usize) + (file_comment_length
            as usize) > rest {
            return Err(HeaderParseError::MalformedHeader);
        }
        let general_purpose_flag = read_u16_le(data, offset + 8);
        let compression_method = CompressionMethod::from_addr(read_u16_le(data, offset + 10));
        let encryption_method = crate::mem_map::encryption_method_from_flag(
            general_purpose_flag,
            &compression_method,
        );
        let name_end = offset + 46 + (file_name_length as usize);
        let comment_start = name_end + (extra_field_length as usize);
        let comment_end = comment_start + (file_comment_length as usize);
        let file_name = vstd::slice::slice_to_vec(&data[offset + 46..name_end]);
        let file_comment = vstd::slice::slice_to_vec(&data[comment_start..comment_end]);
        Ok(
            CentralDirectoryFileHeader {
                signature: CENTRAL_DIR_SIGNATURE,
                zip_specification: ZipVersion::from_byte(data[offset + 4]),
                host_os: HostOS::from_byte(data[offset + 5]),
                version_needed_to_extract: ZipVersion::from_byte(data[offset + 6]),
                general_purpose_flag,
                encryption_method,
                compression_method,
                last_modified_date_time: ZipDateTime::from_addr(
                    read_u16_le(data, offset + 14),
                    read_u16_le(data, offset + 12),
                ),
                crc32: read_u32_le(data, offset + 16),
                compressed_size: read_u32_le(data, offset + 20),
                uncompressed_size: read_u32_le(data, offset + 24),
                file_name_length,
                extra_field_length,
                file_comment_length,
                disk_number_start: read_u16_le(data, offset + 34),
                internal_file_attr: read_u16_le(data, offset + 36),
                external_file_attr: read_u32_le(data, offset + 38),
                relative_offset: read_u32_le(data, offset + 42),
                file_name,
                file_comment,
            },
        )
    }

    /// The directory record written for a fresh entry once its offset in
    /// the archive is known.
    pub fn from_zip_item(zip_item: &ZipItem) -> (r: Self)
        requires
            zip_item.item_path@.len() <= u16::MAX,
        ensures
            r.signature == CENTRAL_DIR_SIGNATURE,
            r.host_os == HostOS::MsDos,
            r.zip_specification == (ZipVersion { major: 2, minor: 0 }),
            r.version_needed_to_extract == (ZipVersion { major: 2, minor: 0 }),
            r.general_purpose_flag == if zip_item.encryption_method == EncryptionMethod::ZipCrypto {
                1u16
            } else {
                0u16
            },
            r.encryption_method == zip_item.encryption_method,
            r.compression_method == zip_item.compression_method,
            r.last_modified_date_time == zip_item.modified_date_time,
            r.crc32 == zip_item.crc32,
            r.compressed_size == zip_item.compressed_size,
            r.uncompressed_size == zip_item.uncompressed_size,
            r.file_name_length == zip_item.item_path@.len(),
            r.extra_field_length == 0,
            r.file_comment_length == 0,
            r.disk_number_start == 0,
            r.internal_file_attr == 0,
            r.external_file_attr == 0,
            r.relative_offset == zip_item.start_offset,
            r.file_name@ == zip_item.item_path@,
            r.file_comment@.len() == 0,
    {
        let general_purpose_flag: u16 = if zip_item.encryption_method()
            == EncryptionMethod::ZipCrypto {
            0x01
        } else {
            0x00
        };
        CentralDirectoryFileHeader {
            signature: CENTRAL_DIR_SIGNATURE,
            host_os: HostOS::MsDos,
            zip_specification: ZipVersion::new(2, 0),
            version_needed_to_extract: ZipVersion::new(2, 0),
            general_purpose_flag,
            encryption_method: zip_item.encryption_method(),
            compression_method: zip_item.compression_method(),
            last_modified_date_time: *zip_item.modified_date_time(),
            crc32: zip_item.crc32(),
            compressed_size: zip_item.compressed_size(),
            uncompressed_size: zip_item.uncompressed_size(),
            file_name_length: zip_item.item_path().len() as u16,
            extra_field_length: 0,
            file_comment_length: 0,
            disk_number_start: 0,
            internal_file_attr: 0,
            external_file_attr: 0,
            relative_offset: zip_item.start_offset(),
            file_name: vstd::slice::slice_to_vec(zip_item.item_path().as_slice()),
            file_comment: Vec::new(),
        }
    }

    /// Serializes the record exactly as `cdfh_to_binary` lays it out.
    pub fn to_binary(&self) -> (r: Vec<u8>)
        requires
            self.last_modified_date_time.year >= 1980,
        ensures
            r@ == cdfh_to_binary(*self),
    {
        let mut out: Vec<u8> = Vec::new();
        push_u32_le(&mut out, CENTRAL_DIR_SIGNATURE);
        out.push(0x14);
        out.push(0x00);
        out.push(0x14);
        out.push(0x00);
        let flag: u16 = if self.encryption_method != EncryptionMethod::NoEncryption {
            1
        } else {
            0
        };
        push_u16_le(&mut out, flag);
        push_u16_le(&mut out, self.compression_method.to_addr());
        let mut last_modification_day: u16 = 0;
        let mut last_modification_time: u16 = 0;
        self.last_modified_date_time.to_addr(
            &mut last_modification_day,
            &mut last_modification_time,
        );
        push_u16_le(&mut out, last_modification_time);
        push_u16_le(&mut out, last_modification_day);
        push_u32_le(&mut out, self.crc32);
        push_u32_le(&mut out, self.compressed_size);
        push_u32_le(&mut out, self.uncompressed_size);
        push_u16_le(&mut out, self.file_name_length);
        push_u16_le(&mut out, self.extra_field_length);
        push_u16_le(&mut out, self.file_comment_length);
        push_u16_le(&mut out, self.disk_number_start);
        push_u16_le(&mut out, self.internal_file_attr);
        push_u32_le(&mut out, self.external_file_attr);
        push_u32_le(&mut out, self.relative_offset);
        push_bytes(&mut out, &self.file_name);
        push_bytes(&mut out, &self.file_comment);
        proof {
            assert(out@ =~= cdfh_to_binary(*self));
        }
        out
    }

    /// The in-memory entry this directory record describes.
    pub fn into_zip_item(self) -> (r: ZipItem)
        ensures
            r.item_path@ == self.file_name@,
            r.is_file == crate::zip_item::path_is_file(self.file_name@),
            r.uncompressed_size == self.uncompressed_size,
            r.compressed_size == self.compressed_size,
            r.compression_method == self.compression_method,
            r.modified_date_time == self.last_modified_date_time,
            r.start_offset == self.relative_offset,
            r.encryption_method == self.encryption_method,
            r.crc32 == self.crc32,
    {
        ZipItem::new(
            self.compression_method,
            self.file_name,
            self.uncompressed_size,
            self.compressed_size,
            self.last_modified_date_time,
            self.relative_offset,
            self.encryption_method,
            self.crc32,
        )
    }
}

} // verus!
