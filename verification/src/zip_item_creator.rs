//! Turning walked paths into entries: path separators are normalized to
//! the archive convention, directories get the trailing separator and empty
//! sizes, and a file's compression method is decided by its size.

use vstd::prelude::*;

use crate::date_time::ZipDateTime;
use crate::errors::ZipCreatorError;
use crate::mem_map::{CompressionMethod, EncryptionMethod, MINIMUM_SIZE_TO_COMPRESS};
use crate::zip_item::{directory_entry_trivial, path_is_file, ZipItem};

verus! {

/// The archive form of a walked path: every host separator `\` becomes the
/// archive separator `/`.
pub open spec fn normalized_path(path: Seq<u8>) -> Seq<u8> {
    Seq::new(
        path.len(),
        |i: int|
            if path[i] == 92u8 {
                47u8
            } else {
                path[i]
            },
    )
}

/// The compression method chosen for a file of the given size: small files
/// are stored, larger ones are Deflate-compressed.
pub open spec fn method_for_size(file_size: u64) -> CompressionMethod {
    if file_size > MINIMUM_SIZE_TO_COMPRESS {
        CompressionMethod::Deflate
    } else {
        CompressionMethod::NoCompression
    }
}

/// Replaces every host separator with the archive separator.
pub fn normalize_path(path: &Vec<u8>) -> (r: Vec<u8>)
    ensures
        r@ == normalized_path(path@),
{
    let n = path.len();
    let mut out: Vec<u8> = Vec::new();
    let mut i: usize = 0;
    while i < n
        invariant
            0 <= i <= n,
            n == path@.len(),
            out@ == normalized_path(path@).subrange(0, i as int),
        decreases n - i,
    {
        let b = path[i];
        if b == 92u8 {
            out.push(47u8);
        } else {
            out.push(b);
        }
        proof {
            assert(out@ =~= normalized_path(path@).subrange(0, i + 1));
        }
        i = i + 1;
    }
    proof {
        assert(normalized_path(path@).subrange(0, n as int) =~= normalized_path(path@));
    }
    out
}

pub struct ZipItemCreator {
    pub base_path: Vec<u8>,
}

impl ZipItemCreator {
    pub fn new(base_path: Vec<u8>) -> (r: Self)
        ensures
            r.base_path@ == base_path@,
    {
        Self { base_path }
    }

    /// The entry for a walked directory: normalized path with the trailing
    /// separator, empty sizes and checksum, no encryption.
    pub fn item_for_directory(&self, item_path: &Vec<u8>, modified: ZipDateTime) -> (r: ZipItem)
        ensures
            r.item_path@ == normalized_path(item_path@).push(47u8),
            directory_entry_trivial(r@),
            !r.is_file,
            r.uncompressed_size == 0,
            r.compressed_size == 0,
            r.compression_method == CompressionMethod::NoCompression,
            r.modified_date_time == modified,
            r.start_offset == 0,
            r.encryption_method == EncryptionMethod::NoEncryption,
            r.crc32 == 0,
    {
        let mut zip_item_path = normalize_path(item_path);
        zip_item_path.push(47u8);
        proof {
            assert(!path_is_file(zip_item_path@));
        }
        ZipItem::new(
            CompressionMethod::NoCompression,
            zip_item_path,
            0,
            0,
            modified,
            0,
            EncryptionMethod::NoEncryption,
            0,
        )
    }

    /// The entry for a walked file: normalized path, method decided by
    /// size, checksum as computed by the walk; a file too large for the
    /// format's 32-bit size field is refused.
    pub fn item_for_file(
        &self,
        item_path: &Vec<u8>,
        file_size: u64,
        modified: ZipDateTime,
        encryption_method: EncryptionMethod,
        crc32: u32,
    ) -> (r: Result<ZipItem, ZipCreatorError>)
        ensures
            file_size <= u32::MAX <==> r is Ok,
            match r {
                Ok(item) => {
                    &&& item.item_path@ == normalized_path(item_path@)
                    &&& item.is_file == path_is_file(normalized_path(item_path@))
                    &&& item.uncompressed_size == file_size
                    &&& item.compressed_size == 0
                    &&& item.compression_method == method_for_size(file_size)
                    &&& item.modified_date_time == modified
                    &&& item.start_offset == 0
                    &&& item.encryption_method == encryption_method
                    &&& item.crc32 == crc32
                },
                Err(ZipCreatorError::EntryTooLarge) => file_size > u32::MAX,
                Err(_) => false,
            },
    {
        if file_size > 0xFFFFFFFFu64 {
            return Err(ZipCreatorError::EntryTooLarge);
        }
        let compression_method = if file_size > MINIMUM_SIZE_TO_COMPRESS as u64 {
            CompressionMethod::Deflate
        } else {
            CompressionMethod::NoCompression
        };
        let zip_item_path = normalize_path(item_path);
        Ok(
            ZipItem::new(
                compression_method,
                zip_item_path,
                file_size as u32,
                0,
                modified,
                0,
                encryption_method,
                crc32,
            ),
        )
    }
}

} // verus!
