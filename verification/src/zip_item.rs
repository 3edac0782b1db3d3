//! One member of an archive: its path, sizes, method, timestamp, offset
//! and checksum, with the operations that extract it from an archive image
//! and write it into one.

use vstd::prelude::*;

use crate::bytes::{push_bytes, read_u16_le, u16_le, u32_le};
use crate::compression::{inflate_of, CompressionDecoder};
use crate::date_time::ZipDateTime;
use crate::errors::{ExtractError, ZipCreatorError};
use crate::local_file_header::{
    lfh_basic_ok, lfh_content_start, lfh_fits, lfh_has_data_descriptor, lfh_name_len,
    LocalFileHeader,
};
use crate::mem_map::{compression_method_of, encryption_method_of, CompressionMethod,
    EncryptionMethod};
use crate::options::{ExtractOptions, ZipOptions};
use crate::winzip_aes::{
    aes_auth_code_of, aes_auth_key_of, aes_data_long_enough, aes_extra_ok, aes_password_ok,
    hmac_sha1_of, winzip_aes_plaintext, WinZipAesError, WinZipAesReader,
};
use crate::zip_crypto::{
    zc_password_check_passes, zip_crypto_plaintext, ZipCryptoError, ZipCryptoReader,
};

verus! {

/// A path names a file unless it ends with the entry separator `/`.
pub open spec fn path_is_file(path: Seq<u8>) -> bool {
    !(path.len() > 0 && path[path.len() - 1] == 47u8)
}

/// The invariant of a directory entry: it carries no bytes, so both sizes
/// and the checksum are zero.
pub open spec fn directory_entry_trivial(item: ZipItemView) -> bool {
    !item.is_file ==> item.uncompressed_size == 0 && item.compressed_size == 0 && item.crc32 == 0
}

/// An extraction destination: the destination root, the separator, then
/// the archive-relative entry path.
pub open spec fn joined_path(dest: Seq<u8>, item: Seq<u8>) -> Seq<u8> {
    dest + seq![47u8] + item
}

/// The ghost image of one entry.
pub ghost struct ZipItemView {
    pub item_path: Seq<u8>,
    pub is_file: bool,
    pub uncompressed_size: u32,
    pub compressed_size: u32,
    pub compression_method: CompressionMethod,
    pub modified_date_time: ZipDateTime,
    pub start_offset: u32,
    pub encryption_method: EncryptionMethod,
    pub crc32: u32,
}

pub struct ZipItem {
    pub item_path: Vec<u8>,
    pub is_file: bool,
    pub uncompressed_size: u32,
    pub compressed_size: u32,
    pub compression_method: CompressionMethod,
    pub modified_date_time: ZipDateTime,
    pub start_offset: u32,
    pub encryption_method: EncryptionMethod,
    pub crc32: u32,
}

impl ZipItem {
    pub fn new(
        compression_method: CompressionMethod,
        item_path: Vec<u8>,
        uncompressed_size: u32,
        compressed_size: u32,
        modified_date_time: ZipDateTime,
        start_offset: u32,
        encryption_method: EncryptionMethod,
        crc32: u32,
    ) -> (r: Self)
        ensures
            r.item_path@ == item_path@,
            r.is_file == path_is_file(item_path@),
            r.uncompressed_size == uncompressed_size,
            r.compressed_size == compressed_size,
            r.compression_method == compression_method,
            r.modified_date_time == modified_date_time,
            r.start_offset == start_offset,
            r.encryption_method == encryption_method,
            r.crc32 == crc32,
    {
        let n = item_path.len();
        let is_file = n == 0 || item_path[n - 1] != 47u8;
        Self {
            compression_method,
            item_path,
            is_file,
            uncompressed_size,
            compressed_size,
            modified_date_time,
            start_offset,
            encryption_method,
            crc32,
        }
    }

    pub fn item_path(&self) -> (r: &Vec<u8>)
        ensures
            r@ == self.item_path@,
    {
        &self.item_path
    }

    pub fn is_file(&self) -> (r: bool)
        ensures
            r == self.is_file,
    {
        self.is_file
    }

    pub fn crc32(&self) -> (r: u32)
        ensures
            r == self.crc32,
    {
        self.crc32
    }

    pub fn uncompressed_size(&self) -> (r: u32)
        ensures
            r == self.uncompressed_size,
    {
        self.uncompressed_size
    }

    pub fn compression_method(&self) -> (r: CompressionMethod)
        ensures
            r == self.compression_method,
    {
        self.compression_method
    }

    pub fn modified_date_time(&self) -> (r: &ZipDateTime)
        ensures
            r == self.modified_date_time,
    {
        &self.modified_date_time
    }

    pub fn encryption_method(&self) -> (r: EncryptionMethod)
        ensures
            r == self.encryption_method,
    {
        self.encryption_method
    }

    pub fn compressed_size(&self) -> (r: u32)
        ensures
            r == self.compressed_size,
    {
        self.compressed_size
    }

    pub fn start_offset(&self) -> (r: u32)
        ensures
            r == self.start_offset,
    {
        self.start_offset
    }

    /// Records where in the archive this entry's header was placed.
    pub fn update_start_offset(&mut self, offset: u32)
        ensures
            *final(self) == (ZipItem { start_offset: offset, ..*old(self) }),
    {
        self.start_offset = offset;
    }

    /// Records the entry's true compressed size once its bytes are written.
    pub fn update_compressed_size(&mut self, size: u32)
        ensures
            *final(self) == (ZipItem { compressed_size: size, ..*old(self) }),
    {
        self.compressed_size = size;
    }
}

impl View for ZipItem {
    type V = ZipItemView;

    open spec fn view(&self) -> ZipItemView {
        ZipItemView {
            item_path: self.item_path@,
            is_file: self.is_file,
            uncompressed_size: self.uncompressed_size,
            compressed_size: self.compressed_size,
            compression_method: self.compression_method,
            modified_date_time: self.modified_date_time,
            start_offset: self.start_offset,
            encryption_method: self.encryption_method,
            crc32: self.crc32,
        }
    }
}

/// The method field declared by the entry's own header.
pub open spec fn entry_method(archive: Seq<u8>, off: int) -> CompressionMethod {
    compression_method_of(u16_le(archive, off + 8))
}

/// The encryption declared by the entry's own header.
pub open spec fn entry_encryption(archive: Seq<u8>, off: int) -> EncryptionMethod {
    encryption_method_of(u16_le(archive, off + 6), entry_method(archive, off))
}

/// The extra field of the entry's own header.
pub open spec fn entry_extra_field(archive: Seq<u8>, off: int) -> Seq<u8> {
    archive.subrange(off + 30 + lfh_name_len(archive, off), lfh_content_start(archive, off))
}

/// How many bytes of the archive belong to the entry's body: the declared
/// compressed size, except for a stored unencrypted entry, whose bytes are
/// counted by its uncompressed size.
pub open spec fn entry_stored_len(item: ZipItemView, archive: Seq<u8>, off: int) -> int {
    if entry_method(archive, off) == CompressionMethod::NoCompression && entry_encryption(
        archive,
        off,
    ) == EncryptionMethod::NoEncryption {
        item.uncompressed_size as int
    } else {
        item.compressed_size as int
    }
}

/// The entry's body lies inside the archive image.
pub open spec fn entry_in_bounds(item: ZipItemView, archive: Seq<u8>) -> bool {
    lfh_content_start(archive, item.start_offset as int) + entry_stored_len(
        item,
        archive,
        item.start_offset as int,
    ) <= archive.len()
}

/// The entry's body bytes as stored in the archive.
pub open spec fn entry_content(item: ZipItemView, archive: Seq<u8>) -> Seq<u8> {
    archive.subrange(
        lfh_content_start(archive, item.start_offset as int),
        lfh_content_start(archive, item.start_offset as int) + entry_stored_len(
            item,
            archive,
            item.start_offset as int,
        ),
    )
}

/// The entry's true compression method: recovered from the AES extra field
/// when the method field is overloaded by the vendor scheme, otherwise the
/// declared method itself.
pub open spec fn entry_real_method(archive: Seq<u8>, off: int) -> CompressionMethod {
    if entry_encryption(archive, off) == EncryptionMethod::WinZipAesEncryption {
        compression_method_of(u16_le(entry_extra_field(archive, off), 9))
    } else {
        entry_method(archive, off)
    }
}

/// The entry's body after its cipher, if any, is undone with `password`.
pub open spec fn entry_plaintext(item: ZipItemView, archive: Seq<u8>, password: Seq<u8>) -> Seq<
    u8,
> {
    let off = item.start_offset as int;
    match entry_encryption(archive, off) {
        EncryptionMethod::NoEncryption => entry_content(item, archive),
        EncryptionMethod::ZipCrypto => zip_crypto_plaintext(password, entry_content(item, archive)),
        EncryptionMethod::WinZipAesEncryption => winzip_aes_plaintext(
            password,
            entry_extra_field(archive, off),
            entry_content(item, archive),
        ),
        EncryptionMethod::StrongEncryption => Seq::empty(),
    }
}

/// What extracting the entry's body yields: the plaintext itself for a
/// stored entry, its Deflate decoding for a compressed one, nothing for an
/// unsupported method.
pub open spec fn entry_decoded_data(item: ZipItemView, archive: Seq<u8>, password: Seq<u8>) -> Option<
    Seq<u8>,
> {
    let m = entry_real_method(archive, item.start_offset as int);
    if m == CompressionMethod::NoCompression {
        Some(entry_plaintext(item, archive, password))
    } else if m == CompressionMethod::Deflate {
        inflate_of(entry_plaintext(item, archive, password))
    } else {
        None
    }
}

/// The password an extraction works with: the caller's, or empty when none
/// was given.
pub open spec fn password_view(p: Option<Vec<u8>>) -> Seq<u8> {
    match p {
        Some(v) => v@,
        None => Seq::empty(),
    }
}

/// The entry's own header parses and is free of the unsupported trailing
/// data descriptor.
pub open spec fn entry_header_ok(item: ZipItemView, archive: Seq<u8>) -> bool {
    let off = item.start_offset as int;
    &&& lfh_basic_ok(archive, off)
    &&& !lfh_has_data_descriptor(archive, off)
    &&& lfh_fits(archive, off)
}

/// The password checks and the authentication check of the entry's cipher
/// all pass.
pub open spec fn entry_cipher_ok(
    item: ZipItemView,
    archive: Seq<u8>,
    password: Option<Vec<u8>>,
) -> bool {
    let off = item.start_offset as int;
    let content = entry_content(item, archive);
    let pw = password_view(password);
    match entry_encryption(archive, off) {
        EncryptionMethod::NoEncryption => true,
        EncryptionMethod::ZipCrypto => {
            &&& password is Some
            &&& content.len() >= 12
            &&& zc_password_check_passes(pw, content, u32_le(archive, off + 14))
        },
        EncryptionMethod::WinZipAesEncryption => {
            let extra = entry_extra_field(archive, off);
            &&& password is Some
            &&& aes_extra_ok(extra)
            &&& aes_data_long_enough(extra, content)
            &&& aes_password_ok(pw, extra, content)
            &&& hmac_sha1_of(
                aes_auth_key_of(pw, extra, content),
                crate::winzip_aes::aes_content_of(extra, content),
            ).subrange(0, 10) == aes_auth_code_of(content)
        },
        EncryptionMethod::StrongEncryption => false,
    }
}

/// Extraction of the entry succeeds: a directory always does; a file needs
/// a well-formed header, a body inside the image, a cipher whose checks
/// pass, and a supported compression method whose stream decodes.
pub open spec fn extract_succeeds(
    item: ZipItemView,
    archive: Seq<u8>,
    password: Option<Vec<u8>>,
) -> bool {
    ||| !item.is_file
    ||| {
        &&& entry_header_ok(item, archive)
        &&& entry_in_bounds(item, archive)
        &&& entry_cipher_ok(item, archive, password)
        &&& entry_decoded_data(item, archive, password_view(password)) is Some
    }
}

/// What extraction hands back for one entry: a directory to create, or a
/// file's path and bytes.
pub enum ExtractedItem {
    Directory { path: Vec<u8> },
    File { path: Vec<u8>, data: Vec<u8> },
}

/// Appends the archive-relative entry path to the destination root.
pub fn join_path(dest: &Vec<u8>, item: &Vec<u8>) -> (r: Vec<u8>)
    ensures
        r@ == joined_path(dest@, item@),
{
    let mut out = vstd::slice::slice_to_vec(dest.as_slice());
    out.push(47u8);
    push_bytes(&mut out, item);
    proof {
        assert(out@ =~= joined_path(dest@, item@));
    }
    out
}

/// How many bytes writing an entry appends to the image: its header, and
/// for a file its encoded body, preceded by the cipher header when the
/// legacy cipher is asked for.
pub open spec fn entry_write_len(item: ZipItemView, source: Seq<u8>) -> int
    recommends
        item.compression_method == CompressionMethod::NoCompression
            || item.compression_method == CompressionMethod::Deflate,
{
    30 + item.item_path.len() + (if item.is_file {
        (if item.encryption_method == EncryptionMethod::ZipCrypto {
            12int
        } else {
            0int
        }) + encoded_body(item.compression_method, source).len()
    } else {
        0int
    })
}

/// The inputs on which writing an entry is owed to succeed: a directory,
/// or a stored or Deflate file whose password, when the legacy cipher asks
/// for one, is present, and whose bytes keep the archive within the
/// offsets the format can record.
pub open spec fn zip_write_is_owed(
    item: ZipItemView,
    archive_len: int,
    source: Seq<u8>,
    password: Option<Vec<u8>>,
) -> bool {
    &&& (!item.is_file || item.compression_method == CompressionMethod::NoCompression
        || item.compression_method == CompressionMethod::Deflate)
    &&& !(item.is_file && item.encryption_method == EncryptionMethod::ZipCrypto
        && password is None)
    &&& archive_len + entry_write_len(item, source) <= u32::MAX
}

/// The entry's header and body lie at its recorded offset of the image,
/// exactly as the write path lays an unencrypted entry out.
pub open spec fn entry_written_at(item: ZipItemView, archive: Seq<u8>, source: Seq<u8>) -> bool {
    let seg = crate::local_file_header::lfh_item_binary(item) + encoded_body(
        item.compression_method,
        source,
    );
    &&& item.start_offset + seg.len() <= archive.len()
    &&& archive.subrange(item.start_offset as int, item.start_offset + seg.len()) == seg
}

/// The body bytes an entry's transform produces on the write path.
pub open spec fn encoded_body(method: CompressionMethod, source: Seq<u8>) -> Seq<u8>
    recommends
        method == CompressionMethod::NoCompression || method == CompressionMethod::Deflate,
{
    if method == CompressionMethod::Deflate {
        crate::compression::deflate_of(source)
    } else {
        source
    }
}

impl ZipItem {
    /// Writes this entry into the archive image at its end: the entry's
    /// header first, then for a file its encoded (and, under the legacy
    /// cipher, encrypted) body.  The recorded start offset and compressed
    /// size are updated to what was actually written.
    pub fn zip(
        &mut self,
        archive: &mut Vec<u8>,
        source: &Vec<u8>,
        zip_options: &ZipOptions,
    ) -> (r: Result<(), ZipCreatorError>)
        requires
            old(self).modified_date_time.year >= 1980,
            old(self).item_path@.len() <= u16::MAX,
            old(self).encryption_method == EncryptionMethod::NoEncryption || old(
                self,
            ).encryption_method == EncryptionMethod::ZipCrypto,
        ensures
            match r {
                Ok(()) => {
                    &&& final(archive)@.len() >= old(archive)@.len()
                    &&& final(archive)@.len() == old(archive)@.len() + entry_write_len(
                        final(self)@,
                        source@,
                    )
                    &&& final(archive)@.subrange(0, old(archive)@.len() as int) == old(archive)@
                    &&& final(self).item_path@ == old(self).item_path@
                    &&& final(self).is_file == old(self).is_file
                    &&& final(self).uncompressed_size == old(self).uncompressed_size
                    &&& final(self).compression_method == old(self).compression_method
                    &&& final(self).modified_date_time == old(self).modified_date_time
                    &&& final(self).encryption_method == old(self).encryption_method
                    &&& final(self).crc32 == old(self).crc32
                    &&& final(self).start_offset == old(archive)@.len()
                    &&& (!old(self).is_file ==> {
                        &&& final(archive)@ == old(archive)@ + crate::local_file_header::lfh_item_binary(
                            final(self)@,
                        )
                        &&& final(self).compressed_size == old(self).compressed_size
                    })
                    &&& ((old(self).is_file && old(self).encryption_method
                        == EncryptionMethod::NoEncryption) ==> {
                        &&& final(archive)@ == old(archive)@ + crate::local_file_header::lfh_item_binary(
                            final(self)@,
                        ) + encoded_body(old(self).compression_method, source@)
                        &&& final(self).compressed_size == encoded_body(
                            old(self).compression_method,
                            source@,
                        ).len()
                    })
                    &&& ((old(self).is_file && old(self).encryption_method
                        == EncryptionMethod::ZipCrypto) ==> {
                        &&& zip_options.password is Some
                        &&& exists|hdr: Seq<u8>|
                            {
                                &&& hdr.len() == 12
                                &&& hdr[11] == (old(self).crc32 >> 24) as u8
                                &&& final(archive)@ == old(archive)@
                                    + crate::local_file_header::lfh_item_binary(final(self)@)
                                    + crate::zip_crypto::zc_encrypt_seq(
                                    crate::zip_crypto::crc_table_of(
                                        crate::zip_crypto::ZIP_CRYPTO_POLYNOMIAL,
                                    ),
                                    crate::zip_crypto::zc_password_keys(
                                        password_view(zip_options.password),
                                    ),
                                    hdr,
                                ) + crate::zip_crypto::zc_encrypt_seq(
                                    crate::zip_crypto::crc_table_of(
                                        crate::zip_crypto::ZIP_CRYPTO_POLYNOMIAL,
                                    ),
                                    crate::zip_crypto::zc_keys_after_encrypt(
                                        crate::zip_crypto::crc_table_of(
                                            crate::zip_crypto::ZIP_CRYPTO_POLYNOMIAL,
                                        ),
                                        crate::zip_crypto::zc_password_keys(
                                            password_view(zip_options.password),
                                        ),
                                        hdr,
                                    ),
                                    encoded_body(old(self).compression_method, source@),
                                )
                            }
                        &&& final(self).compressed_size == 12 + encoded_body(
                            old(self).compression_method,
                            source@,
                        ).len()
                    })
                },
                Err(ZipCreatorError::PasswordRequired) => {
                    &&& old(self).is_file
                    &&& old(self).encryption_method == EncryptionMethod::ZipCrypto
                    &&& zip_options.password is None
                    &&& *final(self) == *old(self)
                    &&& final(archive)@ == old(archive)@
                },
                Err(ZipCreatorError::EncodingFailed(_)) => {
                    &&& old(self).is_file
                    &&& *final(self) == *old(self)
                    &&& final(archive)@ == old(archive)@
                },
                Err(ZipCreatorError::EntryTooLarge) => {
                    &&& *final(self) == *old(self)
                    &&& final(archive)@ == old(archive)@
                },
                Err(_) => false,
            },
            zip_write_is_owed(old(self)@, old(archive)@.len() as int, source@, zip_options.password)
                ==> r is Ok,
    {
        let is_encrypted = self.encryption_method() == EncryptionMethod::ZipCrypto;
        if self.is_file() && is_encrypted && zip_options.password().is_none() {
            return Err(ZipCreatorError::PasswordRequired);
        }
        let encoded: Vec<u8> = if self.is_file() {
            match crate::compression::CompressionEncoder::encode(&self.compression_method, source) {
                Ok(v) => v,
                Err(e) => {
                    return Err(ZipCreatorError::EncodingFailed(e));
                },
            }
        } else {
            Vec::new()
        };
        let archive_start = archive.len();
        if archive_start > 0xFFFFFFFFusize || encoded.len() > 0xFFFFFFFFusize {
            return Err(ZipCreatorError::EntryTooLarge);
        }
        let body_len: u64 = (if self.is_file() && is_encrypted {
            12u64
        } else {
            0u64
        }) + (encoded.len() as u64);
        let header_len: u64 = 30u64 + (self.item_path.len() as u64);
        if (archive_start as u64) + header_len + body_len > 0xFFFFFFFFu64 {
            return Err(ZipCreatorError::EntryTooLarge);
        }
        self.update_start_offset(archive_start as u32);
        if self.is_file() {
            self.update_compressed_size(body_len as u32);
        }
        let local_file_header = LocalFileHeader::from_zip_item(self);
        let header_bin = local_file_header.to_binary();
        proof {
            assert(header_bin@ =~= crate::local_file_header::lfh_item_binary(self@));
        }
        crate::bytes::push_bytes(archive, &header_bin);
        if self.is_file() {
            if is_encrypted {
                match zip_options.password() {
                    Some(pass) => {
                        let mut writer = crate::zip_crypto::ZipCryptoWriter::new(
                            archive,
                            pass,
                            self.crc32,
                        );
                        writer.write(archive, &encoded);
                    },
                    None => {
                        proof {
                            assert(false);
                        }
                    },
                }
            } else {
                crate::bytes::push_bytes(archive, &encoded);
            }
        }
        proof {
            assert(archive@.subrange(0, old(archive)@.len() as int) =~= old(archive)@);
            crate::local_file_header::lemma_lfh_item_binary_len(self@);
        }
        Ok(())
    }

    /// Extracts this entry from the archive image: a directory entry only
    /// names the directory to create; a file entry is located through its
    /// own header, decrypted under the caller's password, decompressed, and
    /// handed back as bytes.  It fails exactly when the header is
    /// malformed, the body runs past the image, the encryption is
    /// unsupported or its password or authentication checks fail, or the
    /// compression method is unsupported or its stream corrupt.
    pub fn extract(&self, archive: &Vec<u8>, options: &ExtractOptions) -> (r: Result<
        ExtractedItem,
        ExtractError,
    >)
        requires
            archive@.len() < 0x100000000,
        ensures
            r is Ok <==> extract_succeeds(self@, archive@, options.zip_password),
            match r {
                Ok(ExtractedItem::Directory { path }) => {
                    &&& !self.is_file
                    &&& path@ == joined_path(options.destination_path@, self.item_path@)
                },
                Ok(ExtractedItem::File { path, data }) => {
                    &&& self.is_file
                    &&& path@ == joined_path(options.destination_path@, self.item_path@)
                    &&& Some(data@) == entry_decoded_data(
                        self@,
                        archive@,
                        password_view(options.zip_password),
                    )
                },
                Err(ExtractError::MalformedEntry(_)) => self.is_file && !entry_header_ok(
                    self@,
                    archive@,
                ),
                Err(ExtractError::UnableToSeekZipItem(o)) => {
                    &&& self.is_file
                    &&& o == self.start_offset
                    &&& entry_header_ok(self@, archive@)
                    &&& !entry_in_bounds(self@, archive@)
                },
                Err(ExtractError::UnsupportedEncryption) => {
                    &&& self.is_file
                    &&& entry_header_ok(self@, archive@)
                    &&& entry_in_bounds(self@, archive@)
                    &&& entry_encryption(archive@, self.start_offset as int)
                        == EncryptionMethod::StrongEncryption
                },
                Err(ExtractError::ZipCryptoError(_)) => {
                    &&& self.is_file
                    &&& entry_header_ok(self@, archive@)
                    &&& entry_in_bounds(self@, archive@)
                    &&& entry_encryption(archive@, self.start_offset as int)
                        == EncryptionMethod::ZipCrypto
                    &&& !entry_cipher_ok(self@, archive@, options.zip_password)
                },
                Err(ExtractError::WinZipAesError(_)) => {
                    &&& self.is_file
                    &&& entry_header_ok(self@, archive@)
                    &&& entry_in_bounds(self@, archive@)
                    &&& entry_encryption(archive@, self.start_offset as int)
                        == EncryptionMethod::WinZipAesEncryption
                    &&& !entry_cipher_ok(self@, archive@, options.zip_password)
                },
                Err(ExtractError::AuthenticationFailed) => {
                    &&& self.is_file
                    &&& entry_header_ok(self@, archive@)
                    &&& entry_in_bounds(self@, archive@)
                    &&& entry_encryption(archive@, self.start_offset as int)
                        == EncryptionMethod::WinZipAesEncryption
                    &&& !entry_cipher_ok(self@, archive@, options.zip_password)
                },
                Err(ExtractError::UnsupportedCompression(_)) => {
                    &&& self.is_file
                    &&& entry_header_ok(self@, archive@)
                    &&& entry_in_bounds(self@, archive@)
                    &&& entry_cipher_ok(self@, archive@, options.zip_password)
                    &&& entry_decoded_data(
                        self@,
                        archive@,
                        password_view(options.zip_password),
                    ) is None
                },
                Err(_) => false,
            },
    {
        let dest_path = join_path(options.destination_path(), self.item_path());
        if !self.is_file() {
            return Ok(ExtractedItem::Directory { path: dest_path });
        }
        let local_file_header = match LocalFileHeader::from_bytes(
            archive,
            self.start_offset as usize,
        ) {
            Ok(h) => h,
            Err(e) => {
                return Err(ExtractError::MalformedEntry(e));
            },
        };
        let content_start64 = local_file_header.content_start_offset();
        let stored_len: u32 = if local_file_header.compression_method()
            == CompressionMethod::NoCompression && *local_file_header.encryption_method()
            == EncryptionMethod::NoEncryption {
            self.uncompressed_size()
        } else {
            self.compressed_size()
        };
        let archive_len = archive.len();
        if content_start64 + (stored_len as u64) > (archive_len as u64) {
            return Err(ExtractError::UnableToSeekZipItem(self.start_offset()));
        }
        let content_start = content_start64 as usize;
        let content_end = content_start + (stored_len as usize);
        let content = vstd::slice::slice_to_vec(&archive[content_start..content_end]);
        let ghost pw_spec = password_view(options.zip_password);
        let ghost content_spec = entry_content(self@, archive@);
        proof {
            assert(content@ == content_spec);
        }
        let real_method: CompressionMethod;
        let body: Vec<u8>;
        match *local_file_header.encryption_method() {
            EncryptionMethod::NoEncryption => {
                real_method = local_file_header.compression_method();
                body = content;
            },
            EncryptionMethod::ZipCrypto => {
                let zip_password = match options.zip_password() {
                    Some(pass) => pass,
                    None => {
                        return Err(
                            ExtractError::ZipCryptoError(
                                ZipCryptoError::InvalidPassword(Vec::new()),
                            ),
                        );
                    },
                };
                let mut reader = match ZipCryptoReader::new(
                    zip_password,
                    local_file_header.crc32(),
                    content,
                ) {
                    Ok(reader) => reader,
                    Err(e) => {
                        return Err(ExtractError::ZipCryptoError(e));
                    },
                };
                let plain = reader.read_to_end();
                proof {
                    assert(plain@ == zip_crypto_plaintext(pw_spec, content_spec));
                }
                real_method = local_file_header.compression_method();
                body = plain;
            },
            EncryptionMethod::WinZipAesEncryption => {
                let zip_password = match options.zip_password() {
                    Some(pass) => pass,
                    None => {
                        return Err(
                            ExtractError::WinZipAesError(
                                WinZipAesError::InvalidPassword(Vec::new()),
                            ),
                        );
                    },
                };
                let mut reader = match WinZipAesReader::new(
                    zip_password,
                    &local_file_header.extra_field,
                    content,
                ) {
                    Ok(reader) => reader,
                    Err(e) => {
                        return Err(ExtractError::WinZipAesError(e));
                    },
                };
                let plain = reader.read_to_end();
                if !reader.verify_authentication() {
                    return Err(ExtractError::AuthenticationFailed);
                }
                proof {
                    assert(reader.cipher_view().subrange(0, reader.cipher_view().len() as int)
                        =~= reader.cipher_view());
                    assert(plain@ == winzip_aes_plaintext(
                        pw_spec,
                        entry_extra_field(archive@, self.start_offset as int),
                        content_spec,
                    ));
                }
                real_method = CompressionMethod::from_addr(
                    read_u16_le(&local_file_header.extra_field, 9),
                );
                body = plain;
            },
            EncryptionMethod::StrongEncryption => {
                return Err(ExtractError::UnsupportedEncryption);
            },
        }
        proof {
            assert(body@ == entry_plaintext(self@, archive@, pw_spec));
            assert(real_method == entry_real_method(archive@, self.start_offset as int));
        }
        let data = match CompressionDecoder::decode(&real_method, &body) {
            Ok(data) => data,
            Err(e) => {
                return Err(ExtractError::UnsupportedCompression(e));
            },
        };
        Ok(ExtractedItem::File { path: dest_path, data })
    }
}

} // verus!
