//! The archive aggregate: the full entry list with its path and encryption
//! summary, sequential extraction of every entry, and sequential creation
//! of a new archive image from a list of entries.

use vstd::prelude::*;

use crate::bytes::{u16_le, u32_le};
use crate::central_dir_file_header::{
    cdfh_concat, cdfh_item_binary, cdfh_name_len, lemma_cdfh_concat_len_same_paths,
    lemma_cdfh_concat_snoc, CentralDirectoryFileHeader,
};
use crate::crc32::{calculate_checksum, crc32_of};
use crate::date_time::dos_date_time_of;
use crate::eof_central_dir::{eocd_binary_for, EndOfCentralDirectory};
use crate::errors::{ExtractError, ZipCreatorError, ZipError};
use crate::mem_map::{compression_method_of, encryption_method_of, CompressionMethod,
    EncryptionMethod};
use crate::options::{ExtractOptions, ZipOptions};
use crate::zip_item::{
    encoded_body, entry_decoded_data, entry_written_at, extract_succeeds, joined_path,
    password_view, path_is_file, zip_write_is_owed, ExtractedItem, ZipItem, ZipItemView,
};
use crate::zip_metadata::{cdfh_chain_offset, eocd_window, metadata_parses, ZipMetadata};

verus! {

/// The ghost images of a list of entries.
pub open spec fn items_view(items: Seq<ZipItem>) -> Seq<ZipItemView> {
    Seq::new(items.len(), |i: int| items[i]@)
}

/// The ghost images of a list of source buffers.
pub open spec fn sources_view(sources: Seq<Vec<u8>>) -> Seq<Seq<u8>> {
    Seq::new(sources.len(), |i: int| sources[i]@)
}

/// Bytes the first `i` entries append to the image when written in order.
pub open spec fn body_section_len(items: Seq<ZipItemView>, sources: Seq<Seq<u8>>, i: int) -> int
    decreases i,
{
    if i <= 0 {
        0
    } else {
        body_section_len(items, sources, i - 1) + crate::zip_item::entry_write_len(
            items[i - 1],
            sources[i - 1],
        )
    }
}

pub proof fn lemma_body_section_len_monotone(
    items: Seq<ZipItemView>,
    sources: Seq<Seq<u8>>,
    i: int,
    j: int,
)
    requires
        0 <= i <= j,
    ensures
        body_section_len(items, sources, i) <= body_section_len(items, sources, j),
    decreases j - i,
{
    if i < j {
        lemma_body_section_len_monotone(items, sources, i, j - 1);
    }
}

/// The inputs on which building a whole archive is owed to succeed: every
/// entry a directory or a stored or Deflate file, a password present where
/// the legacy cipher asks for one, and the whole image — entry bodies,
/// directory records and trailer — within what a 32-bit offset can
/// address.
pub open spec fn create_write_is_owed(
    items: Seq<ZipItemView>,
    sources: Seq<Seq<u8>>,
    password: Option<Vec<u8>>,
    base_len: int,
) -> bool {
    &&& items.len() == sources.len()
    &&& forall|i: int|
        0 <= i < items.len() ==> {
            &&& (!(#[trigger] items[i]).is_file || items[i].compression_method
                == CompressionMethod::NoCompression || items[i].compression_method
                == CompressionMethod::Deflate)
            &&& !(items[i].is_file && items[i].encryption_method == EncryptionMethod::ZipCrypto
                && password is None)
        }
    &&& base_len + body_section_len(items, sources, items.len() as int) + cdfh_concat(items).len()
        + 22 <= u32::MAX
}

/// The entry a directory record window describes.
pub open spec fn item_view_at(archive: Seq<u8>, off: int) -> ZipItemView {
    ZipItemView {
        item_path: archive.subrange(off + 46, off + 46 + cdfh_name_len(archive, off)),
        is_file: path_is_file(archive.subrange(off + 46, off + 46 + cdfh_name_len(archive, off))),
        uncompressed_size: u32_le(archive, off + 24),
        compressed_size: u32_le(archive, off + 20),
        compression_method: compression_method_of(u16_le(archive, off + 10)),
        modified_date_time: dos_date_time_of(u16_le(archive, off + 14), u16_le(archive, off + 12)),
        start_offset: u32_le(archive, off + 42),
        encryption_method: encryption_method_of(
            u16_le(archive, off + 8),
            compression_method_of(u16_le(archive, off + 10)),
        ),
        crc32: u32_le(archive, off + 16),
    }
}

/// The archive's encryption summary: the method of the first entry that
/// declares one, used to decide whether a password is needed at all.
pub open spec fn first_encryption(items: Seq<ZipItemView>) -> EncryptionMethod
    decreases items.len(),
{
    if items.len() == 0 {
        EncryptionMethod::NoEncryption
    } else if items.first().encryption_method != EncryptionMethod::NoEncryption {
        items.first().encryption_method
    } else {
        first_encryption(items.drop_first())
    }
}

pub proof fn lemma_first_encryption_snoc(items: Seq<ZipItemView>, x: ZipItemView)
    ensures
        first_encryption(items.push(x)) == if first_encryption(items)
            != EncryptionMethod::NoEncryption {
            first_encryption(items)
        } else {
            x.encryption_method
        },
    decreases items.len(),
{
    if items.len() == 0 {
        assert(items.push(x).first() == x);
        assert(items.push(x).drop_first() =~= Seq::<ZipItemView>::empty());
        assert(first_encryption(Seq::<ZipItemView>::empty()) == EncryptionMethod::NoEncryption);
    } else {
        assert(items.push(x).first() == items.first());
        assert(items.push(x).drop_first() =~= items.drop_first().push(x));
        lemma_first_encryption_snoc(items.drop_first(), x);
    }
}

/// One entry extracts cleanly: the extraction itself succeeds, and for a
/// file the checksum of the extracted bytes agrees with the entry's
/// declared one.
pub open spec fn entry_extracts_clean(
    item: ZipItemView,
    archive: Seq<u8>,
    password: Option<Vec<u8>>,
) -> bool {
    &&& extract_succeeds(item, archive, password)
    &&& (item.is_file ==> crc32_of(
        entry_decoded_data(item, archive, password_view(password))->Some_0,
    ) == item.crc32)
}

/// An unencrypted entry written by the archive writer extracts back to
/// its source bytes under any password, and its checksum check passes —
/// for a stored entry outright, and for a Deflate entry whenever the
/// Deflate decoder inverts the encoder on its payload, which is the fact
/// the decoder's own contract supplies at every decode.
pub proof fn lemma_created_plain_entry_extracts(
    archive: Seq<u8>,
    item: ZipItemView,
    source: Seq<u8>,
    password: Option<Vec<u8>>,
)
    requires
        item.is_file,
        item.encryption_method == EncryptionMethod::NoEncryption,
        item.compression_method == CompressionMethod::NoCompression || item.compression_method
            == CompressionMethod::Deflate,
        item.item_path.len() <= u16::MAX,
        item.compression_method == CompressionMethod::NoCompression ==> item.uncompressed_size
            == source.len(),
        item.compression_method == CompressionMethod::Deflate ==> item.compressed_size
            == crate::compression::deflate_of(source).len(),
        item.crc32 == crc32_of(source),
        item.start_offset as int + crate::local_file_header::lfh_item_len(item) + encoded_body(
            item.compression_method,
            source,
        ).len() <= archive.len(),
        archive.subrange(
            item.start_offset as int,
            item.start_offset as int + crate::local_file_header::lfh_item_len(item)
                + encoded_body(item.compression_method, source).len(),
        ) == crate::local_file_header::lfh_item_binary(item) + encoded_body(
            item.compression_method,
            source,
        ),
    ensures
        (item.compression_method == CompressionMethod::Deflate
            ==> crate::compression::inflate_of(crate::compression::deflate_of(source)) == Some(
            source,
        )) ==> {
            &&& extract_succeeds(item, archive, password)
            &&& entry_decoded_data(item, archive, password_view(password)) == Some(source)
            &&& entry_extracts_clean(item, archive, password)
        },
{
    let off = item.start_offset as int;
    let header_len = crate::local_file_header::lfh_item_len(item);
    let body = encoded_body(item.compression_method, source);
    let window = archive.subrange(off, off + header_len + body.len());
    crate::local_file_header::lemma_lfh_item_binary_len(item);
    assert(archive.subrange(off, off + header_len)
        =~= crate::local_file_header::lfh_item_binary(item)) by {
        assert forall|k: int| 0 <= k < header_len implies archive[off + k]
            == crate::local_file_header::lfh_item_binary(item)[k] by {
            assert(window[k] == archive[off + k]);
        }
    }
    crate::local_file_header::lemma_lfh_item_binary_decodes(archive, off, item);
    assert(crate::zip_item::entry_method(archive, off) == item.compression_method);
    assert(0u16 & 0x41 != 0x41 && 0u16 & 0x1 != 1) by (bit_vector);
    assert(crate::zip_item::entry_encryption(archive, off) == EncryptionMethod::NoEncryption);
    assert(crate::zip_item::entry_content(item, archive) =~= body) by {
        assert forall|k: int| 0 <= k < body.len() implies archive[off + header_len + k]
            == body[k] by {
            assert(window[header_len + k] == archive[off + header_len + k]);
        }
    }
}

/// Entry `i` is the first that fails to extract cleanly: everything
/// before it extracted cleanly, so a failing run stopped exactly there.
pub open spec fn first_failure_at(
    items: Seq<ZipItem>,
    archive: Seq<u8>,
    password: Option<Vec<u8>>,
    i: int,
) -> bool {
    &&& 0 <= i < items.len()
    &&& !entry_extracts_clean(items[i]@, archive, password)
    &&& forall|j: int|
        0 <= j < i ==> entry_extracts_clean(#[trigger] items[j]@, archive, password)
}

/// Identity fields of an entry, the ones archive creation never changes.
pub open spec fn item_identity_preserved(a: ZipItemView, b: ZipItemView) -> bool {
    &&& a.item_path == b.item_path
    &&& a.is_file == b.is_file
    &&& a.uncompressed_size == b.uncompressed_size
    &&& a.compression_method == b.compression_method
    &&& a.modified_date_time == b.modified_date_time
    &&& a.encryption_method == b.encryption_method
    &&& a.crc32 == b.crc32
}

pub struct ZipFile {
    pub file_count: u16,
    pub zip_items: Vec<ZipItem>,
    pub zip_file_path: Vec<u8>,
    pub file_encryption_method: EncryptionMethod,
}

pub struct ZipFileIntoIterator<'a> {
    pub index: usize,
    pub zip_files: &'a Vec<ZipItem>,
}

impl<'a> ZipFileIntoIterator<'a> {
    pub fn new(zip_files: &'a Vec<ZipItem>) -> (r: Self)
        ensures
            r.index == 0,
            r.zip_files@ == zip_files@,
    {
        Self { index: 0, zip_files }
    }

    /// The next entry, or nothing once every entry has been handed out.
    pub fn next(&mut self) -> (r: Option<&'a ZipItem>)
        ensures
            final(self).zip_files@ == old(self).zip_files@,
            old(self).index < old(self).zip_files@.len() ==> {
                &&& final(self).index == old(self).index + 1
                &&& r matches Some(item) && item@ == old(self).zip_files@[old(self).index as int]@
            },
            old(self).index >= old(self).zip_files@.len() ==> r is None,
    {
        if self.index < self.zip_files.len() {
            let item = &self.zip_files[self.index];
            self.index = self.index + 1;
            Some(item)
        } else {
            None
        }
    }
}


/// Appends one directory record per entry to the image, refusing to grow
/// it past what a 32-bit offset can address.
#[verifier::rlimit(100)]
fn write_central_directory(archive: &mut Vec<u8>, items: &Vec<ZipItem>) -> (r: Result<
    (),
    ZipCreatorError,
>)
    requires
        old(archive)@.len() <= 0xFFFFFFFF,
        forall|j: int|
            0 <= j < items@.len() ==> {
                &&& (#[trigger] items@[j]@).modified_date_time.year >= 1980
                &&& items@[j]@.item_path.len() <= u16::MAX
            },
    ensures
        r is Ok ==> {
            &&& final(archive)@ == old(archive)@ + cdfh_concat(items_view(items@))
            &&& final(archive)@.len() <= 0xFFFFFFFF
        },
        old(archive)@.len() + cdfh_concat(items_view(items@)).len() <= u32::MAX ==> r is Ok,
{
    let n = items.len();
    let ghost pre_cd = archive@;
    let mut k: usize = 0;
    proof {
        assert(items_view(items@).subrange(0, 0) =~= Seq::<ZipItemView>::empty());
        assert(archive@ =~= pre_cd + cdfh_concat(items_view(items@).subrange(0, 0)));
    }
    while k < n
        invariant
            0 <= k <= n,
            n == items@.len(),
            pre_cd == old(archive)@,
            archive@ == pre_cd + cdfh_concat(items_view(items@).subrange(0, k as int)),
            archive@.len() <= 0xFFFFFFFF,
            forall|j: int|
                0 <= j < items@.len() ==> {
                    &&& (#[trigger] items@[j]@).modified_date_time.year >= 1980
                    &&& items@[j]@.item_path.len() <= u16::MAX
                },
        decreases n - k,
    {
        let cdfh = CentralDirectoryFileHeader::from_zip_item(&items[k]);
        let cdfh_bin = cdfh.to_binary();
        proof {
            broadcast use vstd::seq::Seq::add_empty_right;

            assert(cdfh_bin@ == cdfh_item_binary(items@[k as int]@));
        }
        if cdfh_bin.len() > 0xFFFFFFFFusize - archive.len() {
            proof {
                if pre_cd.len() + cdfh_concat(items_view(items@)).len() <= u32::MAX {
                    lemma_cdfh_concat_snoc(
                        items_view(items@).subrange(0, k as int),
                        items@[k as int]@,
                    );
                    assert(items_view(items@).subrange(0, k + 1) =~= items_view(
                        items@,
                    ).subrange(0, k as int).push(items@[k as int]@));
                    crate::central_dir_file_header::lemma_cdfh_concat_split(
                        items_view(items@),
                        k + 1,
                    );
                    assert(items_view(items@).take(k + 1) =~= items_view(items@).subrange(
                        0,
                        k + 1,
                    ));
                    assert(false);
                }
            }
            return Err(ZipCreatorError::EntryTooLarge);
        }
        crate::bytes::push_bytes(archive, &cdfh_bin);
        proof {
            lemma_cdfh_concat_snoc(
                items_view(items@).subrange(0, k as int),
                items@[k as int]@,
            );
            assert(items_view(items@).subrange(0, k + 1) =~= items_view(items@).subrange(
                0,
                k as int,
            ).push(items@[k as int]@));
        }
        k = k + 1;
    }
    proof {
        assert(items_view(items@).subrange(0, n as int) =~= items_view(items@));
    }
    Ok(())
}

impl ZipFile {
    /// Parses a whole archive image into its entry list; the declared
    /// entry count and the first declared encryption method are kept as
    /// the archive's summary.
    pub fn new(zip_file_path: Vec<u8>, archive: &Vec<u8>) -> (r: Result<Self, ZipError>)
        ensures
            r is Ok <==> metadata_parses(archive@),
            match r {
                Ok(zf) => {
                    &&& zf.zip_file_path@ == zip_file_path@
                    &&& zf.file_count == u16_le(eocd_window(archive@), 10)
                    &&& zf.zip_items@.len() == zf.file_count
                    &&& forall|i: int|
                        0 <= i < zf.zip_items@.len() ==> #[trigger] zf.zip_items@[i]@
                            == item_view_at(
                            archive@,
                            cdfh_chain_offset(
                                archive@,
                                u32_le(eocd_window(archive@), 16) as int,
                                i as nat,
                            ),
                        )
                    &&& zf.file_encryption_method == first_encryption(items_view(zf.zip_items@))
                },
                Err(ZipError::MalformedArchive) => !metadata_parses(archive@),
                Err(ZipError::FileIOError(_)) => false,
            },
    {
        let (eocd, mut file_headers) = match ZipMetadata::parse(archive) {
            Ok(parsed) => parsed,
            Err(_) => {
                return Err(ZipError::MalformedArchive);
            },
        };
        let ghost orig_headers = file_headers@;
        let ghost start = eocd.cdfh_start_offset as int;
        let count = eocd.total_num_of_central_dir();
        let mut zip_items: Vec<ZipItem> = Vec::new();
        let mut i: usize = 0;
        assert(file_headers@ =~= orig_headers.subrange(0, orig_headers.len() as int));
        while file_headers.len() > 0
            invariant
                zip_items@.len() == i,
                i + file_headers@.len() == orig_headers.len(),
                orig_headers.len() == count,
                file_headers@ == orig_headers.subrange(i as int, orig_headers.len() as int),
                forall|j: int|
                    0 <= j < orig_headers.len() ==> #[trigger] crate::central_dir_file_header::cdfh_decoded(
                        orig_headers[j],
                        archive@,
                        cdfh_chain_offset(archive@, start, j as nat),
                    ),
                forall|j: int|
                    0 <= j < i ==> #[trigger] zip_items@[j]@ == item_view_at(
                        archive@,
                        cdfh_chain_offset(archive@, start, j as nat),
                    ),
            decreases file_headers@.len(),
        {
            let header = file_headers.remove(0);
            proof {
                assert(header == orig_headers[i as int]);
                assert(file_headers@ =~= orig_headers.subrange(
                    i + 1,
                    orig_headers.len() as int,
                ));
            }
            proof {
                let jj: int = i as int;
                assert(crate::central_dir_file_header::cdfh_decoded(
                    orig_headers[jj],
                    archive@,
                    cdfh_chain_offset(archive@, start, jj as nat),
                ));
            }
            let item = header.into_zip_item();
            zip_items.push(item);
            proof {
                assert(zip_items@[i as int]@ == item_view_at(
                    archive@,
                    cdfh_chain_offset(archive@, start, i as nat),
                ));
            }
            i = i + 1;
        }
        let mut file_encryption_method = EncryptionMethod::NoEncryption;
        let n = zip_items.len();
        let mut k: usize = 0;
        assert(items_view(zip_items@).subrange(0, 0) =~= Seq::<ZipItemView>::empty());
        while k < n
            invariant
                0 <= k <= n,
                n == zip_items@.len(),
                file_encryption_method == first_encryption(
                    items_view(zip_items@).subrange(0, k as int),
                ),
            decreases n - k,
        {
            let current = zip_items[k].encryption_method();
            proof {
                lemma_first_encryption_snoc(
                    items_view(zip_items@).subrange(0, k as int),
                    zip_items@[k as int]@,
                );
                assert(items_view(zip_items@).subrange(0, k + 1) =~= items_view(
                    zip_items@,
                ).subrange(0, k as int).push(zip_items@[k as int]@));
            }
            if file_encryption_method == EncryptionMethod::NoEncryption {
                file_encryption_method = current;
            }
            k = k + 1;
        }
        proof {
            assert(items_view(zip_items@).subrange(0, n as int) =~= items_view(zip_items@));
        }
        Ok(
            ZipFile {
                zip_items,
                file_count: count,
                zip_file_path,
                file_encryption_method,
            },
        )
    }

    /// Builds the aggregate directly from an entry list, on the creation
    /// path, where no archive image exists yet.
    pub fn create(
        file_count: u16,
        zip_items: Vec<ZipItem>,
        zip_file_path: Vec<u8>,
        file_encryption_method: EncryptionMethod,
    ) -> (r: Self)
        ensures
            r.file_count == file_count,
            r.zip_items@ == zip_items@,
            r.zip_file_path@ == zip_file_path@,
            r.file_encryption_method == file_encryption_method,
    {
        Self { file_count, zip_items, zip_file_path, file_encryption_method }
    }

    pub fn file_count(&self) -> (r: u16)
        ensures
            r == self.file_count,
    {
        self.file_count
    }

    pub fn zip_file_path(&self) -> (r: &Vec<u8>)
        ensures
            r@ == self.zip_file_path@,
    {
        &self.zip_file_path
    }

    pub fn file_encryption_method(&self) -> (r: &EncryptionMethod)
        ensures
            r == self.file_encryption_method,
    {
        &self.file_encryption_method
    }

    pub fn iter<'a>(&'a self) -> (r: ZipFileIntoIterator<'a>)
        ensures
            r.index == 0,
            r.zip_files@ == self.zip_items@,
    {
        ZipFileIntoIterator::new(&self.zip_items)
    }

    /// Extracts every entry in order, stopping at the first failure; each
    /// extracted file is verified against its declared checksum, and a
    /// disagreement is a hard failure naming the entry.
    pub fn extract_all(&self, archive: &Vec<u8>, options: &ExtractOptions) -> (r: Result<
        Vec<ExtractedItem>,
        (Vec<u8>, ExtractError),
    >)
        requires
            archive@.len() < 0x100000000,
        ensures
            r is Ok <==> (forall|i: int|
                0 <= i < self.zip_items@.len() ==> #[trigger] entry_extracts_clean(
                    self.zip_items@[i]@,
                    archive@,
                    options.zip_password,
                )),
            match r {
                Ok(list) => {
                    &&& list@.len() == self.zip_items@.len()
                    &&& forall|i: int|
                        0 <= i < list@.len() ==> match #[trigger] list@[i] {
                            ExtractedItem::Directory { path } => {
                                &&& !self.zip_items@[i]@.is_file
                                &&& path@ == joined_path(
                                    options.destination_path@,
                                    self.zip_items@[i]@.item_path,
                                )
                            },
                            ExtractedItem::File { path, data } => {
                                &&& self.zip_items@[i]@.is_file
                                &&& path@ == joined_path(
                                    options.destination_path@,
                                    self.zip_items@[i]@.item_path,
                                )
                                &&& Some(data@) == entry_decoded_data(
                                    self.zip_items@[i]@,
                                    archive@,
                                    password_view(options.zip_password),
                                )
                                &&& crc32_of(data@) == self.zip_items@[i]@.crc32
                            },
                        }
                },
                Err((path, _)) => exists|i: int|
                    #[trigger] first_failure_at(self.zip_items@, archive@, options.zip_password, i)
                        && path@ == self.zip_items@[i]@.item_path,
            },
    {
        let n = self.zip_items.len();
        let mut out: Vec<ExtractedItem> = Vec::new();
        let mut i: usize = 0;
        while i < n
            invariant
                0 <= i <= n,
                n == self.zip_items@.len(),
                archive@.len() < 0x100000000,
                out@.len() == i,
                forall|j: int|
                    0 <= j < i ==> #[trigger] entry_extracts_clean(
                        self.zip_items@[j]@,
                        archive@,
                        options.zip_password,
                    ),
                forall|j: int|
                    0 <= j < i ==> match #[trigger] out@[j] {
                        ExtractedItem::Directory { path } => {
                            &&& !self.zip_items@[j]@.is_file
                            &&& path@ == joined_path(
                                options.destination_path@,
                                self.zip_items@[j]@.item_path,
                            )
                        },
                        ExtractedItem::File { path, data } => {
                            &&& self.zip_items@[j]@.is_file
                            &&& path@ == joined_path(
                                options.destination_path@,
                                self.zip_items@[j]@.item_path,
                            )
                            &&& Some(data@) == entry_decoded_data(
                                self.zip_items@[j]@,
                                archive@,
                                password_view(options.zip_password),
                            )
                            &&& crc32_of(data@) == self.zip_items@[j]@.crc32
                        },
                    },
            decreases n - i,
        {
            let item = &self.zip_items[i];
            let extracted = match item.extract(archive, options) {
                Ok(e) => e,
                Err(err) => {
                    proof {
                        assert(!entry_extracts_clean(
                            self.zip_items@[i as int]@,
                            archive@,
                            options.zip_password,
                        ));
                        assert(first_failure_at(
                            self.zip_items@,
                            archive@,
                            options.zip_password,
                            i as int,
                        ));
                    }
                    return Err(
                        (vstd::slice::slice_to_vec(item.item_path().as_slice()), err),
                    );
                },
            };
            match extracted {
                ExtractedItem::Directory { path } => {
                    out.push(ExtractedItem::Directory { path });
                },
                ExtractedItem::File { path, data } => {
                    let checksum = calculate_checksum(&data);
                    if checksum != item.crc32() {
                        proof {
                            assert(!entry_extracts_clean(
                                self.zip_items@[i as int]@,
                                archive@,
                                options.zip_password,
                            ));
                            assert(first_failure_at(
                                self.zip_items@,
                                archive@,
                                options.zip_password,
                                i as int,
                            ));
                        }
                        return Err(
                            (
                                vstd::slice::slice_to_vec(item.item_path().as_slice()),
                                ExtractError::ChecksumMismatch,
                            ),
                        );
                    }
                    out.push(ExtractedItem::File { path, data });
                },
            }
            i = i + 1;
        }
        Ok(out)
    }

    /// Writes every entry into a fresh archive image, then the directory
    /// records for all of them, then the trailer that counts them and
    /// locates the directory: per-entry streaming first, one finalization
    /// pass after.
    #[verifier::rlimit(100)]
    pub fn create_zip_file(
        &mut self,
        archive: &mut Vec<u8>,
        sources: &Vec<Vec<u8>>,
        zip_options: &ZipOptions,
    ) -> (r: Result<(), ZipCreatorError>)
        requires
            sources@.len() == old(self).zip_items@.len(),
            old(self).zip_items@.len() <= u16::MAX,
            forall|i: int|
                0 <= i < old(self).zip_items@.len() ==> {
                    &&& (#[trigger] old(self).zip_items@[i]@).modified_date_time.year >= 1980
                    &&& old(self).zip_items@[i]@.item_path.len() <= u16::MAX
                    &&& (old(self).zip_items@[i]@.encryption_method
                        == EncryptionMethod::NoEncryption || old(self).zip_items@[i]@.encryption_method
                        == EncryptionMethod::ZipCrypto)
                },
        ensures
            final(self).zip_items@.len() == old(self).zip_items@.len(),
            final(self).zip_file_path@ == old(self).zip_file_path@,
            final(self).file_count == old(self).file_count,
            final(self).file_encryption_method == old(self).file_encryption_method,
            forall|i: int|
                0 <= i < final(self).zip_items@.len() ==> item_identity_preserved(
                    #[trigger] final(self).zip_items@[i]@,
                    old(self).zip_items@[i]@,
                ),
            r is Ok ==> exists|body: Seq<u8>|
                final(archive)@ == old(archive)@ + body + cdfh_concat(
                    items_view(final(self).zip_items@),
                ) + eocd_binary_for(
                    final(self).zip_items@.len() as u16,
                    cdfh_concat(items_view(final(self).zip_items@)).len() as u32,
                    (old(archive)@.len() + body.len()) as u32,
                ) && old(archive)@.len() + body.len() + cdfh_concat(
                    items_view(final(self).zip_items@),
                ).len() <= u32::MAX,
            r is Ok ==> forall|i: int|
                0 <= i < final(self).zip_items@.len()
                    && (#[trigger] final(self).zip_items@[i]@).is_file
                    && final(self).zip_items@[i]@.encryption_method
                    == EncryptionMethod::NoEncryption ==> entry_written_at(
                    final(self).zip_items@[i]@,
                    final(archive)@,
                    sources@[i]@,
                ) && final(self).zip_items@[i]@.compressed_size == encoded_body(
                    final(self).zip_items@[i]@.compression_method,
                    sources@[i]@,
                ).len(),
            create_write_is_owed(
                items_view(old(self).zip_items@),
                sources_view(sources@),
                zip_options.password,
                old(archive)@.len() as int,
            ) ==> r is Ok,
    {
        let n = self.zip_items.len();
        let ghost orig_items = self.zip_items@;
        let ghost archive0 = archive@;
        let mut new_items: Vec<ZipItem> = Vec::new();
        let mut i: usize = 0;
        assert(self.zip_items@ =~= orig_items.subrange(0, orig_items.len() as int));
        proof {
            assert(archive0 + Seq::<u8>::empty() =~= archive@);
            assert(archive@ == archive0 + Seq::<u8>::empty());
        }
        while i < n
            invariant
                0 <= i <= n,
                n == orig_items.len(),
                orig_items == old(self).zip_items@,
                archive0 == old(archive)@,
                self.zip_file_path@ == old(self).zip_file_path@,
                self.file_count == old(self).file_count,
                self.file_encryption_method == old(self).file_encryption_method,
                sources@.len() == n,
                new_items@.len() == i,
                self.zip_items@ == orig_items.subrange(i as int, n as int),
                archive@.len() >= archive0.len(),
                exists|body: Seq<u8>| archive@ == archive0 + body,
                create_write_is_owed(
                    items_view(orig_items),
                    sources_view(sources@),
                    zip_options.password,
                    archive0.len() as int,
                ) ==> archive@.len() == archive0.len() + body_section_len(
                    items_view(orig_items),
                    sources_view(sources@),
                    i as int,
                ),
                forall|j: int|
                    0 <= j < n ==> {
                        &&& (#[trigger] orig_items[j]@).modified_date_time.year >= 1980
                        &&& orig_items[j]@.item_path.len() <= u16::MAX
                        &&& (orig_items[j]@.encryption_method == EncryptionMethod::NoEncryption
                            || orig_items[j]@.encryption_method == EncryptionMethod::ZipCrypto)
                    },
                forall|j: int|
                    0 <= j < i ==> item_identity_preserved(
                        #[trigger] new_items@[j]@,
                        orig_items[j]@,
                    ),
                forall|j: int|
                    0 <= j < i && (#[trigger] new_items@[j]@).is_file
                        && new_items@[j]@.encryption_method == EncryptionMethod::NoEncryption
                        ==> entry_written_at(new_items@[j]@, archive@, sources@[j]@)
                        && new_items@[j]@.compressed_size == encoded_body(
                        new_items@[j]@.compression_method,
                        sources@[j]@,
                    ).len(),
            decreases n - i,
        {
            let mut item = self.zip_items.remove(0);
            proof {
                assert(item == orig_items[i as int]);
                assert(self.zip_items@ =~= orig_items.subrange(i + 1, n as int));
            }
            proof {
                assert(orig_items[i as int]@.modified_date_time.year >= 1980);
                assert(orig_items[i as int]@.item_path.len() <= u16::MAX);
                assert(item@ == orig_items[i as int]@);
                if create_write_is_owed(
                    items_view(orig_items),
                    sources_view(sources@),
                    zip_options.password,
                    archive0.len() as int,
                ) {
                    lemma_body_section_len_monotone(
                        items_view(orig_items),
                        sources_view(sources@),
                        i + 1,
                        n as int,
                    );
                    assert(zip_write_is_owed(
                        item@,
                        archive@.len() as int,
                        sources@[i as int]@,
                        zip_options.password,
                    ));
                }
            }
            let ghost archive_before = archive@;
            match item.zip(archive, &sources[i], zip_options) {
                Ok(()) => {},
                Err(e) => {
                    proof {
                        assert(!create_write_is_owed(
                            items_view(old(self).zip_items@),
                            sources_view(sources@),
                            zip_options.password,
                            old(archive)@.len() as int,
                        ));
                    }
                    new_items.push(item);
                    while self.zip_items.len() > 0
                        invariant
                            n == orig_items.len(),
                            orig_items == old(self).zip_items@,
                            self.zip_file_path@ == old(self).zip_file_path@,
                            self.file_count == old(self).file_count,
                            self.file_encryption_method == old(self).file_encryption_method,
                            new_items@.len() + self.zip_items@.len() == n,
                            self.zip_items@ == orig_items.subrange(
                                n - self.zip_items@.len(),
                                n as int,
                            ),
                            forall|j: int|
                                0 <= j < new_items@.len() ==> item_identity_preserved(
                                    #[trigger] new_items@[j]@,
                                    orig_items[j]@,
                                ),
                        decreases self.zip_items@.len(),
                    {
                        let ghost remaining = self.zip_items@.len();
                        let moved = self.zip_items.remove(0);
                        proof {
                            assert(moved == orig_items[n - remaining]);
                            assert(self.zip_items@ =~= orig_items.subrange(
                                n - (remaining - 1),
                                n as int,
                            ));
                        }
                        new_items.push(moved);
                    }
                    self.zip_items = new_items;
                    return Err(e);
                },
            }
            proof {
                let body0 = choose|b: Seq<u8>| archive_before == archive0 + b;
                assert(archive@ == archive0 + (body0 + archive@.subrange(
                    archive_before.len() as int,
                    archive@.len() as int,
                ))) by {
                    assert(archive@.subrange(0, archive_before.len() as int)
                        == archive_before) by {
                        assert(archive@.subrange(0, archive_before.len() as int)
                            =~= archive_before);
                    }
                    assert(archive0 + (body0 + archive@.subrange(
                        archive_before.len() as int,
                        archive@.len() as int,
                    )) =~= archive@);
                }
                assert forall|j: int|
                    0 <= j < i && (#[trigger] new_items@[j]@).is_file
                        && new_items@[j]@.encryption_method
                        == EncryptionMethod::NoEncryption implies entry_written_at(
                    new_items@[j]@,
                    archive@,
                    sources@[j]@,
                ) by {
                    let it = new_items@[j]@;
                    let seg = crate::local_file_header::lfh_item_binary(it) + encoded_body(
                        it.compression_method,
                        sources@[j]@,
                    );
                    crate::bytes::lemma_prefix_subrange(
                        archive_before,
                        archive@,
                        it.start_offset as int,
                        it.start_offset + seg.len(),
                    );
                }
                if item@.is_file && item@.encryption_method == EncryptionMethod::NoEncryption {
                    assert(archive@.subrange(
                        item@.start_offset as int,
                        item@.start_offset + (crate::local_file_header::lfh_item_binary(item@)
                            + encoded_body(item@.compression_method, sources@[i as int]@)).len(),
                    ) =~= crate::local_file_header::lfh_item_binary(item@) + encoded_body(
                        item@.compression_method,
                        sources@[i as int]@,
                    ));
                    assert(entry_written_at(item@, archive@, sources@[i as int]@));
                }
                assert(crate::zip_item::entry_write_len(item@, sources@[i as int]@)
                    == crate::zip_item::entry_write_len(
                    items_view(orig_items)[i as int],
                    sources_view(sources@)[i as int],
                ));
            }
            new_items.push(item);
            i = i + 1;
        }
        self.zip_items = new_items;
        let ghost pre_cd = archive@;
        let ghost owed = create_write_is_owed(
            items_view(old(self).zip_items@),
            sources_view(sources@),
            zip_options.password,
            old(archive)@.len() as int,
        );
        proof {
            if owed {
                assert(forall|j: int|
                    0 <= j < items_view(self.zip_items@).len() ==> (#[trigger] items_view(
                        self.zip_items@,
                    )[j]).item_path == items_view(old(self).zip_items@)[j].item_path);
                lemma_cdfh_concat_len_same_paths(
                    items_view(self.zip_items@),
                    items_view(old(self).zip_items@),
                );
            }
        }
        let cd_start = archive.len();
        if cd_start > 0xFFFFFFFFusize {
            proof {
                assert(!owed);
            }
            return Err(ZipCreatorError::EntryTooLarge);
        }
        match write_central_directory(archive, &self.zip_items) {
            Ok(()) => {},
            Err(e) => {
                proof {
                    assert(!owed);
                }
                return Err(e);
            },
        }
        let cd_size = archive.len() - cd_start;
        let item_count = n as u16;
        let eocd = EndOfCentralDirectory::from_zip_creator(
            item_count,
            cd_size as u32,
            cd_start as u32,
        );
        let eocd_bytes = eocd.to_binary();
        proof {
            assert(eocd_bytes@ =~= eocd_binary_for(item_count, cd_size as u32, cd_start as u32));
        }
        crate::bytes::push_bytes(archive, &eocd_bytes);
        proof {
            assert(archive@.subrange(0, pre_cd.len() as int) =~= pre_cd);
            assert forall|j: int|
                0 <= j < self.zip_items@.len() && (#[trigger] self.zip_items@[j]@).is_file
                    && self.zip_items@[j]@.encryption_method == EncryptionMethod::NoEncryption
                    implies entry_written_at(self.zip_items@[j]@, archive@, sources@[j]@) by {
                let it = self.zip_items@[j]@;
                let seg = crate::local_file_header::lfh_item_binary(it) + encoded_body(
                    it.compression_method,
                    sources@[j]@,
                );
                crate::bytes::lemma_prefix_subrange(
                    pre_cd,
                    archive@,
                    it.start_offset as int,
                    it.start_offset + seg.len(),
                );
            }
            let body = choose|b: Seq<u8>| pre_cd == archive0 + b;
            assert(archive@ == archive0 + body + cdfh_concat(items_view(self.zip_items@))
                + eocd_binary_for(
                item_count,
                cdfh_concat(items_view(self.zip_items@)).len() as u32,
                (archive0.len() + body.len()) as u32,
            ) && archive0.len() + body.len() + cdfh_concat(
                items_view(self.zip_items@),
            ).len() <= u32::MAX) by {
                assert(cd_size == cdfh_concat(items_view(self.zip_items@)).len());
                assert(cd_start == archive0.len() + body.len());
                assert(archive@ =~= archive0 + body + cdfh_concat(items_view(self.zip_items@))
                    + eocd_binary_for(
                    item_count,
                    cdfh_concat(items_view(self.zip_items@)).len() as u32,
                    (archive0.len() + body.len()) as u32,
                ));
            }
        }
        Ok(())
    }
}

} // verus!
