//! Building a whole archive image from an already-walked entry list: the
//! aggregate is assembled, every entry and the directory are written, and
//! the finished image is handed back with its aggregate.

use vstd::prelude::*;

use crate::bytes::u16_le;
use crate::central_dir_file_header::cdfh_concat;
use crate::crc32::crc32_of;
use crate::eof_central_dir::eocd_binary_for;
use crate::errors::ZipCreatorError;
use crate::local_file_header::lemma_lfh_item_binary_len;
use crate::mem_map::{CompressionMethod, EncryptionMethod};
use crate::options::ZipOptions;
use crate::zip_file::{
    create_write_is_owed, entry_extracts_clean, item_identity_preserved, items_view,
    lemma_created_plain_entry_extracts, sources_view, ZipFile,
};
use crate::zip_item::{encoded_body, entry_written_at, ZipItem};
use crate::zip_metadata::{
    created_archive_image, eocd_window, lemma_created_archive_parses, metadata_parses,
};

verus! {

pub struct ZipCreator {
    pub base_path: Vec<u8>,
}

impl ZipCreator {
    pub fn new(base_path: Vec<u8>) -> (r: Self)
        ensures
            r.base_path@ == base_path@,
    {
        Self { base_path }
    }

    /// Writes the given entries into a fresh archive image and returns the
    /// aggregate together with the image: entry bodies first, then the
    /// directory records, then the trailer that counts and locates them.
    #[verifier::rlimit(100)]
    pub fn create(
        &self,
        zip_items: Vec<ZipItem>,
        sources: &Vec<Vec<u8>>,
        zip_options: &ZipOptions,
    ) -> (r: Result<(ZipFile, Vec<u8>), ZipCreatorError>)
        requires
            sources@.len() == zip_items@.len(),
            zip_items@.len() <= u16::MAX,
            forall|i: int|
                0 <= i < zip_items@.len() ==> {
                    &&& (#[trigger] zip_items@[i]@).modified_date_time.year >= 1980
                    &&& zip_items@[i]@.item_path.len() <= u16::MAX
                    &&& (zip_items@[i]@.encryption_method == EncryptionMethod::NoEncryption
                        || zip_items@[i]@.encryption_method == EncryptionMethod::ZipCrypto)
                },
        ensures
            match r {
                Ok((zip_file, archive)) => {
                    &&& zip_file.zip_items@.len() == zip_items@.len()
                    &&& zip_file.file_count == zip_items@.len()
                    &&& zip_file.zip_file_path@ == zip_options.dest_path@
                    &&& zip_file.file_encryption_method == (if zip_options.encrypt_file {
                        EncryptionMethod::ZipCrypto
                    } else {
                        EncryptionMethod::NoEncryption
                    })
                    &&& forall|i: int|
                        0 <= i < zip_items@.len() ==> item_identity_preserved(
                            #[trigger] zip_file.zip_items@[i]@,
                            zip_items@[i]@,
                        )
                    &&& exists|body: Seq<u8>|
                        archive@ == created_archive_image(body, items_view(zip_file.zip_items@))
                    &&& metadata_parses(archive@)
                    &&& u16_le(eocd_window(archive@), 10) == zip_items@.len()
                    &&& forall|i: int, password: Option<Vec<u8>>|
                        #![trigger entry_extracts_clean(zip_file.zip_items@[i]@, archive@, password)]
                        (0 <= i < zip_items@.len() && zip_items@[i]@.is_file
                            && zip_items@[i]@.encryption_method == EncryptionMethod::NoEncryption
                            && (zip_items@[i]@.compression_method
                            == CompressionMethod::NoCompression || zip_items@[i]@.compression_method
                            == CompressionMethod::Deflate)
                            && (zip_items@[i]@.compression_method
                            == CompressionMethod::NoCompression ==> zip_items@[i]@.uncompressed_size
                            == sources@[i]@.len())
                            && (zip_items@[i]@.compression_method == CompressionMethod::Deflate
                            ==> crate::compression::inflate_of(
                            crate::compression::deflate_of(sources@[i]@),
                        ) == Some(sources@[i]@))
                            && zip_items@[i]@.crc32 == crc32_of(
                            sources@[i]@,
                        )) ==> entry_extracts_clean(zip_file.zip_items@[i]@, archive@, password)
                },
                Err(_) => true,
            },
            create_write_is_owed(
                items_view(zip_items@),
                sources_view(sources@),
                zip_options.password,
                0,
            ) ==> r is Ok,
    {
        let item_count = zip_items.len() as u16;
        let file_encryption_method = if zip_options.encrypt_file() {
            EncryptionMethod::ZipCrypto
        } else {
            EncryptionMethod::NoEncryption
        };
        let dest_path = vstd::slice::slice_to_vec(zip_options.dest_path().as_slice());
        let mut zip_file = ZipFile::create(
            item_count,
            zip_items,
            dest_path,
            file_encryption_method,
        );
        let mut archive: Vec<u8> = Vec::new();
        match zip_file.create_zip_file(&mut archive, sources, zip_options) {
            Ok(()) => {},
            Err(e) => {
                return Err(e);
            },
        }
        proof {
            let views = items_view(zip_file.zip_items@);
            let b0 = choose|b: Seq<u8>|
                archive@ == Seq::<u8>::empty() + b + cdfh_concat(views) + eocd_binary_for(
                    zip_file.zip_items@.len() as u16,
                    cdfh_concat(views).len() as u32,
                    (Seq::<u8>::empty().len() + b.len()) as u32,
                ) && Seq::<u8>::empty().len() + b.len() + cdfh_concat(views).len() <= u32::MAX;
            assert(Seq::<u8>::empty() + b0 =~= b0);
            assert(archive@ == created_archive_image(b0, views));
            assert(forall|j: int|
                0 <= j < views.len() ==> (#[trigger] views[j]).item_path.len() <= u16::MAX);
            lemma_created_archive_parses(b0, views);
            assert(exists|body: Seq<u8>| archive@ == created_archive_image(body, views));
            assert forall|i: int, password: Option<Vec<u8>>|
                (0 <= i < zip_items@.len() && zip_items@[i]@.is_file
                    && zip_items@[i]@.encryption_method == EncryptionMethod::NoEncryption
                    && (zip_items@[i]@.compression_method == CompressionMethod::NoCompression
                    || zip_items@[i]@.compression_method == CompressionMethod::Deflate)
                    && (zip_items@[i]@.compression_method == CompressionMethod::NoCompression
                    ==> zip_items@[i]@.uncompressed_size == sources@[i]@.len())
                    && (zip_items@[i]@.compression_method == CompressionMethod::Deflate
                    ==> crate::compression::inflate_of(
                    crate::compression::deflate_of(sources@[i]@),
                ) == Some(sources@[i]@))
                    && zip_items@[i]@.crc32 == crc32_of(sources@[i]@)) implies #[trigger] entry_extracts_clean(
                zip_file.zip_items@[i]@,
                archive@,
                password,
            ) by {
                let it = zip_file.zip_items@[i]@;
                let source = sources@[i]@;
                assert(item_identity_preserved(it, zip_items@[i]@));
                assert(it.is_file && it.encryption_method == EncryptionMethod::NoEncryption);
                assert(entry_written_at(it, archive@, source));
                assert(it.compressed_size == encoded_body(it.compression_method, source).len());
                lemma_lfh_item_binary_len(it);
                lemma_created_plain_entry_extracts(archive@, it, source, password);
            }
        }
        proof {
            assert(zip_file.file_encryption_method == (if zip_options.encrypt_file {
                EncryptionMethod::ZipCrypto
            } else {
                EncryptionMethod::NoEncryption
            }));
            assert(zip_file.zip_items@.len() == zip_items@.len());
            assert(zip_file.file_count == zip_items@.len());
            assert(zip_file.zip_file_path@ == zip_options.dest_path@);
            assert(forall|i: int|
                0 <= i < zip_items@.len() ==> item_identity_preserved(
                    #[trigger] zip_file.zip_items@[i]@,
                    zip_items@[i]@,
                ));
        }
        Ok((zip_file, archive))
    }
}

} // verus!
