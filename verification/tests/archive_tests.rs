use ruzito::crc32::calculate_checksum;
use ruzito::date_time::ZipDateTime;
use ruzito::errors::{ExtractError, HeaderParseError};
use ruzito::zip_crypto::ZipCryptoError;
use ruzito::mem_map::{CompressionMethod, EncryptionMethod};
use ruzito::options::{ExtractOptions, ZipOptions};
use ruzito::zip_creator::ZipCreator;
use ruzito::zip_file::ZipFile;
use ruzito::zip_item::ExtractedItem;
use ruzito::zip_item_creator::ZipItemCreator;

fn sample_date_time() -> ZipDateTime {
    ZipDateTime::new(15, 6, 2021, 10, 30, 20)
}

fn plain_zip_options(dest: &[u8]) -> ZipOptions {
    ZipOptions::new(b"base".to_vec(), dest.to_vec(), false, None, false)
}

#[test]
fn archive_round_trip_with_empty_subdirectory_and_text_file() {
    let creator = ZipItemCreator::new(b"base".to_vec());
    let dt = sample_date_time();

    let text: Vec<u8> = b"All work and no play makes for dull archives.\n"
        .iter()
        .cycle()
        .take(51_200)
        .cloned()
        .collect();
    let crc = calculate_checksum(&text);

    let dir_item = creator.item_for_directory(&b"docs".to_vec(), dt);
    let file_item = creator
        .item_for_file(&b"notes.txt".to_vec(), text.len() as u64, dt, EncryptionMethod::NoEncryption, crc)
        .unwrap();
    assert_eq!(file_item.compression_method(), CompressionMethod::Deflate);

    let options = plain_zip_options(b"out.zip");
    let zip_creator = ZipCreator::new(b"base".to_vec());
    let (_zip_file, archive) = zip_creator
        .create(vec![dir_item, file_item], &vec![Vec::new(), text.clone()], &options)
        .unwrap();

    let parsed = ZipFile::new(b"out.zip".to_vec(), &archive).unwrap();
    assert_eq!(parsed.file_count(), 2);

    let extract_options = ExtractOptions::new(false, b"dest".to_vec(), None, b"out.zip".to_vec());
    let extracted = parsed.extract_all(&archive, &extract_options).unwrap();
    assert_eq!(extracted.len(), 2);

    match &extracted[0] {
        ExtractedItem::Directory { path } => assert_eq!(path, &b"dest/docs/".to_vec()),
        ExtractedItem::File { .. } => panic!("expected a directory"),
    }
    match &extracted[1] {
        ExtractedItem::File { path, data } => {
            assert_eq!(path, &b"dest/notes.txt".to_vec());
            assert_eq!(data, &text);
            assert_eq!(calculate_checksum(data), crc);
        },
        ExtractedItem::Directory { .. } => panic!("expected a file"),
    }
}

fn encrypted_fixture() -> (Vec<u8>, Vec<u8>) {
    let creator = ZipItemCreator::new(b"base".to_vec());
    let dt = sample_date_time();
    let secret: Vec<u8> = b"the cake is a lie\n".iter().cycle().take(600).cloned().collect();
    let crc = calculate_checksum(&secret);
    let item = creator
        .item_for_file(&b"secret.txt".to_vec(), secret.len() as u64, dt, EncryptionMethod::ZipCrypto, crc)
        .unwrap();

    let options = ZipOptions::new(
        b"base".to_vec(),
        b"locked.zip".to_vec(),
        true,
        Some(b"hunter2".to_vec()),
        false,
    );
    let zip_creator = ZipCreator::new(b"base".to_vec());
    let (_zip_file, archive) =
        zip_creator.create(vec![item], &vec![secret.clone()], &options).unwrap();
    (archive, secret)
}

#[test]
fn wrong_password_fails_before_any_output_is_written() {
    let (archive, _secret) = encrypted_fixture();

    let parsed = ZipFile::new(b"locked.zip".to_vec(), &archive).unwrap();
    assert_eq!(*parsed.file_encryption_method(), EncryptionMethod::ZipCrypto);

    let wrong = ExtractOptions::new(
        false,
        b"dest".to_vec(),
        Some(b"wrong".to_vec()),
        b"locked.zip".to_vec(),
    );
    let (failed_path, error) = parsed.extract_all(&archive, &wrong).err().unwrap();
    assert_eq!(failed_path, b"secret.txt".to_vec());
    assert!(matches!(
        error,
        ExtractError::ZipCryptoError(ZipCryptoError::InvalidPassword(_))
    ));
}

#[test]
fn right_password_recovers_the_secret() {
    let (archive, secret) = encrypted_fixture();

    let parsed = ZipFile::new(b"locked.zip".to_vec(), &archive).unwrap();
    let right = ExtractOptions::new(
        false,
        b"dest".to_vec(),
        Some(b"hunter2".to_vec()),
        b"locked.zip".to_vec(),
    );
    let extracted = parsed.extract_all(&archive, &right).unwrap();
    match &extracted[0] {
        ExtractedItem::File { data, .. } => assert_eq!(data, &secret),
        ExtractedItem::Directory { .. } => panic!("expected a file"),
    }
}

#[test]
fn missing_password_is_a_hard_failure() {
    let (archive, _secret) = encrypted_fixture();
    let parsed = ZipFile::new(b"locked.zip".to_vec(), &archive).unwrap();
    let none = ExtractOptions::new(false, b"dest".to_vec(), None, b"locked.zip".to_vec());
    let (_, error) = parsed.extract_all(&archive, &none).err().unwrap();
    assert!(matches!(
        error,
        ExtractError::ZipCryptoError(ZipCryptoError::InvalidPassword(_))
    ));
}

#[test]
fn listing_a_nine_entry_archive() {
    let creator = ZipItemCreator::new(b"base".to_vec());
    let dt = sample_date_time();
    let mut items = Vec::new();
    let mut sources = Vec::new();
    for index in 0..9u8 {
        let name = vec![b'f', b'i', b'l', b'e', b'0' + index];
        let data: Vec<u8> = (0u32..200).map(|i| (i as u8).wrapping_mul(index + 1)).collect();
        let crc = calculate_checksum(&data);
        let item = creator
            .item_for_file(&name, data.len() as u64, dt, EncryptionMethod::NoEncryption, crc)
            .unwrap();
        items.push(item);
        sources.push(data);
    }

    let options = plain_zip_options(b"nine.zip");
    let zip_creator = ZipCreator::new(b"base".to_vec());
    let (_zip_file, archive) = zip_creator.create(items, &sources, &options).unwrap();

    let parsed = ZipFile::new(b"nine.zip".to_vec(), &archive).unwrap();
    assert_eq!(parsed.file_count(), 9);

    let mut iterator = parsed.iter();
    let mut summaries: Vec<(Vec<u8>, u32, u32, bool)> = Vec::new();
    let mut compressed_sum: u64 = 0;
    loop {
        let item = match iterator.next() {
            Some(item) => item,
            None => break,
        };
        compressed_sum += item.compressed_size() as u64;
        summaries.push((
            item.item_path().clone(),
            item.compressed_size(),
            item.uncompressed_size(),
            item.encryption_method() != EncryptionMethod::NoEncryption,
        ));
    }
    assert_eq!(summaries.len(), 9);
    assert!(compressed_sum <= archive.len() as u64);
    assert_eq!(summaries[0].0, b"file0".to_vec());
    assert_eq!(summaries[8].0, b"file8".to_vec());
}

fn stored_single_file_fixture() -> (Vec<u8>, Vec<u8>, u32) {
    let creator = ZipItemCreator::new(b"base".to_vec());
    let dt = sample_date_time();
    let data: Vec<u8> = b"short and stored".to_vec();
    let crc = calculate_checksum(&data);
    let item = creator
        .item_for_file(&b"plain.txt".to_vec(), data.len() as u64, dt, EncryptionMethod::NoEncryption, crc)
        .unwrap();
    assert_eq!(item.compression_method(), CompressionMethod::NoCompression);
    let options = plain_zip_options(b"one.zip");
    let zip_creator = ZipCreator::new(b"base".to_vec());
    let (_zip_file, archive) = zip_creator.create(vec![item], &vec![data.clone()], &options).unwrap();
    let offset = {
        let parsed = ZipFile::new(b"one.zip".to_vec(), &archive).unwrap();
        let mut it = parsed.iter();
        it.next().unwrap().start_offset()
    };
    (archive, data, offset)
}

#[test]
fn checksum_disagreement_is_a_hard_failure() {
    let (mut archive, _data, offset) = stored_single_file_fixture();
    // Corrupt the first content byte: header (30) + name ("plain.txt", 9).
    let content_start = offset as usize + 30 + 9;
    archive[content_start] ^= 0xFF;

    let parsed = ZipFile::new(b"one.zip".to_vec(), &archive).unwrap();
    let options = ExtractOptions::new(false, b"dest".to_vec(), None, b"one.zip".to_vec());
    let (path, error) = parsed.extract_all(&archive, &options).err().unwrap();
    assert_eq!(path, b"plain.txt".to_vec());
    assert!(matches!(error, ExtractError::ChecksumMismatch));
}

#[test]
fn data_descriptor_entries_are_refused_at_extraction() {
    let (mut archive, _data, offset) = stored_single_file_fixture();
    // Set flag bit 3 in the entry's own header.
    archive[offset as usize + 6] |= 0x08;

    let parsed = ZipFile::new(b"one.zip".to_vec(), &archive).unwrap();
    let options = ExtractOptions::new(false, b"dest".to_vec(), None, b"one.zip".to_vec());
    let (_, error) = parsed.extract_all(&archive, &options).err().unwrap();
    assert!(matches!(
        error,
        ExtractError::MalformedEntry(HeaderParseError::DataDescriptorUnsupported)
    ));
}

#[test]
fn strong_encryption_is_refused_at_extraction() {
    let (mut archive, _data, offset) = stored_single_file_fixture();
    // Set flag bits 0 and 6 in the entry's own header.
    archive[offset as usize + 6] |= 0x41;

    let parsed = ZipFile::new(b"one.zip".to_vec(), &archive).unwrap();
    let options = ExtractOptions::new(false, b"dest".to_vec(), None, b"one.zip".to_vec());
    let (_, error) = parsed.extract_all(&archive, &options).err().unwrap();
    assert!(matches!(error, ExtractError::UnsupportedEncryption));
}

#[test]
fn a_malformed_image_is_refused_whole() {
    let result = ZipFile::new(b"junk.zip".to_vec(), &vec![1, 2, 3]);
    assert!(result.is_err());
    let result = ZipFile::new(b"junk.zip".to_vec(), &vec![0u8; 64]);
    assert!(result.is_err());
}

#[test]
fn backslashes_are_normalized_in_created_entries() {
    let creator = ZipItemCreator::new(b"base".to_vec());
    let item = creator
        .item_for_file(&b"a\\b\\c.txt".to_vec(), 3, sample_date_time(), EncryptionMethod::NoEncryption, 0)
        .unwrap();
    assert_eq!(item.item_path(), &b"a/b/c.txt".to_vec());
}
