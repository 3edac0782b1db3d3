use ruzito::zip_crypto::{ZipCrypto, ZipCryptoReader, ZipCryptoWriter};

#[test]
fn zip_crypto_should_yield_error_if_password_is_wrong() {
    let cipher = vec![
        0xD0, 0x66, 0x78, 0x57, 0xA6, 0xC0, 0x45, 0x75, 0x7B, 0x0F, 0x77, 0x8F, 0x36, 0x53, 0x9b,
        0x6f, 0xAC,
    ];
    let zip_crypto_encryption_reader =
        ZipCryptoReader::new(&b"1234567".to_vec(), 0x2952CCF, cipher);

    assert!(zip_crypto_encryption_reader.is_err());
}

#[test]
fn zip_crypto_should_yield_zip_crypto_reader_if_password_is_correct() {
    let cipher = vec![
        0xD0, 0x66, 0x78, 0x57, 0xA6, 0xC0, 0x45, 0x75, 0x7B, 0x0F, 0x77, 0x8F, 0x36, 0x53, 0x9b,
        0x6f, 0xAC,
    ];
    let mut zip_crypto_encryption_reader =
        ZipCryptoReader::new(&b"123456".to_vec(), 0x2952CCF, cipher).unwrap();

    let buf = zip_crypto_encryption_reader.read(4);

    assert_eq!(buf, vec![0xB5, 0x5B, 0x4B, 0x72]);
}

#[test]
fn encrypting_then_decrypting_recovers_the_payload() {
    let password = b"hunter2".to_vec();
    let payload: Vec<u8> = (0u32..300).map(|i| (i * 7 % 251) as u8).collect();
    let file_crc = ruzito::crc32::calculate_checksum(&payload);

    let mut cipher: Vec<u8> = Vec::new();
    let mut writer = ZipCryptoWriter::new(&mut cipher, &password, file_crc);
    writer.write(&mut cipher, &payload);

    assert_eq!(cipher.len(), payload.len() + 12);
    assert_ne!(&cipher[12..], payload.as_slice());

    let mut reader = ZipCryptoReader::new(&password, file_crc, cipher).unwrap();
    let plain = reader.read_to_end();
    assert_eq!(plain, payload);
}

#[test]
fn chunked_reads_decrypt_the_same_bytes() {
    let password = b"123456".to_vec();
    let payload: Vec<u8> = (0u32..100).map(|i| (i * 31 % 256) as u8).collect();
    let file_crc = ruzito::crc32::calculate_checksum(&payload);

    let mut cipher: Vec<u8> = Vec::new();
    let mut writer = ZipCryptoWriter::new(&mut cipher, &password, file_crc);
    writer.write(&mut cipher, &payload);

    let mut whole_reader = ZipCryptoReader::new(&password, file_crc, cipher.clone()).unwrap();
    let whole = whole_reader.read_to_end();

    let mut chunked_reader = ZipCryptoReader::new(&password, file_crc, cipher).unwrap();
    let mut chunked: Vec<u8> = Vec::new();
    loop {
        let part = chunked_reader.read(7);
        if part.is_empty() {
            break;
        }
        chunked.extend_from_slice(&part);
    }

    assert_eq!(whole, payload);
    assert_eq!(chunked, payload);
}

#[test]
fn stream_byte_depends_on_key_state() {
    let mut state = ZipCrypto::new();
    let fresh = state.stream_byte();
    state.update_keys(0x41);
    let stirred = state.stream_byte();
    // The fixed initial keys give a fixed first stream byte; folding a byte
    // into the state moves the stream on.
    assert_ne!(fresh, stirred);

    let mut encryptor = ZipCrypto::new();
    let mut decryptor = ZipCrypto::new();
    let cipher_byte = encryptor.encrypt_byte(0x41);
    let plain_byte = decryptor.decrypt_byte(cipher_byte);
    assert_eq!(plain_byte, 0x41);
}
