use crypto::hmac::Hmac;
use crypto::mac::Mac;
use crypto::pbkdf2::pbkdf2;
use crypto::sha1::Sha1;

use ruzito::winzip_aes::{WinZipAesError, WinZipAesReader};

const AES_EXTRA_FIELD: [u8; 11] = [0x01, 0x99, 0x07, 0x00, 0x02, 0x00, 0x41, 0x45, 0x03, 0x08, 0x00];

#[test]
fn winzip_aes_test() {
    let zip_item_extra_field = AES_EXTRA_FIELD.to_vec();
    let data = vec![
        0x74, 0x68, 0x4C, 0x2D, 0x34, 0x98, 0xB2, 0x43, 0xC2, 0xD5, 0xFF, 0x26, 0x6F, 0x01, 0x60,
        0x41, 0x8A, 0x34, 0x00, 0x32, 0x3A, 0x0D, 0xAB, 0xF5, 0xF6, 0x58, 0xA6, 0xA0, 0xCB, 0x08,
        0x90, 0x62, 0xAA, 0xBB, 0x10, 0x6D, 0xF6, 0x62,
    ];
    let mut winzip_aes_reader =
        WinZipAesReader::new(&b"123456".to_vec(), &zip_item_extra_field, data).unwrap();

    let buf = winzip_aes_reader.read(16);
    let buf2 = winzip_aes_reader.read(4);

    println!("{:x?}", buf);
    println!("Count: {}", buf.len());
    println!("{:x?}", buf2);
    println!("Count: {}", buf2.len());
}

/// Builds a WinZip-AES-256 stream for `plaintext` under `password`:
/// salt, verification value, AES-CTR ciphertext, ten-byte tag.
fn build_aes_stream(password: &[u8], salt: &[u8; 16], plaintext: &[u8]) -> Vec<u8> {
    let mut key = [0u8; 66];
    pbkdf2(&mut Hmac::new(Sha1::new(), password), salt, 1000, &mut key);

    // The scheme's counter is little-endian in the first four bytes and
    // starts at one, so each block gets a fresh cipher with its own counter.
    let mut cipher = vec![0u8; plaintext.len()];
    for (block_index, chunk) in plaintext.chunks(16).enumerate() {
        let counter = (block_index as u32) + 1;
        let mut iv = [0u8; 16];
        iv[0] = (counter & 0xff) as u8;
        iv[1] = ((counter >> 8) & 0xff) as u8;
        iv[2] = ((counter >> 16) & 0xff) as u8;
        iv[3] = ((counter >> 24) & 0xff) as u8;
        let mut aes = crypto::aes::ctr(crypto::aes::KeySize::KeySize256, &key[..32], &iv);
        let start = block_index * 16;
        aes.process(chunk, &mut cipher[start..start + chunk.len()]);
    }

    let mut hmac = Hmac::new(Sha1::new(), &key[32..64]);
    hmac.input(&cipher);
    let mut tag = [0u8; 20];
    hmac.raw_result(&mut tag);

    let mut data = salt.to_vec();
    data.extend_from_slice(&key[64..66]);
    data.extend_from_slice(&cipher);
    data.extend_from_slice(&tag[..10]);
    data
}

#[test]
fn chunk_boundaries_do_not_change_the_plaintext() {
    let password = b"123456";
    let salt = [
        0x74, 0x68, 0x4C, 0x2D, 0x34, 0x98, 0xB2, 0x43, 0xC2, 0xD5, 0xFF, 0x26, 0x6F, 0x01, 0x60,
        0x41,
    ];
    let plaintext: Vec<u8> = (0u32..1000).map(|i| (i * 13 % 251) as u8).collect();
    let data = build_aes_stream(password, &salt, &plaintext);
    let extra = AES_EXTRA_FIELD.to_vec();

    for chunk_size in [1usize, 15, 16, 17, 1000] {
        let mut reader =
            WinZipAesReader::new(&password.to_vec(), &extra, data.clone()).unwrap();
        let mut recovered: Vec<u8> = Vec::new();
        loop {
            let part = reader.read(chunk_size);
            if part.is_empty() {
                break;
            }
            recovered.extend_from_slice(&part);
        }
        assert_eq!(recovered, plaintext, "chunk size {}", chunk_size);
        assert!(reader.verify_authentication());
    }
}

#[test]
fn wrong_password_fails_the_verification_value() {
    let salt = [7u8; 16];
    let data = build_aes_stream(b"right", &salt, b"some payload");
    let extra = AES_EXTRA_FIELD.to_vec();

    let result = WinZipAesReader::new(&b"wrong".to_vec(), &extra, data);
    assert!(matches!(result.err().unwrap(), WinZipAesError::InvalidPassword(_)));
}

#[test]
fn short_extra_field_is_refused() {
    let result = WinZipAesReader::new(&b"pw".to_vec(), &vec![1, 2, 3], vec![0; 64]);
    assert!(matches!(result.err().unwrap(), WinZipAesError::ExtraFieldSizeError(3)));
}

#[test]
fn unknown_strength_byte_is_refused() {
    let mut extra = AES_EXTRA_FIELD.to_vec();
    extra[8] = 9;
    let result = WinZipAesReader::new(&b"pw".to_vec(), &extra, vec![0; 64]);
    assert!(matches!(result.err().unwrap(), WinZipAesError::UnknownEncryptionStrength(9)));
}

#[test]
fn stream_too_short_for_salt_and_trailer_is_refused() {
    let extra = AES_EXTRA_FIELD.to_vec();
    let result = WinZipAesReader::new(&b"pw".to_vec(), &extra, vec![0; 10]);
    assert!(matches!(result.err().unwrap(), WinZipAesError::TruncatedStream));
}

#[test]
fn corrupted_ciphertext_fails_authentication() {
    let password = b"123456";
    let salt = [3u8; 16];
    let plaintext: Vec<u8> = (0u32..64).map(|i| i as u8).collect();
    let mut data = build_aes_stream(password, &salt, &plaintext);
    data[20] ^= 0xFF;
    let extra = AES_EXTRA_FIELD.to_vec();

    let mut reader = WinZipAesReader::new(&password.to_vec(), &extra, data).unwrap();
    let _ = reader.read_to_end();
    assert!(!reader.verify_authentication());
}
