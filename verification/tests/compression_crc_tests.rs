use crc::crc32::Hasher32;

use ruzito::compression::{CompressionDecoder, CompressionEncoder, CompressionError};
use ruzito::crc32::calculate_checksum;
use ruzito::mem_map::CompressionMethod;

#[test]
fn stored_round_trip_is_the_identity() {
    let payload: Vec<u8> = (0u32..500).map(|i| (i % 256) as u8).collect();
    let encoded = CompressionEncoder::encode(&CompressionMethod::NoCompression, &payload).unwrap();
    assert_eq!(encoded, payload);
    let decoded = CompressionDecoder::decode(&CompressionMethod::NoCompression, &encoded).unwrap();
    assert_eq!(decoded, payload);
}

#[test]
fn deflate_round_trip_recovers_the_payload() {
    let payload: Vec<u8> = b"the same words over and over and over and over again"
        .iter()
        .cycle()
        .take(4096)
        .cloned()
        .collect();
    let encoded = CompressionEncoder::encode(&CompressionMethod::Deflate, &payload).unwrap();
    assert!(encoded.len() < payload.len());
    assert_ne!(encoded, payload);
    let decoded = CompressionDecoder::decode(&CompressionMethod::Deflate, &encoded).unwrap();
    assert_eq!(decoded, payload);
}

#[test]
fn deflate_round_trip_of_the_empty_payload() {
    let payload: Vec<u8> = Vec::new();
    let encoded = CompressionEncoder::encode(&CompressionMethod::Deflate, &payload).unwrap();
    let decoded = CompressionDecoder::decode(&CompressionMethod::Deflate, &encoded).unwrap();
    assert_eq!(decoded, payload);
}

#[test]
fn unsupported_methods_are_refused() {
    let payload = vec![1, 2, 3];
    let encode_err = CompressionEncoder::encode(&CompressionMethod::BZIP2, &payload).err().unwrap();
    assert!(matches!(encode_err, CompressionError::UnsupportedCompressionMethod));
    let decode_err = CompressionDecoder::decode(&CompressionMethod::LZMA, &payload).err().unwrap();
    assert!(matches!(decode_err, CompressionError::UnsupportedCompressionMethod));
}

#[test]
fn corrupt_deflate_stream_is_an_error() {
    // BTYPE 0b11 is reserved, so this is not a well-formed stream.
    let garbage = vec![0x06, 0x00, 0x00];
    let result = CompressionDecoder::decode(&CompressionMethod::Deflate, &garbage);
    assert!(matches!(result.err().unwrap(), CompressionError::CorruptDeflateStream));
}

#[test]
fn checksum_of_the_empty_stream_is_zero() {
    assert_eq!(calculate_checksum(&Vec::new()), 0);
}

#[test]
fn checksum_matches_the_known_check_value() {
    assert_eq!(calculate_checksum(&b"123456789".to_vec()), 0xCBF43926);
}

#[test]
fn checksum_is_stable_across_chunk_sizes() {
    let data: Vec<u8> = (0u32..100_000).map(|i| (i * 17 % 256) as u8).collect();
    let whole = calculate_checksum(&data);

    for chunk_size in [1usize, 7, 4096, 100_000] {
        let mut digest = crc::crc32::Digest::new(crc::crc32::IEEE);
        for chunk in data.chunks(chunk_size) {
            digest.write(chunk);
        }
        assert_eq!(digest.sum32(), whole, "chunk size {}", chunk_size);
    }
}
