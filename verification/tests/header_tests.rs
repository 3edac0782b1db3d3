use ruzito::central_dir_file_header::CentralDirectoryFileHeader;
use ruzito::date_time::ZipDateTime;
use ruzito::eof_central_dir::EndOfCentralDirectory;
use ruzito::errors::HeaderParseError;
use ruzito::local_file_header::LocalFileHeader;
use ruzito::mem_map::{CompressionMethod, EncryptionMethod, ZipVersion, END_OF_CENTRAL_DIR_SIGNATURE};

#[test]
#[should_panic]
fn local_file_header_signature_valid() {
    let bytes = vec![
        0x50, 0x4B, 0x00, 0x00, 0x14, 0x00, 0x00, 0x00, 0x08, 0x00, 0x34, 0xBE, 0x7D, 0x51, 0xCF,
        0x2C, 0x95, 0x02, 0x10, 0x11, 0x00, 0x00, 0x46, 0x45, 0x00, 0x00, 0x0D, 0x00, 0x00, 0x00,
        0x65, 0x75, 0x6C, 0x61, 0x2E, 0x31, 0x30, 0x32, 0x38, 0x2E, 0x74, 0x78, 0x74,
    ];

    LocalFileHeader::from_bytes(&bytes, 0).unwrap();
}

#[test]
fn parses_local_header_successfully() {
    let bytes = vec![
        0x50, 0x4B, 0x03, 0x04, 0x14, 0x00, 0x00, 0x00, 0x08, 0x00, 0x34, 0xBE, 0x7D, 0x51, 0xCF,
        0x2C, 0x95, 0x02, 0x10, 0x11, 0x00, 0x00, 0x46, 0x45, 0x00, 0x00, 0x0D, 0x00, 0x00, 0x00,
        0x65, 0x75, 0x6C, 0x61, 0x2E, 0x31, 0x30, 0x32, 0x38, 0x2E, 0x74, 0x78, 0x74,
    ];

    let local_file_header = LocalFileHeader::from_bytes(&bytes, 0).unwrap();

    assert_eq!(local_file_header.version_needed_to_extract, ZipVersion::from_byte(20));
    assert_eq!(local_file_header.general_purpose_flag, 0);
    assert_eq!(local_file_header.encryption_method, EncryptionMethod::NoEncryption);
    assert_eq!(local_file_header.compression_method, CompressionMethod::Deflate);
    assert_eq!(local_file_header.last_modified_date_time, ZipDateTime::new(29, 11, 2020, 23, 49, 40));
    assert_eq!(local_file_header.crc32, 43330767);
    assert_eq!(local_file_header.compressed_size, 4368);
    assert_eq!(local_file_header.uncompressed_size, 17734);
    assert_eq!(local_file_header.file_name_length, 13);
    assert_eq!(local_file_header.file_name, b"eula.1028.txt".to_vec());
}

#[test]
fn parses_local_header_with_extra_field_successfully() {
    let bytes = vec![
        0x50, 0x4B, 0x03, 0x04, 0x14, 0x00, 0x00, 0x00, 0x08, 0x00, 0x34, 0xBE, 0x7D, 0x51, 0xCF,
        0x2C, 0x95, 0x02, 0x10, 0x11, 0x00, 0x00, 0x46, 0x45, 0x00, 0x00, 0x0D, 0x00, 0x0B, 0x00,
        0x65, 0x75, 0x6C, 0x61, 0x2E, 0x31, 0x30, 0x32, 0x38, 0x2E, 0x74, 0x78, 0x74, 0x01, 0x99,
        0x07, 0x00, 0x02, 0x00, 0x41, 0x45, 0x03, 0x08, 0x00,
    ];

    let local_file_header = LocalFileHeader::from_bytes(&bytes, 0).unwrap();

    assert_eq!(local_file_header.version_needed_to_extract, ZipVersion::from_byte(20));
    assert_eq!(local_file_header.general_purpose_flag, 0);
    assert_eq!(local_file_header.encryption_method, EncryptionMethod::NoEncryption);
    assert_eq!(local_file_header.compression_method, CompressionMethod::Deflate);
    assert_eq!(local_file_header.last_modified_date_time, ZipDateTime::new(29, 11, 2020, 23, 49, 40));
    assert_eq!(local_file_header.crc32, 43330767);
    assert_eq!(local_file_header.compressed_size, 4368);
    assert_eq!(local_file_header.uncompressed_size, 17734);
    assert_eq!(local_file_header.file_name_length, 13);
    assert_eq!(local_file_header.file_name, b"eula.1028.txt".to_vec());
    assert_eq!(local_file_header.extra_field_length, 11);
    assert_eq!(
        local_file_header.extra_field,
        [0x01, 0x99, 0x07, 0x00, 0x02, 0x00, 0x41, 0x45, 0x03, 0x08, 0x00].to_vec()
    );
}

#[test]
fn returns_error_if_data_descriptor_specified() {
    let bytes = vec![
        0x50, 0x4B, 0x08, 0x04, 0x14, 0x00, 0x00, 0x00, 0x08, 0x00, 0x34, 0xBE, 0x7D, 0x51, 0xCF,
        0x2C, 0x95, 0x02, 0x10, 0x11, 0x00, 0x00, 0x46, 0x45, 0x00, 0x00, 0x0D, 0x00, 0x00, 0x00,
        0x65, 0x75, 0x6C, 0x61, 0x2E, 0x31, 0x30, 0x32, 0x38, 0x2E, 0x74, 0x78, 0x74,
    ];

    let local_file_header = LocalFileHeader::from_bytes(&bytes, 0);

    assert!(local_file_header.is_err());
    assert!(matches!(local_file_header.err().unwrap(), HeaderParseError::MalformedHeader));
}

#[test]
fn rejects_header_that_declares_a_data_descriptor() {
    // A valid signature with flag bit 3 set: refused as a feature gap.
    let mut bytes = vec![
        0x50, 0x4B, 0x03, 0x04, 0x14, 0x00, 0x08, 0x00, 0x08, 0x00, 0x34, 0xBE, 0x7D, 0x51, 0xCF,
        0x2C, 0x95, 0x02, 0x10, 0x11, 0x00, 0x00, 0x46, 0x45, 0x00, 0x00, 0x0D, 0x00, 0x00, 0x00,
    ];
    bytes.extend_from_slice(b"eula.1028.txt");

    let local_file_header = LocalFileHeader::from_bytes(&bytes, 0);

    assert!(matches!(
        local_file_header.err().unwrap(),
        HeaderParseError::DataDescriptorUnsupported
    ));
}

#[test]
#[should_panic]
fn central_dir_file_signature_valid() {
    let bytes = vec![
        0x50, 0x4B, 0x00, 0x00, 0x3F, 0x00, 0x14, 0x00, 0x00, 0x00, 0x08, 0x00, 0x10, 0x64, 0x5C,
        0x50, 0xC1, 0x5C, 0xE7, 0x5E, 0x9C, 0xEC, 0x31, 0x00, 0x39, 0x6B, 0x33, 0x00, 0x0C, 0x00,
        0x24, 0x00, 0x00, 0x00, 0x00, 0x00, 0x00, 0x00, 0x20, 0x00, 0x00, 0x00, 0x00, 0x00, 0x00,
        0x00, 0x48, 0x78, 0x44, 0x53, 0x65, 0x74, 0x75, 0x70, 0x2E, 0x65, 0x78, 0x65, 0x0A, 0x00,
        0x20, 0x00, 0x00, 0x00, 0x00, 0x00, 0x01, 0x00, 0x18, 0x00, 0x2A, 0xCD, 0x6B, 0xC3, 0x2A,
        0xEE, 0xD5, 0x01, 0xAB, 0xC4, 0xEA, 0x9C, 0x2A, 0xEE, 0xD5, 0x01, 0xAB, 0xC4, 0xEA, 0x9C,
        0x2A, 0xEE, 0xD5, 0x01,
    ];

    CentralDirectoryFileHeader::from_bytes(&bytes, 0).unwrap();
}

#[test]
fn central_directory_parsed_as_expected() {
    let bytes = vec![
        0x50, 0x4B, 0x01, 0x02, 0x14, 0x00, 0x00, 0x00, 0x08, 0x00, 0xA5, 0x01, 0x68, 0x52, 0x81,
        0x6F, 0x9E, 0xB9, 0x80, 0x38, 0x0D, 0x00, 0x98, 0xAB, 0x14, 0x00, 0x0F, 0x00, 0x00, 0x00,
        0x00, 0x00, 0x00, 0x00, 0x00, 0x00, 0x00, 0x00, 0x00, 0x00, 0x00, 0x00, 0x77, 0x69, 0x6E,
        0x73, 0x64, 0x6B, 0x73, 0x65, 0x74, 0x75, 0x70, 0x2E, 0x65, 0x78, 0x65,
    ];

    let central_dir_file = CentralDirectoryFileHeader::from_bytes(&bytes, 0).unwrap();

    println!("{:#?}", central_dir_file.file_name);
}

#[test]
#[should_panic]
fn test_eof_dir_assertions() {
    let bin = vec![1, 2, 3, 4];
    // Check if minimum size of eof central directory is greater or equal than 22
    EndOfCentralDirectory::from(&bin).unwrap();

    let bin = vec![1, 2, 3, 4, 1, 2, 3, 4, 1, 2, 3, 4, 1, 2, 3, 4, 1, 2, 3, 4, 1, 2, 3, 4];
    // Check whether function panics if signature is missing.
    EndOfCentralDirectory::from(&bin).unwrap();
}

#[test]
fn eof_central_dir_parsed_as_expected() {
    let bin = vec![
        0x50, 0x4B, 0x05, 0x06, 0x00, 0x00, 0x00, 0x00, 0x09, 0x00, 0x09, 0x00, 0x13, 0x02, 0x00,
        0x00, 0x77, 0x8B, 0x00, 0x00, 0x00, 0x00,
    ];

    let eof_central_dir = EndOfCentralDirectory::from(&bin).unwrap();

    assert_eq!(eof_central_dir.signature, END_OF_CENTRAL_DIR_SIGNATURE as u32);
    assert_eq!(eof_central_dir.num_of_disk, 0);
    assert_eq!(eof_central_dir.num_of_disk_start_central_dir, 0);
    assert_eq!(eof_central_dir.num_of_central_dir, 9);
    assert_eq!(eof_central_dir.total_num_of_central_dir, 9);
    assert_eq!(eof_central_dir.size_of_central_dir, 531);
    assert_eq!(eof_central_dir.cdfh_start_offset, 35703);
    assert_eq!(eof_central_dir.zip_comment_len, 0);
    assert_eq!(eof_central_dir.zip_comment, Vec::<u8>::new());
}

#[test]
fn data_descriptor_decodes_three_fields() {
    let bytes = vec![0x01, 0x00, 0x00, 0x00, 0x02, 0x00, 0x00, 0x00, 0x03, 0x00, 0x00, 0x00];
    let descriptor = ruzito::data_descriptor::DataDescriptor::from_bytes(&bytes);
    assert_eq!(descriptor.crc32, 1);
    assert_eq!(descriptor.compressed_size, 2);
    assert_eq!(descriptor.uncompressed_size, 3);
}
