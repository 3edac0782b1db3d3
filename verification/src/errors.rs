//! The error categories of the crate: corrupt records, feature gaps,
//! password failures, checksum disagreement, and failures reported by the
//! surrounding layer that does the file work.

use vstd::prelude::*;

use crate::compression::CompressionError;
use crate::winzip_aes::WinZipAesError;
use crate::zip_crypto::ZipCryptoError;

verus! {

/// A fixed-layout record that cannot be decoded: bad signature or a buffer
/// too short for its declared lengths.
#[derive(Clone, Copy, Debug, PartialEq, Eq, Structural)]
pub enum HeaderParseError {
    MalformedHeader,
    DataDescriptorUnsupported,
}

/// Failure to read or parse a whole archive image.
#[derive(Debug)]
pub enum ZipError {
    FileIOError(Vec<u8>),
    MalformedArchive,
}

/// Failure to extract one entry.
#[derive(Debug)]
pub enum ExtractError {
    InvalidParentPath(Vec<u8>),
    CreateDirError(Vec<u8>),
    FileCreationFailed,
    UnableToSeekZipItem(u32),
    MalformedEntry(HeaderParseError),
    UnsupportedEncryption,
    UnsupportedCompression(CompressionError),
    ZipCryptoError(ZipCryptoError),
    WinZipAesError(WinZipAesError),
    AuthenticationFailed,
    ChecksumMismatch,
}

/// Failure to build a new archive.
#[derive(Debug)]
pub enum ZipCreatorError {
    InvalidPath(Vec<u8>),
    IOError(Vec<u8>),
    EntryTooLarge,
    EncodingFailed(CompressionError),
    PasswordRequired,
}

} // verus!
