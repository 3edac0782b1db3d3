//! Fixed numbers of the archive format: record signatures, the host-system
//! and version bytes, and the compression / encryption method codes.

use vstd::prelude::*;

verus! {

/// Signature of a Local File Header, little-endian on disk.
pub const FILE_HEADER_SIGNATURE: u32 = 0x04034b50;

/// Signature of the End-Of-Central-Directory record.
pub const END_OF_CENTRAL_DIR_SIGNATURE: u32 = 0x06054b50;

/// Signature of a Central Directory File Header.
pub const CENTRAL_DIR_SIGNATURE: u32 = 0x02014b50;

/// Files strictly larger than this many bytes are Deflate-compressed; a
/// file of exactly this size or smaller is stored as it is.
pub const MINIMUM_SIZE_TO_COMPRESS: u32 = 10000;

#[derive(Clone, Copy, Debug, PartialEq, Eq, Structural)]
pub enum HostOS {
    MsDos,
    Amiga,
    OpenVms,
    Unix,
    VmCms,
    AtariIst,
    OS2,
    MACINTOSH,
    ZSystem,
    CPM,
    WinNTFS,
    MVS,
    VSE,
    RISC,
    VFAT,
    AlternativeMVS,
    BEOS,
    TANDEM,
    OS400,
    OSX,
    UNUSED,
}

/// The host system a version-made-by byte names.
pub open spec fn host_os_of_byte(byte: u8) -> HostOS {
    match byte {
        0u8 => HostOS::MsDos,
        1u8 => HostOS::Amiga,
        2u8 => HostOS::OpenVms,
        3u8 => HostOS::Unix,
        4u8 => HostOS::VmCms,
        5u8 => HostOS::AtariIst,
        6u8 => HostOS::OS2,
        7u8 => HostOS::MACINTOSH,
        8u8 => HostOS::ZSystem,
        9u8 => HostOS::CPM,
        10u8 => HostOS::WinNTFS,
        11u8 => HostOS::MVS,
        12u8 => HostOS::VSE,
        13u8 => HostOS::RISC,
        14u8 => HostOS::VFAT,
        15u8 => HostOS::AlternativeMVS,
        16u8 => HostOS::BEOS,
        17u8 => HostOS::TANDEM,
        18u8 => HostOS::OS400,
        19u8 => HostOS::OSX,
        _ => HostOS::UNUSED,
    }
}

impl HostOS {
    pub fn from_byte(byte: u8) -> (r: Self)
        ensures
            r == host_os_of_byte(byte),
    {
        match byte {
            0 => HostOS::MsDos,
            1 => HostOS::Amiga,
            2 => HostOS::OpenVms,
            3 => HostOS::Unix,
            4 => HostOS::VmCms,
            5 => HostOS::AtariIst,
            6 => HostOS::OS2,
            7 => HostOS::MACINTOSH,
            8 => HostOS::ZSystem,
            9 => HostOS::CPM,
            10 => HostOS::WinNTFS,
            11 => HostOS::MVS,
            12 => HostOS::VSE,
            13 => HostOS::RISC,
            14 => HostOS::VFAT,
            15 => HostOS::AlternativeMVS,
            16 => HostOS::BEOS,
            17 => HostOS::TANDEM,
            18 => HostOS::OS400,
            19 => HostOS::OSX,
            _ => HostOS::UNUSED,
        }
    }
}

#[derive(Clone, Copy, Debug, PartialEq, Eq, Structural)]
pub struct ZipVersion {
    pub major: u8,
    pub minor: u8,
}

/// The version a packed version byte names, decimal major and minor.
pub open spec fn zip_version_of(byte: u8) -> ZipVersion {
    ZipVersion { major: byte / 10, minor: byte % 10 }
}

impl ZipVersion {
    pub fn new(major: u8, minor: u8) -> (r: Self)
        ensures
            r.major == major,
            r.minor == minor,
    {
        ZipVersion { major, minor }
    }

    /// Splits a packed version byte into its decimal major and minor parts.
    pub fn from_byte(byte: u8) -> (r: Self)
        ensures
            r == zip_version_of(byte),
    {
        let major = byte / 10;
        let minor = byte % 10;
        ZipVersion { major, minor }
    }
}

#[derive(Clone, Copy, Debug, PartialEq, Eq, Structural)]
pub enum CompressionMethod {
    NoCompression,
    Shrunk,
    Factor1,
    Factor2,
    Factor3,
    Factor4,
    Implode,
    ReservedTokenCompression,
    Deflate,
    Deflate64,
    PKWAREDataCompressionLib,
    Reserved,
    BZIP2,
    LZMA,
    ZOSCMPSC,
    IBMTerse,
    IBMLZ77,
    Deprecated,
    ZStandard,
    MP3,
    XZ,
    JPEGVariant,
    WavPack,
    PPMd,
    Aex,
    Unknown,
}

/// The compression method a header's method field names.
pub open spec fn compression_method_of(addr: u16) -> CompressionMethod {
    match addr {
        0u16 => CompressionMethod::NoCompression,
        1u16 => CompressionMethod::Shrunk,
        2u16 => CompressionMethod::Factor1,
        3u16 => CompressionMethod::Factor2,
        4u16 => CompressionMethod::Factor3,
        5u16 => CompressionMethod::Factor4,
        6u16 => CompressionMethod::Implode,
        7u16 => CompressionMethod::ReservedTokenCompression,
        8u16 => CompressionMethod::Deflate,
        9u16 => CompressionMethod::Deflate64,
        10u16 => CompressionMethod::PKWAREDataCompressionLib,
        11u16 => CompressionMethod::Reserved,
        12u16 => CompressionMethod::BZIP2,
        13u16 => CompressionMethod::Reserved,
        14u16 => CompressionMethod::LZMA,
        15u16 => CompressionMethod::Reserved,
        16u16 => CompressionMethod::ZOSCMPSC,
        17u16 => CompressionMethod::Reserved,
        18u16 => CompressionMethod::IBMTerse,
        19u16 => CompressionMethod::IBMLZ77,
        20u16 => CompressionMethod::Deprecated,
        93u16 => CompressionMethod::ZStandard,
        94u16 => CompressionMethod::MP3,
        95u16 => CompressionMethod::XZ,
        96u16 => CompressionMethod::JPEGVariant,
        97u16 => CompressionMethod::WavPack,
        98u16 => CompressionMethod::PPMd,
        99u16 => CompressionMethod::Aex,
        _ => CompressionMethod::Unknown,
    }
}

/// The method field written for an entry; only the methods this crate
/// produces need a code, anything else is written as the reserved value.
pub open spec fn compression_method_addr(m: CompressionMethod) -> u16 {
    match m {
        CompressionMethod::NoCompression => 0u16,
        CompressionMethod::Deflate => 8u16,
        CompressionMethod::Aex => 99u16,
        _ => 11u16,
    }
}

impl CompressionMethod {
    pub fn from_addr(addr: u16) -> (r: Self)
        ensures
            r == compression_method_of(addr),
    {
        match addr {
            0 => CompressionMethod::NoCompression,
            1 => CompressionMethod::Shrunk,
            2 => CompressionMethod::Factor1,
            3 => CompressionMethod::Factor2,
            4 => CompressionMethod::Factor3,
            5 => CompressionMethod::Factor4,
            6 => CompressionMethod::Implode,
            7 => CompressionMethod::ReservedTokenCompression,
            8 => CompressionMethod::Deflate,
            9 => CompressionMethod::Deflate64,
            10 => CompressionMethod::PKWAREDataCompressionLib,
            11 => CompressionMethod::Reserved,
            12 => CompressionMethod::BZIP2,
            13 => CompressionMethod::Reserved,
            14 => CompressionMethod::LZMA,
            15 => CompressionMethod::Reserved,
            16 => CompressionMethod::ZOSCMPSC,
            17 => CompressionMethod::Reserved,
            18 => CompressionMethod::IBMTerse,
            19 => CompressionMethod::IBMLZ77,
            20 => CompressionMethod::Deprecated,
            93 => CompressionMethod::ZStandard,
            94 => CompressionMethod::MP3,
            95 => CompressionMethod::XZ,
            96 => CompressionMethod::JPEGVariant,
            97 => CompressionMethod::WavPack,
            98 => CompressionMethod::PPMd,
            99 => CompressionMethod::Aex,
            _ => CompressionMethod::Unknown,
        }
    }

    pub fn to_addr(&self) -> (r: u16)
        ensures
            r == compression_method_addr(*self),
    {
        match self {
            CompressionMethod::NoCompression => 0,
            CompressionMethod::Deflate => 8,
            CompressionMethod::Aex => 99,
            _ => 11,
        }
    }
}

#[derive(Clone, Copy, Debug, PartialEq, Eq, Structural)]
pub enum EncryptionMethod {
    NoEncryption,
    ZipCrypto,
    WinZipAesEncryption,
    StrongEncryption,
}

/// The encryption an entry's flag word and method field declare together:
/// flag bits 0 and 6 set name the unsupported strong encryption, bit 0 with
/// an ordinary method names the legacy stream cipher, and the method code
/// reserved for the vendor AES scheme names that scheme whatever bit 0
/// says, its real compression method hiding in the extra field.
pub open spec fn encryption_method_of(flag: u16, method: CompressionMethod) -> EncryptionMethod {
    if flag & 0x41 == 0x41 {
        EncryptionMethod::StrongEncryption
    } else if flag & 0x1 == 1 && method != CompressionMethod::Aex {
        EncryptionMethod::ZipCrypto
    } else if method == CompressionMethod::Aex {
        EncryptionMethod::WinZipAesEncryption
    } else {
        EncryptionMethod::NoEncryption
    }
}

/// Decides the declared encryption from the flag word and method field.
pub fn encryption_method_from_flag(flag: u16, method: &CompressionMethod) -> (r: EncryptionMethod)
    ensures
        r == encryption_method_of(flag, *method),
{
    if flag & 0x41 == 0x41 {
        EncryptionMethod::StrongEncryption
    } else if flag & 0x1 == 1 && *method != CompressionMethod::Aex {
        EncryptionMethod::ZipCrypto
    } else if *method == CompressionMethod::Aex {
        EncryptionMethod::WinZipAesEncryption
    } else {
        EncryptionMethod::NoEncryption
    }
}

#[derive(Clone, Copy, Debug, PartialEq, Eq, Structural)]
pub enum AesEncryptionStrength {
    Aes128,
    Aes192,
    Aes256,
    Unknown,
}

/// The key strength named by the strength byte of an AES extra field.
pub open spec fn aes_strength_of_byte(byte: u8) -> AesEncryptionStrength {
    match byte {
        1u8 => AesEncryptionStrength::Aes128,
        2u8 => AesEncryptionStrength::Aes192,
        3u8 => AesEncryptionStrength::Aes256,
        _ => AesEncryptionStrength::Unknown,
    }
}

impl AesEncryptionStrength {
    pub fn from_byte(byte: u8) -> (r: Self)
        ensures
            r == aes_strength_of_byte(byte),
    {
        match byte {
            1 => AesEncryptionStrength::Aes128,
            2 => AesEncryptionStrength::Aes192,
            3 => AesEncryptionStrength::Aes256,
            _ => AesEncryptionStrength::Unknown,
        }
    }
}

} // verus!
