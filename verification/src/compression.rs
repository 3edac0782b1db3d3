//! The two body transforms the archive format supports here: `Stored`
//! entries are copied as they are, `Deflate` entries go through a raw
//! Deflate encoder or decoder.  Every other declared method is refused.

use vstd::prelude::*;

use crate::mem_map::CompressionMethod;

verus! {

/// The raw Deflate stream that encoding a payload at the fixed best
/// compression level produces.
pub uninterp spec fn deflate_of(data: Seq<u8>) -> Seq<u8>;

/// What decoding a raw Deflate stream yields: the payload, or nothing when
/// the stream is not well-formed Deflate.
pub uninterp spec fn inflate_of(data: Seq<u8>) -> Option<Seq<u8>>;

#[derive(Debug)]
pub enum CompressionError {
    UnsupportedCompressionMethod,
    CorruptDeflateStream,
}

/// Relies on flate2::bufread::DeflateEncoder at the fixed best level: the
/// raw Deflate stream it produces from an in-memory buffer is a function of
/// the input bytes alone, and reading the encoder out cannot fail, since
/// the underlying reader is an in-memory slice and the level is valid.
#[verifier::external_body]
fn deflate_compress(data: &Vec<u8>) -> (r: Vec<u8>)
    ensures
        r@ == deflate_of(data@),
{
    let mut encoder = flate2::bufread::DeflateEncoder::new(
        data.as_slice(),
        flate2::Compression::best(),
    );
    let mut out: Vec<u8> = Vec::new();
    std::io::Read::read_to_end(&mut encoder, &mut out).unwrap();
    out
}

/// Relies on inflate::inflate_bytes: it decodes a raw Deflate stream, the
/// result is a function of the input alone, and a stream that is the
/// Deflate encoding of a payload decodes to exactly that payload.
#[verifier::external_body]
fn inflate_decode(data: &Vec<u8>) -> (r: Result<Vec<u8>, String>)
    ensures
        r is Ok <==> inflate_of(data@) is Some,
        r matches Ok(v) ==> Some(v@) == inflate_of(data@),
        forall|p: Seq<u8>| data@ == deflate_of(p) ==> r is Ok && r->Ok_0@ == p,
{
    inflate::inflate_bytes(data.as_slice())
}

pub struct CompressionDecoder;

impl CompressionDecoder {
    /// Undoes the body transform of an entry: `Stored` data is returned
    /// unchanged, a `Deflate` stream is decoded (and decoding the encoding
    /// of any payload gives that payload back), and any other method is
    /// refused as unsupported.
    pub fn decode(compression_method: &CompressionMethod, data: &Vec<u8>) -> (r: Result<
        Vec<u8>,
        CompressionError,
    >)
        ensures
            match r {
                Ok(v) => match *compression_method {
                    CompressionMethod::NoCompression => v@ == data@,
                    CompressionMethod::Deflate => Some(v@) == inflate_of(data@),
                    _ => false,
                },
                Err(CompressionError::UnsupportedCompressionMethod) => {
                    &&& *compression_method != CompressionMethod::NoCompression
                    &&& *compression_method != CompressionMethod::Deflate
                },
                Err(CompressionError::CorruptDeflateStream) => {
                    &&& *compression_method == CompressionMethod::Deflate
                    &&& inflate_of(data@) is None
                },
            },
            *compression_method == CompressionMethod::NoCompression ==> r is Ok,
            *compression_method == CompressionMethod::Deflate ==> (r is Ok <==> inflate_of(data@)
                is Some),
            forall|p: Seq<u8>|
                *compression_method == CompressionMethod::Deflate && data@ == deflate_of(p)
                    ==> r is Ok && r->Ok_0@ == p,
    {
        match compression_method {
            CompressionMethod::NoCompression => Ok(vstd::slice::slice_to_vec(data.as_slice())),
            CompressionMethod::Deflate => match inflate_decode(data) {
                Ok(v) => Ok(v),
                Err(_) => Err(CompressionError::CorruptDeflateStream),
            },
            _ => Err(CompressionError::UnsupportedCompressionMethod),
        }
    }
}

pub struct CompressionEncoder;

impl CompressionEncoder {
    /// Applies the body transform of an entry: `Stored` data is returned
    /// unchanged, `Deflate` data is encoded to the stream named by
    /// `deflate_of`, and exactly the other methods are refused as
    /// unsupported.
    pub fn encode(compression_method: &CompressionMethod, data: &Vec<u8>) -> (r: Result<
        Vec<u8>,
        CompressionError,
    >)
        ensures
            match r {
                Ok(v) => match *compression_method {
                    CompressionMethod::NoCompression => v@ == data@,
                    CompressionMethod::Deflate => v@ == deflate_of(data@),
                    _ => false,
                },
                Err(CompressionError::UnsupportedCompressionMethod) => {
                    &&& *compression_method != CompressionMethod::NoCompression
                    &&& *compression_method != CompressionMethod::Deflate
                },
                Err(CompressionError::CorruptDeflateStream) => false,
            },
            r is Ok <==> (*compression_method == CompressionMethod::NoCompression
                || *compression_method == CompressionMethod::Deflate),
    {
        match compression_method {
            CompressionMethod::NoCompression => Ok(vstd::slice::slice_to_vec(data.as_slice())),
            CompressionMethod::Deflate => Ok(deflate_compress(data)),
            _ => Err(CompressionError::UnsupportedCompressionMethod),
        }
    }
}

} // verus!
