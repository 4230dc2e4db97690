//! The compression codecs of chunk payloads.

use crate::error::ReadChunkError;
use flate2::bufread::{GzDecoder, ZlibDecoder};
use std::io::Read;
use vstd::prelude::*;

verus! {

/// How the tree data of a payload is compressed. The payload's first byte
/// selects the codec.
#[derive(Clone, Copy, Debug, PartialEq, Eq, Structural)]
pub enum Codec {
    Gzip,
    Zlib,
    Uncompressed,
}

/// The codec that a tag byte selects: 1 is gzip, 2 is zlib, 3 is no
/// compression, and no other byte is a tag.
pub open spec fn codec_of(tag: u8) -> Option<Codec> {
    if tag == 1 {
        Some(Codec::Gzip)
    } else if tag == 2 {
        Some(Codec::Zlib)
    } else if tag == 3 {
        Some(Codec::Uncompressed)
    } else {
        None
    }
}

/// The bytes that a gzip member at the front of `input` unpacks to, or
/// `None` where `input` starts with no valid member.
pub uninterp spec fn gzip_inflate(input: Seq<u8>) -> Option<Seq<u8>>;

/// The bytes that a zlib stream at the front of `input` unpacks to, or
/// `None` where `input` starts with no valid stream.
pub uninterp spec fn zlib_inflate(input: Seq<u8>) -> Option<Seq<u8>>;

/// What `body` holds once the codec is undone.
pub open spec fn inflate(codec: Codec, body: Seq<u8>) -> Option<Seq<u8>> {
    match codec {
        Codec::Gzip => gzip_inflate(body),
        Codec::Zlib => zlib_inflate(body),
        Codec::Uncompressed => Some(body),
    }
}

/// Runs `flate2::bufread::GzDecoder` over the slice with `read_to_end`. The
/// decoder reads one gzip member and what it yields depends on the input
/// alone.
#[verifier::external_body]
pub(crate) fn gzip_decode(input: &[u8]) -> (r: Result<Vec<u8>, std::io::Error>)
    ensures
        match r {
            Ok(out) => gzip_inflate(input@) == Some(out@),
            Err(_) => gzip_inflate(input@) is None,
        },
{
    let mut out = Vec::new();
    GzDecoder::new(input).read_to_end(&mut out).map(|_| out)
}

/// Runs `flate2::bufread::ZlibDecoder` over the slice with `read_to_end`.
/// What it yields depends on the input alone.
#[verifier::external_body]
pub(crate) fn zlib_decode(input: &[u8]) -> (r: Result<Vec<u8>, std::io::Error>)
    ensures
        match r {
            Ok(out) => zlib_inflate(input@) == Some(out@),
            Err(_) => zlib_inflate(input@) is None,
        },
{
    let mut out = Vec::new();
    ZlibDecoder::new(input).read_to_end(&mut out).map(|_| out)
}

impl Codec {
    /// The codec that a payload's first byte selects.
    pub fn from_tag(tag: u8) -> (codec: Option<Codec>)
        ensures
            codec == codec_of(tag),
    {
        match tag {
            1 => Some(Codec::Gzip),
            2 => Some(Codec::Zlib),
            3 => Some(Codec::Uncompressed),
            _ => None,
        }
    }

    /// Undoes the codec on `body`. A stream that does not unpack is an I/O
    /// failure.
    pub fn decompress(self, body: &[u8]) -> (r: Result<Vec<u8>, ReadChunkError>)
        ensures
            match r {
                Ok(out) => inflate(self, body@) == Some(out@),
                Err(e) => inflate(self, body@) is None && e@ == crate::error::Failure::Io,
            },
    {
        match self {
            Codec::Gzip => match gzip_decode(body) {
                Ok(out) => Ok(out),
                Err(e) => Err(ReadChunkError::Io(e)),
            },
            Codec::Zlib => match zlib_decode(body) {
                Ok(out) => Ok(out),
                Err(e) => Err(ReadChunkError::Io(e)),
            },
            Codec::Uncompressed => Ok(vstd::slice::slice_to_vec(body)),
        }
    }
}

} // verus!
