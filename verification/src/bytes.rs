//! Reading integers and runs of bytes from the front of a byte slice.

use byteorder::{BigEndian, ReadBytesExt};
use std::io::Read;
use vstd::prelude::*;

verus! {

/// The unsigned number that the first four bytes spell, most significant
/// byte first.
pub open spec fn be_u32(bytes: Seq<u8>) -> int
    recommends
        bytes.len() >= 4,
{
    bytes[0] * 0x100_0000 + bytes[1] * 0x1_0000 + bytes[2] * 0x100 + bytes[3]
}

/// Calls `byteorder::ReadBytesExt::read_u32::<BigEndian>` on the slice. It
/// fills a four-byte buffer with `read_exact` and combines it most
/// significant byte first, so it fails exactly when fewer than four bytes
/// are there.
#[verifier::external_body]
pub(crate) fn read_u32_be(bytes: &[u8]) -> (r: Result<u32, std::io::Error>)
    ensures
        r is Ok <==> bytes@.len() >= 4,
        r matches Ok(v) ==> v == be_u32(bytes@),
{
    let mut reader = bytes;
    reader.read_u32::<BigEndian>()
}

/// Calls `byteorder::ReadBytesExt::read_u8` on the slice: the first byte, or
/// the error of `read_exact` when the slice is empty.
#[verifier::external_body]
pub(crate) fn read_u8(bytes: &[u8]) -> (r: Result<u8, std::io::Error>)
    ensures
        r is Ok <==> bytes@.len() >= 1,
        r matches Ok(v) ==> v == bytes@[0],
{
    let mut reader = bytes;
    reader.read_u8()
}

/// Calls `std::io::Read::read_exact` on the slice with a fresh buffer of
/// `len` bytes. For a slice the read copies from its front; it fails when
/// the slice is shorter than the buffer.
#[verifier::external_body]
pub(crate) fn read_exact(bytes: &[u8], len: usize) -> (r: Result<Vec<u8>, std::io::Error>)
    ensures
        r is Ok <==> len <= bytes@.len(),
        r matches Ok(v) ==> v@ == bytes@.subrange(0, len as int),
{
    let mut out = vec![0u8; len];
    let mut reader = bytes;
    reader.read_exact(&mut out).map(|_| out)
}

} // verus!
