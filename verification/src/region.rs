//! Region files: 32 by 32 chunks behind a header of two tables, one of
//! locations and one of timestamps, followed by the chunks' payloads in
//! sectors of 4096 bytes.

use crate::bytes::{be_u32, read_exact, read_u32_be, read_u8};
use crate::codec::{codec_of, inflate, Codec};
use crate::error::{Failure, ReadChunkError};
use crate::nbt::{decode_tree, whole_tree};
use valence_nbt::Compound;
use vstd::prelude::*;
use vstd::slice::slice_subrange;

verus! {

/// Number of chunks along one side of a region.
pub const REGION_WIDTH: i32 = 32;

/// Bytes in a sector, the unit in which a region file hands out space.
pub const SECTOR_SIZE: usize = 4096;

/// Bytes in the header: the location table, then the timestamp table.
pub const HEADER_SIZE: usize = 8192;

/// A chunk as it was stored.
#[derive(Debug)]
pub struct AnvilChunk {
    /// The chunk's tree of blocks and metadata.
    pub data: Compound,
    /// When the chunk was last modified, in seconds since the epoch.
    pub timestamp: u32,
}

/// Where a chunk's payload lies in its region file.
#[derive(Clone, Copy, Debug, PartialEq, Eq, Structural)]
pub struct Location {
    /// The first sector of the payload, counted from the start of the file.
    pub sector_offset: u32,
    /// The number of sectors set aside for the payload.
    pub sector_count: u8,
}

/// A result with the error reduced to what kind of failure it is.
pub open spec fn outcome<T>(r: Result<T, ReadChunkError>) -> Result<T, Failure> {
    match r {
        Ok(v) => Ok(v),
        Err(e) => Err(e@),
    }
}

/// The region that holds a chunk: its coordinate divided by 32, rounded
/// down.
pub open spec fn region_coord_of(chunk: int) -> int {
    chunk / 32
}

/// Slot of a chunk inside its region's tables: the chunk's column plus 32
/// times its row, both taken as non-negative remainders modulo 32.
pub open spec fn local_index_of(chunk_x: int, chunk_z: int) -> int {
    chunk_x % 32 + (chunk_z % 32) * 32
}

/// The location table's entry for a slot.
pub open spec fn location_entry(file: Seq<u8>, index: int) -> int {
    be_u32(file.subrange(index * 4, HEADER_SIZE as int))
}

/// The timestamp table's entry for a slot.
pub open spec fn timestamp_entry(file: Seq<u8>, index: int) -> int {
    be_u32(file.subrange(index * 4 + SECTOR_SIZE as int, HEADER_SIZE as int))
}

/// What a location entry says: nothing stored for entry 0, else a sector
/// offset in the high 24 bits and a sector count in the low 8, where an
/// offset under 2 would put the payload inside the header.
pub open spec fn parse_location(entry: u32) -> Result<Option<Location>, Failure> {
    if entry == 0 {
        Ok(None)
    } else if entry / 256 < 2 {
        Err(Failure::BadSectorOffset)
    } else {
        Ok(
            Some(
                Location { sector_offset: (entry / 256) as u32, sector_count: (entry % 256) as u8 },
            ),
        )
    }
}

/// The payload at a location: a four-byte length at the start of the first
/// sector, then that many bytes. The length may not exceed the sectors set
/// aside, and the file must hold every byte.
pub open spec fn frame_payload(file: Seq<u8>, location: Location) -> Result<Seq<u8>, Failure> {
    let start = location.sector_offset * SECTOR_SIZE;
    if file.len() < start + 4 {
        Err(Failure::Io)
    } else {
        let len = be_u32(file.subrange(start, file.len() as int));
        if len > location.sector_count * SECTOR_SIZE {
            Err(Failure::BadChunkSize)
        } else if file.len() < start + 4 + len {
            Err(Failure::Io)
        } else {
            Ok(file.subrange(start + 4, start + 4 + len))
        }
    }
}

/// The tree in a payload: a codec tag, then the tree data under that codec,
/// which must hold one tree and nothing more.
pub open spec fn decode_payload_of(payload: Seq<u8>) -> Result<Compound, Failure> {
    if payload.len() == 0 {
        Err(Failure::Io)
    } else {
        match codec_of(payload[0]) {
            None => Err(Failure::UnknownCompressionScheme(payload[0])),
            Some(codec) => match inflate(codec, payload.subrange(1, payload.len() as int)) {
                None => Err(Failure::Io),
                Some(raw) => whole_tree(raw),
            },
        }
    }
}

/// The chunk in slot `index` of a region file.
pub open spec fn read_chunk_at(file: Seq<u8>, index: int) -> Result<Option<AnvilChunk>, Failure> {
    match parse_location(location_entry(file, index) as u32) {
        Err(f) => Err(f),
        Ok(None) => Ok(None),
        Ok(Some(location)) => match frame_payload(file, location) {
            Err(f) => Err(f),
            Ok(payload) => match decode_payload_of(payload) {
                Err(f) => Err(f),
                Ok(tree) => Ok(
                    Some(AnvilChunk { data: tree, timestamp: timestamp_entry(file, index) as u32 }),
                ),
            },
        },
    }
}

/// Every chunk has a slot in its region's tables, whatever its coordinates.
pub proof fn lemma_local_index_is_a_slot(chunk_x: int, chunk_z: int)
    ensures
        0 <= local_index_of(chunk_x, chunk_z) < 1024,
{
}

/// The coordinate of the region that holds a chunk.
pub fn region_coord(chunk: i32) -> (region: i32)
    ensures
        region == region_coord_of(chunk as int),
{
    match chunk.checked_div_euclid(REGION_WIDTH) {
        Some(r) => r,
        None => 0,
    }
}

/// The slot of a chunk in its region's tables.
pub fn local_index(chunk_x: i32, chunk_z: i32) -> (index: usize)
    ensures
        index == local_index_of(chunk_x as int, chunk_z as int),
        index < 1024,
{
    let col: i32 = match chunk_x.checked_rem_euclid(REGION_WIDTH) {
        Some(c) => c,
        None => 0,
    };
    let row: i32 = match chunk_z.checked_rem_euclid(REGION_WIDTH) {
        Some(r) => r,
        None => 0,
    };
    (col + row * 32) as usize
}

impl Location {
    /// Reads a location entry.
    pub fn parse(entry: u32) -> (r: Result<Option<Location>, ReadChunkError>)
        ensures
            outcome(r) == parse_location(entry),
    {
        if entry == 0 {
            return Ok(None);
        }
        let sector_offset: u32 = entry >> 8;
        let low: u32 = entry & 0xff;
        assert(entry >> 8 == entry / 256) by (bit_vector);
        assert(entry & 0xff == entry % 256) by (bit_vector);
        if sector_offset < 2 {
            return Err(ReadChunkError::BadSectorOffset);
        }
        Ok(Some(Location { sector_offset, sector_count: low as u8 }))
    }

    /// Cuts the payload at this location out of a region file's bytes.
    pub fn frame(&self, file: &[u8]) -> (r: Result<Vec<u8>, ReadChunkError>)
        ensures
            match r {
                Ok(payload) => frame_payload(file@, *self) == Ok::<Seq<u8>, Failure>(payload@),
                Err(e) => frame_payload(file@, *self) == Err::<Seq<u8>, Failure>(e@),
            },
    {
        let start: u64 = self.sector_offset as u64 * 4096;
        let len: usize = file.len();
        let at: usize = if start > len as u64 {
            len
        } else {
            start as usize
        };
        let rest = slice_subrange(file, at, len);
        let declared: usize = match read_u32_be(rest) {
            Ok(v) => v as usize,
            Err(e) => {
                return Err(ReadChunkError::Io(e));
            },
        };
        if declared > self.sector_count as usize * SECTOR_SIZE {
            return Err(ReadChunkError::BadChunkSize);
        }
        let body = slice_subrange(rest, 4, rest.len());
        match read_exact(body, declared) {
            Ok(payload) => {
                assert(payload@ =~= file@.subrange(start + 4, start + 4 + declared));
                Ok(payload)
            },
            Err(e) => Err(ReadChunkError::Io(e)),
        }
    }
}

/// Decodes a payload: picks the codec by the first byte, undoes it, and
/// reads the tree, which must take up all the bytes.
pub fn decode_payload(payload: &[u8]) -> (r: Result<Compound, ReadChunkError>)
    ensures
        outcome(r) == decode_payload_of(payload@),
{
    let tag: u8 = match read_u8(payload) {
        Ok(tag) => tag,
        Err(e) => {
            return Err(ReadChunkError::Io(e));
        },
    };
    let codec = match Codec::from_tag(tag) {
        Some(codec) => codec,
        None => {
            return Err(ReadChunkError::UnknownCompressionScheme(tag));
        },
    };
    let body = slice_subrange(payload, 1, payload.len());
    match codec {
        Codec::Uncompressed => decode_tree(body),
        _ => match codec.decompress(body) {
            Ok(raw) => decode_tree(raw.as_slice()),
            Err(e) => Err(e),
        },
    }
}

/// An open region file: its header, read once, and the bytes of the file.
#[derive(Debug)]
pub struct Region {
    header: Vec<u8>,
    contents: Vec<u8>,
}

impl View for Region {
    type V = Seq<u8>;

    /// The bytes of the file.
    closed spec fn view(&self) -> Seq<u8> {
        self.contents@
    }
}

impl Region {
    #[verifier::type_invariant]
    spec fn well_formed(self) -> bool {
        &&& self.contents@.len() >= HEADER_SIZE
        &&& self.header@ == self.contents@.subrange(0, HEADER_SIZE as int)
    }

    /// Takes a region file's bytes and reads the header from them. A file
    /// too short to hold the header is an I/O failure.
    pub fn open(contents: Vec<u8>) -> (r: Result<Region, ReadChunkError>)
        ensures
            match r {
                Ok(region) => contents@.len() >= HEADER_SIZE && region@ == contents@,
                Err(e) => contents@.len() < HEADER_SIZE && e@ == Failure::Io,
            },
    {
        match read_exact(contents.as_slice(), HEADER_SIZE) {
            Ok(header) => Ok(Region { header, contents }),
            Err(e) => Err(ReadChunkError::Io(e)),
        }
    }

    /// The location entry of a slot.
    pub fn location(&self, index: usize) -> (entry: u32)
        requires
            index < 1024,
        ensures
            entry == location_entry(self@, index as int),
    {
        proof {
            use_type_invariant(self);
        }
        let header = self.header.as_slice();
        let at = slice_subrange(header, index * 4, header.len());
        assert(at@ =~= self@.subrange(index * 4, HEADER_SIZE as int));
        match read_u32_be(at) {
            Ok(v) => v,
            Err(_) => 0,
        }
    }

    /// The timestamp of a slot, in seconds since the epoch.
    pub fn timestamp(&self, index: usize) -> (seconds: u32)
        requires
            index < 1024,
        ensures
            seconds == timestamp_entry(self@, index as int),
    {
        proof {
            use_type_invariant(self);
        }
        let header = self.header.as_slice();
        let at = slice_subrange(header, index * 4 + SECTOR_SIZE, header.len());
        assert(at@ =~= self@.subrange(index * 4 + SECTOR_SIZE as int, HEADER_SIZE as int));
        match read_u32_be(at) {
            Ok(v) => v,
            Err(_) => 0,
        }
    }

    /// Reads the chunk with the given coordinates from this region, which
    /// must be the region that holds them. `None` means that the region
    /// stores no such chunk.
    pub fn read_chunk(&self, chunk_x: i32, chunk_z: i32) -> (r: Result<
        Option<AnvilChunk>,
        ReadChunkError,
    >)
        ensures
            outcome(r) == read_chunk_at(self@, local_index_of(chunk_x as int, chunk_z as int)),
    {
        let index = local_index(chunk_x, chunk_z);
        let entry = self.location(index);
        let timestamp = self.timestamp(index);
        let location = match Location::parse(entry) {
            Ok(Some(location)) => location,
            Ok(None) => {
                return Ok(None);
            },
            Err(e) => {
                return Err(e);
            },
        };
        let payload = match location.frame(self.contents.as_slice()) {
            Ok(payload) => payload,
            Err(e) => {
                return Err(e);
            },
        };
        match decode_payload(payload.as_slice()) {
            Ok(data) => Ok(Some(AnvilChunk { data, timestamp })),
            Err(e) => Err(e),
        }
    }
}

/// A slot whose location entry is zero stores no chunk: reading it gives
/// `None` and never an error, whatever else the file holds.
pub proof fn lemma_zero_entry_is_absent(file: Seq<u8>, index: int)
    requires
        location_entry(file, index) == 0,
    ensures
        read_chunk_at(file, index) == Ok::<Option<AnvilChunk>, Failure>(None),
{
}

/// A location entry other than zero whose sector offset is under 2 is
/// always refused as a bad sector offset, whatever else the file holds.
pub proof fn lemma_offset_in_header_is_refused(file: Seq<u8>, index: int)
    requires
        location_entry(file, index) != 0,
        location_entry(file, index) / 256 < 2,
    ensures
        read_chunk_at(file, index) == Err::<Option<AnvilChunk>, Failure>(Failure::BadSectorOffset),
{
}

/// A payload whose length prefix declares more bytes than its sectors hold
/// is always refused as a bad chunk size, whatever the payload is.
pub proof fn lemma_oversized_payload_is_refused(file: Seq<u8>, index: int)
    requires
        location_entry(file, index) / 256 >= 2,
        file.len() >= (location_entry(file, index) / 256) * SECTOR_SIZE + 4,
        be_u32(
            file.subrange((location_entry(file, index) / 256) * SECTOR_SIZE, file.len() as int),
        ) > (location_entry(file, index) % 256) * SECTOR_SIZE,
    ensures
        read_chunk_at(file, index) == Err::<Option<AnvilChunk>, Failure>(Failure::BadChunkSize),
{
}

} // verus!
