use flate2::write::{GzEncoder, ZlibEncoder};
use flate2::Compression;
use piquant_world::region::{decode_payload, local_index, region_coord, Location};
use piquant_world::{Defect, Failure, PiquantWorld, Region, RegionFile, WorldState};
use std::io::Write;
use valence_nbt::{Compound, Value};

fn gzip(data: &[u8]) -> Vec<u8> {
    let mut encoder = GzEncoder::new(Vec::new(), Compression::default());
    encoder.write_all(data).unwrap();
    encoder.finish().unwrap()
}

fn zlib(data: &[u8]) -> Vec<u8> {
    let mut encoder = ZlibEncoder::new(Vec::new(), Compression::default());
    encoder.write_all(data).unwrap();
    encoder.finish().unwrap()
}

fn tree_bytes(tree: &Compound) -> Vec<u8> {
    let mut out = Vec::new();
    tree.to_binary(&mut out, "").unwrap();
    out
}

fn sample_tree() -> Compound {
    let mut tree = Compound::new();
    tree.insert("xPos", 3i32);
    tree.insert("Status", "full");
    tree
}

/// A region file with one chunk: the slot's entries in both tables, and at
/// `offset` sectors a length prefix of `declared` followed by `payload`.
fn region_with(
    index: usize,
    offset: u32,
    count: u8,
    timestamp: u32,
    declared: u32,
    payload: &[u8],
) -> Vec<u8> {
    let mut file = vec![0u8; 8192];
    let entry = (offset << 8) | count as u32;
    file[index * 4..index * 4 + 4].copy_from_slice(&entry.to_be_bytes());
    file[4096 + index * 4..4096 + index * 4 + 4].copy_from_slice(&timestamp.to_be_bytes());
    let start = offset as usize * 4096;
    if file.len() < start {
        file.resize(start, 0);
    }
    if start >= 8192 {
        file.extend_from_slice(&declared.to_be_bytes());
        file.extend_from_slice(payload);
    }
    file
}

fn payload(tag: u8, body: &[u8]) -> Vec<u8> {
    let mut out = vec![tag];
    out.extend_from_slice(body);
    out
}

fn world_with(region_x: i32, region_z: i32, file: Vec<u8>) -> PiquantWorld {
    let mut world = PiquantWorld::new();
    world.read_region(region_x, region_z, Some(file)).unwrap();
    world
}

#[test]
fn local_index_uses_euclidean_remainders() {
    assert_eq!(local_index(0, 0), 0);
    assert_eq!(local_index(31, 31), 1023);
    assert_eq!(local_index(32, 0), 0);
    assert_eq!(local_index(-1, 0), 31);
    assert_eq!(local_index(0, -1), 31 * 32);
    assert_eq!(local_index(-33, 65), 31 + 32);
    assert_eq!(local_index(i32::MIN, i32::MAX), 31 * 32);
}

#[test]
fn local_index_is_always_a_slot() {
    for x in [-100_000, -65, -33, -32, -1, 0, 1, 31, 32, 33, 1_000_003, i32::MIN, i32::MAX] {
        for z in [-100_000, -65, -33, -32, -1, 0, 1, 31, 32, 33, 1_000_003, i32::MIN, i32::MAX] {
            assert!(local_index(x, z) < 1024);
            assert_eq!(
                local_index(x, z),
                (x.rem_euclid(32) + z.rem_euclid(32) * 32) as usize
            );
        }
    }
}

#[test]
fn region_coord_rounds_down() {
    assert_eq!(region_coord(-1), -1);
    assert_eq!(region_coord(0), 0);
    assert_eq!(region_coord(31), 0);
    assert_eq!(region_coord(32), 1);
    assert_eq!(region_coord(-32), -1);
    assert_eq!(region_coord(-33), -2);
    assert_eq!(region_coord(i32::MIN), -67108864);
}

#[test]
fn location_entry_splits_into_offset_and_count() {
    assert_eq!(Location::parse(0).unwrap(), None);
    assert_eq!(
        Location::parse(0x0000_0201).unwrap(),
        Some(Location { sector_offset: 2, sector_count: 1 })
    );
    assert_eq!(
        Location::parse(0xabcd_ef12).unwrap(),
        Some(Location { sector_offset: 0xab_cdef, sector_count: 0x12 })
    );
    assert_eq!(
        Location::parse(0x0000_0200).unwrap(),
        Some(Location { sector_offset: 2, sector_count: 0 })
    );
}

#[test]
fn offset_below_two_is_bad_sector_offset() {
    for entry in [0x0000_0001u32, 0x0000_00ff, 0x0000_0100, 0x0000_0101, 0x0000_01ff] {
        assert_eq!(Location::parse(entry).unwrap_err().kind(), Failure::BadSectorOffset);
    }
}

#[test]
fn end_to_end_gzip_empty_tree() {
    let body = payload(1, &gzip(&tree_bytes(&Compound::new())));
    let file = region_with(0, 2, 1, 1_600_000_123, body.len() as u32, &body);
    let world = world_with(0, 0, file);
    let chunk = world.read_chunk(0, 0).unwrap().unwrap();
    assert_eq!(chunk.timestamp, 1_600_000_123);
    assert!(chunk.data.is_empty());
}

#[test]
fn reads_zlib_chunk_in_negative_region() {
    let tree = sample_tree();
    let body = payload(2, &zlib(&tree_bytes(&tree)));
    let index = local_index(-1, -32);
    assert_eq!(index, 31);
    let file = region_with(index, 3, 2, 0x0102_0304, body.len() as u32, &body);
    let world = world_with(-1, -1, file);
    let chunk = world.read_chunk(-1, -32).unwrap().unwrap();
    assert_eq!(chunk.timestamp, 0x0102_0304);
    assert_eq!(chunk.data, tree);
    assert_eq!(chunk.data.get("xPos"), Some(&Value::Int(3)));
    assert!(world.read_chunk(-2, -32).unwrap().is_none());
    assert!(world.read_chunk(0, 0).unwrap().is_none());
}

#[test]
fn reads_uncompressed_chunk() {
    let tree = sample_tree();
    let body = payload(3, &tree_bytes(&tree));
    let file = region_with(1023, 2, 1, 7, body.len() as u32, &body);
    let world = world_with(4, 5, file);
    let chunk = world.read_chunk(4 * 32 + 31, 5 * 32 + 31).unwrap().unwrap();
    assert_eq!(chunk.data, tree);
    assert_eq!(chunk.timestamp, 7);
}

#[test]
fn zero_entry_is_absent_whatever_follows() {
    let mut file = vec![0u8; 8192];
    file[4096..4100].copy_from_slice(&99u32.to_be_bytes());
    file.extend_from_slice(&[0xff; 5000]);
    let world = world_with(0, 0, file);
    assert!(world.read_chunk(0, 0).unwrap().is_none());
    assert!(world.read_chunk(17, 9).unwrap().is_none());
}

#[test]
fn chunk_of_a_region_that_is_not_open_is_absent() {
    let world = PiquantWorld::new();
    assert!(world.read_chunk(0, 0).unwrap().is_none());
    assert!(world.read_chunk(-500, 123).unwrap().is_none());
}

#[test]
fn entry_pointing_into_the_header_is_refused() {
    let mut file = vec![0u8; 3 * 4096];
    file[0..4].copy_from_slice(&0x0000_0101u32.to_be_bytes());
    let world = world_with(0, 0, file);
    assert_eq!(world.read_chunk(0, 0).unwrap_err().kind(), Failure::BadSectorOffset);
    let mut file = vec![0u8; 8192];
    file[0..4].copy_from_slice(&0x0000_0005u32.to_be_bytes());
    let world = world_with(0, 0, file);
    assert_eq!(world.read_chunk(0, 0).unwrap_err().kind(), Failure::BadSectorOffset);
}

#[test]
fn declared_length_beyond_the_sectors_is_bad_chunk_size() {
    let body = payload(3, &tree_bytes(&sample_tree()));
    let file = region_with(0, 2, 1, 0, 4097, &body);
    let world = world_with(0, 0, file);
    assert_eq!(world.read_chunk(0, 0).unwrap_err().kind(), Failure::BadChunkSize);
    let file = region_with(0, 2, 0, 0, 1, &body);
    let world = world_with(0, 0, file);
    assert_eq!(world.read_chunk(0, 0).unwrap_err().kind(), Failure::BadChunkSize);
}

#[test]
fn declared_length_of_exactly_the_sectors_is_accepted() {
    let mut body = payload(3, &tree_bytes(&sample_tree()));
    let used = body.len();
    body.resize(4096, 0);
    let file = region_with(0, 2, 1, 0, 4096, &body);
    let world = world_with(0, 0, file);
    assert!(used < 4096);
    assert_eq!(world.read_chunk(0, 0).unwrap_err().kind(), Failure::IncompleteNbtRead);
}

#[test]
fn unknown_codec_tag_is_reported_with_the_tag() {
    for tag in [0u8, 4, 7, 255] {
        let body = payload(tag, &tree_bytes(&sample_tree()));
        let file = region_with(0, 2, 1, 0, body.len() as u32, &body);
        let world = world_with(0, 0, file);
        assert_eq!(
            world.read_chunk(0, 0).unwrap_err().kind(),
            Failure::UnknownCompressionScheme(tag)
        );
    }
}

#[test]
fn file_that_ends_early_is_an_io_failure() {
    let body = payload(3, &tree_bytes(&sample_tree()));
    let whole = region_with(0, 2, 1, 0, body.len() as u32, &body);
    for keep in [8192, 8194, 8196, whole.len() - 1] {
        let world = world_with(0, 0, whole[..keep].to_vec());
        assert_eq!(world.read_chunk(0, 0).unwrap_err().kind(), Failure::Io);
    }
    let far = region_with(0, 200, 1, 0, 0, &[]);
    let world = world_with(0, 0, far[..8192].to_vec());
    assert_eq!(world.read_chunk(0, 0).unwrap_err().kind(), Failure::Io);
}

#[test]
fn empty_payload_is_an_io_failure() {
    let file = region_with(0, 2, 1, 0, 0, &[]);
    let world = world_with(0, 0, file);
    assert_eq!(world.read_chunk(0, 0).unwrap_err().kind(), Failure::Io);
}

#[test]
fn broken_stream_is_an_io_failure() {
    for tag in [1u8, 2] {
        let body = payload(tag, &[1, 2, 3, 4, 5, 6, 7, 8, 9, 10, 11, 12]);
        let file = region_with(0, 2, 1, 0, body.len() as u32, &body);
        let world = world_with(0, 0, file);
        assert_eq!(world.read_chunk(0, 0).unwrap_err().kind(), Failure::Io);
    }
}

#[test]
fn malformed_tree_is_a_decode_failure() {
    let body = payload(3, &[10, 0, 0, 3, 0, 1]);
    let file = region_with(0, 2, 1, 0, body.len() as u32, &body);
    let world = world_with(0, 0, file);
    assert_eq!(world.read_chunk(0, 0).unwrap_err().kind(), Failure::Nbt(Defect::Malformed));
    let body = payload(1, &gzip(&[99, 1, 2]));
    let file = region_with(0, 2, 1, 0, body.len() as u32, &body);
    let world = world_with(0, 0, file);
    assert_eq!(world.read_chunk(0, 0).unwrap_err().kind(), Failure::Nbt(Defect::Malformed));
}

#[test]
fn bytes_after_the_tree_make_the_read_incomplete() {
    let mut raw = tree_bytes(&sample_tree());
    raw.push(0);
    for (tag, body) in [(1u8, gzip(&raw)), (2, zlib(&raw)), (3, raw.clone())] {
        let body = payload(tag, &body);
        let file = region_with(0, 2, 1, 0, body.len() as u32, &body);
        let world = world_with(0, 0, file);
        assert_eq!(world.read_chunk(0, 0).unwrap_err().kind(), Failure::IncompleteNbtRead);
    }
}

#[test]
fn decode_payload_undoes_each_codec() {
    let tree = sample_tree();
    let raw = tree_bytes(&tree);
    assert_eq!(decode_payload(&payload(1, &gzip(&raw))).unwrap(), tree);
    assert_eq!(decode_payload(&payload(2, &zlib(&raw))).unwrap(), tree);
    assert_eq!(decode_payload(&payload(3, &raw)).unwrap(), tree);
    assert_eq!(decode_payload(&payload(2, &gzip(&raw))).unwrap_err().kind(), Failure::Io);
    assert_eq!(decode_payload(&[]).unwrap_err().kind(), Failure::Io);
}

#[test]
fn region_tables_are_read_big_endian() {
    let mut file = vec![0u8; 8192];
    file[8..12].copy_from_slice(&[0x01, 0x02, 0x03, 0x04]);
    file[4096 + 8..4096 + 12].copy_from_slice(&[0xa1, 0xb2, 0xc3, 0xd4]);
    let region = Region::open(file).unwrap();
    assert_eq!(region.location(2), 0x0102_0304);
    assert_eq!(region.timestamp(2), 0xa1b2_c3d4);
    assert_eq!(region.location(3), 0);
    assert_eq!(region.timestamp(1023), 0);
}

#[test]
fn region_file_shorter_than_the_header_does_not_open() {
    assert_eq!(Region::open(vec![0u8; 8191]).unwrap_err().kind(), Failure::Io);
    assert_eq!(Region::open(Vec::new()).unwrap_err().kind(), Failure::Io);
    assert!(Region::open(vec![0u8; 8192]).is_ok());
    let mut world = PiquantWorld::new();
    assert_eq!(
        world.read_region(0, 0, Some(vec![0u8; 100])).unwrap_err().kind(),
        Failure::Io
    );
    assert!(!world.regions.contains(0, 0));
}

#[test]
fn missing_region_file_opens_nothing() {
    let mut world = PiquantWorld::new();
    world.read_region(3, -4, None).unwrap();
    assert!(!world.regions.contains(3, -4));
    assert!(world.read_chunk(3 * 32, -4 * 32).unwrap().is_none());
}

#[test]
fn open_region_is_not_read_again() {
    let body = payload(3, &tree_bytes(&sample_tree()));
    let file = region_with(0, 2, 1, 11, body.len() as u32, &body);
    let mut world = world_with(0, 0, file);
    world.read_region(0, 0, Some(vec![0u8; 8192])).unwrap();
    world.read_region(0, 0, Some(vec![0u8; 3])).unwrap();
    assert_eq!(world.read_chunk(0, 0).unwrap().unwrap().timestamp, 11);
    assert!(world.regions.contains(0, 0));
    assert!(!world.regions.contains(0, 1));
}

#[test]
fn read_all_opens_each_named_region() {
    let body = payload(3, &tree_bytes(&sample_tree()));
    let first = region_with(0, 2, 1, 21, body.len() as u32, &body);
    let second = region_with(0, 2, 1, 22, body.len() as u32, &body);
    let mut world = PiquantWorld::new();
    world
        .read_all(vec![
            RegionFile { name: "r.0.0.mca".to_string(), contents: first },
            RegionFile { name: "r.-1.2.mca".to_string(), contents: second },
            RegionFile { name: "r.0.0.mca".to_string(), contents: vec![0u8; 8192] },
        ])
        .unwrap();
    assert_eq!(world.read_chunk(0, 0).unwrap().unwrap().timestamp, 21);
    assert_eq!(world.read_chunk(-32, 64).unwrap().unwrap().timestamp, 22);
    assert!(world.regions.contains(-1, 2));
}

#[test]
fn read_all_stops_at_the_first_file_that_fails() {
    let mut world = PiquantWorld::new();
    let err = world
        .read_all(vec![
            RegionFile { name: "r.1.1.mca".to_string(), contents: vec![0u8; 8192] },
            RegionFile { name: "r.2.2.mca".to_string(), contents: vec![0u8; 10] },
            RegionFile { name: "r.3.3.mca".to_string(), contents: vec![0u8; 8192] },
        ])
        .unwrap_err();
    assert_eq!(err.kind(), Failure::Io);
    assert!(world.regions.contains(1, 1));
    assert!(!world.regions.contains(2, 2));
    assert!(!world.regions.contains(3, 3));
}

#[test]
fn only_the_declared_bytes_are_the_payload() {
    let tree = sample_tree();
    let body = payload(3, &tree_bytes(&tree));
    let mut file = region_with(5, 2, 2, 31, body.len() as u32, &body);
    file.extend_from_slice(&[0xaa; 6000]);
    let world = world_with(0, 0, file);
    let chunk = world.read_chunk(5, 0).unwrap().unwrap();
    assert_eq!(chunk.data, tree);
    assert_eq!(chunk.timestamp, 31);
}

#[test]
fn payload_is_cut_out_of_the_file_at_its_sector() {
    let mut file = vec![0u8; 3 * 4096];
    file[2 * 4096..2 * 4096 + 4].copy_from_slice(&5u32.to_be_bytes());
    file[2 * 4096 + 4..2 * 4096 + 9].copy_from_slice(&[9, 8, 7, 6, 5]);
    let location = Location { sector_offset: 2, sector_count: 1 };
    assert_eq!(location.frame(&file).unwrap(), vec![9, 8, 7, 6, 5]);
    let beyond = Location { sector_offset: 3, sector_count: 1 };
    assert_eq!(beyond.frame(&file).unwrap_err().kind(), Failure::Io);
    let far = Location { sector_offset: 0xff_ffff, sector_count: 255 };
    assert_eq!(far.frame(&file).unwrap_err().kind(), Failure::Io);
    let small = Location { sector_offset: 2, sector_count: 0 };
    assert_eq!(small.frame(&file).unwrap_err().kind(), Failure::BadChunkSize);
}
