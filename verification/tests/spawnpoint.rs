use flate2::write::{GzEncoder, ZlibEncoder};
use flate2::Compression;
use piquant_world::world_state::{decode_spawnpoint, extract_spawn, spawn_from_fields};
use piquant_world::{
    DecodeError, Defect, Failure, LevelField, PiquantWorld, ReadChunkError, SpawnPoint, WorldState,
};
use std::io::Write;
use valence_nbt::Compound;

fn gzip(data: &[u8]) -> Vec<u8> {
    let mut encoder = GzEncoder::new(Vec::new(), Compression::default());
    encoder.write_all(data).unwrap();
    encoder.finish().unwrap()
}

fn tree_bytes(tree: &Compound) -> Vec<u8> {
    let mut out = Vec::new();
    tree.to_binary(&mut out, "").unwrap();
    out
}

fn level(x: i32, y: i32, z: i32) -> Compound {
    let mut data = Compound::new();
    data.insert("SpawnX", x);
    data.insert("SpawnY", y);
    data.insert("SpawnZ", z);
    data.insert("LevelName", "world");
    let mut root = Compound::new();
    root.insert("Data", data);
    root
}

#[test]
fn spawn_is_read_from_the_data_compound() {
    assert_eq!(extract_spawn(&level(1, 64, -3)).unwrap(), SpawnPoint { x: 1, y: 64, z: -3 });
    assert_eq!(
        extract_spawn(&level(i32::MIN, 0, i32::MAX)).unwrap(),
        SpawnPoint { x: i32::MIN, y: 0, z: i32::MAX }
    );
}

#[test]
fn spawn_is_read_from_a_gzipped_file() {
    let file = gzip(&tree_bytes(&level(-120, 70, 2048)));
    assert_eq!(decode_spawnpoint(&file).unwrap(), SpawnPoint { x: -120, y: 70, z: 2048 });
    let mut world = PiquantWorld::new();
    assert!(world.spawn.is_none());
    world.read_spawnpoint(&file).unwrap();
    assert_eq!(world.spawn, Some(SpawnPoint { x: -120, y: 70, z: 2048 }));
    assert!(world.seed.is_none());
}

#[test]
fn bytes_after_the_metadata_tree_are_ignored() {
    let mut raw = tree_bytes(&level(5, 6, 7));
    raw.extend_from_slice(&[1, 2, 3]);
    assert_eq!(decode_spawnpoint(&gzip(&raw)).unwrap(), SpawnPoint { x: 5, y: 6, z: 7 });
}

#[test]
fn missing_data_compound_is_a_typed_error() {
    let mut root = Compound::new();
    root.insert("Other", 1i32);
    assert_eq!(
        extract_spawn(&root).unwrap_err().kind(),
        Failure::Nbt(Defect::MissingField(LevelField::Data))
    );
    let mut root = Compound::new();
    root.insert("Data", 5i32);
    assert_eq!(
        extract_spawn(&root).unwrap_err().kind(),
        Failure::Nbt(Defect::MissingField(LevelField::Data))
    );
    assert_eq!(
        extract_spawn(&Compound::new()).unwrap_err().kind(),
        Failure::Nbt(Defect::MissingField(LevelField::Data))
    );
}

#[test]
fn missing_coordinate_is_a_typed_error() {
    for (key, field) in [
        ("SpawnX", LevelField::SpawnX),
        ("SpawnY", LevelField::SpawnY),
        ("SpawnZ", LevelField::SpawnZ),
    ] {
        let mut root = level(1, 2, 3);
        let data = root.get_mut("Data").unwrap().as_compound_mut().unwrap();
        data.remove(key);
        assert_eq!(extract_spawn(&root).unwrap_err().kind(), Failure::Nbt(Defect::MissingField(field)));
    }
}

#[test]
fn coordinate_of_another_type_is_a_typed_error() {
    let mut root = level(1, 2, 3);
    let data = root.get_mut("Data").unwrap().as_compound_mut().unwrap();
    data.insert("SpawnY", 64i64);
    assert_eq!(
        extract_spawn(&root).unwrap_err().kind(),
        Failure::Nbt(Defect::MissingField(LevelField::SpawnY))
    );
    let mut root = level(1, 2, 3);
    let data = root.get_mut("Data").unwrap().as_compound_mut().unwrap();
    data.insert("SpawnX", "1");
    data.remove("SpawnZ");
    assert_eq!(
        extract_spawn(&root).unwrap_err().kind(),
        Failure::Nbt(Defect::MissingField(LevelField::SpawnX))
    );
}

#[test]
fn metadata_that_is_not_gzip_is_an_io_failure() {
    let raw = tree_bytes(&level(1, 2, 3));
    assert_eq!(decode_spawnpoint(&raw).unwrap_err().kind(), Failure::Io);
    let mut encoder = ZlibEncoder::new(Vec::new(), Compression::default());
    encoder.write_all(&raw).unwrap();
    let zlibbed = encoder.finish().unwrap();
    assert_eq!(decode_spawnpoint(&zlibbed).unwrap_err().kind(), Failure::Io);
    assert_eq!(decode_spawnpoint(&[]).unwrap_err().kind(), Failure::Io);
}

#[test]
fn metadata_that_is_no_tree_is_a_decode_failure() {
    assert_eq!(decode_spawnpoint(&gzip(&[10, 0, 0, 3])).unwrap_err().kind(), Failure::Nbt(Defect::Malformed));
    assert_eq!(decode_spawnpoint(&gzip(&[])).unwrap_err().kind(), Failure::Nbt(Defect::Malformed));
}

#[test]
fn failed_read_leaves_the_spawn_as_it_was() {
    let mut world = PiquantWorld::new();
    world.read_spawnpoint(&gzip(&tree_bytes(&level(9, 8, 7)))).unwrap();
    let err = world.read_spawnpoint(&gzip(&tree_bytes(&Compound::new()))).unwrap_err();
    assert_eq!(err.kind(), Failure::Nbt(Defect::MissingField(LevelField::Data)));
    assert_eq!(world.spawn, Some(SpawnPoint { x: 9, y: 8, z: 7 }));
}

#[test]
fn first_missing_field_is_named() {
    assert_eq!(
        spawn_from_fields(true, Some(1), Some(2), Some(3)).unwrap(),
        SpawnPoint { x: 1, y: 2, z: 3 }
    );
    assert_eq!(
        spawn_from_fields(false, Some(1), Some(2), Some(3)).unwrap_err().kind(),
        Failure::Nbt(Defect::MissingField(LevelField::Data))
    );
    assert_eq!(
        spawn_from_fields(true, None, None, Some(3)).unwrap_err().kind(),
        Failure::Nbt(Defect::MissingField(LevelField::SpawnX))
    );
    assert_eq!(
        spawn_from_fields(true, Some(1), None, None).unwrap_err().kind(),
        Failure::Nbt(Defect::MissingField(LevelField::SpawnY))
    );
    assert_eq!(
        spawn_from_fields(true, Some(1), Some(2), None).unwrap_err().kind(),
        Failure::Nbt(Defect::MissingField(LevelField::SpawnZ))
    );
}

#[test]
fn a_missing_field_is_a_decode_error_that_names_the_field() {
    let err = extract_spawn(&Compound::new()).unwrap_err();
    match &err {
        ReadChunkError::Nbt(DecodeError::MissingField(field)) => {
            assert_eq!(*field, LevelField::Data)
        }
        other => panic!("{:?}", other),
    }
    match &err {
        ReadChunkError::Nbt(cause) => {
            assert_eq!(cause.kind(), Defect::MissingField(LevelField::Data))
        }
        other => panic!("{:?}", other),
    }
    let err = decode_spawnpoint(&gzip(&[10, 0, 0, 3])).unwrap_err();
    match &err {
        ReadChunkError::Nbt(cause) => {
            assert!(matches!(cause, DecodeError::Malformed(_)));
            assert_eq!(cause.kind(), Defect::Malformed);
        }
        other => panic!("{:?}", other),
    }
    assert_eq!(
        ReadChunkError::missing(LevelField::SpawnZ).kind(),
        Failure::Nbt(Defect::MissingField(LevelField::SpawnZ))
    );
}
