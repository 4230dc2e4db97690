//! The world on disk: its region files and its metadata.

use crate::codec::{gzip_decode, gzip_inflate};
use crate::error::{Defect, Failure, LevelField, ReadChunkError};
use crate::file_name::{get_region_coords_from_file_name, region_coords};
use crate::nbt::{
    as_compound, as_int, compound_get, from_binary, get, nbt_decode, value_as_compound,
    value_as_int,
};
use crate::region::{
    local_index_of, outcome, read_chunk_at, region_coord, region_coord_of, AnvilChunk, Region,
    HEADER_SIZE,
};
use crate::seed::Seed;
use std::collections::BTreeMap;
use valence_nbt::Compound;
use vstd::prelude::*;

verus! {

/// Where players enter the world, in whole blocks.
#[derive(Clone, Copy, Debug, PartialEq, Eq, Structural)]
pub struct SpawnPoint {
    pub x: i32,
    pub y: i32,
    pub z: i32,
}

/// The 32-bit integer that a compound holds under a key.
pub open spec fn int_field(tree: Compound, key: Seq<char>) -> Option<i32> {
    match compound_get(tree, key) {
        Some(value) => value_as_int(value),
        None => None,
    }
}

/// The compound that a compound holds under a key.
pub open spec fn compound_field(tree: Compound, key: Seq<char>) -> Option<Compound> {
    match compound_get(tree, key) {
        Some(value) => value_as_compound(value),
        None => None,
    }
}

/// The spawn point that the fields of a metadata tree give: whether the
/// tree holds the compound `Data`, and the three coordinates as that
/// compound holds them. The first of these that is missing is the failure.
pub open spec fn spawn_of_fields(
    data: bool,
    x: Option<i32>,
    y: Option<i32>,
    z: Option<i32>,
) -> Result<SpawnPoint, Failure> {
    if !data {
        Err(Failure::Nbt(Defect::MissingField(LevelField::Data)))
    } else if x is None {
        Err(Failure::Nbt(Defect::MissingField(LevelField::SpawnX)))
    } else if y is None {
        Err(Failure::Nbt(Defect::MissingField(LevelField::SpawnY)))
    } else if z is None {
        Err(Failure::Nbt(Defect::MissingField(LevelField::SpawnZ)))
    } else {
        Ok(SpawnPoint { x: x->Some_0, y: y->Some_0, z: z->Some_0 })
    }
}

/// The spawn point in a metadata tree: the integers `SpawnX`, `SpawnY` and
/// `SpawnZ` of the compound `Data`. A field that is there with another
/// type counts as missing.
pub open spec fn spawn_in(tree: Compound) -> Result<SpawnPoint, Failure> {
    match compound_field(tree, "Data"@) {
        None => spawn_of_fields(false, None, None, None),
        Some(data) => spawn_of_fields(
            true,
            int_field(data, "SpawnX"@),
            int_field(data, "SpawnY"@),
            int_field(data, "SpawnZ"@),
        ),
    }
}

/// The spawn point in the bytes of a metadata file: a gzip stream that
/// holds a tree.
pub open spec fn spawnpoint_of(level_dat: Seq<u8>) -> Result<SpawnPoint, Failure> {
    match gzip_inflate(level_dat) {
        None => Err(Failure::Io),
        Some(raw) => match nbt_decode(raw) {
            None => Err(Failure::Nbt(Defect::Malformed)),
            Some((tree, _)) => spawn_in(tree),
        },
    }
}

/// The chunk with the given coordinates among the region files given by
/// their bytes. A chunk whose region file is not there is not stored.
pub open spec fn read_chunk_in(
    regions: Map<(i32, i32), Seq<u8>>,
    chunk_x: int,
    chunk_z: int,
) -> Result<Option<AnvilChunk>, Failure> {
    let key = (region_coord_of(chunk_x) as i32, region_coord_of(chunk_z) as i32);
    if regions.contains_key(key) {
        read_chunk_at(regions[key], local_index_of(chunk_x, chunk_z))
    } else {
        Ok(None)
    }
}

/// A region file as it was found in the region directory.
pub struct RegionFile {
    /// The file's name.
    pub name: String,
    /// The bytes of the file.
    pub contents: Vec<u8>,
}

/// The region coordinates that a file name gives.
pub open spec fn coords_of_name(name: Seq<char>) -> Option<(i32, i32)> {
    region_coords(vstd::utf8::encode_utf8(name))
}

/// The open regions once the region at `key` has been asked for. A region
/// that is open stays as it is. One that is not is opened from its file,
/// which must hold the header; a file that is not there opens nothing.
pub open spec fn open_region(
    regions: Map<(i32, i32), Seq<u8>>,
    key: (i32, i32),
    file: Option<Seq<u8>>,
) -> Result<Map<(i32, i32), Seq<u8>>, Failure> {
    match file {
        Some(contents) => if regions.contains_key(key) {
            Ok(regions)
        } else if contents.len() >= HEADER_SIZE {
            Ok(regions.insert(key, contents))
        } else {
            Err(Failure::Io)
        },
        None => Ok(regions),
    }
}

/// The bytes of a file that may not be there.
pub open spec fn bytes_of(file: Option<Vec<u8>>) -> Option<Seq<u8>> {
    match file {
        Some(contents) => Some(contents@),
        None => None,
    }
}

/// The open regions once the files from number `from` on have been opened
/// in turn, and the failure that stopped the opening, if one did. Every
/// file's name must name a region.
pub open spec fn open_all(
    regions: Map<(i32, i32), Seq<u8>>,
    files: Seq<RegionFile>,
    from: int,
) -> (Map<(i32, i32), Seq<u8>>, Option<Failure>)
    decreases files.len() - from,
{
    if from < 0 || from >= files.len() {
        (regions, None)
    } else {
        match open_region(
            regions,
            coords_of_name(files[from].name@)->Some_0,
            Some(files[from].contents@),
        ) {
            Ok(opened) => open_all(opened, files, from + 1),
            Err(f) => (regions, Some(f)),
        }
    }
}

fn int_of(tree: &Compound, key: &str) -> (r: Option<i32>)
    ensures
        r == int_field(*tree, key@),
{
    match get(tree, key) {
        Some(value) => as_int(value),
        None => None,
    }
}

/// Puts the spawn point together from the fields of a metadata tree, or
/// names the first field that is missing.
pub fn spawn_from_fields(data: bool, x: Option<i32>, y: Option<i32>, z: Option<i32>) -> (r: Result<
    SpawnPoint,
    ReadChunkError,
>)
    ensures
        outcome(r) == spawn_of_fields(data, x, y, z),
{
    if !data {
        return Err(ReadChunkError::missing(LevelField::Data));
    }
    let x: i32 = match x {
        Some(x) => x,
        None => {
            return Err(ReadChunkError::missing(LevelField::SpawnX));
        },
    };
    let y: i32 = match y {
        Some(y) => y,
        None => {
            return Err(ReadChunkError::missing(LevelField::SpawnY));
        },
    };
    let z: i32 = match z {
        Some(z) => z,
        None => {
            return Err(ReadChunkError::missing(LevelField::SpawnZ));
        },
    };
    Ok(SpawnPoint { x, y, z })
}

fn compound_of<'a>(tree: &'a Compound, key: &str) -> (r: Option<&'a Compound>)
    ensures
        r matches Some(c) ==> compound_field(*tree, key@) == Some(*c),
        r is None ==> compound_field(*tree, key@) is None,
{
    match get(tree, key) {
        Some(value) => as_compound(value),
        None => None,
    }
}

/// Reads the spawn point out of a decoded metadata tree.
pub fn extract_spawn(tree: &Compound) -> (r: Result<SpawnPoint, ReadChunkError>)
    ensures
        outcome(r) == spawn_in(*tree),
{
    match compound_of(tree, "Data") {
        Some(data) => spawn_from_fields(
            true,
            int_of(data, "SpawnX"),
            int_of(data, "SpawnY"),
            int_of(data, "SpawnZ"),
        ),
        None => spawn_from_fields(false, None, None, None),
    }
}

/// Reads the spawn point out of the bytes of a metadata file.
pub fn decode_spawnpoint(level_dat: &[u8]) -> (r: Result<SpawnPoint, ReadChunkError>)
    ensures
        outcome(r) == spawnpoint_of(level_dat@),
{
    let raw = match gzip_decode(level_dat) {
        Ok(raw) => raw,
        Err(e) => {
            return Err(ReadChunkError::Io(e));
        },
    };
    match from_binary(raw.as_slice()) {
        Ok((tree, _)) => extract_spawn(&tree),
        Err(e) => Err(ReadChunkError::malformed(e)),
    }
}

/// The operations of a world on disk. What reaches them are the bytes of
/// the files; finding and reading the files is the caller's part.
pub trait WorldState: Sized {
    /// A world with no region open and no metadata read.
    fn new() -> Self;

    /// Reads the spawn point from the bytes of the world's metadata file.
    fn read_spawnpoint(&mut self, level_dat: &[u8]) -> Result<(), ReadChunkError>;

    /// Opens a region from its file, unless it is open already. `None`
    /// stands for a file that does not exist.
    fn read_region(&mut self, region_x: i32, region_z: i32, file: Option<Vec<u8>>) -> Result<
        (),
        ReadChunkError,
    >;

    /// Opens the regions of all the files of the region directory, in
    /// turn, and stops at the first that fails.
    fn read_all(&mut self, files: Vec<RegionFile>) -> Result<(), ReadChunkError>
        requires
            forall|i: int|
                0 <= i < files@.len() ==> coords_of_name((#[trigger] files@[i]).name@) is Some,
    ;

    /// Reads a chunk from the open regions.
    fn read_chunk(&self, chunk_x: i32, chunk_z: i32) -> Result<Option<AnvilChunk>, ReadChunkError>;
}

/// The region files opened so far, by region coordinates. A region stays
/// open once it is.
pub struct RegionStore {
    regions: BTreeMap<(i32, i32), Region>,
}

impl View for RegionStore {
    type V = Map<(i32, i32), Seq<u8>>;

    /// The bytes of each open region file.
    closed spec fn view(&self) -> Map<(i32, i32), Seq<u8>> {
        self.regions@.map_values(|region: Region| region@)
    }
}

impl RegionStore {
    /// A store with no region open.
    pub fn new() -> (store: RegionStore)
        ensures
            store@ == Map::<(i32, i32), Seq<u8>>::empty(),
    {
        let store = RegionStore { regions: BTreeMap::new() };
        assert(store@ =~= Map::<(i32, i32), Seq<u8>>::empty());
        store
    }

    /// Whether the region with these coordinates is open.
    pub fn contains(&self, region_x: i32, region_z: i32) -> (open: bool)
        ensures
            open == self@.contains_key((region_x, region_z)),
    {
        self.get(region_x, region_z).is_some()
    }

    /// The open region with these coordinates.
    pub fn get(&self, region_x: i32, region_z: i32) -> (r: Option<&Region>)
        ensures
            match r {
                Some(region) => self@.contains_key((region_x, region_z)) && self@[(
                    region_x,
                    region_z,
                )] == region@,
                None => !self@.contains_key((region_x, region_z)),
            },
    {
        broadcast use vstd::std_specs::btree::group_btree_axioms;
        broadcast use vstd::laws_cmp::group_laws_cmp;

        self.regions.get(&(region_x, region_z))
    }

    /// Keeps a region under its coordinates, in place of any that was there.
    pub fn insert(&mut self, region_x: i32, region_z: i32, region: Region)
        ensures
            final(self)@ == old(self)@.insert((region_x, region_z), region@),
    {
        broadcast use vstd::std_specs::btree::group_btree_axioms;
        broadcast use vstd::laws_cmp::group_laws_cmp;

        self.regions.insert((region_x, region_z), region);
        assert(final(self)@ =~= old(self)@.insert((region_x, region_z), region@));
    }
}

/// A world on disk: the region files opened so far, and what the metadata
/// file said.
pub struct PiquantWorld {
    pub regions: RegionStore,
    pub spawn: Option<SpawnPoint>,
    pub seed: Option<Seed>,
}

impl WorldState for PiquantWorld {
    fn new() -> (world: Self)
        ensures
            world.regions@ == Map::<(i32, i32), Seq<u8>>::empty(),
            world.spawn is None,
            world.seed is None,
    {
        PiquantWorld { regions: RegionStore::new(), spawn: None, seed: None }
    }

    fn read_spawnpoint(&mut self, level_dat: &[u8]) -> (r: Result<(), ReadChunkError>)
        ensures
            final(self).regions@ == old(self).regions@,
            final(self).seed == old(self).seed,
            match spawnpoint_of(level_dat@) {
                Ok(point) => r is Ok && final(self).spawn == Some(point),
                Err(f) => {
                    &&& outcome(r) == Err::<(), Failure>(f)
                    &&& final(self).spawn == old(self).spawn
                },
            },
    {
        match decode_spawnpoint(level_dat) {
            Ok(point) => {
                self.spawn = Some(point);
                Ok(())
            },
            Err(e) => Err(e),
        }
    }

    fn read_region(&mut self, region_x: i32, region_z: i32, file: Option<Vec<u8>>) -> (r: Result<
        (),
        ReadChunkError,
    >)
        ensures
            final(self).spawn == old(self).spawn,
            final(self).seed == old(self).seed,
            match open_region(old(self).regions@, (region_x, region_z), bytes_of(file)) {
                Ok(opened) => r is Ok && final(self).regions@ == opened,
                Err(f) => {
                    &&& outcome(r) == Err::<(), Failure>(f)
                    &&& final(self).regions@ == old(self).regions@
                },
            },
    {
        if self.regions.contains(region_x, region_z) {
            return Ok(());
        }
        let contents = match file {
            Some(contents) => contents,
            None => {
                return Ok(());
            },
        };
        match Region::open(contents) {
            Ok(region) => {
                self.regions.insert(region_x, region_z, region);
                Ok(())
            },
            Err(e) => Err(e),
        }
    }

    fn read_all(&mut self, files: Vec<RegionFile>) -> (r: Result<(), ReadChunkError>)
        ensures
            final(self).spawn == old(self).spawn,
            final(self).seed == old(self).seed,
            final(self).regions@ == open_all(old(self).regions@, files@, 0).0,
            match open_all(old(self).regions@, files@, 0).1 {
                None => r is Ok,
                Some(f) => outcome(r) == Err::<(), Failure>(f),
            },
    {
        let ghost all = files@;
        let mut rest = files;
        let ghost mut done: int = 0;
        while rest.len() > 0
            invariant
                0 <= done <= all.len(),
                all == files@,
                rest@ == all.subrange(done, all.len() as int),
                forall|i: int|
                    0 <= i < all.len() ==> coords_of_name((#[trigger] all[i]).name@) is Some,
                self.spawn == old(self).spawn,
                self.seed == old(self).seed,
                open_all(old(self).regions@, all, 0) == open_all(self.regions@, all, done),
            decreases rest@.len(),
        {
            let file = rest.remove(0);
            assert(file == all[done]);
            let coords = get_region_coords_from_file_name(file.name.as_str());
            let ghost before = self.regions@;
            let ghost step = open_region(before, coords, Some(file.contents@));
            assert(open_all(before, all, done) == match step {
                Ok(opened) => open_all(opened, all, done + 1),
                Err(f) => (before, Some(f)),
            });
            match self.read_region(coords.0, coords.1, Some(file.contents)) {
                Ok(()) => {},
                Err(e) => {
                    return Err(e);
                },
            }
            proof {
                assert(rest@ =~= all.subrange(done + 1, all.len() as int));
                done = done + 1;
            }
        }
        Ok(())
    }

    fn read_chunk(&self, chunk_x: i32, chunk_z: i32) -> (r: Result<
        Option<AnvilChunk>,
        ReadChunkError,
    >)
        ensures
            outcome(r) == read_chunk_in(self.regions@, chunk_x as int, chunk_z as int),
    {
        match self.regions.get(region_coord(chunk_x), region_coord(chunk_z)) {
            Some(region) => region.read_chunk(chunk_x, chunk_z),
            None => Ok(None),
        }
    }
}

} // verus!
