//! The world generator: which chunks are kept loaded, when they are let
//! go, and what terrain goes into them.

use crate::chunk::{generated_from, in_view, ChunkPos};
use crate::chunk_state::ChunkState;
use crate::chunks::{is_shell, next_tick, same_elsewhere, swept, touched, Chunks, LoadedChunk};
use crate::seed::Seed;
use crate::terrain::{all_in_range, Block, LevelSample};
use vstd::prelude::*;

verus! {

/// The generator of a world. Its five noise fields are each seeded from
/// the world's seed, at the offsets 0 to 4.
pub struct WorldGen {
    /// The world's seed.
    pub seed: Seed,
    /// Seed of the field that gives the terrain its large shape.
    pub density_seed: u32,
    /// Seed of the field that says how hilly a place is.
    pub hilly_seed: u32,
    /// Seed of the field that says how deep the soil is.
    pub stone_seed: u32,
    /// Seed of the field that moves the gravel line.
    pub gravel_seed: u32,
    /// Seed of the field that says where grass grows.
    pub grass_seed: u32,
    /// How many ticks a chunk may go untouched before it is let go.
    pub chunk_unload_delay: u64,
}

/// Whether `seen` holds `p` among its first `k` positions.
pub open spec fn among(seen: Seq<ChunkPos>, k: int, p: ChunkPos) -> bool {
    exists|j: int| 0 <= j < k && j < seen.len() && #[trigger] seen[j] == p
}

/// The column of a chunk that holds a block coordinate.
pub open spec fn column_in_chunk(block: int) -> int {
    block % 16
}

/// Whether `y` is the highest level at `(x, z)` of a chunk that is not air.
pub open spec fn is_top<S>(entry: LoadedChunk<S>, x: int, z: int, y: int) -> bool {
    &&& 0 <= y < entry.chunk.levels()
    &&& entry.chunk.block(x, y, z) != Block::Air
    &&& forall|h: int| y < h < entry.chunk.levels() ==> entry.chunk.block(x, h, z) == Block::Air
}

/// Whether the column at `(x, z)` of a chunk is air at every level.
pub open spec fn is_clear<S>(entry: LoadedChunk<S>, x: int, z: int) -> bool {
    forall|h: int| 0 <= h < entry.chunk.levels() ==> entry.chunk.block(x, h, z) == Block::Air
}

/// Whether `after` is the live set `before` once the chunks in view of
/// `center` have been asked for at tick `now`: the live set has grown by
/// the chunks in view that were not loaded, which are empty shells with
/// the given persistence; those that were loaded have been touched; and
/// no other chunk has changed.
pub open spec fn queued<S: ChunkState>(
    before: Map<ChunkPos, LoadedChunk<S>>,
    after: Map<ChunkPos, LoadedChunk<S>>,
    center: ChunkPos,
    distance: u8,
    now: u64,
    persistant: bool,
    levels: int,
) -> bool {
    &&& forall|p: ChunkPos|
        #![trigger after.contains_key(p)]
        after.contains_key(p) <==> before.contains_key(p) || in_view(center, distance, p)
    &&& forall|p: ChunkPos|
        #![trigger after[p]]
        in_view(center, distance, p) ==> if before.contains_key(p) {
            touched(before[p], after[p], now)
        } else {
            is_shell(after[p], p, now, persistant, levels)
        }
    &&& forall|p: ChunkPos|
        #![trigger after[p]]
        before.contains_key(p) && !in_view(center, distance, p) ==> after[p] == before[p]
}

impl WorldGen {
    /// The generator for a seed and an unload delay in ticks.
    pub fn new(seed: Seed, chunk_unload_delay: u64) -> (gen: WorldGen)
        ensures
            gen.seed == seed,
            gen.chunk_unload_delay == chunk_unload_delay,
            gen.density_seed == seed.value(),
            gen.hilly_seed == seed.value().wrapping_add(1),
            gen.stone_seed == seed.value().wrapping_add(2),
            gen.gravel_seed == seed.value().wrapping_add(3),
            gen.grass_seed == seed.value().wrapping_add(4),
    {
        let value: u32 = seed.get();
        WorldGen {
            seed,
            density_seed: value,
            hilly_seed: value.wrapping_add(1),
            stone_seed: value.wrapping_add(2),
            gravel_seed: value.wrapping_add(3),
            grass_seed: value.wrapping_add(4),
            chunk_unload_delay,
        }
    }

    /// The world's seed.
    pub fn seed(&self) -> (seed: Seed)
        ensures
            seed == self.seed,
    {
        self.seed
    }

    /// Asks for the chunks in view of the column of blocks at
    /// `(block_x, block_z)`. Each of them that is loaded is touched; each
    /// that is not enters the live set as an empty shell with the given
    /// persistence. No other chunk changes.
    pub fn queue<S: ChunkState>(
        &self,
        world: &mut Chunks<S>,
        block_x: i32,
        block_z: i32,
        distance: u8,
        persistant: bool,
    )
        requires
            old(world).wf(),
        ensures
            final(world).wf(),
            final(world).now() == old(world).now(),
            final(world).levels() == old(world).levels(),
            queued(
                old(world)@,
                final(world)@,
                ChunkPos::containing(block_x as int, block_z as int),
                distance,
                old(world).now(),
                persistant,
                old(world).levels(),
            ),
    {
        let center = ChunkPos::at(block_x, block_z);
        let positions = center.in_view(distance);
        let ghost now = world.now();
        let ghost levels = world.levels();
        let mut k: usize = 0;
        while k < positions.len()
            invariant
                k <= positions@.len(),
                positions@.no_duplicates(),
                world.wf(),
                world.now() == now,
                world.levels() == levels,
                now == old(world).now(),
                levels == old(world).levels(),
                forall|p: ChunkPos|
                    #![trigger world@.contains_key(p)]
                    world@.contains_key(p) <==> old(world)@.contains_key(p) || among(
                        positions@,
                        k as int,
                        p,
                    ),
                forall|p: ChunkPos|
                    #![trigger world@[p]]
                    among(positions@, k as int, p) ==> if old(world)@.contains_key(p) {
                        touched(old(world)@[p], world@[p], now)
                    } else {
                        is_shell(world@[p], p, now, persistant, levels)
                    },
                forall|p: ChunkPos|
                    #![trigger world@[p]]
                    old(world)@.contains_key(p) && !among(positions@, k as int, p) ==> world@[p]
                        == old(world)@[p],
            decreases positions@.len() - k,
        {
            let q = positions[k];
            let ghost before = world@;
            proof {
                if among(positions@, k as int, q) {
                    let j = choose|j: int| 0 <= j < k && positions@[j] == q;
                    assert(positions@[j] != positions@[k as int]);
                }
                assert(old(world)@.contains_key(q) ==> before[q] == old(world)@[q]);
                assert(before.contains_key(q) <==> old(world)@.contains_key(q));
            }
            let loaded = world.touch(q);
            if !loaded {
                world.insert_shell(q, persistant);
            }
            proof {
                let after = world@;
                assert forall|p: ChunkPos| among(positions@, k + 1, p) <==> (p == q || among(
                    positions@,
                    k as int,
                    p,
                )) by {
                    if among(positions@, k + 1, p) {
                        let j = choose|j: int| 0 <= j < k + 1 && positions@[j] == p;
                        if j < k {
                            assert(among(positions@, k as int, p));
                        }
                    }
                    if among(positions@, k as int, p) {
                        let j = choose|j: int| 0 <= j < k && positions@[j] == p;
                        assert(0 <= j < k + 1 && positions@[j] == p);
                    }
                    if p == q {
                        assert(positions@[k as int] == p);
                    }
                }
                assert forall|p: ChunkPos| after.contains_key(p) <==> (before.contains_key(p) || p
                    == q) by {}
                assert forall|p: ChunkPos| p != q && before.contains_key(p) implies after[p]
                    == before[p] by {}
                assert forall|p: ChunkPos| #![trigger after.contains_key(p)]
                    after.contains_key(p) <==> old(world)@.contains_key(p) || among(
                        positions@,
                        k + 1,
                        p,
                    ) by {
                    assert(before.contains_key(p) <==> old(world)@.contains_key(p) || among(
                        positions@,
                        k as int,
                        p,
                    ));
                }
                assert forall|p: ChunkPos| #![trigger after[p]]
                    among(positions@, k + 1, p) implies if old(world)@.contains_key(p) {
                        touched(old(world)@[p], after[p], now)
                    } else {
                        is_shell(after[p], p, now, persistant, levels)
                    } by {
                    if p != q {
                        assert(among(positions@, k as int, p));
                        assert(before.contains_key(p));
                        assert(if old(world)@.contains_key(p) {
                            touched(old(world)@[p], before[p], now)
                        } else {
                            is_shell(before[p], p, now, persistant, levels)
                        });
                    }
                }
                assert forall|p: ChunkPos| #![trigger after[p]]
                    old(world)@.contains_key(p) && !among(positions@, k + 1, p) implies after[p]
                    == old(world)@[p] by {
                    assert(before.contains_key(p));
                    assert(before[p] == old(world)@[p]);
                }
            }
            k += 1;
        }
        proof {
            assert forall|p: ChunkPos| among(positions@, positions@.len() as int, p) <==> in_view(
                center,
                distance,
                p,
            ) by {
                if among(positions@, positions@.len() as int, p) {
                    let j = choose|j: int| 0 <= j < positions@.len() && positions@[j] == p;
                    assert(positions@.contains(p));
                }
                if in_view(center, distance, p) {
                    assert(positions@.contains(p));
                    let j = choose|j: int| 0 <= j < positions@.len() && positions@[j] == p;
                    assert(0 <= j < positions@.len() && positions@[j] == p);
                }
            }
        }
    }

    /// Ends a tick: lets go of the chunks that are not persistent and have
    /// been idle for more than the unload delay, and moves on to the next
    /// tick. A persistent chunk is never let go, however long it was idle.
    pub fn update<S: ChunkState>(&self, world: &mut Chunks<S>)
        requires
            old(world).wf(),
        ensures
            final(world).wf(),
            final(world).levels() == old(world).levels(),
            final(world).now() == next_tick(old(world).now()),
            swept(old(world)@, final(world)@, old(world).now(), self.chunk_unload_delay),
    {
        world.sweep(self.chunk_unload_delay);
    }

    /// Generates the terrain of the chunk at `pos` from the samples of its
    /// 256 columns, the column at `(x, z)` being the one numbered
    /// `x + 16 * z`, and marks the chunk as filled. The samples lie in
    /// range. Says whether the chunk is loaded; where it is not, nothing
    /// changes.
    pub fn generate<S: ChunkState>(
        &self,
        world: &mut Chunks<S>,
        pos: ChunkPos,
        columns: &Vec<Vec<LevelSample>>,
    ) -> (loaded: bool)
        requires
            old(world).wf(),
            columns@.len() == 256,
            forall|c: int| 0 <= c < 256 ==> (#[trigger] columns@[c])@.len() == old(world).levels(),
            forall|c: int| 0 <= c < 256 ==> all_in_range((#[trigger] columns@[c])@),
        ensures
            final(world).wf(),
            final(world).now() == old(world).now(),
            final(world).levels() == old(world).levels(),
            loaded == old(world)@.contains_key(pos),
            final(world)@.dom() == old(world)@.dom(),
            same_elsewhere(old(world)@, final(world)@, pos),
            loaded ==> {
                &&& final(world)@[pos].pos == pos
                &&& final(world)@[pos].state == old(world)@[pos].state
                &&& final(world)@[pos].filled
                &&& generated_from(final(world)@[pos].chunk@, columns@, old(world).levels())
            },
    {
        match world.remove(pos) {
            Some(entry) => {
                let mut entry = entry;
                entry.chunk.generate(columns);
                entry.filled = true;
                world.insert(entry);
                assert(final(world)@.dom() =~= old(world)@.dom());
                true
            },
            None => {
                assert(final(world)@ =~= old(world)@);
                false
            },
        }
    }

    /// The highest level that is not air in the column of blocks at
    /// `(block_x, block_z)`. There is none where the chunk that holds the
    /// column is not loaded, or the column is all air.
    pub fn get_terrain_height<S: ChunkState>(
        &self,
        world: &Chunks<S>,
        block_x: i32,
        block_z: i32,
    ) -> (height: Option<i32>)
        requires
            world.wf(),
        ensures
            match height {
                Some(y) => world@.contains_key(
                    ChunkPos::containing(block_x as int, block_z as int),
                ) && is_top(
                    world@[ChunkPos::containing(block_x as int, block_z as int)],
                    column_in_chunk(block_x as int),
                    column_in_chunk(block_z as int),
                    y as int,
                ),
                None => world@.contains_key(ChunkPos::containing(block_x as int, block_z as int))
                    ==> is_clear(
                    world@[ChunkPos::containing(block_x as int, block_z as int)],
                    column_in_chunk(block_x as int),
                    column_in_chunk(block_z as int),
                ),
            },
    {
        let pos = ChunkPos::at(block_x, block_z);
        let entry = match world.get(pos) {
            Some(entry) => entry,
            None => {
                return None;
            },
        };
        proof {
            world.lemma_entries(pos);
        }
        let x: usize = match block_x.checked_rem_euclid(16) {
            Some(x) => x as usize,
            None => 0,
        };
        let z: usize = match block_z.checked_rem_euclid(16) {
            Some(z) => z as usize,
            None => 0,
        };
        let mut y: usize = entry.chunk.height();
        while y > 0
            invariant
                y <= entry.chunk.levels(),
                entry.chunk.levels() <= 4080,
                x == column_in_chunk(block_x as int),
                z == column_in_chunk(block_z as int),
                pos == ChunkPos::containing(block_x as int, block_z as int),
                world@.contains_key(pos),
                world@[pos] == *entry,
                forall|h: int|
                    y <= h < entry.chunk.levels() ==> entry.chunk.block(x as int, h, z as int)
                        == Block::Air,
            decreases y,
        {
            y -= 1;
            if entry.chunk.block_state(x, y, z) != Block::Air {
                return Some(y as i32);
            }
        }
        None
    }
}

} // verus!
