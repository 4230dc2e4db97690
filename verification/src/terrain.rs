//! Terrain of one column of blocks, from the noise sampled at each level.

use vstd::prelude::*;

verus! {

/// Levels below this one that are not terrain are water.
pub const WATER_HEIGHT: i64 = 55;

/// The deepest soil that the stone field puts on the stone.
pub const MAX_SOIL_DEPTH: u32 = 5;

/// The farthest that the gravel field lowers the gravel line.
pub const MAX_GRAVEL_BAND: u8 = 6;

/// The kinds of block that generated terrain is made of.
#[derive(Clone, Copy, Debug, PartialEq, Eq, Structural)]
pub enum Block {
    Air,
    Bedrock,
    Water,
    Stone,
    Dirt,
    Gravel,
    GrassBlock,
    /// Short grass.
    Grass,
    /// The lower half of a grass plant two blocks tall.
    TallGrassLower,
    /// The upper half of a grass plant two blocks tall.
    TallGrassUpper,
}

/// How much grass the grass field calls for at a level.
#[derive(Clone, Copy, Debug, PartialEq, Eq, Structural)]
pub enum GrassCover {
    /// Below the density for any grass.
    Bare,
    /// Dense enough for short grass.
    Short,
    /// Dense enough for a plant two blocks tall.
    Tall,
}

/// What the noise fields say about one level of a column.
#[derive(Clone, Copy, Debug, PartialEq, Eq, Structural)]
pub struct LevelSample {
    /// Whether the density field puts terrain here.
    pub solid: bool,
    /// How far the gravel field lowers the gravel line under the water.
    pub gravel_band: u8,
    /// How many blocks of soil the stone field puts on top of the stone,
    /// should the terrain start here.
    pub soil_depth: u32,
    /// What the grass field calls for here.
    pub grass: GrassCover,
}

impl LevelSample {
    /// Whether the sample's numbers lie in the ranges of the fields that
    /// they are rounded from: up to five blocks of soil, and a gravel line
    /// up to six levels down.
    pub open spec fn in_range(self) -> bool {
        self.soil_depth <= MAX_SOIL_DEPTH && self.gravel_band <= MAX_GRAVEL_BAND
    }

    /// Whether the sample's numbers lie in their ranges.
    pub fn is_in_range(&self) -> (r: bool)
        ensures
            r == self.in_range(),
    {
        self.soil_depth <= MAX_SOIL_DEPTH && self.gravel_band <= MAX_GRAVEL_BAND
    }
}

/// Whether every sample of a column lies in range.
pub open spec fn all_in_range(samples: Seq<LevelSample>) -> bool {
    forall|y: int| 0 <= y < samples.len() ==> (#[trigger] samples[y]).in_range()
}

/// What a column remembers from the levels above.
#[derive(Clone, Copy, Debug, PartialEq, Eq, Structural)]
pub struct ColumnState {
    /// Whether the level above was terrain.
    pub in_terrain: bool,
    /// How many blocks of soil are still due before the stone.
    pub depth: u32,
}

/// The state with these two parts.
pub open spec fn column_state(in_terrain: bool, depth: u32) -> ColumnState {
    ColumnState { in_terrain, depth }
}

/// The level under which soil is gravel.
pub open spec fn gravel_height(sample: LevelSample) -> int {
    WATER_HEIGHT - 1 - sample.gravel_band
}

/// The block at level `y`, coming from above with `state`.
pub open spec fn block_at_step(state: ColumnState, sample: LevelSample, y: int) -> Block {
    if sample.solid {
        if state.in_terrain {
            if state.depth > 0 {
                if y < gravel_height(sample) {
                    Block::Gravel
                } else {
                    Block::Dirt
                }
            } else {
                Block::Stone
            }
        } else if y < gravel_height(sample) {
            Block::Gravel
        } else if y < WATER_HEIGHT - 1 {
            Block::Dirt
        } else {
            Block::GrassBlock
        }
    } else if y < WATER_HEIGHT {
        Block::Water
    } else {
        Block::Air
    }
}

/// What the column remembers once level `y` is done.
pub open spec fn state_after_step(state: ColumnState, sample: LevelSample) -> ColumnState {
    if sample.solid {
        if state.in_terrain {
            if state.depth > 0 {
                ColumnState { in_terrain: true, depth: (state.depth - 1) as u32 }
            } else {
                state
            }
        } else {
            ColumnState { in_terrain: true, depth: sample.soil_depth }
        }
    } else {
        ColumnState { in_terrain: false, depth: 0 }
    }
}

/// What a column remembers when it comes to level `y` from the top.
pub open spec fn state_before(samples: Seq<LevelSample>, y: int) -> ColumnState
    decreases samples.len() - y,
{
    if y + 1 >= samples.len() {
        ColumnState { in_terrain: false, depth: 0 }
    } else {
        state_after_step(state_before(samples, y + 1), samples[y + 1])
    }
}

/// The block that the shape of the terrain puts at level `y`: bedrock at
/// the bottom, whatever the noise says, and above it what the scan from the
/// top gives.
pub open spec fn terrain_block(samples: Seq<LevelSample>, y: int) -> Block {
    if y == 0 {
        Block::Bedrock
    } else {
        block_at_step(state_before(samples, y), samples[y], y)
    }
}

/// Whether grass of its own grows at level `y`: on air right above a
/// grass block, where the grass field is dense enough.
pub open spec fn grows_grass(samples: Seq<LevelSample>, y: int) -> bool {
    &&& 1 <= y < samples.len()
    &&& terrain_block(samples, y) == Block::Air
    &&& terrain_block(samples, y - 1) == Block::GrassBlock
    &&& samples[y].grass != GrassCover::Bare
}

/// Whether the grass at level `y` is a plant two blocks tall: the field
/// calls for one and the level above is inside the column and clear.
pub open spec fn grows_tall(samples: Seq<LevelSample>, y: int) -> bool {
    &&& grows_grass(samples, y)
    &&& samples[y].grass == GrassCover::Tall
    &&& y + 1 < samples.len()
    &&& terrain_block(samples, y + 1) == Block::Air
}

/// The block at level `y` once the grass rooted at that level is placed.
pub open spec fn rooted_block(samples: Seq<LevelSample>, y: int) -> Block {
    if grows_tall(samples, y) {
        Block::TallGrassLower
    } else if grows_grass(samples, y) {
        Block::Grass
    } else {
        terrain_block(samples, y)
    }
}

/// The block at level `y` of a finished column: the grass rooted there, or
/// the upper half of a tall plant rooted right below, or else the terrain.
pub open spec fn column_block(samples: Seq<LevelSample>, y: int) -> Block {
    if grows_tall(samples, y - 1) {
        Block::TallGrassUpper
    } else {
        rooted_block(samples, y)
    }
}

/// The finished column for the samples of its levels, bottom level first.
pub open spec fn column_of(samples: Seq<LevelSample>) -> Seq<Block> {
    Seq::new(samples.len(), |y: int| column_block(samples, y))
}

/// Classifies the block at level `y` of a column that is scanned from the
/// top, and updates what the column remembers.
pub fn terrain_column(
    sample: LevelSample,
    y: i64,
    in_terrain: &mut bool,
    depth: &mut u32,
) -> (block: Block)
    ensures
        block == block_at_step(column_state(*old(in_terrain), *old(depth)), sample, y as int),
        column_state(*final(in_terrain), *final(depth)) == state_after_step(
            column_state(*old(in_terrain), *old(depth)),
            sample,
        ),
{
    if sample.solid {
        let gravel_height: i64 = WATER_HEIGHT - 1 - sample.gravel_band as i64;
        if *in_terrain {
            if *depth > 0 {
                *depth -= 1;
                if y < gravel_height {
                    Block::Gravel
                } else {
                    Block::Dirt
                }
            } else {
                Block::Stone
            }
        } else {
            *in_terrain = true;
            *depth = sample.soil_depth;
            if y < gravel_height {
                Block::Gravel
            } else if y < WATER_HEIGHT - 1 {
                Block::Dirt
            } else {
                Block::GrassBlock
            }
        }
    } else {
        *in_terrain = false;
        *depth = 0;
        if y < WATER_HEIGHT {
            Block::Water
        } else {
            Block::Air
        }
    }
}

/// The shape of the terrain in one column: scans the levels from the top
/// down to level 1 and puts bedrock at level 0.
pub fn shape_column(samples: &Vec<LevelSample>) -> (column: Vec<Block>)
    ensures
        column@.len() == samples@.len(),
        forall|y: int| 0 <= y < samples@.len() ==> column@[y] == terrain_block(samples@, y),
{
    let height: usize = samples.len();
    let mut column: Vec<Block> = Vec::new();
    let mut k: usize = 0;
    while k < height
        invariant
            k <= height,
            column@.len() == k,
        decreases height - k,
    {
        column.push(Block::Air);
        k += 1;
    }
    let mut in_terrain = false;
    let mut depth: u32 = 0;
    let mut y: usize = height;
    while y > 0
        invariant
            y <= height,
            height == samples@.len(),
            column@.len() == height,
            0 < y ==> column_state(in_terrain, depth) == state_before(samples@, y as int - 1),
            forall|j: int| y <= j < height ==> column@[j] == terrain_block(samples@, j),
        decreases y,
    {
        y -= 1;
        if y == 0 {
            column.set(0, Block::Bedrock);
        } else {
            let level: i64 = if y as u64 > i64::MAX as u64 {
                i64::MAX
            } else {
                y as i64
            };
            let block = terrain_column(samples[y], level, &mut in_terrain, &mut depth);
            column.set(y, block);
        }
    }
    column
}

/// Puts grass on the terrain of a column: scans from the top down to level
/// 1 and, on air right above a grass block, places short grass or a plant
/// two blocks tall as the grass field calls for. A tall plant needs the
/// level above inside the column and clear; else short grass stands in.
pub fn grow_grass(samples: &Vec<LevelSample>, column: &mut Vec<Block>)
    requires
        old(column)@.len() == samples@.len(),
        forall|y: int| 0 <= y < samples@.len() ==> old(column)@[y] == terrain_block(samples@, y),
    ensures
        final(column)@ == column_of(samples@),
{
    let height: usize = samples.len();
    let mut y: usize = height;
    while y > 1
        invariant
            y <= height,
            height == samples@.len(),
            column@.len() == height,
            forall|j: int| y < j < height ==> column@[j] == column_block(samples@, j),
            y < height ==> column@[y as int] == rooted_block(samples@, y as int),
            forall|j: int| 0 <= j < y ==> column@[j] == terrain_block(samples@, j),
        decreases y,
    {
        y -= 1;
        if column[y] == Block::Air && column[y - 1] == Block::GrassBlock {
            match samples[y].grass {
                GrassCover::Bare => {},
                GrassCover::Short => {
                    column.set(y, Block::Grass);
                },
                GrassCover::Tall => {
                    if y + 1 < height && column[y + 1] == Block::Air {
                        column.set(y + 1, Block::TallGrassUpper);
                        column.set(y, Block::TallGrassLower);
                    } else {
                        column.set(y, Block::Grass);
                    }
                },
            }
        }
    }
    assert(column@ =~= column_of(samples@));
}

/// Generates a column of blocks from the samples of its levels, bottom
/// level first. The samples lie in range, as all that are rounded from the
/// noise fields do.
pub fn generate_column(samples: &Vec<LevelSample>) -> (column: Vec<Block>)
    requires
        all_in_range(samples@),
    ensures
        column@ == column_of(samples@),
{
    let mut column = shape_column(samples);
    grow_grass(samples, &mut column);
    column
}

/// The bottom of every generated column is bedrock, whatever the noise
/// says.
pub proof fn lemma_bottom_is_bedrock(samples: Seq<LevelSample>)
    requires
        samples.len() > 0,
    ensures
        column_of(samples)[0] == Block::Bedrock,
{
}

/// Whether the levels from `bottom` up to `top` are one stretch of terrain
/// that ends at `top`: all of them are solid, and the level above `top`,
/// where there is one, is not.
pub open spec fn run_to_top(samples: Seq<LevelSample>, bottom: int, top: int) -> bool {
    &&& 0 <= bottom <= top < samples.len()
    &&& forall|k: int| bottom <= k <= top ==> (#[trigger] samples[k]).solid
    &&& top + 1 < samples.len() ==> !samples[top + 1].solid
}

/// The soil still due `below` levels under the top of a stretch of terrain
/// whose top called for `depth` blocks of it.
pub open spec fn soil_left(depth: u32, below: int) -> int {
    if below <= depth {
        depth - below
    } else {
        0
    }
}

proof fn lemma_state_under_top(samples: Seq<LevelSample>, y: int, top: int)
    requires
        run_to_top(samples, y + 1, top),
        0 <= y,
    ensures
        state_before(samples, y).in_terrain,
        state_before(samples, y).depth == soil_left(samples[top].soil_depth, top - y - 1),
    decreases top - y,
{
    assert(samples[y + 1].solid);
    assert(state_before(samples, y) == state_after_step(
        state_before(samples, y + 1),
        samples[y + 1],
    ));
    if y + 1 == top {
        if top + 1 < samples.len() {
            assert(state_before(samples, top) == state_after_step(
                state_before(samples, top + 1),
                samples[top + 1],
            ));
        }
        assert(!state_before(samples, top).in_terrain);
    } else {
        assert(run_to_top(samples, y + 2, top));
        lemma_state_under_top(samples, y + 1, top);
    }
}

/// Under the top of a stretch of terrain lie as many blocks of soil as the
/// top's sample calls for, and under them stone: a level of the stretch
/// under its top is stone just where it lies deeper under the top than
/// that, and dirt or gravel elsewhere.
pub proof fn lemma_soil_under_top(samples: Seq<LevelSample>, y: int, top: int)
    requires
        run_to_top(samples, y, top),
        1 <= y < top,
    ensures
        column_of(samples)[y] == terrain_block(samples, y),
        terrain_block(samples, y) == Block::Stone <==> top - y > samples[top].soil_depth,
        terrain_block(samples, y) != Block::Stone ==> terrain_block(samples, y) == Block::Dirt
            || terrain_block(samples, y) == Block::Gravel,
{
    assert(samples[y].solid);
    assert(run_to_top(samples, y + 1, top));
    lemma_state_under_top(samples, y, top);
}

/// Soil is never more than five blocks deep: in a column whose samples lie
/// in range, every level of a stretch of terrain that lies more than five
/// levels under the top of the stretch is stone.
pub proof fn lemma_soil_is_shallow(samples: Seq<LevelSample>, y: int, top: int)
    requires
        all_in_range(samples),
        run_to_top(samples, y, top),
        1 <= y,
        top - y > MAX_SOIL_DEPTH,
    ensures
        column_of(samples)[y] == Block::Stone,
{
    lemma_soil_under_top(samples, y, top);
}

/// Gravel lies under the water only, and dirt never far under it: in a
/// column whose samples lie in range, no level from 54 up is gravel and no
/// level under 48 is dirt.
pub proof fn lemma_gravel_band(samples: Seq<LevelSample>, y: int)
    requires
        all_in_range(samples),
        0 <= y < samples.len(),
    ensures
        column_of(samples)[y] == Block::Gravel ==> y < WATER_HEIGHT - 1,
        column_of(samples)[y] == Block::Dirt ==> y >= WATER_HEIGHT - 1 - MAX_GRAVEL_BAND,
{
    assert(samples[y].in_range());
}

} // verus!
