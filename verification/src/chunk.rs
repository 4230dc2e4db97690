//! Chunks: where they lie and the blocks they hold.

use crate::terrain::{all_in_range, column_of, generate_column, Block, LevelSample};
use vstd::prelude::*;

verus! {

/// Blocks along each horizontal side of a chunk.
pub const CHUNK_WIDTH: usize = 16;

/// Chunks beyond the view distance that are kept in view all the same.
pub const EXTRA_RADIUS: i32 = 3;

/// The place of a chunk in the world, in chunks.
#[derive(Clone, Copy, Debug, PartialEq, Eq, Structural)]
pub struct ChunkPos {
    pub x: i32,
    pub z: i32,
}

/// Whether chunk `p` is in view from chunk `center` at a view distance: it
/// lies in the disc round `center` whose radius is the distance and three
/// more.
pub open spec fn in_view(center: ChunkPos, distance: u8, p: ChunkPos) -> bool {
    (p.x - center.x) * (p.x - center.x) + (p.z - center.z) * (p.z - center.z) <= (distance
        + EXTRA_RADIUS) * (distance + EXTRA_RADIUS)
}

/// Calls `valence::util::chunks_in_view_distance`. It walks the square of
/// chunks within the view distance and three more of the centre, row by
/// row, and keeps those whose straight-line distance from the centre is no
/// more than that radius. It adds and subtracts the radius to the centre's
/// coordinates, which therefore must leave room for it.
#[verifier::external_body]
fn chunks_in_view_distance(center: ChunkPos, distance: u8) -> (positions: Vec<ChunkPos>)
    requires
        i32::MIN <= center.x - (distance + EXTRA_RADIUS),
        center.x + (distance + EXTRA_RADIUS) <= i32::MAX,
        i32::MIN <= center.z - (distance + EXTRA_RADIUS),
        center.z + (distance + EXTRA_RADIUS) <= i32::MAX,
    ensures
        forall|p: ChunkPos| positions@.contains(p) <==> in_view(center, distance, p),
        positions@.no_duplicates(),
{
    valence::util::chunks_in_view_distance(
        valence::chunk::ChunkPos::new(center.x, center.z),
        distance,
    ).map(|p| ChunkPos { x: p.x, z: p.z }).collect()
}

impl ChunkPos {
    pub fn new(x: i32, z: i32) -> (pos: ChunkPos)
        ensures
            pos.x == x,
            pos.z == z,
    {
        ChunkPos { x, z }
    }

    /// The chunk that holds the column of blocks at `(block_x, block_z)`:
    /// each coordinate divided by 16, rounded down.
    pub open spec fn containing(block_x: int, block_z: int) -> ChunkPos {
        ChunkPos { x: (block_x / 16) as i32, z: (block_z / 16) as i32 }
    }

    /// The chunk that holds the column of blocks at `(block_x, block_z)`.
    pub fn at(block_x: i32, block_z: i32) -> (pos: ChunkPos)
        ensures
            pos == ChunkPos::containing(block_x as int, block_z as int),
            -0x800_0000 <= pos.x < 0x800_0000,
            -0x800_0000 <= pos.z < 0x800_0000,
    {
        let x: i32 = match block_x.checked_div_euclid(16) {
            Some(x) => x,
            None => 0,
        };
        let z: i32 = match block_z.checked_div_euclid(16) {
            Some(z) => z,
            None => 0,
        };
        ChunkPos { x, z }
    }

    /// The chunks in view from this one at a view distance, each once.
    pub fn in_view(self, distance: u8) -> (positions: Vec<ChunkPos>)
        requires
            i32::MIN <= self.x - (distance + EXTRA_RADIUS),
            self.x + (distance + EXTRA_RADIUS) <= i32::MAX,
            i32::MIN <= self.z - (distance + EXTRA_RADIUS),
            self.z + (distance + EXTRA_RADIUS) <= i32::MAX,
        ensures
            forall|p: ChunkPos| positions@.contains(p) <==> in_view(self, distance, p),
            positions@.no_duplicates(),
    {
        chunks_in_view_distance(self, distance)
    }
}

/// The place of a block in a chunk's buffer: columns run along x, rows
/// along z, and the levels are stacked.
pub open spec fn block_index(x: int, y: int, z: int) -> int {
    x + z * 16 + y * 256
}

/// Whether the blocks are the terrain of a chunk of `levels` levels that
/// was generated from the samples of its 256 columns, the column at
/// `(x, z)` being the one numbered `x + 16 * z`: each column of blocks is
/// the column that its own samples give.
pub open spec fn generated_from(
    blocks: Seq<Block>,
    columns: Seq<Vec<LevelSample>>,
    levels: int,
) -> bool {
    &&& blocks.len() == levels * 256
    &&& forall|x: int, y: int, z: int|
        #![trigger blocks[block_index(x, y, z)]]
        0 <= x < 16 && 0 <= z < 16 && 0 <= y < levels ==> blocks[block_index(x, y, z)]
            == column_of(columns[x + z * 16]@)[y]
}

/// Generation is a function of the samples: chunks generated from the same
/// samples hold the same block at every place.
pub proof fn lemma_generation_is_deterministic(
    first: Seq<Block>,
    second: Seq<Block>,
    columns: Seq<Vec<LevelSample>>,
    levels: int,
)
    requires
        generated_from(first, columns, levels),
        generated_from(second, columns, levels),
    ensures
        forall|x: int, y: int, z: int|
            0 <= x < 16 && 0 <= z < 16 && 0 <= y < levels ==> first[block_index(x, y, z)]
                == second[block_index(x, y, z)],
{
}

/// The bottom level of a generated chunk is bedrock in every column,
/// whatever the samples are.
pub proof fn lemma_generated_bottom_is_bedrock(
    blocks: Seq<Block>,
    columns: Seq<Vec<LevelSample>>,
    levels: int,
)
    requires
        generated_from(blocks, columns, levels),
        levels > 0,
        columns.len() == 256,
        forall|c: int| 0 <= c < 256 ==> (#[trigger] columns[c])@.len() == levels,
    ensures
        forall|x: int, z: int|
            0 <= x < 16 && 0 <= z < 16 ==> #[trigger] blocks[block_index(x, 0, z)]
                == Block::Bedrock,
{
    assert forall|x: int, z: int| 0 <= x < 16 && 0 <= z < 16 implies #[trigger] blocks[block_index(
        x,
        0,
        z,
    )] == Block::Bedrock by {
        assert(columns[x + z * 16]@.len() == levels);
        crate::terrain::lemma_bottom_is_bedrock(columns[x + z * 16]@);
    }
}

/// The blocks of a chunk: 16 by 16 columns, each as high as the world.
#[derive(Debug)]
pub struct Chunk {
    blocks: Vec<Block>,
}

impl View for Chunk {
    type V = Seq<Block>;

    /// The blocks, in the order of `block_index`.
    closed spec fn view(&self) -> Seq<Block> {
        self.blocks@
    }
}

impl Chunk {
    /// The number of whole levels.
    pub open spec fn levels(&self) -> int {
        self@.len() as int / 256
    }

    /// The block at a place inside the chunk.
    pub open spec fn block(&self, x: int, y: int, z: int) -> Block {
        self@[block_index(x, y, z)]
    }

    /// A chunk of `section_count` sections of 16 levels, all air.
    pub fn new(section_count: u8) -> (chunk: Chunk)
        ensures
            chunk@.len() == section_count * 16 * 256,
            chunk.levels() == section_count * 16,
            forall|i: int| 0 <= i < chunk@.len() ==> chunk@[i] == Block::Air,
    {
        let total: usize = section_count as usize * 16 * 256;
        let mut blocks: Vec<Block> = Vec::new();
        let mut i: usize = 0;
        while i < total
            invariant
                i <= total,
                blocks@.len() == i,
                forall|j: int| 0 <= j < i ==> blocks@[j] == Block::Air,
            decreases total - i,
        {
            blocks.push(Block::Air);
            i += 1;
        }
        Chunk { blocks }
    }

    /// The height of the chunk in blocks.
    pub fn height(&self) -> (height: usize)
        ensures
            height == self.levels(),
    {
        self.blocks.len() / 256
    }

    /// The block at the given offsets in the chunk.
    pub fn block_state(&self, x: usize, y: usize, z: usize) -> (block: Block)
        requires
            x < 16,
            y < self.levels(),
            z < 16,
        ensures
            block == self.block(x as int, y as int, z as int),
    {
        let len: usize = self.blocks.len();
        assert(y * 256 + 256 <= len) by {
            assert((len as int / 256) * 256 <= len);
        }
        self.blocks[x + z * 16 + y * 256]
    }

    /// Puts a block at the given offsets in the chunk.
    pub fn set_block_state(&mut self, x: usize, y: usize, z: usize, block: Block)
        requires
            x < 16,
            y < old(self).levels(),
            z < 16,
        ensures
            final(self)@ == old(self)@.update(block_index(x as int, y as int, z as int), block),
    {
        let len: usize = self.blocks.len();
        assert(y * 256 + 256 <= len) by {
            assert((len as int / 256) * 256 <= len);
        }
        self.blocks.set(x + z * 16 + y * 256, block);
    }

    /// Generates the chunk's terrain from the samples of its 256 columns,
    /// the column at `(x, z)` being the one numbered `x + 16 * z`. Each
    /// column is generated on its own, from its own samples alone, which
    /// lie in range.
    pub fn generate(&mut self, columns: &Vec<Vec<LevelSample>>)
        requires
            old(self)@.len() == old(self).levels() * 256,
            columns@.len() == 256,
            forall|c: int| 0 <= c < 256 ==> (#[trigger] columns@[c])@.len() == old(self).levels(),
            forall|c: int| 0 <= c < 256 ==> all_in_range((#[trigger] columns@[c])@),
        ensures
            generated_from(final(self)@, columns@, old(self).levels()),
    {
        let height: usize = self.height();
        let mut c: usize = 0;
        while c < 256
            invariant
                c <= 256,
                height == self.levels(),
                self@.len() == old(self)@.len(),
                self@.len() == height * 256,
                columns@.len() == 256,
                forall|k: int| 0 <= k < 256 ==> (#[trigger] columns@[k])@.len() == height,
                forall|k: int| 0 <= k < 256 ==> all_in_range((#[trigger] columns@[k])@),
                forall|k: int, y: int|
                    0 <= k < c && 0 <= y < height ==> #[trigger] self@[k + y * 256] == column_of(
                        columns@[k]@,
                    )[y],
            decreases 256 - c,
        {
            let column = generate_column(&columns[c]);
            let x: usize = c % 16;
            let z: usize = c / 16;
            let mut y: usize = 0;
            while y < height
                invariant
                    y <= height,
                    c < 256,
                    x == c % 16,
                    z == c / 16,
                    height == self.levels(),
                    self@.len() == old(self)@.len(),
                    self@.len() == height * 256,
                    column@ == column_of(columns@[c as int]@),
                    column@.len() == height,
                    forall|k: int, j: int|
                        0 <= k < c && 0 <= j < height ==> #[trigger] self@[k + j * 256]
                            == column_of(columns@[k]@)[j],
                    forall|j: int| 0 <= j < y ==> #[trigger] self@[c + j * 256] == column@[j],
                decreases height - y,
            {
                self.set_block_state(x, y, z, column[y]);
                y += 1;
            }
            c += 1;
        }
        assert forall|x: int, y: int, z: int|
            0 <= x < 16 && 0 <= z < 16 && 0 <= y < height implies #[trigger] self@[block_index(
            x,
            y,
            z,
        )] == column_of(columns@[x + z * 16]@)[y] by {
            assert(self@[(x + z * 16) + y * 256] == column_of(columns@[x + z * 16]@)[y]);
        }
    }
}

} // verus!
