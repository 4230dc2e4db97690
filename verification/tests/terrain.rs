use piquant_world::terrain::{
    generate_column, grow_grass, shape_column, MAX_GRAVEL_BAND, MAX_SOIL_DEPTH, WATER_HEIGHT,
};
use piquant_world::{terrain_column, Block, GrassCover, LevelSample};

fn level(solid: bool, gravel_band: u8, soil_depth: u32, grass: GrassCover) -> LevelSample {
    LevelSample { solid, gravel_band, soil_depth, grass }
}

fn open_air() -> LevelSample {
    level(false, 0, 0, GrassCover::Bare)
}

fn rock() -> LevelSample {
    level(true, 0, 0, GrassCover::Bare)
}

/// A column of 64 levels with two bodies of terrain and water between.
fn layered() -> Vec<LevelSample> {
    let mut samples = vec![rock(); 64];
    samples[0] = level(false, 3, 5, GrassCover::Tall);
    samples[49] = level(true, 6, 0, GrassCover::Bare);
    samples[50] = open_air();
    samples[51] = level(true, 0, 4, GrassCover::Bare);
    samples[52] = level(true, 6, 4, GrassCover::Bare);
    samples[53] = level(true, 0, 1, GrassCover::Bare);
    samples[54] = open_air();
    samples[55] = open_air();
    samples[56] = level(true, 2, 5, GrassCover::Bare);
    samples[57] = level(true, 2, 5, GrassCover::Short);
    samples[58] = level(true, 2, 5, GrassCover::Tall);
    samples[59] = level(true, 0, 2, GrassCover::Tall);
    samples[60] = level(false, 0, 0, GrassCover::Tall);
    samples[61] = open_air();
    samples[62] = open_air();
    samples[63] = open_air();
    samples
}

#[test]
fn water_height_is_55() {
    assert_eq!(WATER_HEIGHT, 55);
}

#[test]
fn terrain_starts_with_grass_block_dirt_or_gravel() {
    let mut in_terrain = false;
    let mut depth = 0;
    let block = terrain_column(level(true, 0, 3, GrassCover::Bare), 54, &mut in_terrain, &mut depth);
    assert_eq!(block, Block::GrassBlock);
    assert!(in_terrain);
    assert_eq!(depth, 3);

    let mut in_terrain = false;
    let mut depth = 9;
    let block = terrain_column(level(true, 0, 5, GrassCover::Bare), 53, &mut in_terrain, &mut depth);
    assert_eq!(block, Block::Gravel);
    assert_eq!((in_terrain, depth), (true, 5));

    let mut in_terrain = false;
    let mut depth = 0;
    let block = terrain_column(level(true, 4, 0, GrassCover::Bare), 50, &mut in_terrain, &mut depth);
    assert_eq!(block, Block::Dirt);
    assert_eq!((in_terrain, depth), (true, 0));

    let mut in_terrain = false;
    let mut depth = 0;
    let block = terrain_column(level(true, 4, 1, GrassCover::Bare), 49, &mut in_terrain, &mut depth);
    assert_eq!(block, Block::Gravel);
    assert_eq!((in_terrain, depth), (true, 1));
}

#[test]
fn soil_runs_out_into_stone() {
    let mut in_terrain = true;
    let mut depth = 2;
    let sample = level(true, 1, 5, GrassCover::Bare);
    assert_eq!(terrain_column(sample, 53, &mut in_terrain, &mut depth), Block::Dirt);
    assert_eq!(depth, 1);
    assert_eq!(terrain_column(sample, 52, &mut in_terrain, &mut depth), Block::Gravel);
    assert_eq!(depth, 0);
    assert_eq!(terrain_column(sample, 51, &mut in_terrain, &mut depth), Block::Stone);
    assert_eq!(terrain_column(sample, 200, &mut in_terrain, &mut depth), Block::Stone);
    assert_eq!((in_terrain, depth), (true, 0));
}

#[test]
fn open_levels_are_water_below_the_water_height_and_air_above() {
    let mut in_terrain = true;
    let mut depth = 4;
    assert_eq!(terrain_column(open_air(), 54, &mut in_terrain, &mut depth), Block::Water);
    assert_eq!((in_terrain, depth), (false, 0));
    let mut in_terrain = true;
    let mut depth = 4;
    assert_eq!(terrain_column(open_air(), 55, &mut in_terrain, &mut depth), Block::Air);
    assert_eq!((in_terrain, depth), (false, 0));
    assert_eq!(terrain_column(open_air(), -3, &mut in_terrain, &mut depth), Block::Water);
    assert_eq!(terrain_column(open_air(), i64::MAX, &mut in_terrain, &mut depth), Block::Air);
    assert_eq!(terrain_column(open_air(), i64::MIN, &mut in_terrain, &mut depth), Block::Water);
}

#[test]
fn column_is_scanned_from_the_top() {
    let column = shape_column(&layered());
    assert_eq!(column.len(), 64);
    assert_eq!(column[63], Block::Air);
    assert_eq!(column[60], Block::Air);
    assert_eq!(column[59], Block::GrassBlock);
    assert_eq!(column[58], Block::Dirt);
    assert_eq!(column[57], Block::Dirt);
    assert_eq!(column[56], Block::Stone);
    assert_eq!(column[55], Block::Air);
    assert_eq!(column[54], Block::Water);
    assert_eq!(column[53], Block::Gravel);
    assert_eq!(column[52], Block::Dirt);
    assert_eq!(column[51], Block::Stone);
    assert_eq!(column[50], Block::Water);
    assert_eq!(column[49], Block::Dirt);
    for y in 1..49 {
        assert_eq!(column[y], Block::Stone);
    }
    assert_eq!(column[0], Block::Bedrock);
}

#[test]
fn bottom_is_bedrock_whatever_the_samples_say() {
    for bottom in [
        open_air(),
        rock(),
        level(true, 6, 5, GrassCover::Tall),
        level(false, 6, 5, GrassCover::Short),
    ] {
        for above in [open_air(), rock()] {
            let mut samples = vec![above; 20];
            samples[0] = bottom;
            assert_eq!(generate_column(&samples)[0], Block::Bedrock);
            assert_eq!(generate_column(&samples[..1].to_vec()), vec![Block::Bedrock]);
        }
    }
    assert_eq!(generate_column(&Vec::new()), Vec::<Block>::new());
    let mut samples = vec![rock(); 20];
    samples[0] = level(false, 255, u32::MAX, GrassCover::Short);
    assert_eq!(shape_column(&samples)[0], Block::Bedrock);
}

#[test]
fn tall_grass_takes_two_clear_levels() {
    let column = generate_column(&layered());
    assert_eq!(column[59], Block::GrassBlock);
    assert_eq!(column[60], Block::TallGrassLower);
    assert_eq!(column[61], Block::TallGrassUpper);
    assert_eq!(column[62], Block::Air);
    assert_eq!(column[55], Block::Air);
    assert_eq!(column[58], Block::Dirt);
    assert_eq!(column[0], Block::Bedrock);
}

#[test]
fn short_grass_where_the_field_is_less_dense() {
    let mut samples = layered();
    samples[60].grass = GrassCover::Short;
    let column = generate_column(&samples);
    assert_eq!(column[60], Block::Grass);
    assert_eq!(column[61], Block::Air);
    samples[60].grass = GrassCover::Bare;
    let column = generate_column(&samples);
    assert_eq!(column[60], Block::Air);
    assert_eq!(column[61], Block::Air);
}

#[test]
fn tall_grass_without_room_above_is_short() {
    let mut samples = layered();
    samples.truncate(61);
    let column = generate_column(&samples);
    assert_eq!(column.len(), 61);
    assert_eq!(column[60], Block::Grass);

    let mut samples = layered();
    samples[61] = level(true, 0, 0, GrassCover::Bare);
    let column = generate_column(&samples);
    assert_eq!(column[61], Block::GrassBlock);
    assert_eq!(column[60], Block::Grass);
    assert_eq!(column[62], Block::Air);
}

#[test]
fn grass_grows_only_on_grass_blocks() {
    let mut samples = vec![rock(); 60];
    samples[50] = level(false, 0, 0, GrassCover::Tall);
    samples[51] = level(false, 0, 0, GrassCover::Tall);
    samples[49] = level(true, 0, 0, GrassCover::Tall);
    let column = generate_column(&samples);
    assert_eq!(column[49], Block::Gravel);
    assert_eq!(column[50], Block::Water);
    assert_eq!(column[51], Block::Water);
    let mut samples = vec![open_air(); 60];
    samples[56] = level(true, 0, 0, GrassCover::Bare);
    samples[55] = level(true, 0, 0, GrassCover::Bare);
    samples[57] = level(false, 0, 0, GrassCover::Tall);
    samples[58] = level(false, 0, 0, GrassCover::Tall);
    let column = generate_column(&samples);
    assert_eq!(column[56], Block::GrassBlock);
    assert_eq!(column[55], Block::Stone);
    assert_eq!(column[57], Block::TallGrassLower);
    assert_eq!(column[58], Block::TallGrassUpper);
    assert_eq!(column[59], Block::Air);
}

#[test]
fn grass_pass_finishes_a_shaped_column() {
    let samples = layered();
    let mut column = shape_column(&samples);
    grow_grass(&samples, &mut column);
    assert_eq!(column, generate_column(&samples));
}

#[test]
fn same_samples_give_the_same_column() {
    assert_eq!(generate_column(&layered()), generate_column(&layered()));
}

#[test]
fn samples_are_in_range_up_to_five_of_soil_and_six_of_gravel() {
    assert_eq!(MAX_SOIL_DEPTH, 5);
    assert_eq!(MAX_GRAVEL_BAND, 6);
    assert!(level(true, 0, 0, GrassCover::Bare).is_in_range());
    assert!(level(false, 6, 5, GrassCover::Tall).is_in_range());
    assert!(!level(true, 6, 6, GrassCover::Bare).is_in_range());
    assert!(!level(true, 7, 5, GrassCover::Bare).is_in_range());
    assert!(!level(false, 255, u32::MAX, GrassCover::Short).is_in_range());
    assert!(layered().iter().all(|sample| sample.is_in_range()));
}

#[test]
fn soil_is_as_deep_as_the_top_calls_for_and_no_deeper_than_five() {
    for depth in 0..=5u32 {
        let mut samples = vec![level(true, 0, 5, GrassCover::Bare); 80];
        samples[70] = level(true, 0, depth, GrassCover::Bare);
        for y in 71..80 {
            samples[y] = open_air();
        }
        let column = generate_column(&samples);
        assert_eq!(column[70], Block::GrassBlock);
        for y in 1..70 {
            let expected = if 70 - y > depth as usize { Block::Stone } else { Block::Dirt };
            assert_eq!(column[y], expected);
        }
        for y in 1..65 {
            assert_eq!(column[y], Block::Stone);
        }
    }
}

#[test]
fn gravel_lies_under_the_gravel_line_only() {
    for band in 0..=6u8 {
        for top in 40..60usize {
            let mut samples = vec![level(true, band, 5, GrassCover::Bare); 64];
            for y in (top + 1)..64 {
                samples[y] = open_air();
            }
            let column = generate_column(&samples);
            for y in (top - 5)..=top {
                let line = 54 - band as usize;
                let expected = if y < line {
                    Block::Gravel
                } else if y < 54 || y < top {
                    Block::Dirt
                } else {
                    Block::GrassBlock
                };
                assert_eq!(column[y], expected, "band {} top {} level {}", band, top, y);
                if column[y] == Block::Gravel {
                    assert!(y < 54);
                }
                if column[y] == Block::Dirt {
                    assert!(y >= 48);
                }
            }
        }
    }
}
