use noise::{NoiseFn, Simplex};
use voxel_world::blocks::BlockId;
use voxel_world::chunk::{Chunk, ChunkCoord};
use voxel_world::mods::VanillaMod;
use voxel_world::registry::BlockRegistry;
use voxel_world::terrain::{generate_chunk, ColumnHeights, BASE_HEIGHT, DIRT_DEPTH};

const STONE: BlockId = BlockId(1);
const DIRT: BlockId = BlockId(2);
const GRASS: BlockId = BlockId(3);
const BEDROCK: BlockId = BlockId(4);
const AIR: BlockId = BlockId(0);

fn core_registry() -> BlockRegistry {
    let mut registry = BlockRegistry::new();
    VanillaMod.register_core_blocks(&mut registry).unwrap();
    registry
}

fn generate(coord: ChunkCoord, heights: &ColumnHeights) -> Chunk {
    let registry = core_registry();
    let (at, chunk, _) = generate_chunk(coord, heights, GRASS, DIRT, STONE, BEDROCK, &registry);
    assert_eq!(at, coord);
    assert_eq!(chunk.coord(), coord);
    chunk
}

/// Height of the terrain at a world column: base elevation plus five
/// octaves of simplex noise.
fn terrain_height(simplex: &Simplex, world_x: i32, world_z: i32) -> i32 {
    let x = world_x as f64;
    let z = world_z as f64;
    let continental = simplex.get([x / 256.0, z / 256.0]) * 20.0;
    let regional = simplex.get([x / 64.0, z / 64.0]) * 12.0;
    let local = simplex.get([x / 32.0, z / 32.0]) * 6.0;
    let detail = simplex.get([x / 16.0, z / 16.0]) * 2.0;
    let micro = simplex.get([x / 8.0, z / 8.0]) * 1.0;
    let height = 32.0 + continental + regional + local + detail + micro;
    height.floor() as i32
}

fn heights_for(seed: u32, coord: ChunkCoord) -> ColumnHeights {
    let simplex = Simplex::new(seed);
    let mut heights: ColumnHeights = [0; 256];
    for z in 0..16 {
        for x in 0..16 {
            heights[x + 16 * z] = terrain_height(&simplex, coord.x * 16 + x as i32, coord.z * 16 + z as i32);
        }
    }
    heights
}

#[test]
fn terrain_constants() {
    assert_eq!(BASE_HEIGHT, 32);
    assert_eq!(DIRT_DEPTH, 3);
}

#[test]
fn column_layers_follow_the_height() {
    let heights: ColumnHeights = [20; 256];
    let low = generate(ChunkCoord::new(0, 0, 0), &heights);
    assert_eq!(low.get_block(3, 0, 4), BEDROCK);
    for y in 1..16 {
        assert_eq!(low.get_block(3, y, 4), STONE);
    }
    let high = generate(ChunkCoord::new(0, 1, 0), &heights);
    // world heights 16 to 31
    assert_eq!(high.get_block(3, 0, 4), STONE);
    assert_eq!(high.get_block(3, 1, 4), DIRT);
    assert_eq!(high.get_block(3, 2, 4), DIRT);
    assert_eq!(high.get_block(3, 3, 4), DIRT);
    assert_eq!(high.get_block(3, 4, 4), GRASS);
    for y in 5..16 {
        assert_eq!(high.get_block(3, y, 4), AIR);
    }
}

#[test]
fn nothing_lies_below_zero_and_bedrock_lies_at_zero() {
    let heights: ColumnHeights = [20; 256];
    let below = generate(ChunkCoord::new(0, -1, 0), &heights);
    for y in 0..16 {
        assert_eq!(below.get_block(7, y, 7), AIR);
    }
    // bedrock is there whatever the height
    for h in [-5, 0, 1, 2, 100] {
        let heights: ColumnHeights = [h; 256];
        let chunk = generate(ChunkCoord::new(0, 0, 0), &heights);
        assert_eq!(chunk.get_block(0, 0, 0), BEDROCK);
    }
    let flat: ColumnHeights = [0; 256];
    let chunk = generate(ChunkCoord::new(0, 0, 0), &flat);
    assert_eq!(chunk.get_block(0, 1, 0), AIR);
    let shallow: ColumnHeights = [2; 256];
    let chunk = generate(ChunkCoord::new(0, 0, 0), &shallow);
    assert_eq!(chunk.get_block(0, 1, 0), DIRT);
    assert_eq!(chunk.get_block(0, 2, 0), GRASS);
    assert_eq!(chunk.get_block(0, 3, 0), AIR);
    let deeper: ColumnHeights = [6; 256];
    let chunk = generate(ChunkCoord::new(0, 0, 0), &deeper);
    assert_eq!(chunk.get_block(0, 1, 0), STONE);
    assert_eq!(chunk.get_block(0, 2, 0), STONE);
    assert_eq!(chunk.get_block(0, 3, 0), DIRT);
    assert_eq!(chunk.get_block(0, 5, 0), DIRT);
    assert_eq!(chunk.get_block(0, 6, 0), GRASS);
}

#[test]
fn each_column_has_its_own_height() {
    let mut heights: ColumnHeights = [0; 256];
    for z in 0..16 {
        for x in 0..16 {
            heights[x + 16 * z] = 1 + ((x * 3 + z * 5) % 14) as i32;
        }
    }
    let chunk = generate(ChunkCoord::new(2, 0, -3), &heights);
    for z in 0..16usize {
        for x in 0..16usize {
            let h = 1 + (x * 3 + z * 5) % 14;
            assert_eq!(chunk.get_block(x, h, z), GRASS);
            assert_eq!(chunk.get_block(x, h + 1, z), AIR);
            assert_eq!(chunk.get_height_at(x, z), h + 1);
            // sky light: open air above the surface, none in the ground
            assert_eq!(chunk.get_light(x, h + 1, z), 15);
            assert_eq!(chunk.get_light(x, h, z), 0);
        }
    }
}

#[test]
fn generation_is_deterministic() {
    let coord = ChunkCoord::new(3, 2, -1);
    let heights = heights_for(42, coord);
    let a = generate(coord, &heights);
    let b = generate(coord, &heights_for(42, coord));
    for y in 0..16 {
        for z in 0..16 {
            for x in 0..16 {
                assert_eq!(a.get_block(x, y, z), b.get_block(x, y, z));
                assert_eq!(a.get_light(x, y, z), b.get_light(x, y, z));
            }
        }
    }
}

#[test]
fn seed_42_column_at_the_origin() {
    let simplex = Simplex::new(42);
    let expected_height = (32.0
        + simplex.get([0.0, 0.0]) * 20.0
        + simplex.get([0.0, 0.0]) * 12.0
        + simplex.get([0.0, 0.0]) * 6.0
        + simplex.get([0.0, 0.0]) * 2.0
        + simplex.get([0.0, 0.0]) * 1.0)
        .floor() as i32;
    let heights = heights_for(42, ChunkCoord::new(0, 0, 0));
    let height = heights[0];
    assert_eq!(height, expected_height);
    assert!(height > 3);
    // the column through every chunk that it reaches
    let top_chunk = height / 16 + 1;
    for cy in 0..=top_chunk {
        let chunk = generate(ChunkCoord::new(0, cy, 0), &heights);
        for y in 0..16usize {
            let world_y = cy * 16 + y as i32;
            let expected = if world_y == 0 {
                BEDROCK
            } else if world_y > height {
                AIR
            } else if world_y == height {
                GRASS
            } else if world_y >= height - 3 {
                DIRT
            } else {
                STONE
            };
            assert_eq!(chunk.get_block(0, y, 0), expected);
        }
    }
}

#[test]
fn generated_chunk_comes_with_its_mesh() {
    let registry = core_registry();
    let heights: ColumnHeights = [4; 256];
    let (_, chunk, mesh) =
        generate_chunk(ChunkCoord::new(0, 0, 0), &heights, GRASS, DIRT, STONE, BEDROCK, &registry);
    let mesh = mesh.unwrap();
    // a slab of 16 by 16 by 5 blocks: top and bottom, and four sides 5 high
    assert_eq!(mesh.vertices.len(), (2 * 256 + 4 * 16 * 5) * 4);
    assert_eq!(mesh.indices.len(), (2 * 256 + 4 * 16 * 5) * 6);
    assert_eq!(chunk.get_block(0, 4, 0), GRASS);
    let air: ColumnHeights = [4; 256];
    let (_, _, none) =
        generate_chunk(ChunkCoord::new(0, 1, 0), &air, GRASS, DIRT, STONE, BEDROCK, &registry);
    assert!(none.is_none());
}
