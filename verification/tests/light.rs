use voxel_world::blocks::BlockId;
use voxel_world::chunk::{Chunk, ChunkCoord, NeighborLightData};
use voxel_world::relight::{
    calculate_skylight_with_cache, is_column_shadowed, neighbors_from_cache,
    propagate_light_from_cache, ChunkCache,
};

const STONE: BlockId = BlockId(1);

fn solid_chunk(coord: ChunkCoord) -> Chunk {
    let mut chunk = Chunk::new(coord);
    for y in 0..16 {
        for z in 0..16 {
            for x in 0..16 {
                chunk.set_block(x, y, z, STONE);
            }
        }
    }
    chunk
}

fn dark_air_chunk(coord: ChunkCoord) -> Chunk {
    let mut chunk = Chunk::new(coord);
    for y in 0..16 {
        for z in 0..16 {
            for x in 0..16 {
                chunk.set_light(x, y, z, 0);
            }
        }
    }
    chunk
}

fn lights(chunk: &Chunk) -> Vec<u8> {
    let mut all = Vec::new();
    for y in 0..16 {
        for z in 0..16 {
            for x in 0..16 {
                all.push(chunk.get_light(x, y, z));
            }
        }
    }
    all
}

fn abs_diff(a: usize, b: usize) -> usize {
    if a > b {
        a - b
    } else {
        b - a
    }
}

#[test]
fn air_chunk_under_open_sky_is_fully_lit() {
    let mut chunk = dark_air_chunk(ChunkCoord::new(0, 0, 0));
    chunk.calculate_skylight();
    for level in lights(&chunk) {
        assert_eq!(level, 15);
    }
}

#[test]
fn solid_blocks_hold_no_light_and_light_stays_in_range() {
    let mut chunk = Chunk::new(ChunkCoord::new(0, 0, 0));
    for z in 0..16 {
        for x in 0..16 {
            for y in 0..(1 + (x + z) % 9) {
                chunk.set_block(x, y, z, STONE);
            }
        }
    }
    chunk.set_block(8, 12, 8, STONE);
    chunk.calculate_skylight();
    for y in 0..16 {
        for z in 0..16 {
            for x in 0..16 {
                let level = chunk.get_light(x, y, z);
                assert!(level <= 15);
                if !chunk.get_block(x, y, z).is_air() {
                    assert_eq!(level, 0);
                }
            }
        }
    }
    // in the shadow of the floating block light comes in from the side
    assert_eq!(chunk.get_light(8, 11, 8), 14);
    assert_eq!(chunk.get_light(8, 13, 8), 15);
}

#[test]
fn room_with_one_opening_is_lit_by_distance_from_it() {
    let mut chunk = solid_chunk(ChunkCoord::new(0, 0, 0));
    // a room two blocks tall
    for y in 5..=6 {
        for z in 4..=6 {
            for x in 2..=12 {
                chunk.set_block(x, y, z, BlockId::air());
            }
        }
    }
    // one shaft to the sky, above the voxel (2, 6, 5)
    for y in 7..16 {
        chunk.set_block(2, y, 5, BlockId::air());
    }
    chunk.calculate_skylight();
    assert_eq!(chunk.get_light(2, 15, 5), 15);
    assert_eq!(chunk.get_light(2, 7, 5), 15);
    assert_eq!(chunk.get_light(2, 6, 5), 15);
    assert_eq!(chunk.get_light(2, 5, 5), 15);
    assert_eq!(chunk.get_light(3, 5, 5), 14);
    assert_eq!(chunk.get_light(4, 5, 5), 13);
    assert_eq!(chunk.get_light(5, 5, 5), 12);
    assert_eq!(chunk.get_light(2, 5, 4), 14);
    assert_eq!(chunk.get_light(12, 5, 4), 4);
    for y in 5..=6 {
        for z in 4..=6usize {
            for x in 2..=12usize {
                let distance = abs_diff(x, 2) + abs_diff(z, 5);
                assert_eq!(chunk.get_light(x, y, z) as usize, 15 - distance);
            }
        }
    }
    // never brighter farther along the floor
    for x in 2..12 {
        assert!(chunk.get_light(x + 1, 5, 5) <= chunk.get_light(x, 5, 5));
    }
    // the rock around the room is dark
    assert_eq!(chunk.get_light(2, 4, 5), 0);
    assert_eq!(chunk.get_light(13, 5, 5), 0);
    assert_eq!(chunk.get_light(3, 7, 5), 0);
}

#[test]
fn flood_fill_never_darkens_and_settles() {
    let mut chunk = solid_chunk(ChunkCoord::new(0, 0, 0));
    for x in 1..15 {
        chunk.set_block(x, 3, 3, BlockId::air());
    }
    // light left in a block that is not air stays and acts as a source
    chunk.set_light(0, 3, 3, 9);
    chunk.set_light(5, 3, 3, 2);
    let before = lights(&chunk);
    let none = NeighborLightData::none();
    chunk.propagate_light(&none);
    let after = lights(&chunk);
    for i in 0..4096 {
        assert!(after[i] >= before[i]);
    }
    assert_eq!(chunk.get_light(0, 3, 3), 9);
    assert_eq!(chunk.get_light(1, 3, 3), 15);
    assert_eq!(chunk.get_light(14, 3, 3), 15);
    // one more pass changes nothing
    chunk.propagate_light(&none);
    assert_eq!(lights(&chunk), after);
    chunk.propagate_light(&none);
    assert_eq!(lights(&chunk), after);
}

#[test]
fn flood_fill_spreads_one_level_darker_per_step() {
    let mut chunk = solid_chunk(ChunkCoord::new(0, 0, 0));
    for x in 0..16 {
        chunk.set_block(x, 8, 8, BlockId::air());
        chunk.set_light(x, 8, 8, 0);
    }
    for y in 0..16 {
        for z in 0..16 {
            for x in 0..16 {
                chunk.set_light(x, y, z, 0);
            }
        }
    }
    chunk.set_light(0, 8, 8, 12);
    chunk.propagate_light(&NeighborLightData::none());
    for x in 0..16usize {
        let expected = if x <= 12 { 12 - x } else { 0 };
        assert_eq!(chunk.get_light(x, 8, 8) as usize, expected);
    }
}

#[test]
fn light_crosses_winding_corridors_within_the_pass_limit() {
    // a corridor that doubles back, so that backward and forward sweeps
    // are both needed to carry the light along it
    let mut chunk = solid_chunk(ChunkCoord::new(0, 0, 0));
    let mut path: Vec<(usize, usize)> = Vec::new();
    for x in 1..=5 {
        path.push((x, 1));
    }
    path.push((5, 2));
    path.push((5, 3));
    for x in (1..=4).rev() {
        path.push((x, 3));
    }
    path.push((1, 4));
    path.push((1, 5));
    for x in 2..=5 {
        path.push((x, 5));
    }
    for &(x, z) in &path {
        chunk.set_block(x, 2, z, BlockId::air());
    }
    for y in 0..16 {
        for z in 0..16 {
            for x in 0..16 {
                chunk.set_light(x, y, z, 0);
            }
        }
    }
    chunk.set_light(1, 2, 1, 15);
    chunk.propagate_light(&NeighborLightData::none());
    for (step, &(x, z)) in path.iter().enumerate() {
        let expected = if step <= 15 { 15 - step } else { 0 };
        assert_eq!(chunk.get_light(x, 2, z) as usize, expected);
    }
}

#[test]
fn light_flows_in_from_a_neighbour() {
    let west = Chunk::new(ChunkCoord::new(-1, 0, 0));
    let mut chunk = dark_air_chunk(ChunkCoord::new(0, 0, 0));
    let neighbors = NeighborLightData {
        neg_x: Some(&west),
        pos_x: None,
        neg_y: None,
        pos_y: None,
        neg_z: None,
        pos_z: None,
    };
    chunk.propagate_light(&neighbors);
    for x in 0..16usize {
        let expected = if x < 14 { 14 - x } else { 0 };
        assert_eq!(chunk.get_light(x, 7, 7) as usize, expected);
    }
    // without the neighbour nothing comes in
    let mut alone = dark_air_chunk(ChunkCoord::new(0, 0, 0));
    alone.propagate_light(&NeighborLightData::none());
    for level in lights(&alone) {
        assert_eq!(level, 0);
    }
}

#[test]
fn chunk_above_shadows_its_columns() {
    let mut above = Chunk::new(ChunkCoord::new(0, 1, 0));
    above.set_block(3, 0, 3, STONE);
    above.set_block(9, 12, 9, STONE);
    // stored light of the chunk above plays no part
    above.set_light(4, 0, 4, 0);
    let mut chunk = Chunk::new(ChunkCoord::new(0, 0, 0));
    for x in 0..16 {
        for z in 0..16 {
            chunk.set_block(x, 0, z, STONE);
        }
    }
    let neighbors = NeighborLightData {
        neg_x: None,
        pos_x: None,
        neg_y: None,
        pos_y: Some(&above),
        neg_z: None,
        pos_z: None,
    };
    chunk.calculate_skylight_with_neighbors(&neighbors);
    // unshadowed columns are fully lit down to the floor
    assert_eq!(chunk.get_light(0, 15, 0), 15);
    assert_eq!(chunk.get_light(0, 1, 0), 15);
    assert_eq!(chunk.get_light(4, 15, 4), 15);
    // shadowed columns take their light from the side
    assert_eq!(chunk.get_light(3, 15, 3), 14);
    assert_eq!(chunk.get_light(3, 1, 3), 14);
    assert_eq!(chunk.get_light(9, 15, 9), 14);
    assert_eq!(chunk.get_light(9, 1, 9), 14);
    assert_eq!(chunk.get_light(3, 0, 3), 0);
}

fn cache_of(chunks: Vec<Chunk>) -> ChunkCache {
    let mut cache = ChunkCache::new();
    for chunk in chunks {
        cache.insert(chunk.coord(), chunk);
    }
    cache
}

#[test]
fn column_shadow_looks_up_through_the_cached_chunks() {
    let base = ChunkCoord::new(0, 0, 0);
    let mut third = Chunk::new(ChunkCoord::new(0, 3, 0));
    third.set_block(5, 9, 5, STONE);
    let cache = cache_of(vec![
        Chunk::new(ChunkCoord::new(0, 1, 0)),
        Chunk::new(ChunkCoord::new(0, 2, 0)),
        third,
    ]);
    assert!(is_column_shadowed(5, 5, base, &cache));
    assert!(!is_column_shadowed(5, 6, base, &cache));
    assert!(!is_column_shadowed(6, 5, base, &cache));
    // a gap in the cached chunks ends the search
    let mut far = Chunk::new(ChunkCoord::new(0, 3, 0));
    far.set_block(5, 9, 5, STONE);
    let gapped = cache_of(vec![Chunk::new(ChunkCoord::new(0, 1, 0)), far]);
    assert!(!is_column_shadowed(5, 5, base, &gapped));
    // with nothing cached the sky is open
    assert!(!is_column_shadowed(5, 5, base, &ChunkCache::new()));
}

#[test]
fn column_shadow_search_ends_after_eight_chunks() {
    let base = ChunkCoord::new(0, 0, 0);
    let mut chunks = Vec::new();
    for dy in 1..=7 {
        chunks.push(Chunk::new(ChunkCoord::new(0, dy, 0)));
    }
    let mut eighth = Chunk::new(ChunkCoord::new(0, 8, 0));
    eighth.set_block(1, 0, 1, STONE);
    chunks.push(eighth);
    let mut ninth = Chunk::new(ChunkCoord::new(0, 9, 0));
    ninth.set_block(2, 0, 2, STONE);
    chunks.push(ninth);
    let cache = cache_of(chunks);
    assert!(is_column_shadowed(1, 1, base, &cache));
    assert!(!is_column_shadowed(2, 2, base, &cache));
    // at the top of the grid there is nothing above
    let top = ChunkCoord::new(0, i32::MAX, 0);
    assert!(!is_column_shadowed(1, 1, top, &cache));
}

#[test]
fn sky_light_within_a_cache() {
    let coord = ChunkCoord::new(0, 0, 0);
    let mut roof = Chunk::new(ChunkCoord::new(0, 1, 0));
    for x in 0..16 {
        for z in 0..16 {
            roof.set_block(x, 4, z, STONE);
        }
    }
    let cache = cache_of(vec![roof]);
    let mut chunk = Chunk::new(coord);
    calculate_skylight_with_cache(&mut chunk, coord, &cache);
    // every column is shadowed; the chunk above is in the cache with full
    // light, so the top layer takes 14 from it
    assert_eq!(chunk.get_light(3, 15, 3), 14);
    assert_eq!(chunk.get_light(3, 14, 3), 13);
    assert_eq!(chunk.get_light(3, 2, 3), 1);
    assert_eq!(chunk.get_light(3, 1, 3), 0);
    let neighbors = neighbors_from_cache(&cache, coord);
    assert!(neighbors.pos_y.is_some());
    assert!(neighbors.neg_y.is_none());
    assert!(neighbors.neg_x.is_none());

    // without any cached chunk the sky is open
    let mut open = dark_air_chunk(coord);
    calculate_skylight_with_cache(&mut open, coord, &ChunkCache::new());
    for level in lights(&open) {
        assert_eq!(level, 15);
    }
}

#[test]
fn flood_fill_from_a_cache_takes_the_cached_light() {
    let coord = ChunkCoord::new(2, 2, 2);
    let mut south = dark_air_chunk(ChunkCoord::new(2, 2, 3));
    south.set_light(4, 4, 0, 10);
    let cache = cache_of(vec![south]);
    let mut chunk = dark_air_chunk(coord);
    propagate_light_from_cache(&mut chunk, coord, &cache);
    assert_eq!(chunk.get_light(4, 4, 15), 9);
    assert_eq!(chunk.get_light(4, 4, 14), 8);
    assert_eq!(chunk.get_light(5, 4, 15), 8);
    assert_eq!(chunk.get_light(4, 4, 6), 0);
    let after = lights(&chunk);
    propagate_light_from_cache(&mut chunk, coord, &cache);
    assert_eq!(lights(&chunk), after);
}
