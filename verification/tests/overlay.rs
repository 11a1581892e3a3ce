use voxel_world::blocks::BlockId;
use voxel_world::chunk::{Chunk, ChunkCoord};
use voxel_world::game_state::{icon_fill, IconFill};
use voxel_world::mesh::{get_block_light, NeighborChunks};
use voxel_world::overlay::{
    collect_low_light_positions, has_direct_sky_access_in_chunk, LightMarker, SurfaceMarker,
    MOB_SPAWN_THRESHOLD,
};

const STONE: BlockId = BlockId(1);

#[test]
fn sky_access_looks_at_the_column_above() {
    let mut chunk = Chunk::new(ChunkCoord::new(0, 0, 0));
    chunk.set_block(4, 9, 4, STONE);
    assert!(has_direct_sky_access_in_chunk(&chunk, 4, 9, 4));
    assert!(has_direct_sky_access_in_chunk(&chunk, 4, 12, 4));
    assert!(!has_direct_sky_access_in_chunk(&chunk, 4, 8, 4));
    assert!(!has_direct_sky_access_in_chunk(&chunk, 4, 0, 4));
    assert!(has_direct_sky_access_in_chunk(&chunk, 5, 0, 4));
    assert!(has_direct_sky_access_in_chunk(&chunk, 4, 15, 4));
    assert!(has_direct_sky_access_in_chunk(&chunk, 4, usize::MAX, 4));
}

#[test]
fn surfaces_are_marked_by_the_light_above_them() {
    assert_eq!(MOB_SPAWN_THRESHOLD, 7);
    let mut chunk = Chunk::new(ChunkCoord::new(0, 0, 0));
    // a floor with a roof over half of it
    for x in 0..16 {
        for z in 0..16 {
            chunk.set_block(x, 0, z, STONE);
            if x >= 4 {
                chunk.set_block(x, 3, z, STONE);
            }
        }
    }
    chunk.calculate_skylight();
    let markers = collect_low_light_positions(&chunk);
    let marker_of = |x: u8, y: u8, z: u8| -> Option<LightMarker> {
        markers
            .iter()
            .find(|m| (m.x, m.y, m.z) == (x, y, z))
            .map(|m| m.marker)
    };
    // under the open sky: no marker
    assert_eq!(marker_of(0, 0, 8), None);
    assert_eq!(marker_of(3, 0, 8), None);
    // under the roof the light falls off from the edge: 14, 13, ...
    assert_eq!(chunk.get_light(4, 1, 8), 14);
    assert_eq!(marker_of(4, 0, 8), Some(LightMarker::Yellow));
    assert_eq!(chunk.get_light(11, 1, 8), 7);
    assert_eq!(marker_of(11, 0, 8), Some(LightMarker::Yellow));
    assert_eq!(chunk.get_light(12, 1, 8), 6);
    assert_eq!(marker_of(12, 0, 8), Some(LightMarker::Red));
    assert_eq!(marker_of(15, 0, 8), Some(LightMarker::Red));
    // on top of the roof the sky is open
    assert_eq!(marker_of(8, 3, 8), None);
    // every marker lies on the floor under the roof, in ascending order
    assert_eq!(markers.len(), 12 * 16);
    for pair in markers.windows(2) {
        let a = pair[0].x as usize + 16 * pair[0].z as usize + 256 * pair[0].y as usize;
        let b = pair[1].x as usize + 16 * pair[1].z as usize + 256 * pair[1].y as usize;
        assert!(a < b);
    }
    assert_eq!(
        markers[0],
        SurfaceMarker { x: 4, y: 0, z: 0, marker: LightMarker::Yellow }
    );
}

#[test]
fn full_light_without_open_sky_is_marked_yellow() {
    let mut chunk = Chunk::new(ChunkCoord::new(0, 0, 0));
    chunk.set_block(2, 0, 2, STONE);
    chunk.set_block(2, 9, 2, STONE);
    // light left at full under the block above
    let markers = collect_low_light_positions(&chunk);
    assert_eq!(
        markers,
        vec![SurfaceMarker { x: 2, y: 0, z: 2, marker: LightMarker::Yellow }]
    );
    // a surface in the top layer has nothing above it in the chunk
    let mut top = Chunk::new(ChunkCoord::new(0, 0, 0));
    top.set_block(1, 15, 1, STONE);
    assert!(collect_low_light_positions(&top).is_empty());
}

#[test]
fn brightest_light_around_a_voxel() {
    let mut chunk = Chunk::new(ChunkCoord::new(0, 0, 0));
    for (x, y, z, level) in [(5, 6, 5, 1), (5, 4, 5, 2), (5, 5, 4, 3), (5, 5, 6, 9), (6, 5, 5, 4), (4, 5, 5, 5)] {
        chunk.set_light(x, y, z, level);
    }
    let none = NeighborChunks::none();
    assert_eq!(get_block_light(&chunk, &none, 5, 5, 5), 9);
    chunk.set_light(5, 5, 6, 0);
    assert_eq!(get_block_light(&chunk, &none, 5, 5, 5), 5);
    // on the floor of a chunk without neighbours, below counts as dark
    for (x, y, z) in [(0, 0, 1), (1, 0, 0), (1, 0, 2), (2, 0, 1)] {
        chunk.set_light(x, y, z, 0);
    }
    chunk.set_light(1, 1, 1, 3);
    chunk.set_light(1, 0, 1, 0);
    assert_eq!(get_block_light(&chunk, &none, 1, 0, 1), 3);
    // at the edge an unknown neighbour to the side counts as lit
    assert_eq!(get_block_light(&chunk, &none, 0, 0, 1), 15);
}

#[test]
fn icons_fill_by_half_points() {
    assert_eq!(icon_fill(20, 9), IconFill::Full);
    assert_eq!(icon_fill(19, 9), IconFill::Half);
    assert_eq!(icon_fill(18, 9), IconFill::Empty);
    assert_eq!(icon_fill(18, 8), IconFill::Full);
    assert_eq!(icon_fill(0, 0), IconFill::Empty);
    assert_eq!(icon_fill(1, 0), IconFill::Half);
    assert_eq!(icon_fill(2, 0), IconFill::Full);
    assert_eq!(icon_fill(255, 126), IconFill::Full);
    assert_eq!(icon_fill(255, 127), IconFill::Half);
    assert_eq!(icon_fill(255, 128), IconFill::Empty);
    assert_eq!(icon_fill(255, usize::MAX), IconFill::Empty);
}
