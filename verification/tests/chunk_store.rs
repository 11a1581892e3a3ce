use voxel_world::blocks::BlockId;
use voxel_world::chunk::{
    BoundaryLight, Chunk, ChunkCoord, ChunkFace, CHUNK_SIZE, MAX_LIGHT_LEVEL, VIEW_DISTANCE,
    VIEW_DISTANCE_VERTICAL,
};
use voxel_world::coord_map::CoordMap;

#[test]
fn constants_have_their_values() {
    assert_eq!(CHUNK_SIZE, 16);
    assert_eq!(MAX_LIGHT_LEVEL, 15);
    assert_eq!(VIEW_DISTANCE, 10);
    assert_eq!(VIEW_DISTANCE_VERTICAL, 5);
}

#[test]
fn new_chunk_is_air_at_full_light() {
    let chunk = Chunk::new(ChunkCoord::new(1, -2, 3));
    assert_eq!(chunk.coord(), ChunkCoord { x: 1, y: -2, z: 3 });
    for y in 0..16 {
        for z in 0..16 {
            for x in 0..16 {
                assert_eq!(chunk.get_block(x, y, z), BlockId::air());
                assert_eq!(chunk.get_light(x, y, z), 15);
            }
        }
    }
}

#[test]
fn set_block_then_get_block_returns_the_block() {
    let mut chunk = Chunk::new(ChunkCoord::new(0, 0, 0));
    for id in [1u16, 2, 255, 65535] {
        chunk.set_block(3, 4, 5, BlockId(id));
        assert_eq!(chunk.get_block(3, 4, 5), BlockId(id));
    }
    chunk.set_block(0, 0, 0, BlockId(7));
    chunk.set_block(15, 15, 15, BlockId(8));
    assert_eq!(chunk.get_block(0, 0, 0), BlockId(7));
    assert_eq!(chunk.get_block(15, 15, 15), BlockId(8));
    assert_eq!(chunk.get_block(3, 4, 5), BlockId(65535));
    // every other voxel is untouched
    assert_eq!(chunk.get_block(4, 4, 5), BlockId(0));
    assert_eq!(chunk.get_block(3, 5, 5), BlockId(0));
    assert_eq!(chunk.get_block(3, 4, 6), BlockId(0));
}

#[test]
fn out_of_range_accesses_change_nothing() {
    let mut chunk = Chunk::new(ChunkCoord::new(0, 0, 0));
    chunk.set_block(3, 4, 5, BlockId(9));
    chunk.set_light(3, 4, 5, 6);
    chunk.set_block(16, 4, 5, BlockId(1));
    chunk.set_block(3, 16, 5, BlockId(1));
    chunk.set_block(3, 4, 16, BlockId(1));
    chunk.set_block(usize::MAX, usize::MAX, usize::MAX, BlockId(1));
    chunk.set_light(16, 0, 0, 3);
    chunk.set_light(0, 99, 0, 3);
    assert_eq!(chunk.get_block(16, 4, 5), BlockId::air());
    assert_eq!(chunk.get_block(3, 16, 5), BlockId::air());
    assert_eq!(chunk.get_block(3, 4, 16), BlockId::air());
    assert_eq!(chunk.get_light(16, 0, 0), 15);
    assert_eq!(chunk.get_light(0, 0, usize::MAX), 15);
    assert_eq!(chunk.get_block(3, 4, 5), BlockId(9));
    assert_eq!(chunk.get_light(3, 4, 5), 6);
    let mut others = 0;
    for y in 0..16 {
        for z in 0..16 {
            for x in 0..16 {
                if (x, y, z) != (3, 4, 5) {
                    assert_eq!(chunk.get_block(x, y, z), BlockId(0));
                    assert_eq!(chunk.get_light(x, y, z), 15);
                    others += 1;
                }
            }
        }
    }
    assert_eq!(others, 4095);
}

#[test]
fn set_light_clamps_to_fifteen() {
    let mut chunk = Chunk::new(ChunkCoord::new(0, 0, 0));
    chunk.set_light(1, 2, 3, 0);
    assert_eq!(chunk.get_light(1, 2, 3), 0);
    chunk.set_light(1, 2, 3, 15);
    assert_eq!(chunk.get_light(1, 2, 3), 15);
    chunk.set_light(1, 2, 3, 16);
    assert_eq!(chunk.get_light(1, 2, 3), 15);
    chunk.set_light(1, 2, 3, 255);
    assert_eq!(chunk.get_light(1, 2, 3), 15);
    chunk.set_light(1, 2, 3, 7);
    assert_eq!(chunk.get_light(1, 2, 3), 7);
}

#[test]
fn voxels_are_independent_of_each_other() {
    // x is the fastest axis, then z, then y: writing every voxel a value
    // of its own and reading it back shows that no two share a cell
    let mut chunk = Chunk::new(ChunkCoord::new(0, 0, 0));
    for y in 0..16usize {
        for z in 0..16usize {
            for x in 0..16usize {
                chunk.set_block(x, y, z, BlockId((x + z * 16 + y * 256) as u16 + 1));
            }
        }
    }
    for y in 0..16usize {
        for z in 0..16usize {
            for x in 0..16usize {
                assert_eq!(
                    chunk.get_block(x, y, z),
                    BlockId((x + z * 16 + y * 256) as u16 + 1)
                );
            }
        }
    }
}

#[test]
fn chunk_of_a_world_position_rounds_down() {
    assert_eq!(ChunkCoord::from_world_pos(0, 0, 0), ChunkCoord::new(0, 0, 0));
    assert_eq!(ChunkCoord::from_world_pos(15, 16, 31), ChunkCoord::new(0, 1, 1));
    assert_eq!(ChunkCoord::from_world_pos(-1, -16, -17), ChunkCoord::new(-1, -1, -2));
    assert_eq!(
        ChunkCoord::from_world_pos(i32::MAX, i32::MIN, 32),
        ChunkCoord::new(134217727, -134217728, 2)
    );
}

#[test]
fn world_position_of_a_chunk_is_its_origin_corner() {
    assert_eq!(ChunkCoord::new(0, 0, 0).to_world_pos(), (0, 0, 0));
    assert_eq!(ChunkCoord::new(2, -1, 3).to_world_pos(), (32, -16, 48));
    assert_eq!(
        ChunkCoord::new(i32::MAX, i32::MIN, 0).to_world_pos(),
        (34359738352, -34359738368, 0)
    );
    let c = ChunkCoord::from_world_pos(-33, 47, 5);
    let origin = c.to_world_pos();
    assert_eq!(origin, (-48, 32, 0));
}

#[test]
fn distances_between_chunks() {
    let a = ChunkCoord::new(1, 2, 3);
    let b = ChunkCoord::new(4, -2, 3);
    assert_eq!(a.distance_squared(&b), 25);
    assert_eq!(b.distance_squared(&a), 25);
    assert_eq!(a.manhattan_distance(&b), 7);
    assert_eq!(a.distance_squared(&a), 0);
    let far = ChunkCoord::new(i32::MAX, i32::MAX, i32::MAX);
    let near = ChunkCoord::new(i32::MIN, i32::MIN, i32::MIN);
    assert_eq!(far.manhattan_distance(&near), 3 * 4294967295i64);
    assert_eq!(far.distance_squared(&near), 3 * 4294967295i128 * 4294967295i128);
}

#[test]
fn offset_stops_where_the_grid_ends() {
    let c = ChunkCoord::new(5, i32::MAX, i32::MIN);
    assert_eq!(c.offset(1, 0, 0), Some(ChunkCoord::new(6, i32::MAX, i32::MIN)));
    assert_eq!(c.offset(0, 1, 0), None);
    assert_eq!(c.offset(0, 0, -1), None);
    assert_eq!(c.offset(0, -1, 1), Some(ChunkCoord::new(5, i32::MAX - 1, i32::MIN + 1)));
}

#[test]
fn boundary_light_copies_the_six_outer_layers() {
    let mut chunk = Chunk::new(ChunkCoord::new(0, 0, 0));
    chunk.set_light(0, 3, 4, 1);
    chunk.set_light(15, 3, 4, 2);
    chunk.set_light(5, 0, 6, 3);
    chunk.set_light(5, 15, 6, 4);
    chunk.set_light(7, 8, 0, 5);
    chunk.set_light(7, 8, 15, 6);
    let b = chunk.get_boundary_light();
    assert_eq!(b.neg_x[3][4], 1);
    assert_eq!(b.pos_x[3][4], 2);
    assert_eq!(b.neg_y[5][6], 3);
    assert_eq!(b.pos_y[5][6], 4);
    assert_eq!(b.neg_z[7][8], 5);
    assert_eq!(b.pos_z[7][8], 6);
    assert_eq!(b.neg_x[4][3], 15);
    assert_eq!(b.pos_z[0][0], 15);
}

fn plane(level: u8) -> [[u8; 16]; 16] {
    [[level; 16]; 16]
}

fn boundary(level: u8) -> BoundaryLight {
    BoundaryLight {
        neg_x: plane(level),
        pos_x: plane(level),
        neg_y: plane(level),
        pos_y: plane(level),
        neg_z: plane(level),
        pos_z: plane(level),
    }
}

#[test]
fn boundary_light_would_update_a_darker_neighbour() {
    let bright = boundary(10);
    let dark = boundary(3);
    // 10 - 1 > 3
    assert!(bright.would_update_neighbor(ChunkFace::NegX, &dark));
    assert!(bright.would_update_neighbor(ChunkFace::PosY, &dark));
    // 3 - 1 is not above 10
    assert!(!dark.would_update_neighbor(ChunkFace::NegX, &bright));
    // equal after the fall-off: 10 - 1 is not above 9
    assert!(!bright.would_update_neighbor(ChunkFace::PosZ, &boundary(9)));
    assert!(bright.would_update_neighbor(ChunkFace::PosZ, &boundary(8)));
    // light 1 spreads nothing
    assert!(!boundary(1).would_update_neighbor(ChunkFace::NegZ, &boundary(0)));
    assert!(boundary(2).would_update_neighbor(ChunkFace::NegZ, &boundary(0)));
}

#[test]
fn boundary_light_compares_facing_layers_only() {
    let mut ours = boundary(0);
    ours.pos_x[2][3] = 12;
    let theirs = boundary(5);
    assert!(ours.would_update_neighbor(ChunkFace::PosX, &theirs));
    assert!(!ours.would_update_neighbor(ChunkFace::NegX, &theirs));
    assert!(!ours.would_update_neighbor(ChunkFace::PosY, &theirs));
    let mut lit = boundary(5);
    lit.neg_x[2][3] = 11;
    // our +x layer faces their -x layer
    assert!(!ours.would_update_neighbor(ChunkFace::PosX, &lit));
}

#[test]
fn faces_on_the_chunk_boundary_count_as_exposed() {
    let mut chunk = Chunk::new(ChunkCoord::new(0, 0, 0));
    chunk.set_block(0, 5, 5, BlockId(1));
    chunk.set_block(1, 5, 5, BlockId(1));
    assert!(chunk.should_render_face(0, 5, 5, -1, 0, 0));
    assert!(!chunk.should_render_face(0, 5, 5, 1, 0, 0));
    assert!(chunk.should_render_face(1, 5, 5, 1, 0, 0));
    assert!(!chunk.should_render_face(1, 5, 5, -1, 0, 0));
    assert!(chunk.should_render_face(0, 5, 5, 0, 1, 0));
    assert!(chunk.should_render_face(15, 15, 15, 0, 0, 1));
}

#[test]
fn height_of_a_column() {
    let mut chunk = Chunk::new(ChunkCoord::new(0, 0, 0));
    assert_eq!(chunk.get_height_at(2, 3), 0);
    chunk.set_block(2, 0, 3, BlockId(1));
    assert_eq!(chunk.get_height_at(2, 3), 1);
    chunk.set_block(2, 9, 3, BlockId(1));
    assert_eq!(chunk.get_height_at(2, 3), 10);
    chunk.set_block(2, 15, 3, BlockId(1));
    assert_eq!(chunk.get_height_at(2, 3), 16);
    assert_eq!(chunk.get_height_at(3, 3), 0);
    assert_eq!(chunk.get_height_at(16, 3), 0);
}

#[test]
fn snapshot_is_an_independent_copy() {
    let mut chunk = Chunk::new(ChunkCoord::new(4, 5, 6));
    chunk.set_block(1, 1, 1, BlockId(3));
    chunk.set_light(2, 2, 2, 9);
    let copy = chunk.snapshot();
    chunk.set_block(1, 1, 1, BlockId(4));
    chunk.set_light(2, 2, 2, 1);
    assert_eq!(copy.coord(), ChunkCoord::new(4, 5, 6));
    assert_eq!(copy.get_block(1, 1, 1), BlockId(3));
    assert_eq!(copy.get_light(2, 2, 2), 9);
    assert_eq!(chunk.get_block(1, 1, 1), BlockId(4));
}

#[test]
fn coord_map_keeps_one_value_for_each_coordinate() {
    let mut m: CoordMap<u32> = CoordMap::new();
    let a = ChunkCoord::new(0, 0, 0);
    let b = ChunkCoord::new(0, 1, 0);
    let c = ChunkCoord::new(-1, 0, 0);
    assert_eq!(m.len(), 0);
    assert!(m.get(a).is_none());
    m.insert(a, 1);
    m.insert(b, 2);
    m.insert(c, 3);
    m.insert(a, 10);
    assert_eq!(m.len(), 3);
    assert_eq!(m.get(a), Some(&10));
    assert_eq!(m.get(b), Some(&2));
    assert_eq!(m.index_of(a), Some(0));
    assert_eq!(m.key(1), b);
    assert_eq!(*m.value(2), 3);
    *m.value_mut(1) = 20;
    assert_eq!(m.get(b), Some(&20));
    assert_eq!(m.remove(a), Some(10));
    assert_eq!(m.remove(a), None);
    assert_eq!(m.len(), 2);
    assert!(!m.contains_key(a));
    assert!(m.contains_key(b));
    assert_eq!(m.get(c), Some(&3));
    // the last entry took the freed position
    assert_eq!(m.key(0), c);
}
