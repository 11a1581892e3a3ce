use voxel_world::batch::RemeshedChunk;
use voxel_world::blocks::BlockId;
use voxel_world::chunk::{Chunk, ChunkCoord};
use voxel_world::game_state::{ChunkBorderMode, ChunkBorderState, GameState, PlayerStats};
use voxel_world::inventory::{HotbarItem, ItemId, PlayerInventory};
use voxel_world::mods::VanillaMod;
use voxel_world::registry::BlockRegistry;
use voxel_world::world::ChunkManager;

const STONE: BlockId = BlockId(1);
const BEDROCK: BlockId = BlockId(4);

fn core_registry() -> BlockRegistry {
    let mut registry = BlockRegistry::new();
    VanillaMod.register_core_blocks(&mut registry).unwrap();
    registry
}

fn world_of(coords: &[(i32, i32, i32)]) -> ChunkManager {
    let mut manager = ChunkManager::default();
    for &(x, y, z) in coords {
        let coord = ChunkCoord::new(x, y, z);
        manager.integrate_chunk(coord, Chunk::new(coord));
    }
    manager
}

fn clean(manager: &mut ChunkManager) {
    let n = manager.loaded_chunks.len();
    for i in 0..n {
        manager.loaded_chunks.value_mut(i).needs_remesh = false;
    }
}

fn dirty(manager: &ChunkManager, x: i32, y: i32, z: i32) -> bool {
    manager.needs_remesh(ChunkCoord::new(x, y, z))
}

fn coords_of(results: &Vec<RemeshedChunk>) -> Vec<ChunkCoord> {
    results.iter().map(|r| r.coord).collect()
}

#[test]
fn default_world_is_empty() {
    let manager = ChunkManager::default();
    assert_eq!(manager.world_seed, 42);
    assert_eq!(manager.sky_light_level, 15);
    assert_eq!(manager.loaded_chunks.len(), 0);
    assert_eq!(manager.loading_chunks.len(), 0);
    assert!(!manager.is_loaded(ChunkCoord::new(0, 0, 0)));
    assert!(manager.get_chunk(ChunkCoord::new(0, 0, 0)).is_none());
}

#[test]
fn streaming_asks_for_every_chunk_in_range_once() {
    let mut manager = ChunkManager::default();
    let player = ChunkCoord::new(3, -2, 7);
    let requested = manager.request_chunks(player);
    let mut expected = 0;
    for dx in -10i32..=10 {
        for dy in -5i32..=5 {
            for dz in -10i32..=10 {
                let c = ChunkCoord::new(3 + dx, -2 + dy, 7 + dz);
                let wanted = dx * dx + dy * dy + dz * dz <= 100;
                assert_eq!(requested.contains(&c), wanted);
                assert_eq!(manager.is_loading(c), wanted);
                if wanted {
                    expected += 1;
                }
            }
        }
    }
    assert_eq!(requested.len(), expected);
    assert_eq!(manager.loading_chunks.len(), expected);
    assert!(requested.contains(&ChunkCoord::new(13, -2, 7)));
    assert!(!requested.contains(&ChunkCoord::new(14, -2, 7)));
    assert!(requested.contains(&ChunkCoord::new(3, 3, 7)));
    assert!(!requested.contains(&ChunkCoord::new(3, 4, 7)));
    // in the order of the scan: by x, then y, then z
    assert_eq!(requested[0], ChunkCoord::new(-7, -2, 7));
    assert_eq!(requested[requested.len() - 1], ChunkCoord::new(13, -2, 7));
    for pair in requested.windows(2) {
        let (a, b) = (pair[0], pair[1]);
        assert!((a.x, a.y, a.z) < (b.x, b.y, b.z));
    }
    // nothing is asked for twice
    assert!(manager.request_chunks(player).is_empty());
    assert_eq!(manager.loaded_chunks.len(), 0);
}

#[test]
fn streaming_skips_loaded_and_loading_chunks() {
    let mut manager = world_of(&[(0, 0, 0), (1, 0, 0)]);
    let first = manager.request_chunks(ChunkCoord::new(0, 0, 0));
    assert!(!first.contains(&ChunkCoord::new(0, 0, 0)));
    assert!(!first.contains(&ChunkCoord::new(1, 0, 0)));
    assert!(first.contains(&ChunkCoord::new(0, 1, 0)));
    // one step to the east brings a new slice in range, and nothing else
    let second = manager.request_chunks(ChunkCoord::new(1, 0, 0));
    assert!(!second.is_empty());
    for c in &second {
        assert!(!first.contains(c));
        let (dx, dy, dz) = (c.x - 1, c.y, c.z);
        assert!(dx * dx + dy * dy + dz * dz <= 100);
    }
    assert!(second.contains(&ChunkCoord::new(11, 0, 0)));
}

#[test]
fn streaming_at_the_edge_of_the_grid() {
    let mut manager = ChunkManager::default();
    let player = ChunkCoord::new(i32::MAX, i32::MIN, 0);
    let requested = manager.request_chunks(player);
    assert!(requested.contains(&player));
    assert!(requested.contains(&ChunkCoord::new(i32::MAX - 10, i32::MIN, 0)));
    assert!(requested.contains(&ChunkCoord::new(i32::MAX, i32::MIN + 5, 0)));
    for c in &requested {
        assert!(c.x <= i32::MAX && c.y >= i32::MIN);
    }
}

#[test]
fn integrating_a_chunk_dirties_it_and_its_loaded_neighbours() {
    let mut manager = world_of(&[
        (-1, 0, 0),
        (1, 0, 0),
        (0, -1, 0),
        (0, 1, 0),
        (0, 0, -1),
        (0, 0, 1),
        (1, 1, 0),
        (2, 0, 0),
        (0, 0, 5),
    ]);
    clean(&mut manager);
    let coord = ChunkCoord::new(0, 0, 0);
    manager.request_chunks(coord);
    assert!(manager.is_loading(coord));
    let mut chunk = Chunk::new(coord);
    chunk.set_block(1, 2, 3, STONE);
    manager.integrate_chunk(coord, chunk);
    assert!(!manager.is_loading(coord));
    assert!(manager.is_loaded(coord));
    assert_eq!(manager.get_chunk(coord).unwrap().get_block(1, 2, 3), STONE);
    assert!(manager.loaded_chunks.get(coord).unwrap().sky_light.is_none());
    assert!(dirty(&manager, 0, 0, 0));
    assert!(dirty(&manager, -1, 0, 0));
    assert!(dirty(&manager, 1, 0, 0));
    assert!(dirty(&manager, 0, -1, 0));
    assert!(dirty(&manager, 0, 1, 0));
    assert!(dirty(&manager, 0, 0, -1));
    assert!(dirty(&manager, 0, 0, 1));
    assert!(!dirty(&manager, 1, 1, 0));
    assert!(!dirty(&manager, 2, 0, 0));
    assert!(!dirty(&manager, 0, 0, 5));
    // a chunk that is not loaded is not dirty
    assert!(!dirty(&manager, 9, 9, 9));
}

#[test]
fn unloading_takes_a_chunk_out() {
    let mut manager = world_of(&[(0, 0, 0), (1, 0, 0)]);
    let gone = manager.unload_chunk(ChunkCoord::new(0, 0, 0));
    assert_eq!(gone.unwrap().coord(), ChunkCoord::new(0, 0, 0));
    assert!(!manager.is_loaded(ChunkCoord::new(0, 0, 0)));
    assert!(manager.is_loaded(ChunkCoord::new(1, 0, 0)));
    assert!(manager.unload_chunk(ChunkCoord::new(0, 0, 0)).is_none());
}

fn three_by_three() -> ChunkManager {
    let mut coords = Vec::new();
    for x in -1..=1 {
        for y in -1..=1 {
            for z in -1..=1 {
                coords.push((x, y, z));
            }
        }
    }
    let mut manager = world_of(&coords);
    clean(&mut manager);
    manager
}

#[test]
fn edit_on_the_west_boundary_dirties_the_west_neighbour_only() {
    let mut manager = three_by_three();
    // world x = 0 is local x = 0 of the chunk at the origin
    assert!(manager.edit_block(0, 8, 8, STONE));
    assert!(dirty(&manager, 0, 0, 0));
    assert!(dirty(&manager, -1, 0, 0));
    assert!(!dirty(&manager, 1, 0, 0));
    assert!(!dirty(&manager, 0, 0, -1));
    assert!(!dirty(&manager, 0, 0, 1));
    assert!(!dirty(&manager, 0, 1, 0));
    assert!(!dirty(&manager, 0, -1, 0));
    let dirty_count = (0..manager.loaded_chunks.len())
        .filter(|&i| manager.loaded_chunks.value(i).needs_remesh)
        .count();
    assert_eq!(dirty_count, 2);
    assert_eq!(manager.get_block_at(0, 8, 8), Some(STONE));
}

#[test]
fn edit_inside_a_chunk_dirties_that_chunk_alone() {
    let mut manager = three_by_three();
    assert!(manager.edit_block(8, 8, 8, STONE));
    let dirty_count = (0..manager.loaded_chunks.len())
        .filter(|&i| manager.loaded_chunks.value(i).needs_remesh)
        .count();
    assert_eq!(dirty_count, 1);
    assert!(dirty(&manager, 0, 0, 0));
}

#[test]
fn edit_on_a_corner_dirties_the_three_neighbours_across_its_faces() {
    let mut manager = three_by_three();
    assert!(manager.edit_block(15, 0, 15, STONE));
    assert!(dirty(&manager, 0, 0, 0));
    assert!(dirty(&manager, 1, 0, 0));
    assert!(dirty(&manager, 0, -1, 0));
    assert!(dirty(&manager, 0, 0, 1));
    assert!(!dirty(&manager, -1, 0, 0));
    assert!(!dirty(&manager, 0, 1, 0));
    assert!(!dirty(&manager, 0, 0, -1));
    assert!(!dirty(&manager, 1, 0, 1));
    assert!(!dirty(&manager, 1, -1, 1));
}

#[test]
fn edit_finds_the_chunk_of_a_negative_position() {
    let mut manager = three_by_three();
    assert!(manager.edit_block(-1, -16, -9, STONE));
    // the chunk (-1, -1, -1), local (15, 0, 7)
    let chunk = manager.get_chunk(ChunkCoord::new(-1, -1, -1)).unwrap();
    assert_eq!(chunk.get_block(15, 0, 7), STONE);
    assert!(dirty(&manager, -1, -1, -1));
    assert!(dirty(&manager, 0, -1, -1));
    assert!(!dirty(&manager, -1, 0, -1));
    assert_eq!(manager.get_block_at(-1, -16, -9), Some(STONE));
    assert_eq!(manager.get_block_at(-1, -15, -9), Some(BlockId(0)));
}

#[test]
fn edit_outside_the_loaded_world_changes_nothing() {
    let mut manager = three_by_three();
    assert!(!manager.edit_block(100, 0, 0, STONE));
    assert_eq!(manager.get_block_at(100, 0, 0), None);
    assert_eq!(manager.get_light_at(100, 0, 0), None);
    let dirty_count = (0..manager.loaded_chunks.len())
        .filter(|&i| manager.loaded_chunks.value(i).needs_remesh)
        .count();
    assert_eq!(dirty_count, 0);
}

#[test]
fn edit_lights_the_chunk_afresh() {
    let mut manager = three_by_three();
    for x in 0..16 {
        for z in 0..16 {
            manager.edit_block(x, 10, z, STONE);
        }
    }
    // under the roof it is dark, above it the sky
    assert_eq!(manager.get_light_at(8, 9, 8), Some(0));
    assert_eq!(manager.get_light_at(8, 11, 8), Some(15));
    assert_eq!(manager.get_light_at(8, 10, 8), Some(0));
    // one hole lets light in
    assert!(manager.destroy_block(8, 10, 8, false, Some(BEDROCK)));
    assert_eq!(manager.get_light_at(8, 10, 8), Some(15));
    assert_eq!(manager.get_light_at(8, 0, 8), Some(15));
    assert_eq!(manager.get_light_at(9, 9, 8), Some(14));
    assert_eq!(manager.get_light_at(11, 9, 8), Some(12));
}

#[test]
fn bedrock_stays_outside_creative_mode() {
    let mut manager = three_by_three();
    manager.edit_block(1, 0, 1, BEDROCK);
    manager.edit_block(2, 0, 1, STONE);
    clean(&mut manager);
    assert!(!manager.destroy_block(1, 0, 1, false, Some(BEDROCK)));
    assert_eq!(manager.get_block_at(1, 0, 1), Some(BEDROCK));
    assert!(!dirty(&manager, 0, 0, 0));
    assert!(manager.destroy_block(2, 0, 1, false, Some(BEDROCK)));
    assert_eq!(manager.get_block_at(2, 0, 1), Some(BlockId(0)));
    assert!(dirty(&manager, 0, 0, 0));
    assert!(manager.destroy_block(1, 0, 1, true, Some(BEDROCK)));
    assert_eq!(manager.get_block_at(1, 0, 1), Some(BlockId(0)));
    // where the catalog knows no bedrock, every block can go
    manager.edit_block(1, 0, 1, BEDROCK);
    assert!(manager.destroy_block(1, 0, 1, false, None));
    assert!(!manager.destroy_block(500, 0, 1, true, None));
}

#[test]
fn blocks_are_placed_into_air_only() {
    let mut manager = three_by_three();
    assert!(manager.place_block(4, 4, 4, STONE));
    assert_eq!(manager.get_block_at(4, 4, 4), Some(STONE));
    clean(&mut manager);
    assert!(!manager.place_block(4, 4, 4, BEDROCK));
    assert_eq!(manager.get_block_at(4, 4, 4), Some(STONE));
    assert!(!dirty(&manager, 0, 0, 0));
    assert!(!manager.place_block(400, 4, 4, STONE));
}

#[test]
fn change_of_sky_light_dirties_the_chunks_near_the_viewpoint() {
    let mut manager = world_of(&[(0, 0, 0), (4, 0, 0), (4, -4, 4), (5, 0, 0), (0, 0, -5), (0, 9, 0)]);
    clean(&mut manager);
    manager.edit_block(3, 3, 3, STONE);
    clean(&mut manager);
    let stored: Vec<Option<u8>> = (0..16).map(|y| manager.get_light_at(3, y, 3)).collect();
    assert_eq!(manager.get_light_at(3, 4, 3), Some(15));

    assert!(manager.set_sky_light_level(4, Some(ChunkCoord::new(0, 0, 0))));
    assert_eq!(manager.sky_light_level, 4);
    assert!(dirty(&manager, 0, 0, 0));
    assert!(dirty(&manager, 4, 0, 0));
    assert!(dirty(&manager, 4, -4, 4));
    assert!(!dirty(&manager, 5, 0, 0));
    assert!(!dirty(&manager, 0, 0, -5));
    assert!(!dirty(&manager, 0, 9, 0));
    // no stored light changed
    let after: Vec<Option<u8>> = (0..16).map(|y| manager.get_light_at(3, y, 3)).collect();
    assert_eq!(after, stored);
    assert_eq!(manager.get_light_at(3, 4, 3), Some(15));

    // the same level again does nothing
    clean(&mut manager);
    assert!(!manager.set_sky_light_level(4, Some(ChunkCoord::new(0, 0, 0))));
    assert!(!dirty(&manager, 0, 0, 0));
    // without a viewpoint every chunk is dirtied
    assert!(manager.set_sky_light_level(15, None));
    assert!(dirty(&manager, 5, 0, 0));
    assert!(dirty(&manager, 0, 9, 0));
}

#[test]
fn next_mesh_after_nightfall_shows_the_clamped_light() {
    let registry = core_registry();
    let mut manager = world_of(&[(0, 0, 0)]);
    manager.edit_block(3, 3, 3, STONE);
    let day = manager.remesh_modified_chunks(&registry, ChunkCoord::new(0, 0, 0));
    let day_mesh = day[0].mesh.as_ref().unwrap();
    assert_eq!(day_mesh.vertices[0].light, 15);
    assert_eq!(manager.loaded_chunks.get(ChunkCoord::new(0, 0, 0)).unwrap().sky_light, Some(15));
    assert!(manager.set_sky_light_level(4, Some(ChunkCoord::new(0, 0, 0))));
    let night = manager.remesh_modified_chunks(&registry, ChunkCoord::new(0, 0, 0));
    assert_eq!(night.len(), 1);
    let night_mesh = night[0].mesh.as_ref().unwrap();
    assert_eq!(night_mesh.vertices[0].light, 4);
    assert_eq!(manager.get_light_at(3, 4, 3), Some(15));
    assert_eq!(manager.loaded_chunks.get(ChunkCoord::new(0, 0, 0)).unwrap().sky_light, Some(4));
}

#[test]
fn stale_sweep_marks_four_chunks_at_most() {
    let mut coords = Vec::new();
    for x in 0..8 {
        coords.push((x, 0, 0));
    }
    let mut manager = world_of(&coords);
    clean(&mut manager);
    // never meshed: all are stale; those within five chunks count
    let marked = manager.mark_stale_chunks(ChunkCoord::new(0, 0, 0));
    assert_eq!(marked, 4);
    let flags: Vec<bool> = (0..8).map(|x| dirty(&manager, x, 0, 0)).collect();
    assert_eq!(flags, vec![true, true, true, true, false, false, false, false]);
    // the chunks that are meshed under the current level are no longer stale
    let registry = core_registry();
    manager.remesh_modified_chunks(&registry, ChunkCoord::new(0, 0, 0));
    let marked = manager.mark_stale_chunks(ChunkCoord::new(0, 0, 0));
    assert_eq!(marked, 2);
    let flags: Vec<bool> = (0..8).map(|x| dirty(&manager, x, 0, 0)).collect();
    assert_eq!(flags, vec![false, false, false, false, true, true, false, false]);
    manager.remesh_modified_chunks(&registry, ChunkCoord::new(0, 0, 0));
    assert_eq!(manager.mark_stale_chunks(ChunkCoord::new(0, 0, 0)), 0);
    // after a change of level, the chunks out of its reach are stale
    manager.set_sky_light_level(7, Some(ChunkCoord::new(0, 0, 0)));
    manager.remesh_modified_chunks(&registry, ChunkCoord::new(0, 0, 0));
    assert_eq!(manager.mark_stale_chunks(ChunkCoord::new(0, 0, 0)), 1);
    assert!(dirty(&manager, 5, 0, 0));
    assert!(!dirty(&manager, 6, 0, 0));
}

#[test]
fn batch_takes_higher_chunks_first() {
    let registry = core_registry();
    let mut manager = world_of(&[(0, 0, 0), (1, 2, 0), (0, 2, 1), (0, 2, 0), (5, -1, 5), (1, 0, 0)]);
    for c in [(0, 0, 0), (1, 2, 0), (0, 2, 1), (0, 2, 0), (5, -1, 5), (1, 0, 0)] {
        manager.mark_dirty(ChunkCoord::new(c.0, c.1, c.2));
    }
    let batch = manager.select_batch(ChunkCoord::new(0, 0, 0));
    let expected = vec![
        ChunkCoord::new(0, 2, 0),
        ChunkCoord::new(1, 2, 0),
        ChunkCoord::new(0, 2, 1),
        ChunkCoord::new(0, 0, 0),
        ChunkCoord::new(1, 0, 0),
        ChunkCoord::new(5, -1, 5),
    ];
    assert_eq!(batch, expected);
    let results = manager.remesh_modified_chunks(&registry, ChunkCoord::new(0, 0, 0));
    assert_eq!(coords_of(&results), expected);
    for r in &results {
        assert!(r.mesh.is_none());
    }
    for c in &expected {
        assert!(!manager.needs_remesh(*c));
        assert_eq!(manager.loaded_chunks.get(*c).unwrap().sky_light, Some(15));
    }
    assert!(manager.remesh_modified_chunks(&registry, ChunkCoord::new(0, 0, 0)).is_empty());
    assert!(manager.select_batch(ChunkCoord::new(0, 0, 0)).is_empty());
}

#[test]
fn batch_holds_32_chunks_at_most() {
    let registry = core_registry();
    let mut coords = Vec::new();
    for x in 0..10 {
        for y in 0..4 {
            coords.push((x, y, 0));
        }
    }
    let mut manager = world_of(&coords);
    let first = manager.remesh_modified_chunks(&registry, ChunkCoord::new(0, 0, 0));
    assert_eq!(first.len(), 32);
    // the rows at heights 3, 2 and 1 go first, then two chunks of the row at 0
    for (k, r) in first.iter().enumerate() {
        let expected = ChunkCoord::new((k % 10) as i32, 3 - (k / 10) as i32, 0);
        assert_eq!(r.coord, expected);
    }
    assert!(!dirty(&manager, 9, 1, 0));
    assert!(!dirty(&manager, 1, 0, 0));
    assert!(dirty(&manager, 2, 0, 0));
    assert!(dirty(&manager, 9, 0, 0));
    let second = manager.remesh_modified_chunks(&registry, ChunkCoord::new(0, 0, 0));
    assert_eq!(second.len(), 8);
    assert_eq!(second[0].coord, ChunkCoord::new(2, 0, 0));
    assert_eq!(second[7].coord, ChunkCoord::new(9, 0, 0));
    assert!(manager.remesh_modified_chunks(&registry, ChunkCoord::new(0, 0, 0)).is_empty());
}

#[test]
fn batch_lights_chunks_under_a_roof_from_their_neighbours() {
    let registry = core_registry();
    let mut manager = ChunkManager::default();
    // a roof over the whole chunk above, and below it a chunk of air with
    // a lit chunk of air to its west
    let mut roof = Chunk::new(ChunkCoord::new(0, 1, 0));
    for x in 0..16 {
        for z in 0..16 {
            roof.set_block(x, 0, z, STONE);
        }
    }
    roof.calculate_skylight();
    manager.integrate_chunk(ChunkCoord::new(0, 1, 0), roof);
    manager.integrate_chunk(ChunkCoord::new(0, 0, 0), Chunk::new(ChunkCoord::new(0, 0, 0)));
    manager.integrate_chunk(ChunkCoord::new(-1, 0, 0), Chunk::new(ChunkCoord::new(-1, 0, 0)));
    let results = manager.remesh_modified_chunks(&registry, ChunkCoord::new(0, 0, 0));
    assert_eq!(
        coords_of(&results),
        vec![ChunkCoord::new(0, 1, 0), ChunkCoord::new(0, 0, 0), ChunkCoord::new(-1, 0, 0)]
    );
    // the roof chunk has a mesh, the chunks of air have none
    assert!(results[0].mesh.is_some());
    assert!(results[1].mesh.is_none());
    assert!(results[2].mesh.is_none());
    // west of the roof the sky is open
    assert_eq!(manager.get_light_at(-1, 5, 5), Some(15));
    // under the roof light falls off from the west
    assert_eq!(manager.get_light_at(0, 5, 5), Some(14));
    assert_eq!(manager.get_light_at(1, 5, 5), Some(13));
    assert_eq!(manager.get_light_at(13, 5, 5), Some(1));
    assert_eq!(manager.get_light_at(14, 5, 5), Some(0));
    // the underside of the roof is lit by the air below it
    let roof_mesh = results[0].mesh.as_ref().unwrap();
    assert_eq!(roof_mesh.vertices[0].face, voxel_world::blocks::BlockFace::Top);
    assert_eq!(roof_mesh.vertices[0].light, 15);
}

#[test]
fn inventory_selection() {
    let mut inventory = PlayerInventory::new_with_blocks(BlockId(4), BlockId(1), BlockId(2), BlockId(3));
    assert_eq!(inventory.selected_slot(), 0);
    assert_eq!(inventory.get_selected_block(), Some(BlockId(4)));
    assert_eq!(inventory.get_selected_item(), None);
    assert!(!inventory.is_torch_selected());
    inventory.select_slot(3);
    assert_eq!(inventory.get_selected_block(), Some(BlockId(3)));
    inventory.select_slot(9);
    assert_eq!(inventory.selected_slot(), 3);
    inventory.select_slot(8);
    assert_eq!(inventory.get_selected_block(), None);
    assert_eq!(inventory.slot(1), Some(HotbarItem::Block(BlockId(1))));
    assert_eq!(inventory.slot(8), None);
    assert_eq!(inventory.slot(20), None);
    inventory.scroll_selection(1);
    assert_eq!(inventory.selected_slot(), 0);
    inventory.scroll_selection(-1);
    assert_eq!(inventory.selected_slot(), 8);
    inventory.scroll_selection(-10);
    assert_eq!(inventory.selected_slot(), 7);
    inventory.scroll_selection(i32::MAX);
    assert_eq!(inventory.selected_slot(), ((7i64 + i32::MAX as i64) % 9) as usize);
    inventory.select_slot(0);
    inventory.scroll_selection(i32::MIN);
    assert_eq!(inventory.selected_slot(), (i32::MIN as i64).rem_euclid(9) as usize);
    let empty = PlayerInventory::default();
    assert_eq!(empty.selected_slot(), 0);
    assert_eq!(empty.get_selected_block(), None);
    assert_eq!(ItemId::Torch.name(), "Torch");
}

#[test]
fn game_state_defaults() {
    let state = GameState::default();
    assert!(!state.paused);
    assert!(state.ui_visible);
    assert!(state.creative_mode);
    let stats = PlayerStats::default();
    assert_eq!((stats.health, stats.max_health, stats.hunger, stats.max_hunger), (20, 20, 20, 20));
    let borders = ChunkBorderState::default();
    assert!(borders.mode == ChunkBorderMode::Off);
    assert!(borders.mode.next() == ChunkBorderMode::Mode1);
    assert!(ChunkBorderMode::Mode1.next() == ChunkBorderMode::Mode2);
    assert!(ChunkBorderMode::Mode2.next() == ChunkBorderMode::Off);
}

#[test]
fn batch_takes_nearer_chunks_first_at_one_height() {
    let registry = core_registry();
    let mut manager = world_of(&[(0, 0, 0), (9, 0, 0), (5, 0, 1), (4, 0, 0), (5, 0, -1), (5, 1, 9)]);
    let viewpoint = ChunkCoord::new(5, 0, 0);
    let expected = vec![
        ChunkCoord::new(5, 1, 9),
        ChunkCoord::new(5, 0, -1),
        ChunkCoord::new(4, 0, 0),
        ChunkCoord::new(5, 0, 1),
        ChunkCoord::new(9, 0, 0),
        ChunkCoord::new(0, 0, 0),
    ];
    assert_eq!(manager.select_batch(viewpoint), expected);
    let results = manager.remesh_modified_chunks(&registry, viewpoint);
    assert_eq!(coords_of(&results), expected);
    // seen from elsewhere the order is another
    for c in &expected {
        manager.mark_dirty(*c);
    }
    assert_eq!(
        manager.select_batch(ChunkCoord::new(0, 7, 0)),
        vec![
            ChunkCoord::new(5, 1, 9),
            ChunkCoord::new(0, 0, 0),
            ChunkCoord::new(4, 0, 0),
            ChunkCoord::new(5, 0, -1),
            ChunkCoord::new(5, 0, 1),
            ChunkCoord::new(9, 0, 0),
        ]
    );
}
