use vstd::prelude::*;
use crate::blocks::{BlockFace, BlockId};
use crate::chunk::{view_of, Chunk, ChunkCoord, ChunkView, NeighborLightData, Surroundings};
use crate::coord_map::CoordMap;
use crate::light::{column_clear, column_is_clear, flood_filled, settled_from, sky_seeded};
use crate::mesh::{
    create_chunk_mesh_with_cached_neighbors, dark_model, is_mesh_of, visible_faces, ChunkMesh,
    NeighborAccess, NeighborModel,
};
use crate::registry::BlockRegistry;

verus! {

/// Snapshots of chunks by coordinate: a consistent picture of a
/// neighbourhood that stays as it is while the chunks themselves change.
pub type ChunkCache = CoordMap<Chunk>;

/// The content of every chunk of a map.
pub open spec fn chunk_views(chunks: Map<ChunkCoord, Chunk>) -> Map<ChunkCoord, ChunkView> {
    chunks.map_values(|c: Chunk| c@)
}

/// The snapshot at a coordinate, if the coordinate exists and has one.
pub open spec fn view_at(views: Map<ChunkCoord, ChunkView>, coord: Option<ChunkCoord>) -> Option<
    ChunkView,
> {
    match coord {
        Some(c) => if views.contains_key(c) {
            Some(views[c])
        } else {
            None
        },
        None => None,
    }
}

/// The six neighbours of the chunk at `coord`, as far as `views` holds them.
pub open spec fn surroundings_in(views: Map<ChunkCoord, ChunkView>, coord: ChunkCoord) -> Surroundings {
    Surroundings {
        neg_x: view_at(views, coord.spec_offset(-1, 0, 0)),
        pos_x: view_at(views, coord.spec_offset(1, 0, 0)),
        neg_y: view_at(views, coord.spec_offset(0, -1, 0)),
        pos_y: view_at(views, coord.spec_offset(0, 1, 0)),
        neg_z: view_at(views, coord.spec_offset(0, 0, -1)),
        pos_z: view_at(views, coord.spec_offset(0, 0, 1)),
    }
}

/// Whether something stands in the column `(x, z)` in the chunks from `dy`
/// above `coord` upward, as far as they are known without a gap, and at most
/// `remaining` of them.
pub open spec fn shadowed_above(
    views: Map<ChunkCoord, ChunkView>,
    coord: ChunkCoord,
    x: int,
    z: int,
    dy: int,
    remaining: nat,
) -> bool
    decreases remaining,
{
    if remaining == 0 {
        false
    } else {
        match view_at(views, coord.spec_offset(0, dy, 0)) {
            Some(above) => !column_clear(above, x, z) || shadowed_above(
                views,
                coord,
                x,
                z,
                dy + 1,
                (remaining - 1) as nat,
            ),
            None => false,
        }
    }
}

/// Number of chunks above a chunk that are searched for what shadows it.
pub const SHADOW_SEARCH_CHUNKS: usize = 8;

/// Whether the column `(x, z)` of the chunk at `coord` is shadowed from
/// above: a block that is not air stands in that column in one of the eight
/// chunks above, and every chunk below that one, down to `coord`, is known.
/// Beyond the first unknown chunk, and beyond eight chunks, the sky counts as open.
pub open spec fn column_shadowed(
    views: Map<ChunkCoord, ChunkView>,
    coord: ChunkCoord,
    x: int,
    z: int,
) -> bool {
    shadowed_above(views, coord, x, z, 1, 8)
}

/// The shadow on each column of the chunk at `coord`.
pub open spec fn cache_shadows(views: Map<ChunkCoord, ChunkView>, coord: ChunkCoord) -> Seq<bool> {
    Seq::new(256, |k: int| column_shadowed(views, coord, k % 16, k / 16))
}

/// The snapshot at `(dx, dy, dz)` chunks from `coord`.
fn cached_neighbor<'a>(cache: &'a ChunkCache, coord: ChunkCoord, dx: i32, dy: i32, dz: i32) -> (found:
    Option<&'a Chunk>)
    ensures
        view_of(found) == view_at(
            chunk_views(cache@),
            coord.spec_offset(dx as int, dy as int, dz as int),
        ),
{
    match coord.offset(dx, dy, dz) {
        Some(c) => cache.get(c),
        None => None,
    }
}

/// The neighbours of the chunk at `coord` that the cache holds.
pub fn neighbors_from_cache<'a>(cache: &'a ChunkCache, coord: ChunkCoord) -> (neighbors:
    NeighborLightData<'a>)
    ensures
        neighbors@ == surroundings_in(chunk_views(cache@), coord),
{
    NeighborLightData {
        neg_x: cached_neighbor(cache, coord, -1, 0, 0),
        pos_x: cached_neighbor(cache, coord, 1, 0, 0),
        neg_y: cached_neighbor(cache, coord, 0, -1, 0),
        pos_y: cached_neighbor(cache, coord, 0, 1, 0),
        neg_z: cached_neighbor(cache, coord, 0, 0, -1),
        pos_z: cached_neighbor(cache, coord, 0, 0, 1),
    }
}

/// Whether the column `(x, z)` of the chunk at `chunk_coord` is shadowed by
/// a block in the cached chunks above it.
pub fn is_column_shadowed(x: usize, z: usize, chunk_coord: ChunkCoord, cache: &ChunkCache) -> (shadowed:
    bool)
    ensures
        shadowed == column_shadowed(chunk_views(cache@), chunk_coord, x as int, z as int),
{
    let ghost views = chunk_views(cache@);
    let mut step: usize = 0;
    while step < SHADOW_SEARCH_CHUNKS
        invariant
            step <= 8,
            views == chunk_views(cache@),
            column_shadowed(views, chunk_coord, x as int, z as int) == shadowed_above(
                views,
                chunk_coord,
                x as int,
                z as int,
                step + 1,
                (8 - step) as nat,
            ),
        decreases 8 - step,
    {
        match cached_neighbor(cache, chunk_coord, 0, step as i32 + 1, 0) {
            Some(above) => {
                if !column_is_clear(above, x, z) {
                    return true;
                }
            },
            None => {
                return false;
            },
        }
        step += 1;
    }
    false
}

/// Flood-fill propagation for the chunk at `coord`, with the light of its
/// neighbours taken from the cache. A neighbour that the cache lacks gives no light.
pub fn propagate_light_from_cache(chunk: &mut Chunk, coord: ChunkCoord, cache: &ChunkCache)
    ensures
        final(chunk)@.coord == old(chunk)@.coord,
        final(chunk)@.blocks == old(chunk)@.blocks,
        settled_from(
            final(chunk)@.light,
            old(chunk)@.light,
            old(chunk)@.blocks,
            surroundings_in(chunk_views(cache@), coord),
        ),
        final(chunk)@.light == flood_filled(
            old(chunk)@.light,
            old(chunk)@.blocks,
            surroundings_in(chunk_views(cache@), coord),
        ),
{
    let neighbors = neighbors_from_cache(cache, coord);
    chunk.propagate_light(&neighbors);
}

/// Sky light for the chunk at `coord` within a cached neighbourhood: direct
/// light for every column that nothing in the cached chunks above shadows,
/// then flood fill with the cached neighbours' light.
pub fn calculate_skylight_with_cache(chunk: &mut Chunk, coord: ChunkCoord, cache: &ChunkCache)
    ensures
        final(chunk)@.coord == old(chunk)@.coord,
        final(chunk)@.blocks == old(chunk)@.blocks,
        settled_from(
            final(chunk)@.light,
            sky_seeded(old(chunk)@.blocks, cache_shadows(chunk_views(cache@), coord)),
            old(chunk)@.blocks,
            surroundings_in(chunk_views(cache@), coord),
        ),
        final(chunk)@.light == flood_filled(
            sky_seeded(old(chunk)@.blocks, cache_shadows(chunk_views(cache@), coord)),
            old(chunk)@.blocks,
            surroundings_in(chunk_views(cache@), coord),
        ),
        forall|i: int|
            0 <= i < 4096 && !old(chunk)@.blocks[i].is_air() ==> #[trigger] final(chunk)@.light[i]
                == 0,
{
    proof {
        use_type_invariant(&*chunk);
    }
    let ghost before = chunk@;
    let ghost shadows = cache_shadows(chunk_views(cache@), coord);
    let mut k: usize = 0;
    while k < 256
        invariant
            k <= 256,
            shadows == cache_shadows(chunk_views(cache@), coord),
            before.wf(),
            chunk@.wf(),
            chunk@.coord == before.coord,
            chunk@.blocks == before.blocks,
            forall|i: int|
                0 <= i < 4096 ==> #[trigger] chunk@.light[i] == if i % 256 < k {
                    crate::light::direct_light(before.blocks, shadows[i % 256], i)
                } else {
                    before.light[i]
                },
        decreases 256 - k,
    {
        let x: usize = k % 16;
        let z: usize = k / 16;
        let in_shadow = is_column_shadowed(x, z, coord, cache);
        chunk.seed_column(x, z, in_shadow);
        proof {
            use_type_invariant(&*chunk);
        }
        k += 1;
    }
    assert(chunk@.light =~= sky_seeded(before.blocks, shadows));
    propagate_light_from_cache(chunk, coord, cache);
}

/// Neighbour access for meshing out of a cache. A neighbour that the cache
/// lacks counts as air, so that faces toward it are drawn, and as dark.
pub struct CachedNeighbors<'a> {
    pub cache: &'a ChunkCache,
    pub coord: ChunkCoord,
}

impl<'a> CachedNeighbors<'a> {
    /// The cached content of the neighbour that touches the given face.
    pub open spec fn neighbor(&self, face: BlockFace) -> Option<ChunkView> {
        crate::mesh::toward(surroundings_in(chunk_views(self.cache@), self.coord), face)
    }

    fn get(&self, face: BlockFace) -> (found: Option<&'a Chunk>)
        ensures
            view_of(found) == self.neighbor(face),
    {
        match face {
            BlockFace::Top => cached_neighbor(self.cache, self.coord, 0, 1, 0),
            BlockFace::Bottom => cached_neighbor(self.cache, self.coord, 0, -1, 0),
            BlockFace::North => cached_neighbor(self.cache, self.coord, 0, 0, -1),
            BlockFace::South => cached_neighbor(self.cache, self.coord, 0, 0, 1),
            BlockFace::East => cached_neighbor(self.cache, self.coord, 1, 0, 0),
            BlockFace::West => cached_neighbor(self.cache, self.coord, -1, 0, 0),
        }
    }
}

impl<'a> NeighborAccess for CachedNeighbors<'a> {
    open spec fn model(&self) -> NeighborModel {
        dark_model(surroundings_in(chunk_views(self.cache@), self.coord))
    }

    fn block(&self, face: BlockFace, x: usize, y: usize, z: usize) -> (id: BlockId) {
        match self.get(face) {
            Some(c) => c.get_block(x, y, z),
            None => BlockId(0),
        }
    }

    fn light(&self, face: BlockFace, x: usize, y: usize, z: usize) -> (level: u8) {
        match self.get(face) {
            Some(c) => c.get_light(x, y, z),
            None => 0,
        }
    }
}

/// The mesh of the chunk at `chunk_coord`, with its neighbours taken from the cache.
pub fn create_chunk_mesh_with_cache(
    chunk: &Chunk,
    block_registry: &BlockRegistry,
    chunk_coord: ChunkCoord,
    cache: &ChunkCache,
    sky_light_level: u8,
) -> (mesh: Option<ChunkMesh>)
    ensures
        is_mesh_of(
            mesh,
            visible_faces(
                chunk@,
                block_registry@,
                dark_model(surroundings_in(chunk_views(cache@), chunk_coord)),
                sky_light_level,
            ),
        ),
{
    let neighbors = CachedNeighbors { cache, coord: chunk_coord };
    create_chunk_mesh_with_cached_neighbors(chunk, block_registry, sky_light_level, &neighbors)
}

} // verus!
