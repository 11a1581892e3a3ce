use vstd::prelude::*;
use crate::blocks::{BlockId, BlockType};
use crate::registry::BlockRegistry;
use crate::chunk::{abs, Chunk, ChunkCoord, ChunkView, Surroundings, VIEW_DISTANCE};
use crate::light::{neighbor_shadows, settled_from, sky_seeded};
use crate::coord_map::CoordMap;

verus! {

/// A chunk in the world index, with what the streaming steps track of it.
pub struct LoadedChunk {
    pub chunk: Chunk,
    /// The chunk is dirty: its light and mesh are to be rebuilt.
    pub needs_remesh: bool,
    /// The sky light level that the chunk was last meshed under, if it was meshed.
    pub sky_light: Option<u8>,
}

/// The world chunk index: the loaded chunks by coordinate, the coordinates
/// whose chunks are being generated, and the current sky light level.
pub struct ChunkManager {
    pub loaded_chunks: CoordMap<LoadedChunk>,
    pub loading_chunks: CoordMap<()>,
    pub world_seed: u32,
    pub sky_light_level: u8,
}

/// Seed of a world that was given none.
pub const DEFAULT_WORLD_SEED: u32 = 42;

/// Most chunks that one batch relights and remeshes.
pub const MAX_CHUNKS_PER_FRAME: usize = 32;

/// Number of light passes over a batch: one from the sky, the rest by flood fill alone.
pub const LIGHT_PROPAGATION_PASSES: usize = 4;

/// Distance, in chunks, within which a change of the sky light dirties chunks at once.
pub const SKY_LIGHT_REMESH_DISTANCE: i32 = 4;

/// Most chunks that one sweep for stale sky light dirties.
pub const MAX_STALE_PER_FRAME: usize = 4;

/// The larger of the three axis distances between two coordinates.
pub open spec fn chebyshev(a: ChunkCoord, b: ChunkCoord) -> int {
    let dx = abs(a.x - b.x);
    let dy = abs(a.y - b.y);
    let dz = abs(a.z - b.z);
    if dx >= dy && dx >= dz {
        dx
    } else if dy >= dz {
        dy
    } else {
        dz
    }
}

/// Whether two chunks share a face.
pub open spec fn face_adjacent(a: ChunkCoord, b: ChunkCoord) -> bool {
    a.spec_manhattan_distance(b) == 1
}

/// Whether the chunk at `c` shares with the chunk at `coord` the face on
/// which the voxel `(x, y, z)` of the latter lies.
pub open spec fn shares_boundary(coord: ChunkCoord, x: int, y: int, z: int, c: ChunkCoord) -> bool {
    ||| x == 0 && coord.spec_offset(-1, 0, 0) == Some(c)
    ||| x == 15 && coord.spec_offset(1, 0, 0) == Some(c)
    ||| y == 0 && coord.spec_offset(0, -1, 0) == Some(c)
    ||| y == 15 && coord.spec_offset(0, 1, 0) == Some(c)
    ||| z == 0 && coord.spec_offset(0, 0, -1) == Some(c)
    ||| z == 15 && coord.spec_offset(0, 0, 1) == Some(c)
}

/// The chunks with those that `dirty` names marked dirty, all else as it was.
pub open spec fn marked(
    chunks: Map<ChunkCoord, LoadedChunk>,
    dirty: spec_fn(ChunkCoord) -> bool,
) -> Map<ChunkCoord, LoadedChunk> {
    Map::new(
        |c: ChunkCoord| chunks.contains_key(c),
        |c: ChunkCoord|
            if dirty(c) {
                LoadedChunk { needs_remesh: true, ..chunks[c] }
            } else {
                chunks[c]
            },
    )
}

/// Two maps hold the same coordinates at the same positions.
pub open spec fn same_positions<V>(a: CoordMap<V>, b: CoordMap<V>) -> bool {
    &&& a.spec_len() == b.spec_len()
    &&& forall|i: int| 0 <= i < a.spec_len() ==> a.key_at(i) == b.key_at(i)
}

impl Default for ChunkManager {
    /// An empty world with the default seed, in full daylight.
    fn default() -> (manager: ChunkManager)
        ensures
            manager.loaded_chunks@ == Map::<ChunkCoord, LoadedChunk>::empty(),
            manager.loading_chunks@ == Map::<ChunkCoord, ()>::empty(),
            manager.world_seed == 42,
            manager.sky_light_level == 15,
    {
        ChunkManager {
            loaded_chunks: CoordMap::new(),
            loading_chunks: CoordMap::new(),
            world_seed: DEFAULT_WORLD_SEED,
            sky_light_level: 15,
        }
    }
}

impl ChunkManager {
    /// The chunk at `coord`, if it is loaded.
    pub fn get_chunk(&self, coord: ChunkCoord) -> (found: Option<&Chunk>)
        ensures
            match found {
                Some(c) => self.loaded_chunks@.contains_key(coord) && self.loaded_chunks@[coord].chunk
                    == *c,
                None => !self.loaded_chunks@.contains_key(coord),
            },
    {
        match self.loaded_chunks.get(coord) {
            Some(entry) => Some(&entry.chunk),
            None => None,
        }
    }

    /// Whether the chunk at `coord` is loaded.
    pub fn is_loaded(&self, coord: ChunkCoord) -> (loaded: bool)
        ensures
            loaded == self.loaded_chunks@.contains_key(coord),
    {
        self.loaded_chunks.contains_key(coord)
    }

    /// Whether the chunk at `coord` is being generated.
    pub fn is_loading(&self, coord: ChunkCoord) -> (loading: bool)
        ensures
            loading == self.loading_chunks@.contains_key(coord),
    {
        self.loading_chunks.contains_key(coord)
    }

    /// Whether the chunk at `coord` is loaded and dirty.
    pub fn needs_remesh(&self, coord: ChunkCoord) -> (dirty: bool)
        ensures
            dirty == (self.loaded_chunks@.contains_key(coord)
                && self.loaded_chunks@[coord].needs_remesh),
    {
        match self.loaded_chunks.get(coord) {
            Some(entry) => entry.needs_remesh,
            None => false,
        }
    }

    /// Marks the chunk at `coord` dirty, if it is loaded.
    pub fn mark_dirty(&mut self, coord: ChunkCoord)
        ensures
            final(self).loading_chunks == old(self).loading_chunks,
            final(self).world_seed == old(self).world_seed,
            final(self).sky_light_level == old(self).sky_light_level,
            same_positions(final(self).loaded_chunks, old(self).loaded_chunks),
            final(self).loaded_chunks@ == marked(old(self).loaded_chunks@, |c: ChunkCoord| c == coord),
    {
        match self.loaded_chunks.index_of(coord) {
            Some(i) => {
                let entry = self.loaded_chunks.value_mut(i);
                entry.needs_remesh = true;
            },
            None => {},
        }
        assert(self.loaded_chunks@ =~= marked(old(self).loaded_chunks@, |c: ChunkCoord| c == coord));
    }

    /// Marks the neighbour at `(dx, dy, dz)` chunks from `coord` dirty, if it is loaded.
    fn mark_offset_dirty(&mut self, coord: ChunkCoord, dx: i32, dy: i32, dz: i32)
        ensures
            final(self).loading_chunks == old(self).loading_chunks,
            final(self).world_seed == old(self).world_seed,
            final(self).sky_light_level == old(self).sky_light_level,
            same_positions(final(self).loaded_chunks, old(self).loaded_chunks),
            final(self).loaded_chunks@ == marked(
                old(self).loaded_chunks@,
                |c: ChunkCoord| coord.spec_offset(dx as int, dy as int, dz as int) == Some(c),
            ),
    {
        match coord.offset(dx, dy, dz) {
            Some(neighbor) => {
                self.mark_dirty(neighbor);
            },
            None => {},
        }
        assert(self.loaded_chunks@ =~= marked(
            old(self).loaded_chunks@,
            |c: ChunkCoord| coord.spec_offset(dx as int, dy as int, dz as int) == Some(c),
        ));
    }

    /// After an edit of the voxel `(x, y, z)` of the chunk at `chunk_coord`:
    /// marks dirty every loaded neighbour that shares a face with the chunk on
    /// which that voxel lies. A voxel inside the chunk marks none.
    pub fn mark_neighbor_chunks_for_remesh(
        &mut self,
        chunk_coord: ChunkCoord,
        x: usize,
        y: usize,
        z: usize,
    )
        ensures
            final(self).loading_chunks == old(self).loading_chunks,
            final(self).world_seed == old(self).world_seed,
            final(self).sky_light_level == old(self).sky_light_level,
            same_positions(final(self).loaded_chunks, old(self).loaded_chunks),
            final(self).loaded_chunks@ == marked(
                old(self).loaded_chunks@,
                |c: ChunkCoord| shares_boundary(chunk_coord, x as int, y as int, z as int, c),
            ),
    {
        if x == 0 {
            self.mark_offset_dirty(chunk_coord, -1, 0, 0);
        } else if x == 15 {
            self.mark_offset_dirty(chunk_coord, 1, 0, 0);
        }
        if y == 0 {
            self.mark_offset_dirty(chunk_coord, 0, -1, 0);
        } else if y == 15 {
            self.mark_offset_dirty(chunk_coord, 0, 1, 0);
        }
        if z == 0 {
            self.mark_offset_dirty(chunk_coord, 0, 0, -1);
        } else if z == 15 {
            self.mark_offset_dirty(chunk_coord, 0, 0, 1);
        }
        assert(self.loaded_chunks@ =~= marked(
            old(self).loaded_chunks@,
            |c: ChunkCoord| shares_boundary(chunk_coord, x as int, y as int, z as int, c),
        ));
    }

    /// Takes a finished chunk into the index: its coordinate is no longer
    /// loading, the chunk is loaded and dirty, and every loaded chunk that
    /// shares a face with it is dirty too. A chunk that was loaded at the
    /// coordinate is replaced.
    pub fn integrate_chunk(&mut self, coord: ChunkCoord, chunk: Chunk)
        ensures
            final(self).world_seed == old(self).world_seed,
            final(self).sky_light_level == old(self).sky_light_level,
            final(self).loading_chunks@ == old(self).loading_chunks@.remove(coord),
            final(self).loaded_chunks@ == marked(
                old(self).loaded_chunks@.insert(
                    coord,
                    LoadedChunk { chunk, needs_remesh: true, sky_light: None },
                ),
                |c: ChunkCoord| face_adjacent(c, coord),
            ),
    {
        self.loading_chunks.remove(coord);
        self.loaded_chunks.insert(coord, LoadedChunk { chunk, needs_remesh: true, sky_light: None });
        self.mark_offset_dirty(coord, -1, 0, 0);
        self.mark_offset_dirty(coord, 1, 0, 0);
        self.mark_offset_dirty(coord, 0, -1, 0);
        self.mark_offset_dirty(coord, 0, 1, 0);
        self.mark_offset_dirty(coord, 0, 0, -1);
        self.mark_offset_dirty(coord, 0, 0, 1);
        assert(self.loaded_chunks@ =~= marked(
            old(self).loaded_chunks@.insert(
                coord,
                LoadedChunk { chunk, needs_remesh: true, sky_light: None },
            ),
            |c: ChunkCoord| face_adjacent(c, coord),
        ));
    }

    /// Takes the chunk at `coord` out of the index, if it is loaded.
    pub fn unload_chunk(&mut self, coord: ChunkCoord) -> (removed: Option<Chunk>)
        ensures
            final(self).world_seed == old(self).world_seed,
            final(self).sky_light_level == old(self).sky_light_level,
            final(self).loading_chunks == old(self).loading_chunks,
            final(self).loaded_chunks@ == old(self).loaded_chunks@.remove(coord),
            match removed {
                Some(c) => old(self).loaded_chunks@.contains_key(coord) && old(
                    self).loaded_chunks@[coord].chunk == c,
                None => !old(self).loaded_chunks@.contains_key(coord),
            },
    {
        match self.loaded_chunks.remove(coord) {
            Some(entry) => Some(entry.chunk),
            None => None,
        }
    }
}

/// The local coordinate, within its chunk, of a world coordinate.
pub open spec fn local_coord(w: int) -> int {
    w % 16
}

fn local_of(w: i32) -> (l: usize)
    ensures
        l == local_coord(w as int),
        l < 16,
{
    let shifted: u64 = (w as i64 + 0x8000_0000i64) as u64;
    (shifted % 16) as usize
}

/// The chunk that owns a world position.
pub open spec fn owner(x: int, y: int, z: int) -> ChunkCoord {
    ChunkCoord { x: (x / 16) as i32, y: (y / 16) as i32, z: (z / 16) as i32 }
}

/// Whether `after` is the chunk `before` with the voxel `(x, y, z)` set to
/// `id` and its sky light worked out afresh, as for a chunk that stands alone.
pub open spec fn is_edited(
    after: ChunkView,
    before: ChunkView,
    x: int,
    y: int,
    z: int,
    id: BlockId,
) -> bool {
    &&& after.wf()
    &&& after.coord == before.coord
    &&& after.blocks == before.with_block(x, y, z, id).blocks
    &&& settled_from(
        after.light,
        sky_seeded(after.blocks, neighbor_shadows(Surroundings::none())),
        after.blocks,
        Surroundings::none(),
    )
}

/// Whether the world `after` is the world `before` with the block at the
/// world position `(x, y, z)`, in a loaded chunk, set to `id`: that chunk
/// holds the new block, is lit afresh and is dirty; every loaded neighbour
/// that shares with it the face on which the voxel lies is dirty; all else is
/// as it was.
pub open spec fn is_block_edit(
    after: ChunkManager,
    before: ChunkManager,
    x: int,
    y: int,
    z: int,
    id: BlockId,
) -> bool {
    let coord = owner(x, y, z);
    let (lx, ly, lz) = (local_coord(x), local_coord(y), local_coord(z));
    let rest = marked(
        before.loaded_chunks@,
        |c: ChunkCoord| shares_boundary(coord, lx, ly, lz, c),
    );
    &&& after.world_seed == before.world_seed
    &&& after.sky_light_level == before.sky_light_level
    &&& after.loading_chunks == before.loading_chunks
    &&& same_positions(after.loaded_chunks, before.loaded_chunks)
    &&& after.loaded_chunks@.dom() == before.loaded_chunks@.dom()
    &&& forall|c: ChunkCoord|
        before.loaded_chunks@.contains_key(c) && c != coord ==> #[trigger] after.loaded_chunks@[c]
            == rest[c]
    &&& after.loaded_chunks@[coord].needs_remesh
    &&& after.loaded_chunks@[coord].sky_light == before.loaded_chunks@[coord].sky_light
    &&& is_edited(
        after.loaded_chunks@[coord].chunk@,
        before.loaded_chunks@[coord].chunk@,
        lx,
        ly,
        lz,
        id,
    )
}

impl ChunkManager {
    /// The block at a world position; none where no chunk is loaded.
    pub fn get_block_at(&self, x: i32, y: i32, z: i32) -> (found: Option<BlockId>)
        ensures
            found == if self.loaded_chunks@.contains_key(owner(x as int, y as int, z as int)) {
                Some(
                    self.loaded_chunks@[owner(x as int, y as int, z as int)].chunk@.block_at(
                        local_coord(x as int),
                        local_coord(y as int),
                        local_coord(z as int),
                    ),
                )
            } else {
                None
            },
    {
        let coord = ChunkCoord::from_world_pos(x, y, z);
        match self.loaded_chunks.get(coord) {
            Some(entry) => Some(entry.chunk.get_block(local_of(x), local_of(y), local_of(z))),
            None => None,
        }
    }

    /// The stored light at a world position; none where no chunk is loaded.
    pub fn get_light_at(&self, x: i32, y: i32, z: i32) -> (found: Option<u8>)
        ensures
            found == if self.loaded_chunks@.contains_key(owner(x as int, y as int, z as int)) {
                Some(
                    self.loaded_chunks@[owner(x as int, y as int, z as int)].chunk@.light_at(
                        local_coord(x as int),
                        local_coord(y as int),
                        local_coord(z as int),
                    ),
                )
            } else {
                None
            },
    {
        let coord = ChunkCoord::from_world_pos(x, y, z);
        match self.loaded_chunks.get(coord) {
            Some(entry) => Some(entry.chunk.get_light(local_of(x), local_of(y), local_of(z))),
            None => None,
        }
    }

    /// The block-edit entry point: sets the block at a world position.
    ///
    /// Where the owning chunk is loaded, the chunk takes the block, its light
    /// is worked out afresh, and it and the neighbours across the voxel's
    /// boundary faces become dirty. Where it is not, nothing changes.
    pub fn edit_block(&mut self, x: i32, y: i32, z: i32, id: BlockId) -> (edited: bool)
        ensures
            edited == old(self).loaded_chunks@.contains_key(owner(x as int, y as int, z as int)),
            edited ==> is_block_edit(*final(self), *old(self), x as int, y as int, z as int, id),
            !edited ==> *final(self) == *old(self),
    {
        let coord = ChunkCoord::from_world_pos(x, y, z);
        let lx = local_of(x);
        let ly = local_of(y);
        let lz = local_of(z);
        match self.loaded_chunks.index_of(coord) {
            Some(i) => {
                let ghost before_chunk = self.loaded_chunks.value_at(i as int).chunk@;
                let entry = self.loaded_chunks.value_mut(i);
                entry.chunk.set_block(lx, ly, lz, id);
                entry.chunk.calculate_skylight();
                entry.needs_remesh = true;
                proof {
                    use_type_invariant(&entry.chunk);
                }
                let ghost middle = self.loaded_chunks@;
                self.mark_neighbor_chunks_for_remesh(coord, lx, ly, lz);
                proof {
                    assert(!shares_boundary(coord, lx as int, ly as int, lz as int, coord));
                    assert(self.loaded_chunks@.dom() =~= old(self).loaded_chunks@.dom());
                }
                true
            },
            None => false,
        }
    }

    /// Removes the block at a world position, leaving air.
    ///
    /// Outside creative mode a block of the kind `bedrock_id` stays. The
    /// result says whether the block was removed.
    pub fn destroy_block(
        &mut self,
        x: i32,
        y: i32,
        z: i32,
        creative_mode: bool,
        bedrock_id: Option<BlockId>,
    ) -> (destroyed: bool)
        ensures
            destroyed == (old(self).loaded_chunks@.contains_key(
                owner(x as int, y as int, z as int),
            ) && (creative_mode || bedrock_id != Some(
                old(self).loaded_chunks@[owner(x as int, y as int, z as int)].chunk@.block_at(
                    local_coord(x as int),
                    local_coord(y as int),
                    local_coord(z as int),
                ),
            ))),
            destroyed ==> is_block_edit(
                *final(self),
                *old(self),
                x as int,
                y as int,
                z as int,
                BlockId(0),
            ),
            !destroyed ==> *final(self) == *old(self),
    {
        match self.get_block_at(x, y, z) {
            Some(current_block) => {
                let is_bedrock = match bedrock_id {
                    Some(id) => id == current_block,
                    None => false,
                };
                if creative_mode || !is_bedrock {
                    self.edit_block(x, y, z, BlockId(0))
                } else {
                    false
                }
            },
            None => false,
        }
    }

    /// Puts a block at a world position that holds air. The result says
    /// whether the block was placed.
    pub fn place_block(&mut self, x: i32, y: i32, z: i32, block: BlockId) -> (placed: bool)
        ensures
            placed == (old(self).loaded_chunks@.contains_key(owner(x as int, y as int, z as int))
                && old(self).loaded_chunks@[owner(x as int, y as int, z as int)].chunk@.block_at(
                local_coord(x as int),
                local_coord(y as int),
                local_coord(z as int),
            ).is_air()),
            placed ==> is_block_edit(*final(self), *old(self), x as int, y as int, z as int, block),
            !placed ==> *final(self) == *old(self),
    {
        match self.get_block_at(x, y, z) {
            Some(current_block) => {
                if current_block.is_air() {
                    self.edit_block(x, y, z, block)
                } else {
                    false
                }
            },
            None => false,
        }
    }

}

/// Whether a change of the sky light dirties the chunk at `c` at once: every
/// chunk when the viewpoint is unknown, else every chunk within four chunks of it.
pub open spec fn near_viewpoint(player_chunk: Option<ChunkCoord>, c: ChunkCoord) -> bool {
    match player_chunk {
        Some(p) => chebyshev(c, p) <= 4,
        None => true,
    }
}

/// Whether a chunk is within five chunks of the viewpoint and was not
/// meshed under the sky light level `level`.
pub open spec fn is_stale(
    coord: ChunkCoord,
    entry: LoadedChunk,
    player_chunk: ChunkCoord,
    level: u8,
) -> bool {
    chebyshev(coord, player_chunk) <= 5 && entry.sky_light != Some(level)
}

/// Number of stale chunks among the first `i` positions of the index.
pub open spec fn stale_before(
    chunks: CoordMap<LoadedChunk>,
    player_chunk: ChunkCoord,
    level: u8,
    i: int,
) -> nat
    decreases i,
{
    if i <= 0 {
        0
    } else {
        stale_before(chunks, player_chunk, level, i - 1) + if is_stale(
            chunks.key_at(i - 1),
            chunks.value_at(i - 1),
            player_chunk,
            level,
        ) {
            1nat
        } else {
            0nat
        }
    }
}

fn chebyshev_distance(a: ChunkCoord, b: ChunkCoord) -> (d: i64)
    ensures
        d == chebyshev(a, b),
{
    let dx: i64 = a.x as i64 - b.x as i64;
    let dy: i64 = a.y as i64 - b.y as i64;
    let dz: i64 = a.z as i64 - b.z as i64;
    let ax: i64 = if dx < 0 { -dx } else { dx };
    let ay: i64 = if dy < 0 { -dy } else { dy };
    let az: i64 = if dz < 0 { -dz } else { dz };
    if ax >= ay && ax >= az {
        ax
    } else if ay >= az {
        ay
    } else {
        az
    }
}

impl ChunkManager {
    /// Sets the sky light level. No stored light changes. If the level is a
    /// new one, the chunks near the viewpoint become dirty, or all chunks when
    /// the viewpoint is unknown; the other chunks are left to the sweep for
    /// stale chunks.
    pub fn set_sky_light_level(&mut self, new_level: u8, player_chunk: Option<ChunkCoord>) -> (changed:
        bool)
        ensures
            changed == (new_level != old(self).sky_light_level),
            final(self).sky_light_level == new_level,
            final(self).world_seed == old(self).world_seed,
            final(self).loading_chunks == old(self).loading_chunks,
            same_positions(final(self).loaded_chunks, old(self).loaded_chunks),
            changed ==> final(self).loaded_chunks@ == marked(
                old(self).loaded_chunks@,
                |c: ChunkCoord| near_viewpoint(player_chunk, c),
            ),
            !changed ==> final(self).loaded_chunks == old(self).loaded_chunks,
    {
        if new_level == self.sky_light_level {
            return false;
        }
        self.sky_light_level = new_level;
        self.loaded_chunks.check_positions();
        let n = self.loaded_chunks.len();
        let mut i: usize = 0;
        while i < n
            invariant
                i <= n,
                n == old(self).loaded_chunks.spec_len(),
                self.sky_light_level == new_level,
                self.world_seed == old(self).world_seed,
                self.loading_chunks == old(self).loading_chunks,
                same_positions(self.loaded_chunks, old(self).loaded_chunks),
                forall|j: int|
                    0 <= j < n ==> #[trigger] self.loaded_chunks.value_at(j) == if j < i
                        && near_viewpoint(player_chunk, old(self).loaded_chunks.key_at(j)) {
                        LoadedChunk { needs_remesh: true, ..old(self).loaded_chunks.value_at(j) }
                    } else {
                        old(self).loaded_chunks.value_at(j)
                    },
            decreases n - i,
        {
            let coord = self.loaded_chunks.key(i);
            let near = match player_chunk {
                Some(p) => chebyshev_distance(coord, p) <= SKY_LIGHT_REMESH_DISTANCE as i64,
                None => true,
            };
            if near {
                let entry = self.loaded_chunks.value_mut(i);
                entry.needs_remesh = true;
            }
            i += 1;
        }
        self.loaded_chunks.check_positions();
        proof {
            let target = marked(
                old(self).loaded_chunks@,
                |c: ChunkCoord| near_viewpoint(player_chunk, c),
            );
            assert forall|c: ChunkCoord| self.loaded_chunks@.contains_key(c) <==> target.contains_key(
                c,
            ) by {
                if self.loaded_chunks@.contains_key(c) {
                    let j = choose|j: int|
                        0 <= j < self.loaded_chunks.spec_len() && self.loaded_chunks.key_at(j) == c;
                    assert(old(self).loaded_chunks.key_at(j) == c);
                }
                if old(self).loaded_chunks@.contains_key(c) {
                    let j = choose|j: int|
                        0 <= j < old(self).loaded_chunks.spec_len() && old(
                            self).loaded_chunks.key_at(j) == c;
                    assert(self.loaded_chunks.key_at(j) == c);
                }
            }
            assert forall|c: ChunkCoord| self.loaded_chunks@.contains_key(c) implies self.loaded_chunks@[c]
                == target[c] by {
                let j = choose|j: int|
                    0 <= j < self.loaded_chunks.spec_len() && self.loaded_chunks.key_at(j) == c;
                assert(old(self).loaded_chunks.key_at(j) == c);
                assert(self.loaded_chunks@[self.loaded_chunks.key_at(j)]
                    == self.loaded_chunks.value_at(j));
                assert(old(self).loaded_chunks@[old(self).loaded_chunks.key_at(j)] == old(
                    self).loaded_chunks.value_at(j));
            }
            assert(self.loaded_chunks@ =~= target);
        }
        true
    }

    /// Sweep for stale sky light: goes through the index in order and marks
    /// dirty the first four chunks that are near the viewpoint and were not
    /// meshed under the current sky light level. Gives the number of those chunks.
    pub fn mark_stale_chunks(&mut self, player_chunk: ChunkCoord) -> (marked_count: usize)
        ensures
            final(self).sky_light_level == old(self).sky_light_level,
            final(self).world_seed == old(self).world_seed,
            final(self).loading_chunks == old(self).loading_chunks,
            same_positions(final(self).loaded_chunks, old(self).loaded_chunks),
            forall|j: int|
                0 <= j < old(self).loaded_chunks.spec_len() ==> #[trigger] final(
                    self).loaded_chunks.value_at(j) == if is_stale(
                    old(self).loaded_chunks.key_at(j),
                    old(self).loaded_chunks.value_at(j),
                    player_chunk,
                    old(self).sky_light_level,
                ) && stale_before(
                    old(self).loaded_chunks,
                    player_chunk,
                    old(self).sky_light_level,
                    j,
                ) < 4 {
                    LoadedChunk { needs_remesh: true, ..old(self).loaded_chunks.value_at(j) }
                } else {
                    old(self).loaded_chunks.value_at(j)
                },
            marked_count == if stale_before(
                old(self).loaded_chunks,
                player_chunk,
                old(self).sky_light_level,
                old(self).loaded_chunks.spec_len() as int,
            ) < 4 {
                stale_before(
                    old(self).loaded_chunks,
                    player_chunk,
                    old(self).sky_light_level,
                    old(self).loaded_chunks.spec_len() as int,
                )
            } else {
                4
            },
    {
        let current_level = self.sky_light_level;
        let check_distance: i64 = SKY_LIGHT_REMESH_DISTANCE as i64 + 1;
        let n = self.loaded_chunks.len();
        let ghost before = self.loaded_chunks;
        let mut marked_count: usize = 0;
        let mut i: usize = 0;
        while i < n && marked_count < MAX_STALE_PER_FRAME
            invariant
                i <= n,
                n == before.spec_len(),
                before == old(self).loaded_chunks,
                current_level == old(self).sky_light_level,
                check_distance == 5,
                self.sky_light_level == old(self).sky_light_level,
                self.world_seed == old(self).world_seed,
                self.loading_chunks == old(self).loading_chunks,
                same_positions(self.loaded_chunks, before),
                marked_count <= 4,
                marked_count == stale_before(before, player_chunk, current_level, i as int),
                forall|j: int|
                    0 <= j < n ==> #[trigger] self.loaded_chunks.value_at(j) == if j < i && is_stale(
                        before.key_at(j),
                        before.value_at(j),
                        player_chunk,
                        current_level,
                    ) {
                        LoadedChunk { needs_remesh: true, ..before.value_at(j) }
                    } else {
                        before.value_at(j)
                    },
            decreases n - i,
        {
            let coord = self.loaded_chunks.key(i);
            let distance = chebyshev_distance(coord, player_chunk);
            if distance <= check_distance {
                let stale = match self.loaded_chunks.value(i).sky_light {
                    Some(level) => level != current_level,
                    None => true,
                };
                if stale {
                    let entry = self.loaded_chunks.value_mut(i);
                    entry.needs_remesh = true;
                    marked_count += 1;
                }
            }
            i += 1;
        }
        proof {
            lemma_stale_before_monotone(before, player_chunk, current_level, i as int, n as int);
            assert forall|j: int| 0 <= j < n implies #[trigger] self.loaded_chunks.value_at(j)
                == if is_stale(before.key_at(j), before.value_at(j), player_chunk, current_level)
                && stale_before(before, player_chunk, current_level, j) < 4 {
                LoadedChunk { needs_remesh: true, ..before.value_at(j) }
            } else {
                before.value_at(j)
            } by {
                if j < i {
                    lemma_stale_before_monotone(before, player_chunk, current_level, j + 1, i as int);
                    assert(stale_before(before, player_chunk, current_level, j + 1) <= 4);
                } else {
                    lemma_stale_before_monotone(before, player_chunk, current_level, i as int, j);
                }
            }
        }
        marked_count
    }
}

proof fn lemma_stale_before_monotone(
    chunks: CoordMap<LoadedChunk>,
    player_chunk: ChunkCoord,
    level: u8,
    i: int,
    j: int,
)
    requires
        i <= j,
    ensures
        stale_before(chunks, player_chunk, level, i) <= stale_before(chunks, player_chunk, level, j),
    decreases j - i,
{
    if i < j {
        lemma_stale_before_monotone(chunks, player_chunk, level, i, j - 1);
    }
}

/// Whether the chunk at `c` is within streaming range of the viewpoint:
/// no more than five chunks above or below it and no more than ten chunks away.
pub open spec fn in_view(player_chunk: ChunkCoord, c: ChunkCoord) -> bool {
    abs(c.y - player_chunk.y) <= 5 && c.spec_distance_squared(player_chunk) <= 100
}

/// Place of a coordinate in the order in which the streaming step goes
/// through the box around the viewpoint: by x, then y, then z.
pub open spec fn scan_rank(player_chunk: ChunkCoord, c: ChunkCoord) -> int {
    (c.x - player_chunk.x + 10) * 231 + (c.y - player_chunk.y + 5) * 21 + (c.z - player_chunk.z
        + 10)
}

spec fn in_scan_box(player_chunk: ChunkCoord, c: ChunkCoord) -> bool {
    abs(c.x - player_chunk.x) <= 10 && abs(c.y - player_chunk.y) <= 5 && abs(
        c.z - player_chunk.z,
    ) <= 10
}

proof fn lemma_in_view_in_box(player_chunk: ChunkCoord, c: ChunkCoord)
    requires
        in_view(player_chunk, c),
    ensures
        in_scan_box(player_chunk, c),
{
    let dx = c.x - player_chunk.x;
    let dy = c.y - player_chunk.y;
    let dz = c.z - player_chunk.z;
    assert(dy * dy >= 0) by (nonlinear_arith);
    assert(dz * dz >= 0) by (nonlinear_arith);
    assert(dx * dx >= 0) by (nonlinear_arith);
    assert(dx > 10 || dx < -10 ==> dx * dx > 100) by (nonlinear_arith);
    assert(dz > 10 || dz < -10 ==> dz * dz > 100) by (nonlinear_arith);
}

/// Whether the streaming step asks for the chunk at `c`: it is in range of
/// the viewpoint and neither loaded nor loading.
pub open spec fn is_wanted(before: ChunkManager, player_chunk: ChunkCoord, c: ChunkCoord) -> bool {
    &&& in_view(player_chunk, c)
    &&& !before.loaded_chunks@.contains_key(c)
    &&& !before.loading_chunks@.contains_key(c)
}

proof fn lemma_rank_decides(player_chunk: ChunkCoord, c: ChunkCoord, dx: int, dy: int, dz: int)
    requires
        in_scan_box(player_chunk, c),
        -10 <= dx <= 10,
        -5 <= dy <= 5,
        -10 <= dz <= 10,
        scan_rank(player_chunk, c) == (dx + 10) * 231 + (dy + 5) * 21 + (dz + 10),
    ensures
        c.x - player_chunk.x == dx,
        c.y - player_chunk.y == dy,
        c.z - player_chunk.z == dz,
{
}

proof fn lemma_push_contains(s: Seq<ChunkCoord>, x: ChunkCoord, c: ChunkCoord)
    ensures
        s.push(x).contains(c) <==> s.contains(c) || c == x,
{
    if s.contains(c) {
        let k = choose|k: int| 0 <= k < s.len() && s[k] == c;
        assert(s.push(x)[k] == c);
    }
    if c == x {
        assert(s.push(x)[s.len() as int] == c);
    }
    if s.push(x).contains(c) {
        let k = choose|k: int| 0 <= k < s.push(x).len() && s.push(x)[k] == c;
        if k < s.len() {
            assert(s[k] == c);
        }
    }
}

impl ChunkManager {
    /// The streaming step: every coordinate in range of the viewpoint that
    /// is neither loaded nor loading becomes loading. The result lists those
    /// coordinates, each once, in the order of the scan; a chunk is to be
    /// generated for each.
    pub fn request_chunks(&mut self, player_chunk: ChunkCoord) -> (requested: Vec<ChunkCoord>)
        ensures
            final(self).world_seed == old(self).world_seed,
            final(self).sky_light_level == old(self).sky_light_level,
            final(self).loaded_chunks == old(self).loaded_chunks,
            requested@.no_duplicates(),
            forall|c: ChunkCoord|
                #![trigger requested@.contains(c)]
                #![trigger is_wanted(*old(self), player_chunk, c)]
                requested@.contains(c) <==> is_wanted(*old(self), player_chunk, c),
            forall|i: int, j: int|
                0 <= i < j < requested@.len() ==> scan_rank(player_chunk, #[trigger] requested@[i])
                    < scan_rank(player_chunk, #[trigger] requested@[j]),
            forall|c: ChunkCoord|
                #![trigger final(self).loading_chunks@.contains_key(c)]
                final(self).loading_chunks@.contains_key(c) <==> old(
                    self).loading_chunks@.contains_key(c) || requested@.contains(c),
    {
        let mut requested: Vec<ChunkCoord> = Vec::new();
        let mut n: usize = 0;
        proof {
            assert forall|c: ChunkCoord|
                #![trigger requested@.contains(c)]
                #![trigger is_wanted(*old(self), player_chunk, c)]
                requested@.contains(c) <==> is_wanted(*old(self), player_chunk, c) && scan_rank(
                    player_chunk,
                    c,
                ) < 0 by {
                if in_view(player_chunk, c) {
                    lemma_in_view_in_box(player_chunk, c);
                }
            }
        }
        while n < 4851
            invariant
                n <= 4851,
                self.world_seed == old(self).world_seed,
                self.sky_light_level == old(self).sky_light_level,
                self.loaded_chunks == old(self).loaded_chunks,
                requested@.no_duplicates(),
                forall|k: int|
                    0 <= k < requested@.len() ==> scan_rank(player_chunk, #[trigger] requested@[k])
                        < n,
                forall|i: int, j: int|
                    0 <= i < j < requested@.len() ==> scan_rank(
                        player_chunk,
                        #[trigger] requested@[i],
                    ) < scan_rank(player_chunk, #[trigger] requested@[j]),
                forall|c: ChunkCoord|
                    #![trigger requested@.contains(c)]
                    #![trigger is_wanted(*old(self), player_chunk, c)]
                    requested@.contains(c) <==> is_wanted(*old(self), player_chunk, c) && scan_rank(
                        player_chunk,
                        c,
                    ) < n,
                forall|c: ChunkCoord|
                    #![trigger self.loading_chunks@.contains_key(c)]
                    self.loading_chunks@.contains_key(c) <==> old(self).loading_chunks@.contains_key(
                        c,
                    ) || requested@.contains(c),
            decreases 4851 - n,
        {
            let a: usize = n / 231;
            let b: usize = (n / 21) % 11;
            let d: usize = n % 21;
            assert(n == a * 231 + b * 21 + d);
            let dx: i32 = a as i32 - 10;
            let dy: i32 = b as i32 - 5;
            let dz: i32 = d as i32 - 10;
            let ghost prev = requested@;
            let ghost prev_loading = self.loading_chunks@;
            let candidate = player_chunk.offset(dx, dy, dz);
            assert(dx * dx <= 100 && dx * dx >= 0) by (nonlinear_arith)
                requires
                    -10 <= dx <= 10,
            ;
            assert(dy * dy <= 25 && dy * dy >= 0) by (nonlinear_arith)
                requires
                    -5 <= dy <= 5,
            ;
            assert(dz * dz <= 100 && dz * dz >= 0) by (nonlinear_arith)
                requires
                    -10 <= dz <= 10,
            ;
            let distance_squared: i32 = dx * dx + dy * dy + dz * dz;
            let mut added = false;
            match candidate {
                Some(chunk_coord) => {
                    if distance_squared <= VIEW_DISTANCE * VIEW_DISTANCE {
                        if !self.loaded_chunks.contains_key(chunk_coord)
                            && !self.loading_chunks.contains_key(chunk_coord) {
                            self.loading_chunks.insert(chunk_coord, ());
                            requested.push(chunk_coord);
                            added = true;
                        }
                    }
                },
                None => {},
            }
            proof {
                if candidate is Some {
                    let cc = candidate->0;
                    assert(cc.x - player_chunk.x == dx);
                    assert(cc.y - player_chunk.y == dy);
                    assert(cc.z - player_chunk.z == dz);
                    assert(scan_rank(player_chunk, cc) == n);
                    assert(cc.spec_distance_squared(player_chunk) == distance_squared);
                    assert(added == is_wanted(*old(self), player_chunk, cc)) by {
                        assert(!prev.contains(cc));
                    }
                }
                assert(added ==> requested@ == prev.push(candidate->0));
                assert(!added ==> requested@ == prev);
                assert forall|c: ChunkCoord|
                    #![trigger requested@.contains(c)]
                    #![trigger is_wanted(*old(self), player_chunk, c)]
                    requested@.contains(c) <==> is_wanted(*old(self), player_chunk, c) && scan_rank(
                        player_chunk,
                        c,
                    ) < n + 1 by {
                    assert(prev.contains(c) <==> is_wanted(*old(self), player_chunk, c)
                        && scan_rank(player_chunk, c) < n);
                    if added {
                        lemma_push_contains(prev, candidate->0, c);
                    }
                    if is_wanted(*old(self), player_chunk, c) && scan_rank(player_chunk, c) == n {
                        lemma_in_view_in_box(player_chunk, c);
                        lemma_rank_decides(player_chunk, c, dx as int, dy as int, dz as int);
                        assert(candidate == Some(c));
                    }
                }
                assert forall|c: ChunkCoord|
                    #![trigger self.loading_chunks@.contains_key(c)]
                    self.loading_chunks@.contains_key(c) <==> old(self).loading_chunks@.contains_key(
                        c,
                    ) || requested@.contains(c) by {
                    assert(prev_loading.contains_key(c) <==> old(self).loading_chunks@.contains_key(
                        c,
                    ) || prev.contains(c));
                    if added {
                        lemma_push_contains(prev, candidate->0, c);
                    }
                }
                if added {
                    assert(!prev.contains(candidate->0));
                    assert(requested@.no_duplicates()) by {
                        assert forall|i: int, j: int|
                            0 <= i < requested@.len() && 0 <= j < requested@.len() && i
                                != j implies requested@[i] != requested@[j] by {
                            if i < prev.len() && j < prev.len() {
                            } else if i < prev.len() {
                                assert(prev.contains(prev[i]));
                            } else if j < prev.len() {
                                assert(prev.contains(prev[j]));
                            }
                        }
                    }
                }
            }
            n += 1;
        }
        proof {
            assert forall|c: ChunkCoord|
                #![trigger requested@.contains(c)]
                #![trigger is_wanted(*old(self), player_chunk, c)]
                requested@.contains(c) <==> is_wanted(*old(self), player_chunk, c) by {
                if in_view(player_chunk, c) {
                    lemma_in_view_in_box(player_chunk, c);
                }
            }
        }
        requested
    }
}

/// Whether the block at a world position stops movement: its chunk is
/// loaded, it is not air, and the catalog knows its kind as solid.
pub open spec fn solid_at(
    chunks: Map<ChunkCoord, LoadedChunk>,
    catalog: Seq<BlockType>,
    x: int,
    y: int,
    z: int,
) -> bool {
    let coord = owner(x, y, z);
    let id = chunks[coord].chunk@.block_at(local_coord(x), local_coord(y), local_coord(z));
    &&& chunks.contains_key(coord)
    &&& !id.is_air()
    &&& id.0 < catalog.len()
    &&& catalog[id.0 as int].properties.is_solid
}

impl ChunkManager {
    /// Whether the block at a world position stops movement.
    pub fn is_solid_at(&self, x: i32, y: i32, z: i32, block_registry: &BlockRegistry) -> (solid:
        bool)
        ensures
            solid == solid_at(self.loaded_chunks@, block_registry@, x as int, y as int, z as int),
    {
        match self.get_block_at(x, y, z) {
            Some(block_id) => {
                if block_id.is_air() {
                    false
                } else {
                    match block_registry.get_block(block_id) {
                        Some(block_type) => block_type.properties.is_solid,
                        None => false,
                    }
                }
            },
            None => false,
        }
    }

    /// Whether a box of blocks, from `min` to `max` on each axis, both
    /// included, holds a block that stops movement.
    pub fn check_aabb_collision(
        &self,
        min: (i32, i32, i32),
        max: (i32, i32, i32),
        block_registry: &BlockRegistry,
    ) -> (collides: bool)
        ensures
            collides == exists|x: int, y: int, z: int|
                min.0 <= x <= max.0 && min.1 <= y <= max.1 && min.2 <= z <= max.2 && solid_at(
                    self.loaded_chunks@,
                    block_registry@,
                    x,
                    y,
                    z,
                ),
    {
        let ghost chunks = self.loaded_chunks@;
        let ghost catalog = block_registry@;
        let mut by: i64 = min.1 as i64;
        while by <= max.1 as i64
            invariant
                min.1 <= by <= max.1 + 1 || by == min.1,
                chunks == self.loaded_chunks@,
                catalog == block_registry@,
                forall|x: int, y: int, z: int|
                    min.0 <= x <= max.0 && min.1 <= y < by && min.2 <= z <= max.2 ==> !solid_at(
                        chunks,
                        catalog,
                        x,
                        y,
                        z,
                    ),
            decreases max.1 + 1 - by,
        {
            let mut bz: i64 = min.2 as i64;
            while bz <= max.2 as i64
                invariant
                    min.1 <= by <= max.1,
                    min.2 <= bz <= max.2 + 1 || bz == min.2,
                    chunks == self.loaded_chunks@,
                    catalog == block_registry@,
                    forall|x: int, y: int, z: int|
                        min.0 <= x <= max.0 && min.1 <= y < by && min.2 <= z <= max.2 ==> !solid_at(
                            chunks,
                            catalog,
                            x,
                            y,
                            z,
                        ),
                    forall|x: int, z: int|
                        min.0 <= x <= max.0 && min.2 <= z < bz ==> !solid_at(
                            chunks,
                            catalog,
                            x,
                            by as int,
                            z,
                        ),
                decreases max.2 + 1 - bz,
            {
                let mut bx: i64 = min.0 as i64;
                while bx <= max.0 as i64
                    invariant
                        min.1 <= by <= max.1,
                        min.2 <= bz <= max.2,
                        min.0 <= bx <= max.0 + 1 || bx == min.0,
                        chunks == self.loaded_chunks@,
                        catalog == block_registry@,
                        forall|x: int|
                            min.0 <= x < bx ==> !solid_at(chunks, catalog, x, by as int, bz as int),
                    decreases max.0 + 1 - bx,
                {
                    if self.is_solid_at(bx as i32, by as i32, bz as i32, block_registry) {
                        return true;
                    }
                    bx += 1;
                }
                bz += 1;
            }
            by += 1;
        }
        false
    }

    /// Height of the ground at a world column: one more than the height of
    /// the highest block below 256 that stops movement, and 1 where there is none.
    pub fn get_terrain_height_at(&self, x: i32, z: i32, block_registry: &BlockRegistry) -> (height:
        i32)
        ensures
            1 <= height <= 256,
            forall|y: int|
                height <= y < 256 ==> !solid_at(
                    self.loaded_chunks@,
                    block_registry@,
                    x as int,
                    y,
                    z as int,
                ),
            height > 1 ==> solid_at(
                self.loaded_chunks@,
                block_registry@,
                x as int,
                height - 1,
                z as int,
            ),
            height == 1 ==> solid_at(self.loaded_chunks@, block_registry@, x as int, 0, z as int)
                || forall|y: int|
                0 <= y < 256 ==> !solid_at(
                    self.loaded_chunks@,
                    block_registry@,
                    x as int,
                    y,
                    z as int,
                ),
    {
        let mut world_y: i32 = 256;
        while world_y > 0
            invariant
                0 <= world_y <= 256,
                forall|y: int|
                    world_y <= y < 256 ==> !solid_at(
                        self.loaded_chunks@,
                        block_registry@,
                        x as int,
                        y,
                        z as int,
                    ),
            decreases world_y,
        {
            world_y -= 1;
            if self.is_solid_at(x, world_y, z, block_registry) {
                return world_y + 1;
            }
        }
        1
    }
}

/// Only a voxel on a boundary layer of its chunk reaches a neighbour: an
/// edit inside the chunk marks none, and an edit on the west layer alone marks
/// the west neighbour and no other. A chunk that is marked shares a face with
/// the edited chunk.
pub proof fn lemma_boundary_marks(coord: ChunkCoord, x: int, y: int, z: int, c: ChunkCoord)
    requires
        0 <= x < 16,
        0 <= y < 16,
        0 <= z < 16,
    ensures
        shares_boundary(coord, x, y, z, c) ==> face_adjacent(c, coord),
        0 < x < 15 && 0 < y < 15 && 0 < z < 15 ==> !shares_boundary(coord, x, y, z, c),
        x == 0 && 0 < y < 15 && 0 < z < 15 ==> (shares_boundary(coord, x, y, z, c)
            <==> coord.spec_offset(-1, 0, 0) == Some(c)),
{
}

/// Marking chunks dirty changes no chunk: every block and every stored
/// light level is as before, and so is the record of the sky light level
/// that a chunk was meshed under.
pub proof fn lemma_marking_keeps_chunks(
    chunks: Map<ChunkCoord, LoadedChunk>,
    dirty: spec_fn(ChunkCoord) -> bool,
    c: ChunkCoord,
)
    requires
        chunks.contains_key(c),
    ensures
        marked(chunks, dirty).contains_key(c),
        marked(chunks, dirty)[c].chunk == chunks[c].chunk,
        marked(chunks, dirty)[c].sky_light == chunks[c].sky_light,
        marked(chunks, dirty)[c].needs_remesh == (chunks[c].needs_remesh || dirty(c)),
{
}

} // verus!
