use vstd::prelude::*;
use crate::chunk::{abs, ChunkCoord, ChunkView};
use crate::light::{flood_filled, sky_seeded};
use crate::mesh::{dark_model, is_mesh_of, visible_faces, ChunkMesh};
use crate::registry::BlockRegistry;
use crate::relight::{
    cache_shadows, calculate_skylight_with_cache, chunk_views, create_chunk_mesh_with_cache,
    propagate_light_from_cache, surroundings_in, ChunkCache,
};
use crate::world::{
    same_positions, ChunkManager, LoadedChunk, LIGHT_PROPAGATION_PASSES, MAX_CHUNKS_PER_FRAME,
};

verus! {

/// Square of the horizontal distance between two chunks.
pub open spec fn horizontal_distance_squared(a: ChunkCoord, b: ChunkCoord) -> int {
    (a.x - b.x) * (a.x - b.x) + (a.z - b.z) * (a.z - b.z)
}

/// The order in which dirty chunks are taken into a batch: higher chunks
/// first, so that light comes down from the sky; at one height the chunks
/// nearer to the viewpoint first; at one distance by z, then by x.
pub open spec fn goes_first(viewpoint: ChunkCoord, a: ChunkCoord, b: ChunkCoord) -> bool {
    let da = horizontal_distance_squared(a, viewpoint);
    let db = horizontal_distance_squared(b, viewpoint);
    a.y > b.y || (a.y == b.y && (da < db || (da == db && (a.z < b.z || (a.z == b.z && a.x
        < b.x)))))
}

fn horizontal_distance(a: ChunkCoord, b: ChunkCoord) -> (d: i128)
    ensures
        d == horizontal_distance_squared(a, b),
{
    let dx: i128 = a.x as i128 - b.x as i128;
    let dz: i128 = a.z as i128 - b.z as i128;
    assert(0 <= dx * dx <= 0x1_0000_0000_0000_0000) by (nonlinear_arith)
        requires
            -0x1_0000_0000 <= dx <= 0x1_0000_0000,
    ;
    assert(0 <= dz * dz <= 0x1_0000_0000_0000_0000) by (nonlinear_arith)
        requires
            -0x1_0000_0000 <= dz <= 0x1_0000_0000,
    ;
    dx * dx + dz * dz
}

fn takes_precedence(viewpoint: ChunkCoord, a: ChunkCoord, b: ChunkCoord) -> (first: bool)
    ensures
        first == goes_first(viewpoint, a, b),
{
    if a.y != b.y {
        return a.y > b.y;
    }
    let da = horizontal_distance(a, viewpoint);
    let db = horizontal_distance(b, viewpoint);
    da < db || (da == db && (a.z < b.z || (a.z == b.z && a.x < b.x)))
}

/// Whether `batch` is the batch of a world with the given chunks, seen from
/// `viewpoint`: the dirty chunks in order of precedence, and of more than 32
/// the first 32.
pub open spec fn is_batch(
    chunks: Map<ChunkCoord, LoadedChunk>,
    viewpoint: ChunkCoord,
    batch: Seq<ChunkCoord>,
) -> bool {
    &&& batch.len() <= 32
    &&& forall|k: int|
        0 <= k < batch.len() ==> chunks.contains_key(#[trigger] batch[k])
            && chunks[batch[k]].needs_remesh
    &&& forall|i: int, j: int|
        0 <= i < j < batch.len() ==> goes_first(viewpoint, #[trigger] batch[i], #[trigger] batch[j])
    &&& forall|c: ChunkCoord|
        #![trigger chunks.contains_key(c)]
        chunks.contains_key(c) && chunks[c].needs_remesh && !batch.contains(c) ==> batch.len()
            == 32 && goes_first(viewpoint, batch[31], c)
}

/// A world has one batch.
pub proof fn lemma_batch_unique(
    chunks: Map<ChunkCoord, LoadedChunk>,
    viewpoint: ChunkCoord,
    a: Seq<ChunkCoord>,
    b: Seq<ChunkCoord>,
)
    requires
        is_batch(chunks, viewpoint, a),
        is_batch(chunks, viewpoint, b),
    ensures
        a == b,
{
    lemma_batch_prefix(chunks, viewpoint, a, b, a.len() as int);
    lemma_batch_prefix(chunks, viewpoint, b, a, b.len() as int);
    assert(a =~= b);
}

/// Two batches of one world agree on their first `n` chunks.
proof fn lemma_batch_prefix(
    chunks: Map<ChunkCoord, LoadedChunk>,
    viewpoint: ChunkCoord,
    a: Seq<ChunkCoord>,
    b: Seq<ChunkCoord>,
    n: int,
)
    requires
        is_batch(chunks, viewpoint, a),
        is_batch(chunks, viewpoint, b),
        0 <= n <= a.len(),
    ensures
        n <= b.len(),
        forall|k: int| 0 <= k < n ==> a[k] == b[k],
    decreases n,
{
    if n > 0 {
        lemma_batch_prefix(chunks, viewpoint, a, b, n - 1);
        let m = n - 1;
        let c = a[m];
        assert(chunks.contains_key(c));
        // c is in b, at or after position m
        if !b.contains(c) {
            // then b is full and its last chunk goes before c; but a's first m
            // chunks are b's first m chunks, and c comes after them in a
            assert(b.len() == 32);
            assert(goes_first(viewpoint, b[31], c));
            if m < 32 {
                lemma_in_other(chunks, viewpoint, b, a, 31);
                let j = choose|j: int| 0 <= j < a.len() && a[j] == b[31];
                if j < m {
                    assert(a[j] == b[j]);
                    if j < 31 {
                        assert(goes_first(viewpoint, b[j], b[31]));
                    }
                } else if j > m {
                    assert(goes_first(viewpoint, a[m], a[j]));
                }
            }
            assert(false);
        }
        let p = choose|p: int| 0 <= p < b.len() && b[p] == c;
        if p < m {
            assert(a[p] == b[p]);
            assert(goes_first(viewpoint, a[p], a[m]));
            assert(false);
        }
        if p > m {
            // b[m] goes before c and is in a, at a position at or after m
            assert(goes_first(viewpoint, b[m], b[p]));
            lemma_in_other(chunks, viewpoint, b, a, m);
            let j = choose|j: int| 0 <= j < a.len() && a[j] == b[m];
            if j < m {
                assert(a[j] == b[j]);
                assert(goes_first(viewpoint, b[j], b[m]));
            } else if j > m {
                assert(goes_first(viewpoint, a[m], a[j]));
            }
            assert(false);
        }
    }
}

/// A chunk of one batch that goes before the last chunk of another batch of the
/// same world is in that batch too; so is every chunk when the other is not full.
proof fn lemma_in_other(
    chunks: Map<ChunkCoord, LoadedChunk>,
    viewpoint: ChunkCoord,
    a: Seq<ChunkCoord>,
    b: Seq<ChunkCoord>,
    k: int,
)
    requires
        is_batch(chunks, viewpoint, a),
        is_batch(chunks, viewpoint, b),
        0 <= k < a.len(),
        b.len() < 32 || !goes_first(viewpoint, b[31], a[k]),
    ensures
        b.contains(a[k]),
{
    assert(chunks.contains_key(a[k]));
}

impl ChunkManager {
    /// The batch of the next relight-and-remesh step, seen from `viewpoint`.
    pub fn select_batch(&self, viewpoint: ChunkCoord) -> (batch: Vec<ChunkCoord>)
        ensures
            is_batch(self.loaded_chunks@, viewpoint, batch@),
    {
        self.loaded_chunks.check_positions();
        let n = self.loaded_chunks.len();
        let mut batch: Vec<ChunkCoord> = Vec::new();
        let ghost mut src: Seq<int> = Seq::empty();
        let mut i: usize = 0;
        while i < n
            invariant
                i <= n,
                n == self.loaded_chunks.spec_len(),
                self.loaded_chunks.positions_wf(),
                batch@.len() <= 32,
                src.len() == batch@.len(),
                forall|k: int|
                    0 <= k < batch@.len() ==> 0 <= #[trigger] src[k] < i && batch@[k]
                        == self.loaded_chunks.key_at(src[k]) && self.loaded_chunks.value_at(
                        src[k],
                    ).needs_remesh,
                forall|a: int, b: int|
                    0 <= a < b < batch@.len() ==> goes_first(viewpoint, #[trigger] batch@[a], #[trigger] batch@[b]),
                forall|j: int|
                    0 <= j < i && (#[trigger] self.loaded_chunks.value_at(j)).needs_remesh
                        ==> batch@.contains(self.loaded_chunks.key_at(j)) || (batch@.len() == 32
                        && goes_first(viewpoint, batch@[31], self.loaded_chunks.key_at(j))),
            decreases n - i,
        {
            let coord = self.loaded_chunks.key(i);
            if self.loaded_chunks.value(i).needs_remesh {
                let mut p: usize = 0;
                while p < batch.len() && takes_precedence(viewpoint, batch[p], coord)
                    invariant
                        p <= batch@.len(),
                        forall|k: int| 0 <= k < p ==> goes_first(viewpoint, #[trigger] batch@[k], coord),
                    decreases batch@.len() - p,
                {
                    p += 1;
                }
                let ghost old_batch = batch@;
                let ghost old_src = src;
                proof {
                    assert forall|k: int| 0 <= k < old_batch.len() implies old_batch[k] != coord by {
                        assert(old_src[k] < i);
                    }
                    assert forall|k: int| p <= k < old_batch.len() implies goes_first(
                        viewpoint,
                        coord,
                        #[trigger] old_batch[k],
                    ) by {
                        assert(old_batch[p as int] != coord);
                        assert(goes_first(viewpoint, coord, old_batch[p as int]));
                        if k > p {
                            assert(goes_first(viewpoint, old_batch[p as int], old_batch[k]));
                        }
                    }
                }
                if p < MAX_CHUNKS_PER_FRAME {
                    batch.insert(p, coord);
                    proof {
                        src = src.insert(p as int, i as int);
                    }
                    let ghost mid = batch@;
                    let ghost mid_src = src;
                    if batch.len() > MAX_CHUNKS_PER_FRAME {
                        batch.pop();
                        proof {
                            src = src.drop_last();
                        }
                    }
                    proof {
                        assert(mid == old_batch.insert(p as int, coord));
                        assert forall|k: int| 0 <= k < mid.len() implies #[trigger] mid[k] == if k
                            < p {
                            old_batch[k]
                        } else if k == p {
                            coord
                        } else {
                            old_batch[k - 1]
                        } by {}
                        assert forall|k: int| 0 <= k < mid_src.len() implies #[trigger] mid_src[k]
                            == if k < p {
                            old_src[k]
                        } else if k == p {
                            i as int
                        } else {
                            old_src[k - 1]
                        } by {}
                        assert forall|k: int| 0 <= k < batch@.len() implies batch@[k] == mid[k]
                            && src[k] == mid_src[k] by {}
                        assert forall|a: int, b: int| 0 <= a < b < mid.len() implies goes_first(
                            viewpoint,
                            #[trigger] mid[a],
                            #[trigger] mid[b],
                        ) by {
                            if b < p {
                            } else if b == p {
                            } else if a < p {
                                assert(goes_first(viewpoint, old_batch[a], old_batch[b - 1])) by {
                                    if a < b - 1 {
                                    } else {
                                        assert(a == p - 1 || a < b - 1);
                                    }
                                }
                            } else if a == p {
                            } else {
                                assert(goes_first(viewpoint, old_batch[a - 1], old_batch[b - 1]));
                            }
                        }
                        assert forall|j: int|
                            0 <= j < i + 1 && (#[trigger] self.loaded_chunks.value_at(
                                j,
                            )).needs_remesh implies batch@.contains(self.loaded_chunks.key_at(j))
                            || (batch@.len() == 32 && goes_first(
                            viewpoint,
                            batch@[31],
                            self.loaded_chunks.key_at(j),
                        )) by {
                            let key = self.loaded_chunks.key_at(j);
                            if j == i {
                                assert(batch@[p as int] == key);
                            } else if old_batch.contains(key) {
                                let k = choose|k: int| 0 <= k < old_batch.len() && old_batch[k] == key;
                                let k2 = if k < p {
                                    k
                                } else {
                                    k + 1
                                };
                                assert(mid[k2] == key);
                                if k2 < batch@.len() {
                                    assert(batch@[k2] == key);
                                } else {
                                    assert(k2 == 32);
                                    assert(goes_first(viewpoint, mid[31], mid[32]));
                                }
                            } else {
                                assert(old_batch.len() == 32);
                                assert(goes_first(viewpoint, old_batch[31], key));
                                assert(mid[32] == old_batch[31]);
                                assert(goes_first(viewpoint, mid[31], mid[32]));
                            }
                        }
                    }
                } else {
                    proof {
                        assert(goes_first(viewpoint, batch@[31], coord));
                    }
                }
            }
            i += 1;
        }
        proof {
            assert forall|c: ChunkCoord|
                #![trigger self.loaded_chunks@.contains_key(c)]
                self.loaded_chunks@.contains_key(c) && self.loaded_chunks@[c].needs_remesh
                    && !batch@.contains(c) implies batch@.len() == 32 && goes_first(
                viewpoint,
                batch@[31],
                c,
            ) by {
                let j = choose|j: int|
                    0 <= j < self.loaded_chunks.spec_len() && self.loaded_chunks.key_at(j) == c;
                assert(self.loaded_chunks@[self.loaded_chunks.key_at(j)]
                    == self.loaded_chunks.value_at(j));
            }
            assert forall|k: int| 0 <= k < batch@.len() implies self.loaded_chunks@.contains_key(
                #[trigger] batch@[k],
            ) && self.loaded_chunks@[batch@[k]].needs_remesh by {
                let j = src[k];
                assert(self.loaded_chunks@[self.loaded_chunks.key_at(j)]
                    == self.loaded_chunks.value_at(j));
            }
        }
        batch
    }
}

/// The content of every loaded chunk.
pub open spec fn world_views(chunks: Map<ChunkCoord, LoadedChunk>) -> Map<ChunkCoord, ChunkView> {
    chunks.map_values(|e: LoadedChunk| e.chunk@)
}

/// Whether the chunk at `c` belongs to the neighbourhood that is
/// snapshotted for the batch chunk at `b`: the chunk itself, the six chunks
/// that share a face with it, and the chunks up to eight above it.
pub open spec fn in_halo(b: ChunkCoord, c: ChunkCoord) -> bool {
    ||| c.x == b.x && c.z == b.z && -1 <= c.y - b.y <= 8
    ||| c.y == b.y && c.z == b.z && abs(c.x - b.x) == 1
    ||| c.y == b.y && c.x == b.x && abs(c.z - b.z) == 1
}

/// Whether the chunk at `c` belongs to the neighbourhood of some chunk of the batch.
pub open spec fn covered(batch: Seq<ChunkCoord>, c: ChunkCoord) -> bool {
    exists|k: int| 0 <= k < batch.len() && in_halo(#[trigger] batch[k], c)
}

/// The snapshot that a batch works on: the loaded chunks in the
/// neighbourhoods of the batch, as they are before any of them is relit.
pub open spec fn snapshot_of(world: Map<ChunkCoord, ChunkView>, batch: Seq<ChunkCoord>) -> Map<
    ChunkCoord,
    ChunkView,
> {
    Map::new(|c: ChunkCoord| world.contains_key(c) && covered(batch, c), |c: ChunkCoord| world[c])
}

/// A chunk relit within a snapshot: from the sky, or by flood fill from the
/// light it holds.
pub open spec fn relit(
    chunk: ChunkView,
    snapshot: Map<ChunkCoord, ChunkView>,
    coord: ChunkCoord,
    from_sky: bool,
) -> ChunkView {
    ChunkView {
        light: flood_filled(
            if from_sky {
                sky_seeded(chunk.blocks, cache_shadows(snapshot, coord))
            } else {
                chunk.light
            },
            chunk.blocks,
            surroundings_in(snapshot, coord),
        ),
        ..chunk
    }
}

/// The world after one light pass over the batch: every chunk of the batch
/// relit within the snapshot, every other chunk as it was.
pub open spec fn lit_pass(
    world: Map<ChunkCoord, ChunkView>,
    batch: Seq<ChunkCoord>,
    snapshot: Map<ChunkCoord, ChunkView>,
    from_sky: bool,
) -> Map<ChunkCoord, ChunkView> {
    Map::new(
        |c: ChunkCoord| world.contains_key(c),
        |c: ChunkCoord|
            if batch.contains(c) {
                relit(world[c], snapshot, c, from_sky)
            } else {
                world[c]
            },
    )
}

/// The snapshot with the chunks of the batch brought up to date.
pub open spec fn refreshed(
    snapshot: Map<ChunkCoord, ChunkView>,
    world: Map<ChunkCoord, ChunkView>,
    batch: Seq<ChunkCoord>,
) -> Map<ChunkCoord, ChunkView> {
    Map::new(
        |c: ChunkCoord| snapshot.contains_key(c) || batch.contains(c),
        |c: ChunkCoord|
            if batch.contains(c) {
                world[c]
            } else {
                snapshot[c]
            },
    )
}

/// What relighting a batch comes to: the world after the four light
/// passes, and the snapshot that the chunks are then meshed against.
///
/// The first pass lights every chunk of the batch from the sky, within the
/// snapshot taken before the batch. Each of the three passes that follow
/// spreads light by flood fill within the snapshot as refreshed after the pass
/// before it. The snapshot is not refreshed after the last pass.
pub open spec fn relight_outcome(world: Map<ChunkCoord, ChunkView>, batch: Seq<ChunkCoord>) -> (
    Map<ChunkCoord, ChunkView>,
    Map<ChunkCoord, ChunkView>,
) {
    let s0 = snapshot_of(world, batch);
    let w1 = lit_pass(world, batch, s0, true);
    let s1 = refreshed(s0, w1, batch);
    let w2 = lit_pass(w1, batch, s1, false);
    let s2 = refreshed(s1, w2, batch);
    let w3 = lit_pass(w2, batch, s2, false);
    let s3 = refreshed(s2, w3, batch);
    let w4 = lit_pass(w3, batch, s3, false);
    (w4, s3)
}

/// The offsets of the chunks of a neighbourhood from its centre.
spec fn halo_offset(m: int) -> (int, int, int) {
    if m == 0 {
        (0, 0, 0)
    } else if m == 1 {
        (-1, 0, 0)
    } else if m == 2 {
        (1, 0, 0)
    } else if m == 3 {
        (0, -1, 0)
    } else if m == 4 {
        (0, 1, 0)
    } else if m == 5 {
        (0, 0, -1)
    } else if m == 6 {
        (0, 0, 1)
    } else {
        (0, m - 5, 0)
    }
}

fn halo_step(m: usize) -> (offset: (i32, i32, i32))
    requires
        m < 14,
    ensures
        offset.0 == halo_offset(m as int).0,
        offset.1 == halo_offset(m as int).1,
        offset.2 == halo_offset(m as int).2,
{
    if m == 0 {
        (0, 0, 0)
    } else if m == 1 {
        (-1, 0, 0)
    } else if m == 2 {
        (1, 0, 0)
    } else if m == 3 {
        (0, -1, 0)
    } else if m == 4 {
        (0, 1, 0)
    } else if m == 5 {
        (0, 0, -1)
    } else if m == 6 {
        (0, 0, 1)
    } else {
        (0, m as i32 - 5, 0)
    }
}

/// The chunk at offset `m` of the neighbourhood of `b`, if the grid has it.
spec fn halo_chunk(b: ChunkCoord, m: int) -> Option<ChunkCoord> {
    b.spec_offset(halo_offset(m).0, halo_offset(m).1, halo_offset(m).2)
}

/// The offset at which a chunk lies in a neighbourhood.
spec fn halo_index(b: ChunkCoord, c: ChunkCoord) -> int {
    if c.x == b.x - 1 {
        1
    } else if c.x == b.x + 1 {
        2
    } else if c.z == b.z - 1 {
        5
    } else if c.z == b.z + 1 {
        6
    } else if c.y == b.y {
        0
    } else if c.y == b.y - 1 {
        3
    } else if c.y == b.y + 1 {
        4
    } else {
        c.y - b.y + 5
    }
}

proof fn lemma_halo_offsets(b: ChunkCoord, c: ChunkCoord)
    ensures
        in_halo(b, c) ==> 0 <= halo_index(b, c) < 14 && halo_chunk(b, halo_index(b, c)) == Some(c),
        forall|m: int| 0 <= m < 14 && #[trigger] halo_chunk(b, m) == Some(c) ==> in_halo(b, c),
{
}

proof fn lemma_batch_distinct(
    chunks: Map<ChunkCoord, LoadedChunk>,
    viewpoint: ChunkCoord,
    batch: Seq<ChunkCoord>,
)
    requires
        is_batch(chunks, viewpoint, batch),
    ensures
        batch.no_duplicates(),
{
    assert forall|i: int, j: int| 0 <= i < batch.len() && 0 <= j < batch.len() && i != j implies batch[i]
        != batch[j] by {
        if i < j {
            assert(goes_first(viewpoint, batch[i], batch[j]));
        } else {
            assert(goes_first(viewpoint, batch[j], batch[i]));
        }
    }
}

/// What a batch gives back for one of its chunks.
pub struct RemeshedChunk {
    pub coord: ChunkCoord,
    /// The new mesh of the chunk; none if the chunk shows no face.
    pub mesh: Option<ChunkMesh>,
}

impl ChunkManager {
    /// Snapshots the neighbourhoods of the batch.
    fn build_cache(&self, batch: &Vec<ChunkCoord>) -> (cache: ChunkCache)
        ensures
            chunk_views(cache@) == snapshot_of(world_views(self.loaded_chunks@), batch@),
    {
        let mut cache: ChunkCache = ChunkCache::new();
        let ghost world = self.loaded_chunks@;
        let mut k: usize = 0;
        while k < batch.len()
            invariant
                k <= batch@.len(),
                world == self.loaded_chunks@,
                forall|c: ChunkCoord|
                    #![trigger cache@.contains_key(c)]
                    cache@.contains_key(c) ==> world.contains_key(c) && cache@[c]@
                        == world[c].chunk@ && covered(batch@.take(k as int), c),
                forall|j: int, c: ChunkCoord|
                    0 <= j < k && #[trigger] in_halo(batch@[j], c) && world.contains_key(c)
                        ==> cache@.contains_key(c),
            decreases batch@.len() - k,
        {
            let center = batch[k];
            let mut m: usize = 0;
            while m < 14
                invariant
                    m <= 14,
                    k < batch@.len(),
                    center == batch@[k as int],
                    world == self.loaded_chunks@,
                    forall|c: ChunkCoord|
                        #![trigger cache@.contains_key(c)]
                        cache@.contains_key(c) ==> world.contains_key(c) && cache@[c]@
                            == world[c].chunk@ && covered(batch@.take(k as int + 1), c),
                    forall|j: int, c: ChunkCoord|
                        0 <= j < k && #[trigger] in_halo(batch@[j], c) && world.contains_key(c)
                            ==> cache@.contains_key(c),
                    forall|j: int|
                        0 <= j < m ==> match #[trigger] halo_chunk(center, j) {
                            Some(c) => world.contains_key(c) ==> cache@.contains_key(c),
                            None => true,
                        },
                decreases 14 - m,
            {
                let (dx, dy, dz) = halo_step(m);
                let ghost before = cache@;
                match center.offset(dx, dy, dz) {
                    Some(coord) => {
                        if !cache.contains_key(coord) {
                            match self.loaded_chunks.get(coord) {
                                Some(entry) => {
                                    cache.insert(coord, entry.chunk.snapshot());
                                    proof {
                                        lemma_halo_offsets(center, coord);
                                        assert(halo_chunk(center, m as int) == Some(coord));
                                        assert(in_halo(batch@.take(k as int + 1)[k as int], coord));
                                    }
                                },
                                None => {},
                            }
                        }
                    },
                    None => {},
                }
                m += 1;
            }
            proof {
                assert forall|j: int, c: ChunkCoord|
                    0 <= j < k + 1 && #[trigger] in_halo(batch@[j], c) && world.contains_key(
                        c,
                    ) implies cache@.contains_key(c) by {
                    if j == k {
                        lemma_halo_offsets(center, c);
                        assert(halo_chunk(center, halo_index(center, c)) == Some(c));
                    }
                }
            }
            k += 1;
        }
        proof {
            assert(batch@.take(batch@.len() as int) == batch@);
            let target = snapshot_of(world_views(world), batch@);
            assert forall|c: ChunkCoord| chunk_views(cache@).contains_key(c) <==> target.contains_key(
                c,
            ) by {
                if target.contains_key(c) {
                    let j = choose|j: int| 0 <= j < batch@.len() && in_halo(#[trigger] batch@[j], c);
                    assert(in_halo(batch@[j], c));
                }
            }
            assert(chunk_views(cache@) =~= target);
        }
        cache
    }

    /// One light pass over the batch, within the snapshot in `cache`.
    fn light_pass(&mut self, batch: &Vec<ChunkCoord>, cache: &ChunkCache, from_sky: bool)
        requires
            batch@.no_duplicates(),
            forall|k: int|
                0 <= k < batch@.len() ==> old(self).loaded_chunks@.contains_key(#[trigger] batch@[k]),
        ensures
            final(self).world_seed == old(self).world_seed,
            final(self).sky_light_level == old(self).sky_light_level,
            final(self).loading_chunks == old(self).loading_chunks,
            same_positions(final(self).loaded_chunks, old(self).loaded_chunks),
            final(self).loaded_chunks@.dom() == old(self).loaded_chunks@.dom(),
            forall|c: ChunkCoord|
                #![trigger final(self).loaded_chunks@[c]]
                old(self).loaded_chunks@.contains_key(c) ==> final(self).loaded_chunks@[c].needs_remesh
                    == old(self).loaded_chunks@[c].needs_remesh && final(
                    self).loaded_chunks@[c].sky_light == old(self).loaded_chunks@[c].sky_light,
            world_views(final(self).loaded_chunks@) == lit_pass(
                world_views(old(self).loaded_chunks@),
                batch@,
                chunk_views(cache@),
                from_sky,
            ),
    {
        let ghost before = self.loaded_chunks@;
        let ghost snapshot = chunk_views(cache@);
        let mut k: usize = 0;
        while k < batch.len()
            invariant
                k <= batch@.len(),
                batch@.no_duplicates(),
                before == old(self).loaded_chunks@,
                snapshot == chunk_views(cache@),
                self.world_seed == old(self).world_seed,
                self.sky_light_level == old(self).sky_light_level,
                self.loading_chunks == old(self).loading_chunks,
                same_positions(self.loaded_chunks, old(self).loaded_chunks),
                self.loaded_chunks@.dom() == before.dom(),
                forall|j: int| 0 <= j < batch@.len() ==> before.contains_key(#[trigger] batch@[j]),
                forall|c: ChunkCoord|
                    #![trigger self.loaded_chunks@[c]]
                    before.contains_key(c) ==> self.loaded_chunks@[c].needs_remesh
                        == before[c].needs_remesh && self.loaded_chunks@[c].sky_light
                        == before[c].sky_light && self.loaded_chunks@[c].chunk@ == if batch@.take(
                        k as int,
                    ).contains(c) {
                        relit(before[c].chunk@, snapshot, c, from_sky)
                    } else {
                        before[c].chunk@
                    },
            decreases batch@.len() - k,
        {
            let coord = batch[k];
            let ghost prev = self.loaded_chunks@;
            assert(before.contains_key(batch@[k as int]));
            assert(self.loaded_chunks@.contains_key(coord));
            proof {
                assert(!batch@.take(k as int).contains(coord)) by {
                    if batch@.take(k as int).contains(coord) {
                        let j = choose|j: int|
                            0 <= j < batch@.take(k as int).len() && batch@.take(k as int)[j]
                                == coord;
                        assert(batch@[j] == batch@[k as int]);
                    }
                }
                assert(prev[coord].chunk@ == before[coord].chunk@);
            }
            match self.loaded_chunks.index_of(coord) {
                Some(i) => {
                    let entry = self.loaded_chunks.value_mut(i);
                    if from_sky {
                        calculate_skylight_with_cache(&mut entry.chunk, coord, cache);
                    } else {
                        propagate_light_from_cache(&mut entry.chunk, coord, cache);
                    }
                },
                None => {},
            }
            proof {
                assert(self.loaded_chunks@.dom() =~= before.dom());
                assert forall|c: ChunkCoord|
                    #![trigger self.loaded_chunks@[c]]
                    before.contains_key(c) implies self.loaded_chunks@[c].needs_remesh
                    == before[c].needs_remesh && self.loaded_chunks@[c].sky_light
                    == before[c].sky_light && self.loaded_chunks@[c].chunk@ == if batch@.take(
                    k as int + 1,
                ).contains(c) {
                    relit(before[c].chunk@, snapshot, c, from_sky)
                } else {
                    before[c].chunk@
                } by {
                    let now = batch@.take(k as int + 1);
                    let then = batch@.take(k as int);
                    if c == coord {
                        assert(now[k as int] == c);
                    } else {
                        assert(self.loaded_chunks@[c] == prev[c]);
                        if then.contains(c) {
                            let j = choose|j: int| 0 <= j < then.len() && then[j] == c;
                            assert(now[j] == c);
                        }
                        if now.contains(c) {
                            let j = choose|j: int| 0 <= j < now.len() && now[j] == c;
                            assert(then[j] == c);
                        }
                    }
                }
            }
            k += 1;
        }
        proof {
            assert(batch@.take(batch@.len() as int) == batch@);
            assert(world_views(self.loaded_chunks@) =~= lit_pass(
                world_views(before),
                batch@,
                snapshot,
                from_sky,
            ));
        }
    }

    /// Brings the snapshots of the batch chunks up to date.
    fn refresh_cache(&self, batch: &Vec<ChunkCoord>, cache: &mut ChunkCache)
        requires
            forall|k: int|
                0 <= k < batch@.len() ==> self.loaded_chunks@.contains_key(#[trigger] batch@[k]),
        ensures
            chunk_views(final(cache)@) == refreshed(
                chunk_views(old(cache)@),
                world_views(self.loaded_chunks@),
                batch@,
            ),
    {
        let ghost world = self.loaded_chunks@;
        let ghost start = cache@;
        let mut k: usize = 0;
        while k < batch.len()
            invariant
                k <= batch@.len(),
                world == self.loaded_chunks@,
                forall|j: int| 0 <= j < batch@.len() ==> world.contains_key(#[trigger] batch@[j]),
                forall|c: ChunkCoord|
                    #![trigger cache@.contains_key(c)]
                    cache@.contains_key(c) <==> start.contains_key(c) || batch@.take(
                        k as int,
                    ).contains(c),
                forall|c: ChunkCoord|
                    #![trigger cache@[c]]
                    cache@.contains_key(c) ==> cache@[c]@ == if batch@.take(k as int).contains(c) {
                        world[c].chunk@
                    } else {
                        start[c]@
                    },
            decreases batch@.len() - k,
        {
            let coord = batch[k];
            let ghost prev = cache@;
            assert(world.contains_key(batch@[k as int]));
            match self.loaded_chunks.get(coord) {
                Some(entry) => {
                    cache.insert(coord, entry.chunk.snapshot());
                },
                None => {},
            }
            proof {
                let now = batch@.take(k as int + 1);
                let then = batch@.take(k as int);
                assert(now[k as int] == coord);
                assert forall|c: ChunkCoord| now.contains(c) <==> then.contains(c) || c == coord by {
                    if then.contains(c) {
                        let j = choose|j: int| 0 <= j < then.len() && then[j] == c;
                        assert(now[j] == c);
                    }
                    if now.contains(c) {
                        let j = choose|j: int| 0 <= j < now.len() && now[j] == c;
                        if j < k {
                            assert(then[j] == c);
                        }
                    }
                }
            }
            k += 1;
        }
        proof {
            assert(batch@.take(batch@.len() as int) == batch@);
            assert(chunk_views(cache@) =~= refreshed(chunk_views(start), world_views(world), batch@));
        }
    }

    /// Meshes every chunk of the batch against the snapshot in `cache`, and
    /// records it as clean and meshed under the current sky light level.
    fn mesh_batch(
        &mut self,
        batch: &Vec<ChunkCoord>,
        cache: &ChunkCache,
        block_registry: &BlockRegistry,
    ) -> (results: Vec<RemeshedChunk>)
        requires
            batch@.no_duplicates(),
            forall|k: int|
                0 <= k < batch@.len() ==> old(self).loaded_chunks@.contains_key(#[trigger] batch@[k]),
        ensures
            final(self).world_seed == old(self).world_seed,
            final(self).sky_light_level == old(self).sky_light_level,
            final(self).loading_chunks == old(self).loading_chunks,
            same_positions(final(self).loaded_chunks, old(self).loaded_chunks),
            final(self).loaded_chunks@.dom() == old(self).loaded_chunks@.dom(),
            forall|c: ChunkCoord|
                #![trigger final(self).loaded_chunks@[c]]
                old(self).loaded_chunks@.contains_key(c) ==> final(self).loaded_chunks@[c] == if batch@.contains(
                    c,
                ) {
                    LoadedChunk {
                        needs_remesh: false,
                        sky_light: Some(old(self).sky_light_level),
                        ..old(self).loaded_chunks@[c]
                    }
                } else {
                    old(self).loaded_chunks@[c]
                },
            results@.len() == batch@.len(),
            forall|k: int|
                0 <= k < batch@.len() ==> (#[trigger] results@[k]).coord == batch@[k] && is_mesh_of(
                    results@[k].mesh,
                    visible_faces(
                        old(self).loaded_chunks@[batch@[k]].chunk@,
                        block_registry@,
                        dark_model(surroundings_in(chunk_views(cache@), batch@[k])),
                        old(self).sky_light_level,
                    ),
                ),
    {
        let ghost before = self.loaded_chunks@;
        let level = self.sky_light_level;
        let mut results: Vec<RemeshedChunk> = Vec::new();
        let mut k: usize = 0;
        while k < batch.len()
            invariant
                k <= batch@.len(),
                batch@.no_duplicates(),
                before == old(self).loaded_chunks@,
                level == old(self).sky_light_level,
                self.world_seed == old(self).world_seed,
                self.sky_light_level == old(self).sky_light_level,
                self.loading_chunks == old(self).loading_chunks,
                same_positions(self.loaded_chunks, old(self).loaded_chunks),
                self.loaded_chunks@.dom() == before.dom(),
                forall|j: int| 0 <= j < batch@.len() ==> before.contains_key(#[trigger] batch@[j]),
                forall|c: ChunkCoord|
                    #![trigger self.loaded_chunks@[c]]
                    before.contains_key(c) ==> self.loaded_chunks@[c] == if batch@.take(
                        k as int,
                    ).contains(c) {
                        LoadedChunk { needs_remesh: false, sky_light: Some(level), ..before[c] }
                    } else {
                        before[c]
                    },
                results@.len() == k,
                forall|j: int|
                    0 <= j < k ==> (#[trigger] results@[j]).coord == batch@[j] && is_mesh_of(
                        results@[j].mesh,
                        visible_faces(
                            before[batch@[j]].chunk@,
                            block_registry@,
                            dark_model(surroundings_in(chunk_views(cache@), batch@[j])),
                            level,
                        ),
                    ),
            decreases batch@.len() - k,
        {
            let coord = batch[k];
            let ghost prev = self.loaded_chunks@;
            let ghost prev_results = results@;
            assert(before.contains_key(batch@[k as int]));
            proof {
                assert(!batch@.take(k as int).contains(coord)) by {
                    if batch@.take(k as int).contains(coord) {
                        let j = choose|j: int|
                            0 <= j < batch@.take(k as int).len() && batch@.take(k as int)[j]
                                == coord;
                        assert(batch@[j] == batch@[k as int]);
                    }
                }
                assert(prev[coord] == before[coord]);
            }
            let mut mesh: Option<ChunkMesh> = None;
            match self.loaded_chunks.index_of(coord) {
                Some(i) => {
                    let entry = self.loaded_chunks.value_mut(i);
                    mesh = create_chunk_mesh_with_cache(&entry.chunk, block_registry, coord, cache, level);
                    entry.needs_remesh = false;
                    entry.sky_light = Some(level);
                },
                None => {},
            }
            results.push(RemeshedChunk { coord, mesh });
            proof {
                assert(self.loaded_chunks@.dom() =~= before.dom());
                assert forall|c: ChunkCoord|
                    #![trigger self.loaded_chunks@[c]]
                    before.contains_key(c) implies self.loaded_chunks@[c] == if batch@.take(
                    k as int + 1,
                ).contains(c) {
                    LoadedChunk { needs_remesh: false, sky_light: Some(level), ..before[c] }
                } else {
                    before[c]
                } by {
                    let now = batch@.take(k as int + 1);
                    let then = batch@.take(k as int);
                    if c == coord {
                        assert(now[k as int] == c);
                    } else {
                        assert(self.loaded_chunks@[c] == prev[c]);
                        if then.contains(c) {
                            let j = choose|j: int| 0 <= j < then.len() && then[j] == c;
                            assert(now[j] == c);
                        }
                        if now.contains(c) {
                            let j = choose|j: int| 0 <= j < now.len() && now[j] == c;
                            assert(then[j] == c);
                        }
                    }
                }
                assert forall|j: int| 0 <= j < k + 1 implies (#[trigger] results@[j]).coord
                    == batch@[j] && is_mesh_of(
                    results@[j].mesh,
                    visible_faces(
                        before[batch@[j]].chunk@,
                        block_registry@,
                        dark_model(surroundings_in(chunk_views(cache@), batch@[j])),
                        level,
                    ),
                ) by {
                    if j < k {
                        assert(results@[j] == prev_results[j]);
                    }
                }
            }
            k += 1;
        }
        proof {
            assert(batch@.take(batch@.len() as int) == batch@);
        }
        results
    }
}

/// The coordinates of the chunks that a batch gave results for, in order.
pub open spec fn batch_of(results: Seq<RemeshedChunk>) -> Seq<ChunkCoord> {
    Seq::new(results.len(), |k: int| results[k].coord)
}

impl ChunkManager {
    /// The relight-and-remesh step.
    ///
    /// Takes the batch of dirty chunks as seen from `viewpoint`, snapshots
    /// their neighbourhoods, runs
    /// the four light passes over them, and meshes each against the snapshot
    /// and under the current sky light level. The chunks of the batch are then
    /// clean and recorded as meshed under that level. Dirty chunks beyond the
    /// batch stay dirty. The result has one entry for each chunk of the batch,
    /// in the batch's order.
    pub fn remesh_modified_chunks(
        &mut self,
        block_registry: &BlockRegistry,
        viewpoint: ChunkCoord,
    ) -> (results: Vec<RemeshedChunk>)
        ensures
            final(self).world_seed == old(self).world_seed,
            final(self).sky_light_level == old(self).sky_light_level,
            final(self).loading_chunks == old(self).loading_chunks,
            same_positions(final(self).loaded_chunks, old(self).loaded_chunks),
            final(self).loaded_chunks@.dom() == old(self).loaded_chunks@.dom(),
            is_batch(old(self).loaded_chunks@, viewpoint, batch_of(results@)),
            world_views(final(self).loaded_chunks@) == relight_outcome(
                world_views(old(self).loaded_chunks@),
                batch_of(results@),
            ).0,
            forall|c: ChunkCoord|
                #![trigger final(self).loaded_chunks@[c]]
                old(self).loaded_chunks@.contains_key(c) ==> if batch_of(results@).contains(c) {
                    !final(self).loaded_chunks@[c].needs_remesh && final(
                        self).loaded_chunks@[c].sky_light == Some(old(self).sky_light_level)
                } else {
                    final(self).loaded_chunks@[c].needs_remesh == old(
                        self).loaded_chunks@[c].needs_remesh && final(
                        self).loaded_chunks@[c].sky_light == old(self).loaded_chunks@[c].sky_light
                },
            forall|k: int|
                0 <= k < results@.len() ==> is_mesh_of(
                    (#[trigger] results@[k]).mesh,
                    visible_faces(
                        relight_outcome(
                            world_views(old(self).loaded_chunks@),
                            batch_of(results@),
                        ).0[results@[k].coord],
                        block_registry@,
                        dark_model(
                            surroundings_in(
                                relight_outcome(
                                    world_views(old(self).loaded_chunks@),
                                    batch_of(results@),
                                ).1,
                                results@[k].coord,
                            ),
                        ),
                        old(self).sky_light_level,
                    ),
                ),
    {
        let batch = self.select_batch(viewpoint);
        let ghost before = self.loaded_chunks@;
        let ghost w0 = world_views(before);
        let ghost s0 = snapshot_of(w0, batch@);
        let ghost w1 = lit_pass(w0, batch@, s0, true);
        let ghost s1 = refreshed(s0, w1, batch@);
        let ghost w2 = lit_pass(w1, batch@, s1, false);
        let ghost s2 = refreshed(s1, w2, batch@);
        let ghost w3 = lit_pass(w2, batch@, s2, false);
        let ghost s3 = refreshed(s2, w3, batch@);
        let ghost w4 = lit_pass(w3, batch@, s3, false);
        proof {
            lemma_batch_distinct(before, viewpoint, batch@);
            assert(relight_outcome(w0, batch@) == (w4, s3));
        }
        let mut cache = self.build_cache(&batch);
        let mut pass: usize = 0;
        while pass < LIGHT_PROPAGATION_PASSES
            invariant
                pass <= 4,
                batch@.no_duplicates(),
                is_batch(before, viewpoint, batch@),
                before == old(self).loaded_chunks@,
                w0 == world_views(before),
                s0 == snapshot_of(w0, batch@),
                w1 == lit_pass(w0, batch@, s0, true),
                s1 == refreshed(s0, w1, batch@),
                w2 == lit_pass(w1, batch@, s1, false),
                s2 == refreshed(s1, w2, batch@),
                w3 == lit_pass(w2, batch@, s2, false),
                s3 == refreshed(s2, w3, batch@),
                w4 == lit_pass(w3, batch@, s3, false),
                self.world_seed == old(self).world_seed,
                self.sky_light_level == old(self).sky_light_level,
                self.loading_chunks == old(self).loading_chunks,
                same_positions(self.loaded_chunks, old(self).loaded_chunks),
                self.loaded_chunks@.dom() == before.dom(),
                forall|c: ChunkCoord|
                    #![trigger self.loaded_chunks@[c]]
                    before.contains_key(c) ==> self.loaded_chunks@[c].needs_remesh
                        == before[c].needs_remesh && self.loaded_chunks@[c].sky_light
                        == before[c].sky_light,
                pass == 0 ==> world_views(self.loaded_chunks@) == w0 && chunk_views(cache@) == s0,
                pass == 1 ==> world_views(self.loaded_chunks@) == w1 && chunk_views(cache@) == s1,
                pass == 2 ==> world_views(self.loaded_chunks@) == w2 && chunk_views(cache@) == s2,
                pass == 3 ==> world_views(self.loaded_chunks@) == w3 && chunk_views(cache@) == s3,
                pass == 4 ==> world_views(self.loaded_chunks@) == w4 && chunk_views(cache@) == s3,
            decreases 4 - pass,
        {
            proof {
                assert forall|k: int| 0 <= k < batch@.len() implies self.loaded_chunks@.contains_key(
                    #[trigger] batch@[k],
                ) by {
                    assert(before.contains_key(batch@[k]));
                }
            }
            self.light_pass(&batch, &cache, pass == 0);
            if pass + 1 < LIGHT_PROPAGATION_PASSES {
                proof {
                    assert forall|k: int|
                        0 <= k < batch@.len() implies self.loaded_chunks@.contains_key(
                        #[trigger] batch@[k],
                    ) by {
                        assert(before.contains_key(batch@[k]));
                    }
                }
                self.refresh_cache(&batch, &mut cache);
            }
            pass += 1;
        }
        proof {
            assert forall|k: int| 0 <= k < batch@.len() implies self.loaded_chunks@.contains_key(
                #[trigger] batch@[k],
            ) by {
                assert(before.contains_key(batch@[k]));
            }
        }
        let ghost lit = self.loaded_chunks@;
        let results = self.mesh_batch(&batch, &cache, block_registry);
        proof {
            assert(batch_of(results@) =~= batch@);
            assert(world_views(self.loaded_chunks@) =~= w4) by {
                assert forall|c: ChunkCoord| lit.contains_key(c) implies #[trigger] world_views(
                    self.loaded_chunks@,
                )[c] == world_views(lit)[c] by {
                    assert(self.loaded_chunks@[c].chunk == lit[c].chunk);
                }
            }
            assert forall|k: int| 0 <= k < results@.len() implies is_mesh_of(
                (#[trigger] results@[k]).mesh,
                visible_faces(
                    w4[results@[k].coord],
                    block_registry@,
                    dark_model(surroundings_in(s3, results@[k].coord)),
                    old(self).sky_light_level,
                ),
            ) by {
                assert(lit.contains_key(batch@[k]));
                assert(world_views(lit)[batch@[k]] == lit[batch@[k]].chunk@);
            }
            assert forall|c: ChunkCoord|
                #![trigger self.loaded_chunks@[c]]
                before.contains_key(c) implies if batch_of(results@).contains(c) {
                !self.loaded_chunks@[c].needs_remesh && self.loaded_chunks@[c].sky_light == Some(
                    old(self).sky_light_level,
                )
            } else {
                self.loaded_chunks@[c].needs_remesh == before[c].needs_remesh
                    && self.loaded_chunks@[c].sky_light == before[c].sky_light
            } by {
                assert(lit.contains_key(c));
                assert(lit[c].needs_remesh == before[c].needs_remesh);
            }
        }
        results
    }
}

} // verus!
