use vstd::prelude::*;
use crate::blocks::BlockId;
use crate::chunk::{
    cell, in_chunk, Chunk, ChunkView, NeighborLightData, Surroundings, CHUNK_SIZE,
};

verus! {

/// The x coordinate of the voxel with linear index `i`.
pub open spec fn cx(i: int) -> int {
    i % 16
}

/// The y coordinate of the voxel with linear index `i`.
pub open spec fn cy(i: int) -> int {
    i / 256
}

/// The z coordinate of the voxel with linear index `i`.
pub open spec fn cz(i: int) -> int {
    (i / 16) % 16
}

/// The larger of two integers.
pub open spec fn max2(a: int, b: int) -> int {
    if a >= b {
        a
    } else {
        b
    }
}

/// Light of a neighbouring chunk at local coordinates, or 0 when the
/// neighbour is not known.
pub open spec fn neighbor_light(neighbor: Option<ChunkView>, x: int, y: int, z: int) -> int {
    match neighbor {
        Some(n) => n.light_at(x, y, z) as int,
        None => 0,
    }
}

/// Light at coordinates inside a chunk or one step outside one of its faces.
///
/// Inside, it is the chunk's own light. Outside, it is the light of the voxel
/// of the neighbour across that face, and 0 when that neighbour is not known.
pub open spec fn light_seen(light: Seq<u8>, around: Surroundings, x: int, y: int, z: int) -> int {
    if in_chunk(x, y, z) {
        light[cell(x, y, z)] as int
    } else if x < 0 {
        neighbor_light(around.neg_x, 15, y, z)
    } else if x >= 16 {
        neighbor_light(around.pos_x, 0, y, z)
    } else if y < 0 {
        neighbor_light(around.neg_y, x, 15, z)
    } else if y >= 16 {
        neighbor_light(around.pos_y, x, 0, z)
    } else if z < 0 {
        neighbor_light(around.neg_z, x, y, 15)
    } else {
        neighbor_light(around.pos_z, x, y, 0)
    }
}

/// The brightest light among the six voxels that touch voxel `i`.
pub open spec fn max_adjacent(light: Seq<u8>, around: Surroundings, i: int) -> int {
    max2(
        max2(
            max2(
                light_seen(light, around, cx(i) - 1, cy(i), cz(i)),
                light_seen(light, around, cx(i) + 1, cy(i), cz(i)),
            ),
            max2(
                light_seen(light, around, cx(i), cy(i) - 1, cz(i)),
                light_seen(light, around, cx(i), cy(i) + 1, cz(i)),
            ),
        ),
        max2(
            light_seen(light, around, cx(i), cy(i), cz(i) - 1),
            light_seen(light, around, cx(i), cy(i), cz(i) + 1),
        ),
    )
}

/// No air voxel is more than one level darker than its brightest neighbour:
/// a flood-fill step would change nothing.
pub open spec fn stable(light: Seq<u8>, blocks: Seq<BlockId>, around: Surroundings) -> bool {
    forall|i: int|
        0 <= i < 4096 && blocks[i].is_air() ==> #[trigger] max_adjacent(light, around, i)
            <= light[i] + 1
}

/// `a` is at least `b` in every voxel.
pub open spec fn covers(a: Seq<u8>, b: Seq<u8>) -> bool {
    forall|i: int| 0 <= i < 4096 ==> #[trigger] a[i] >= b[i]
}

/// `light` is what flood fill makes of `start`: the darkest stable lighting
/// that is nowhere darker than `start`. Non-air voxels keep their light.
pub open spec fn settled_from(
    light: Seq<u8>,
    start: Seq<u8>,
    blocks: Seq<BlockId>,
    around: Surroundings,
) -> bool {
    &&& light.len() == 4096
    &&& covers(light, start)
    &&& forall|i: int| 0 <= i < 4096 && !blocks[i].is_air() ==> #[trigger] light[i] == start[i]
    &&& stable(light, blocks, around)
    &&& forall|other: Seq<u8>|
        other.len() == 4096 && covers(other, start) && #[trigger] stable(other, blocks, around)
            ==> covers(other, light)
}

/// Flood fill has one result: two lightings settled from the same start are equal.
pub proof fn lemma_settled_unique(
    a: Seq<u8>,
    b: Seq<u8>,
    start: Seq<u8>,
    blocks: Seq<BlockId>,
    around: Surroundings,
)
    requires
        settled_from(a, start, blocks, around),
        settled_from(b, start, blocks, around),
    ensures
        a == b,
{
    assert(covers(a, b));
    assert(covers(b, a));
    assert(a =~= b);
}

/// The lighting that flood fill reaches from `start`.
pub open spec fn flood_filled(start: Seq<u8>, blocks: Seq<BlockId>, around: Surroundings) -> Seq<
    u8,
> {
    choose|light: Seq<u8>| settled_from(light, start, blocks, around)
}

/// Coordinates inside a chunk or one step outside exactly one of its faces.
pub open spec fn near_chunk(x: int, y: int, z: int) -> bool {
    &&& -1 <= x <= 16
    &&& -1 <= y <= 16
    &&& -1 <= z <= 16
    &&& (0 <= x < 16 && 0 <= y < 16) || (0 <= x < 16 && 0 <= z < 16) || (0 <= y < 16 && 0 <= z
        < 16)
}

/// What flood fill keeps true of the light while it works from `start`: the
/// light never falls below `start`, non-air voxels keep theirs, and no stable
/// lighting above `start` is darker anywhere.
spec fn within_reach(
    light: Seq<u8>,
    start: Seq<u8>,
    blocks: Seq<BlockId>,
    around: Surroundings,
) -> bool {
    &&& covers(light, start)
    &&& forall|i: int| 0 <= i < 4096 && !blocks[i].is_air() ==> #[trigger] light[i] == start[i]
    &&& forall|other: Seq<u8>|
        other.len() == 4096 && covers(other, start) && #[trigger] stable(other, blocks, around)
            ==> covers(other, light)
}

/// Every air voxel that a step could still raise has no neighbour brighter than `bound`.
spec fn bounded(light: Seq<u8>, blocks: Seq<BlockId>, around: Surroundings, bound: int) -> bool {
    forall|i: int|
        0 <= i < 4096 && blocks[i].is_air() ==> #[trigger] max_adjacent(light, around, i) <= max2(
            light[i] + 1,
            bound,
        )
}

/// Whether voxel `j` has been passed after `k` steps of a sweep.
spec fn visited(j: int, k: int, backward: bool) -> bool {
    if backward {
        j >= 4096 - k
    } else {
        j < k
    }
}

proof fn lemma_cell_of_index(i: int)
    requires
        0 <= i < 4096,
    ensures
        in_chunk(cx(i), cy(i), cz(i)),
        cell(cx(i), cy(i), cz(i)) == i,
{
}

proof fn lemma_index_of_cell(x: int, y: int, z: int)
    requires
        in_chunk(x, y, z),
    ensures
        0 <= cell(x, y, z) < 4096,
        cx(cell(x, y, z)) == x,
        cy(cell(x, y, z)) == y,
        cz(cell(x, y, z)) == z,
{
}

proof fn lemma_light_seen_bound(light: Seq<u8>, around: Surroundings, x: int, y: int, z: int)
    requires
        light.len() == 4096,
        forall|i: int| 0 <= i < 4096 ==> #[trigger] light[i] <= 15,
        around.wf(),
    ensures
        0 <= light_seen(light, around, x, y, z) <= 15,
{
}

proof fn lemma_max_adjacent_bound(light: Seq<u8>, around: Surroundings, i: int)
    requires
        light.len() == 4096,
        forall|j: int| 0 <= j < 4096 ==> #[trigger] light[j] <= 15,
        around.wf(),
    ensures
        0 <= max_adjacent(light, around, i) <= 15,
{
    lemma_light_seen_bound(light, around, cx(i) - 1, cy(i), cz(i));
    lemma_light_seen_bound(light, around, cx(i) + 1, cy(i), cz(i));
    lemma_light_seen_bound(light, around, cx(i), cy(i) - 1, cz(i));
    lemma_light_seen_bound(light, around, cx(i), cy(i) + 1, cz(i));
    lemma_light_seen_bound(light, around, cx(i), cy(i), cz(i) - 1);
    lemma_light_seen_bound(light, around, cx(i), cy(i), cz(i) + 1);
}

proof fn lemma_light_seen_update(
    light: Seq<u8>,
    around: Surroundings,
    i: int,
    p: u8,
    x: int,
    y: int,
    z: int,
)
    requires
        light.len() == 4096,
        0 <= i < 4096,
    ensures
        light_seen(light.update(i, p), around, x, y, z) == if in_chunk(x, y, z) && cell(x, y, z)
            == i {
            p as int
        } else {
            light_seen(light, around, x, y, z)
        },
{
}

/// Writing `p` into voxel `i` shows in the neighbourhood of a voxel `j` at most as `p`.
proof fn lemma_max_adjacent_update(light: Seq<u8>, around: Surroundings, i: int, p: u8, j: int)
    requires
        light.len() == 4096,
        0 <= i < 4096,
        0 <= j < 4096,
    ensures
        max_adjacent(light.update(i, p), around, j) <= max2(max_adjacent(light, around, j), p as int),
        j == i ==> max_adjacent(light.update(i, p), around, j) == max_adjacent(light, around, j),
{
    lemma_cell_of_index(j);
    lemma_light_seen_update(light, around, i, p, cx(j) - 1, cy(j), cz(j));
    lemma_light_seen_update(light, around, i, p, cx(j) + 1, cy(j), cz(j));
    lemma_light_seen_update(light, around, i, p, cx(j), cy(j) - 1, cz(j));
    lemma_light_seen_update(light, around, i, p, cx(j), cy(j) + 1, cz(j));
    lemma_light_seen_update(light, around, i, p, cx(j), cy(j), cz(j) - 1);
    lemma_light_seen_update(light, around, i, p, cx(j), cy(j), cz(j) + 1);
}

proof fn lemma_light_seen_monotone(
    a: Seq<u8>,
    b: Seq<u8>,
    around: Surroundings,
    x: int,
    y: int,
    z: int,
)
    requires
        a.len() == 4096,
        b.len() == 4096,
        covers(a, b),
    ensures
        light_seen(a, around, x, y, z) >= light_seen(b, around, x, y, z),
{
    if in_chunk(x, y, z) {
        assert(a[cell(x, y, z)] >= b[cell(x, y, z)]);
    }
}

/// A lighting that is nowhere darker shows no darker neighbourhood.
proof fn lemma_max_adjacent_monotone(a: Seq<u8>, b: Seq<u8>, around: Surroundings, j: int)
    requires
        a.len() == 4096,
        b.len() == 4096,
        covers(a, b),
    ensures
        max_adjacent(a, around, j) >= max_adjacent(b, around, j),
{
    lemma_light_seen_monotone(a, b, around, cx(j) - 1, cy(j), cz(j));
    lemma_light_seen_monotone(a, b, around, cx(j) + 1, cy(j), cz(j));
    lemma_light_seen_monotone(a, b, around, cx(j), cy(j) - 1, cz(j));
    lemma_light_seen_monotone(a, b, around, cx(j), cy(j) + 1, cz(j));
    lemma_light_seen_monotone(a, b, around, cx(j), cy(j), cz(j) - 1);
    lemma_light_seen_monotone(a, b, around, cx(j), cy(j), cz(j) + 1);
}

impl Chunk {
    /// Light at coordinates inside the chunk or one step outside one face,
    /// where the neighbour across that face answers, or 0 without one.
    fn get_light_or_neighbor(&self, x: i32, y: i32, z: i32, neighbors: &NeighborLightData) -> (level:
        u8)
        requires
            near_chunk(x as int, y as int, z as int),
        ensures
            level == light_seen(self@.light, neighbors@, x as int, y as int, z as int),
            level <= 15,
    {
        if x >= 0 && x < 16 && y >= 0 && y < 16 && z >= 0 && z < 16 {
            return self.get_light(x as usize, y as usize, z as usize);
        }
        if x < 0 {
            if let Some(neighbor) = neighbors.neg_x {
                return neighbor.get_light(15, y as usize, z as usize);
            }
        } else if x >= 16 {
            if let Some(neighbor) = neighbors.pos_x {
                return neighbor.get_light(0, y as usize, z as usize);
            }
        } else if y < 0 {
            if let Some(neighbor) = neighbors.neg_y {
                return neighbor.get_light(x as usize, 15, z as usize);
            }
        } else if y >= 16 {
            if let Some(neighbor) = neighbors.pos_y {
                return neighbor.get_light(x as usize, 0, z as usize);
            }
        } else if z < 0 {
            if let Some(neighbor) = neighbors.neg_z {
                return neighbor.get_light(x as usize, y as usize, 15);
            }
        } else {
            if let Some(neighbor) = neighbors.pos_z {
                return neighbor.get_light(x as usize, y as usize, 0);
            }
        }
        0
    }

    /// One flood-fill step on the voxel at `(x, y, z)`: raises its light to one
    /// less than its brightest neighbour's, if that is brighter than it is.
    fn propagate_light_from_neighbors_ext(
        &mut self,
        x: usize,
        y: usize,
        z: usize,
        neighbors: &NeighborLightData,
    ) -> (changed: bool)
        requires
            in_chunk(x as int, y as int, z as int),
        ensures
            changed == (max_adjacent(old(self)@.light, neighbors@, cell(x as int, y as int, z as int))
                - 1 > old(self)@.light[cell(x as int, y as int, z as int)]),
            changed ==> final(self)@ == (ChunkView {
                light: old(self)@.light.update(
                    cell(x as int, y as int, z as int),
                    (max_adjacent(old(self)@.light, neighbors@, cell(x as int, y as int, z as int))
                        - 1) as u8,
                ),
                ..old(self)@
            }),
            !changed ==> final(self)@ == old(self)@,
    {
        proof {
            lemma_index_of_cell(x as int, y as int, z as int);
        }
        let current_light: u8 = self.get_light(x, y, z);
        let xi: i32 = x as i32;
        let yi: i32 = y as i32;
        let zi: i32 = z as i32;
        let mut max_neighbor_light: u8 = self.get_light_or_neighbor(xi - 1, yi, zi, neighbors);
        let east: u8 = self.get_light_or_neighbor(xi + 1, yi, zi, neighbors);
        if east > max_neighbor_light {
            max_neighbor_light = east;
        }
        let below: u8 = self.get_light_or_neighbor(xi, yi - 1, zi, neighbors);
        if below > max_neighbor_light {
            max_neighbor_light = below;
        }
        let above: u8 = self.get_light_or_neighbor(xi, yi + 1, zi, neighbors);
        if above > max_neighbor_light {
            max_neighbor_light = above;
        }
        let north: u8 = self.get_light_or_neighbor(xi, yi, zi - 1, neighbors);
        if north > max_neighbor_light {
            max_neighbor_light = north;
        }
        let south: u8 = self.get_light_or_neighbor(xi, yi, zi + 1, neighbors);
        if south > max_neighbor_light {
            max_neighbor_light = south;
        }
        assert(max_neighbor_light == max_adjacent(
            self@.light,
            neighbors@,
            cell(x as int, y as int, z as int),
        ));
        let propagated: u8 = if max_neighbor_light > 0 {
            max_neighbor_light - 1
        } else {
            0
        };
        if propagated > current_light {
            self.set_light(x, y, z, propagated);
            return true;
        }
        false
    }
}

impl Chunk {
    /// One pass of flood-fill steps over every air voxel, in ascending order of
    /// linear index, or in descending order when `backward`.
    fn sweep(
        &mut self,
        neighbors: &NeighborLightData,
        backward: bool,
        Ghost(start): Ghost<Seq<u8>>,
        Ghost(bound): Ghost<int>,
    ) -> (changed: bool)
        requires
            start.len() == 4096,
            within_reach(old(self)@.light, start, old(self)@.blocks, neighbors@),
            bounded(old(self)@.light, old(self)@.blocks, neighbors@, bound),
        ensures
            final(self)@.coord == old(self)@.coord,
            final(self)@.blocks == old(self)@.blocks,
            covers(final(self)@.light, old(self)@.light),
            within_reach(final(self)@.light, start, old(self)@.blocks, neighbors@),
            bounded(final(self)@.light, old(self)@.blocks, neighbors@, bound - 1),
            !changed ==> final(self)@.light == old(self)@.light && stable(
                final(self)@.light,
                old(self)@.blocks,
                neighbors@,
            ),
    {
        neighbors.check_wf();
        proof {
            use_type_invariant(&*self);
        }
        let ghost before = self@;
        let ghost around = neighbors@;
        let mut changed = false;
        let mut k: usize = 0;
        while k < 4096
            invariant
                k <= 4096,
                around == neighbors@,
                around.wf(),
                start.len() == 4096,
                before.wf(),
                self@.wf(),
                self@.coord == before.coord,
                self@.blocks == before.blocks,
                covers(self@.light, before.light),
                within_reach(self@.light, start, before.blocks, around),
                forall|j: int|
                    0 <= j < 4096 && before.blocks[j].is_air() && visited(j, k as int, backward)
                        ==> #[trigger] max_adjacent(self@.light, around, j) <= max2(
                        self@.light[j] + 1,
                        bound - 1,
                    ),
                forall|j: int|
                    0 <= j < 4096 && before.blocks[j].is_air() && !visited(j, k as int, backward)
                        ==> #[trigger] max_adjacent(self@.light, around, j) <= max2(
                        self@.light[j] + 1,
                        bound,
                    ),
                !changed ==> self@.light == before.light,
                !changed ==> forall|j: int|
                    0 <= j < 4096 && before.blocks[j].is_air() && visited(j, k as int, backward)
                        ==> #[trigger] max_adjacent(self@.light, around, j) <= self@.light[j] + 1,
            decreases 4096 - k,
        {
            let i: usize = if backward {
                4095 - k
            } else {
                k
            };
            let x: usize = i % 16;
            let z: usize = (i / 16) % 16;
            let y: usize = i / 256;
            proof {
                lemma_cell_of_index(i as int);
                use_type_invariant(&*self);
            }
            let ghost prev = self@.light;
            if self.get_block(x, y, z).is_air() {
                let raised = self.propagate_light_from_neighbors_ext(x, y, z, neighbors);
                proof {
                    use_type_invariant(&*self);
                    let m = max_adjacent(prev, around, i as int);
                    if raised {
                        let p = (m - 1) as u8;
                        lemma_max_adjacent_bound(prev, around, i as int);
                        assert(self@.light == prev.update(i as int, p));
                        assert(m <= bound);
                        assert forall|j: int| 0 <= j < 4096 implies #[trigger] max_adjacent(
                            self@.light,
                            around,
                            j,
                        ) <= max2(max_adjacent(prev, around, j), p as int) && (j == i
                            ==> max_adjacent(self@.light, around, j) == m) by {
                            lemma_max_adjacent_update(prev, around, i as int, p, j);
                        }
                        assert forall|other: Seq<u8>|
                            other.len() == 4096 && covers(other, start) && #[trigger] stable(
                                other,
                                before.blocks,
                                around,
                            ) implies covers(other, self@.light) by {
                            assert(covers(other, prev));
                            lemma_max_adjacent_monotone(other, prev, around, i as int);
                            assert(max_adjacent(other, around, i as int) <= other[i as int] + 1);
                        }
                        assert(covers(self@.light, start)) by {
                            assert forall|j: int| 0 <= j < 4096 implies #[trigger] self@.light[j]
                                >= start[j] by {
                                assert(prev[j] >= start[j]);
                            }
                        }
                        assert(covers(self@.light, before.light)) by {
                            assert forall|j: int| 0 <= j < 4096 implies #[trigger] self@.light[j]
                                >= before.light[j] by {
                                assert(prev[j] >= before.light[j]);
                            }
                        }
                    }
                }
                if raised {
                    changed = true;
                }
            }
            k += 1;
        }
        proof {
            assert forall|j: int| 0 <= j < 4096 implies visited(j, 4096, backward) by {}
            if !changed {
                assert(stable(self@.light, before.blocks, around));
            }
        }
        changed
    }

    /// Flood-fill propagation: spreads the light that is stored in the chunk,
    /// and the light on the touching faces of the neighbours, through the air
    /// voxels, one level darker per step, until nothing changes.
    ///
    /// Block data and non-air voxels' light stay as they are. No light level
    /// falls. The result is the darkest stable lighting that is nowhere darker
    /// than the light the chunk started with.
    pub fn propagate_light(&mut self, neighbors: &NeighborLightData)
        ensures
            final(self)@.coord == old(self)@.coord,
            final(self)@.blocks == old(self)@.blocks,
            settled_from(final(self)@.light, old(self)@.light, old(self)@.blocks, neighbors@),
            final(self)@.light == flood_filled(old(self)@.light, old(self)@.blocks, neighbors@),
    {
        neighbors.check_wf();
        proof {
            use_type_invariant(&*self);
        }
        let ghost before = self@;
        let ghost around = neighbors@;
        proof {
            assert forall|i: int|
                0 <= i < 4096 && before.blocks[i].is_air() implies #[trigger] max_adjacent(
                before.light,
                around,
                i,
            ) <= max2(before.light[i] + 1, 15) by {
                lemma_max_adjacent_bound(before.light, around, i);
            }
        }
        let mut iteration: usize = 0;
        let mut done = false;
        while iteration < 2 * CHUNK_SIZE && !done
            invariant
                iteration <= 32,
                around == neighbors@,
                before.wf(),
                self@.wf(),
                self@.coord == before.coord,
                self@.blocks == before.blocks,
                within_reach(self@.light, before.light, before.blocks, around),
                bounded(self@.light, before.blocks, around, 15 - 2 * iteration),
                done ==> stable(self@.light, before.blocks, around),
            decreases 32 - iteration,
        {
            let forward_change = self.sweep(
                neighbors,
                false,
                Ghost(before.light),
                Ghost(15 - 2 * iteration),
            );
            let backward_change = self.sweep(
                neighbors,
                true,
                Ghost(before.light),
                Ghost(15 - 2 * iteration - 1),
            );
            proof {
                use_type_invariant(&*self);
            }
            if !forward_change && !backward_change {
                done = true;
            }
            iteration += 1;
        }
        proof {
            if !done {
                assert forall|i: int|
                    0 <= i < 4096 && before.blocks[i].is_air() implies #[trigger] max_adjacent(
                    self@.light,
                    around,
                    i,
                ) <= self@.light[i] + 1 by {}
            }
            assert(settled_from(self@.light, before.light, before.blocks, around));
            lemma_settled_unique(
                self@.light,
                flood_filled(before.light, before.blocks, around),
                before.light,
                before.blocks,
                around,
            );
        }
    }
}

/// Every voxel of the column `(x, z)` from height `y` up to the chunk's top is air.
pub open spec fn clear_from(blocks: Seq<BlockId>, x: int, z: int, y: int) -> bool {
    forall|h: int| y <= h < 16 ==> #[trigger] blocks[cell(x, h, z)].is_air()
}

/// Direct sky light of voxel `i`: 15 for an air voxel with nothing but air
/// above it in a column that is not shadowed from above the chunk, else 0.
pub open spec fn direct_light(blocks: Seq<BlockId>, shadowed: bool, i: int) -> u8 {
    if blocks[i].is_air() && !shadowed && clear_from(blocks, cx(i), cz(i), cy(i) + 1) {
        15
    } else {
        0
    }
}

/// Direct sky light of a whole chunk, where `shadowed[x + 16 * z]` says
/// whether the column `(x, z)` is shadowed from above the chunk.
pub open spec fn sky_seeded(blocks: Seq<BlockId>, shadowed: Seq<bool>) -> Seq<u8> {
    Seq::new(4096, |i: int| direct_light(blocks, shadowed[i % 256], i))
}

/// The column `(x, z)` of a chunk holds nothing but air.
pub open spec fn column_clear(chunk: ChunkView, x: int, z: int) -> bool {
    forall|h: int| 0 <= h < 16 ==> (#[trigger] chunk.block_at(x, h, z)).is_air()
}

/// Whether the chunk above, if known, shadows the column `(x, z)`: it holds
/// a block that is not air somewhere in that column.
pub open spec fn covered_by_neighbor(around: Surroundings, x: int, z: int) -> bool {
    match around.pos_y {
        Some(above) => !column_clear(above, x, z),
        None => false,
    }
}

/// The shadow that the chunk above casts on each column.
pub open spec fn neighbor_shadows(around: Surroundings) -> Seq<bool> {
    Seq::new(256, |k: int| covered_by_neighbor(around, k % 16, k / 16))
}

/// Whether the column `(x, z)` of a chunk holds nothing but air.
pub fn column_is_clear(chunk: &Chunk, x: usize, z: usize) -> (clear: bool)
    ensures
        clear == column_clear(chunk@, x as int, z as int),
{
    let mut y: usize = 0;
    while y < 16
        invariant
            y <= 16,
            forall|h: int| 0 <= h < y ==> (#[trigger] chunk@.block_at(x as int, h, z as int)).is_air(),
        decreases 16 - y,
    {
        if !chunk.get_block(x, y, z).is_air() {
            return false;
        }
        y += 1;
    }
    true
}

impl Chunk {
    /// Direct sky light for one column, from the top down: air gets 15 until
    /// the first non-air voxel, or 0 throughout if the column is in shadow;
    /// non-air voxels and all below them get 0.
    pub(crate) fn seed_column(&mut self, x: usize, z: usize, in_shadow: bool)
        requires
            x < 16,
            z < 16,
        ensures
            final(self)@.coord == old(self)@.coord,
            final(self)@.blocks == old(self)@.blocks,
            final(self)@.light.len() == 4096,
            forall|i: int|
                0 <= i < 4096 ==> #[trigger] final(self)@.light[i] == if i % 256 == x + 16 * z {
                    direct_light(old(self)@.blocks, in_shadow, i)
                } else {
                    old(self)@.light[i]
                },
    {
        proof {
            use_type_invariant(&*self);
        }
        let ghost before = self@;
        let mut column_shadow = in_shadow;
        let mut y: usize = 16;
        while y > 0
            invariant
                y <= 16,
                x < 16,
                z < 16,
                before.wf(),
                self@.wf(),
                self@.coord == before.coord,
                self@.blocks == before.blocks,
                column_shadow == (in_shadow || !clear_from(before.blocks, x as int, z as int, y as int)),
                forall|i: int|
                    0 <= i < 4096 ==> #[trigger] self@.light[i] == if i % 256 == x + 16 * z && i
                        / 256 >= y {
                        direct_light(before.blocks, in_shadow, i)
                    } else {
                        before.light[i]
                    },
            decreases y,
        {
            y -= 1;
            let ghost prev = self@.light;
            let ghost c = cell(x as int, y as int, z as int);
            proof {
                lemma_index_of_cell(x as int, y as int, z as int);
                assert(clear_from(before.blocks, x as int, z as int, y as int) <==> (
                before.blocks[c].is_air() && clear_from(
                    before.blocks,
                    x as int,
                    z as int,
                    y as int + 1,
                ))) by {
                    if before.blocks[c].is_air() && clear_from(
                        before.blocks,
                        x as int,
                        z as int,
                        y as int + 1,
                    ) {
                        assert forall|h: int| y <= h < 16 implies #[trigger] before.blocks[cell(
                            x as int,
                            h,
                            z as int,
                        )].is_air() by {
                            if h == y {
                            } else {
                                assert(y + 1 <= h);
                            }
                        }
                    }
                    if clear_from(before.blocks, x as int, z as int, y as int) {
                        assert(before.blocks[cell(x as int, y as int, z as int)].is_air());
                    }
                }
            }
            let block = self.get_block(x, y, z);
            if block.is_air() {
                if !column_shadow {
                    self.set_light(x, y, z, 15);
                } else {
                    self.set_light(x, y, z, 0);
                }
            } else {
                self.set_light(x, y, z, 0);
                column_shadow = true;
            }
            proof {
                use_type_invariant(&*self);
                assert(self@.light[c] == direct_light(before.blocks, in_shadow, c));
                assert forall|i: int| 0 <= i < 4096 implies #[trigger] self@.light[i] == if i % 256
                    == x + 16 * z && i / 256 >= y {
                    direct_light(before.blocks, in_shadow, i)
                } else {
                    before.light[i]
                } by {
                    lemma_cell_of_index(i);
                    if i == c {
                    } else {
                        assert(self@.light[i] == prev[i]);
                    }
                }
            }
        }
    }

    /// Sky light for a freshly filled chunk that stands alone: direct light
    /// from an open sky, then flood fill with no neighbour to draw on.
    pub fn calculate_skylight(&mut self)
        ensures
            final(self)@.coord == old(self)@.coord,
            final(self)@.blocks == old(self)@.blocks,
            settled_from(
                final(self)@.light,
                sky_seeded(old(self)@.blocks, neighbor_shadows(Surroundings::none())),
                old(self)@.blocks,
                Surroundings::none(),
            ),
            forall|i: int|
                0 <= i < 4096 && !old(self)@.blocks[i].is_air() ==> #[trigger] final(self)@.light[i]
                    == 0,
    {
        let neighbors = NeighborLightData::none();
        self.calculate_skylight_with_neighbors(&neighbors);
    }

    /// Sky light for a chunk with the neighbours that are at hand.
    ///
    /// First every column gets its direct light: the column is in shadow when
    /// the chunk above is known and holds a block that is not air in that
    /// column. Then flood fill spreads that light, and the light on the
    /// neighbours' touching faces, through the air.
    pub fn calculate_skylight_with_neighbors(&mut self, neighbors: &NeighborLightData)
        ensures
            final(self)@.coord == old(self)@.coord,
            final(self)@.blocks == old(self)@.blocks,
            settled_from(
                final(self)@.light,
                sky_seeded(old(self)@.blocks, neighbor_shadows(neighbors@)),
                old(self)@.blocks,
                neighbors@,
            ),
            final(self)@.light == flood_filled(
                sky_seeded(old(self)@.blocks, neighbor_shadows(neighbors@)),
                old(self)@.blocks,
                neighbors@,
            ),
            forall|i: int|
                0 <= i < 4096 && !old(self)@.blocks[i].is_air() ==> #[trigger] final(self)@.light[i]
                    == 0,
    {
        proof {
            use_type_invariant(&*self);
        }
        let ghost before = self@;
        let ghost shadows = neighbor_shadows(neighbors@);
        let mut k: usize = 0;
        while k < 256
            invariant
                k <= 256,
                shadows == neighbor_shadows(neighbors@),
                before.wf(),
                self@.wf(),
                self@.coord == before.coord,
                self@.blocks == before.blocks,
                forall|i: int|
                    0 <= i < 4096 ==> #[trigger] self@.light[i] == if i % 256 < k {
                        direct_light(before.blocks, shadows[i % 256], i)
                    } else {
                        before.light[i]
                    },
            decreases 256 - k,
        {
            let x: usize = k % 16;
            let z: usize = k / 16;
            let in_shadow = match neighbors.pos_y {
                Some(above_chunk) => !column_is_clear(above_chunk, x, z),
                None => false,
            };
            assert(in_shadow == shadows[k as int]);
            self.seed_column(x, z, in_shadow);
            proof {
                use_type_invariant(&*self);
            }
            k += 1;
        }
        assert(self@.light =~= sky_seeded(before.blocks, shadows));
        self.propagate_light(neighbors);
    }
}

/// Under an open sky a chunk of nothing but air is fully lit.
pub proof fn lemma_open_air_fully_lit(light: Seq<u8>, blocks: Seq<BlockId>, around: Surroundings)
    requires
        blocks.len() == 4096,
        forall|i: int| 0 <= i < 4096 ==> (#[trigger] blocks[i]).is_air(),
        around.pos_y is None,
        forall|i: int| 0 <= i < 4096 ==> #[trigger] light[i] <= 15,
        settled_from(light, sky_seeded(blocks, neighbor_shadows(around)), blocks, around),
    ensures
        forall|i: int| 0 <= i < 4096 ==> #[trigger] light[i] == 15,
{
    let seed = sky_seeded(blocks, neighbor_shadows(around));
    assert forall|i: int| 0 <= i < 4096 implies #[trigger] light[i] == 15 by {
        lemma_cell_of_index(i);
        assert(clear_from(blocks, cx(i), cz(i), cy(i) + 1)) by {
            assert forall|h: int| cy(i) + 1 <= h < 16 implies #[trigger] blocks[cell(
                cx(i),
                h,
                cz(i),
            )].is_air() by {
                lemma_index_of_cell(cx(i), h, cz(i));
            }
        }
        assert(seed[i] == 15);
        assert(light[i] >= seed[i]);
    }
}

/// Flood fill changes nothing where nothing is left to spread: from a stable
/// lighting it gives that lighting back.
pub proof fn lemma_flood_fill_idempotent(
    light: Seq<u8>,
    start: Seq<u8>,
    blocks: Seq<BlockId>,
    around: Surroundings,
)
    requires
        start.len() == 4096,
        stable(start, blocks, around),
        settled_from(light, start, blocks, around),
    ensures
        light == start,
{
    assert(covers(start, start));
    assert(covers(start, light));
    assert(light =~= start);
}

/// Flood fill never darkens a voxel, and what it gives is stable, so that a
/// further pass over its result gives the same lighting again.
pub proof fn lemma_flood_fill_monotone_and_convergent(
    first: Seq<u8>,
    second: Seq<u8>,
    start: Seq<u8>,
    blocks: Seq<BlockId>,
    around: Surroundings,
)
    requires
        settled_from(first, start, blocks, around),
        settled_from(second, first, blocks, around),
    ensures
        covers(first, start),
        second == first,
{
    lemma_flood_fill_idempotent(second, first, blocks, around);
}

/// Flood fill leaves the light of blocks that are not air alone: where none
/// of them held light, none holds light afterwards.
pub proof fn lemma_flood_fill_keeps_blocks_dark(
    light: Seq<u8>,
    start: Seq<u8>,
    blocks: Seq<BlockId>,
    around: Surroundings,
)
    requires
        settled_from(light, start, blocks, around),
        forall|i: int| 0 <= i < 4096 && !blocks[i].is_air() ==> #[trigger] start[i] == 0,
    ensures
        forall|i: int| 0 <= i < 4096 && !blocks[i].is_air() ==> #[trigger] light[i] == 0,
{
}

/// Direct sky light is 0 or 15, and 0 in every block that is not air.
pub proof fn lemma_sky_seeded_range(blocks: Seq<BlockId>, shadowed: Seq<bool>)
    ensures
        sky_seeded(blocks, shadowed).len() == 4096,
        forall|i: int|
            0 <= i < 4096 ==> (#[trigger] sky_seeded(blocks, shadowed)[i] == 0 || sky_seeded(
                blocks,
                shadowed,
            )[i] == 15),
        forall|i: int|
            0 <= i < 4096 && !blocks[i].is_air() ==> #[trigger] sky_seeded(blocks, shadowed)[i] == 0,
{
}

} // verus!
