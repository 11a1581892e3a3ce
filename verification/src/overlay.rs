use vstd::prelude::*;
use crate::chunk::{Chunk, ChunkView};
use crate::light::{cx, cy, cz};

verus! {

/// Light level below which a surface counts as dark.
pub const MOB_SPAWN_THRESHOLD: u8 = 7;

/// How a surface is marked by the light above it.
#[derive(Debug, Clone, Copy, PartialEq, Eq, Structural)]
pub enum LightMarker {
    /// Dark now: the light is below the threshold.
    Red,
    /// Lit, but not surely by the open sky: it may be dark at night.
    Yellow,
}

/// A marked surface: the block that is stood on, in local coordinates.
#[derive(Debug, Clone, Copy, PartialEq, Eq, Structural)]
pub struct SurfaceMarker {
    pub x: u8,
    pub y: u8,
    pub z: u8,
    pub marker: LightMarker,
}

/// Every voxel of the column `(x, z)` above height `y`, up to the chunk's
/// top, is air.
pub open spec fn open_above(chunk: ChunkView, x: int, y: int, z: int) -> bool {
    forall|h: int| y < h < 16 ==> (#[trigger] chunk.block_at(x, h, z)).is_air()
}

/// The marker of the voxel with linear index `i`, if it has one.
///
/// A voxel is a surface when it is not air and the voxel above it, in the
/// same chunk, is air. The light of that voxel decides: below the threshold
/// the surface is red; at full light it is unmarked if the sky above is open
/// within the chunk, else yellow; at any light between it is yellow.
pub open spec fn surface_marker(chunk: ChunkView, i: int) -> Option<LightMarker> {
    let (x, y, z) = (cx(i), cy(i), cz(i));
    if chunk.block_at(x, y, z).is_air() || y + 1 >= 16 || !chunk.block_at(x, y + 1, z).is_air() {
        None
    } else if chunk.light_at(x, y + 1, z) < 7 {
        Some(LightMarker::Red)
    } else if chunk.light_at(x, y + 1, z) == 15 && open_above(chunk, x, y + 1, z) {
        None
    } else {
        Some(LightMarker::Yellow)
    }
}

/// The marked surfaces among the first `n` voxels, in ascending linear index.
pub open spec fn markers_upto(chunk: ChunkView, n: int) -> Seq<SurfaceMarker>
    decreases n,
{
    if n <= 0 {
        Seq::empty()
    } else {
        let rest = markers_upto(chunk, n - 1);
        match surface_marker(chunk, n - 1) {
            Some(marker) => rest.push(
                SurfaceMarker {
                    x: cx(n - 1) as u8,
                    y: cy(n - 1) as u8,
                    z: cz(n - 1) as u8,
                    marker,
                },
            ),
            None => rest,
        }
    }
}

proof fn lemma_markers_step(chunk: ChunkView, i: int)
    requires
        0 <= i,
    ensures
        markers_upto(chunk, i + 1) == match surface_marker(chunk, i) {
            Some(marker) => markers_upto(chunk, i).push(
                SurfaceMarker { x: cx(i) as u8, y: cy(i) as u8, z: cz(i) as u8, marker },
            ),
            None => markers_upto(chunk, i),
        },
{
}

/// Whether nothing but air lies above the voxel `(x, y, z)` within the chunk.
pub fn has_direct_sky_access_in_chunk(chunk: &Chunk, x: usize, y: usize, z: usize) -> (open: bool)
    ensures
        open == open_above(chunk@, x as int, y as int, z as int),
{
    if y >= 15 {
        return true;
    }
    let mut check_y: usize = y + 1;
    while check_y < 16
        invariant
            y < check_y <= 16,
            forall|h: int|
                y < h < check_y ==> (#[trigger] chunk@.block_at(x as int, h, z as int)).is_air(),
        decreases 16 - check_y,
    {
        if !chunk.get_block(x, check_y, z).is_air() {
            return false;
        }
        check_y += 1;
    }
    true
}

fn marker_at(chunk: &Chunk, x: usize, y: usize, z: usize) -> (marker: Option<LightMarker>)
    requires
        x < 16,
        y < 16,
        z < 16,
    ensures
        marker == surface_marker(chunk@, crate::chunk::cell(x as int, y as int, z as int)),
{
    if chunk.get_block(x, y, z).is_air() {
        return None;
    }
    let above_y = y + 1;
    if above_y >= 16 {
        return None;
    }
    if !chunk.get_block(x, above_y, z).is_air() {
        return None;
    }
    let light = chunk.get_light(x, above_y, z);
    if light < MOB_SPAWN_THRESHOLD {
        Some(LightMarker::Red)
    } else if light == 15 {
        if has_direct_sky_access_in_chunk(chunk, x, above_y, z) {
            None
        } else {
            Some(LightMarker::Yellow)
        }
    } else {
        Some(LightMarker::Yellow)
    }
}

/// The surfaces of a chunk on which the light is low or may fall low at
/// night, in ascending linear index of their blocks.
pub fn collect_low_light_positions(chunk: &Chunk) -> (markers: Vec<SurfaceMarker>)
    ensures
        markers@ == markers_upto(chunk@, 4096),
{
    let mut markers: Vec<SurfaceMarker> = Vec::new();
    let mut i: usize = 0;
    while i < 4096
        invariant
            i <= 4096,
            markers@ == markers_upto(chunk@, i as int),
        decreases 4096 - i,
    {
        let x: usize = i % 16;
        let z: usize = (i / 16) % 16;
        let y: usize = i / 256;
        assert(crate::chunk::cell(x as int, y as int, z as int) == i);
        let found = marker_at(chunk, x, y, z);
        proof {
            lemma_markers_step(chunk@, i as int);
        }
        match found {
            Some(marker) => {
                markers.push(SurfaceMarker { x: x as u8, y: y as u8, z: z as u8, marker });
            },
            None => {},
        }
        i += 1;
    }
    markers
}

} // verus!
