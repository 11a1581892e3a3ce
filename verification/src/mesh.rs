use vstd::prelude::*;
use crate::blocks::{BlockFace, BlockId, BlockType, Tint, UvBounds};
use crate::chunk::{in_chunk, view_of, Chunk, ChunkView, Surroundings, MAX_LIGHT_LEVEL};
use crate::light::{cx, cy, cz, max2};
use crate::registry::BlockRegistry;

verus! {

/// What a chunk's surroundings answer: for the neighbour that touches a
/// face, the block and the light at coordinates local to that neighbour.
pub ghost struct NeighborModel {
    pub block: spec_fn(BlockFace, int, int, int) -> BlockId,
    pub light: spec_fn(BlockFace, int, int, int) -> u8,
}

/// Read access to the voxels of the six face-adjacent chunks.
///
/// `face` names the neighbour by the face of the own chunk that it touches;
/// the coordinates are local to that neighbour. Each implementation decides
/// what an unknown neighbour answers.
pub trait NeighborAccess {
    /// What this access answers.
    spec fn model(&self) -> NeighborModel;

    fn block(&self, face: BlockFace, x: usize, y: usize, z: usize) -> (id: BlockId)
        requires
            in_chunk(x as int, y as int, z as int),
        ensures
            id == (self.model().block)(face, x as int, y as int, z as int),
    ;

    fn light(&self, face: BlockFace, x: usize, y: usize, z: usize) -> (level: u8)
        requires
            in_chunk(x as int, y as int, z as int),
        ensures
            level == (self.model().light)(face, x as int, y as int, z as int),
    ;
}

/// References to the neighbouring chunks, for culling faces on the boundary.
pub struct NeighborChunks<'a> {
    pub neg_x: Option<&'a Chunk>,
    pub pos_x: Option<&'a Chunk>,
    pub neg_y: Option<&'a Chunk>,
    pub pos_y: Option<&'a Chunk>,
    pub neg_z: Option<&'a Chunk>,
    pub pos_z: Option<&'a Chunk>,
}

impl<'a> View for NeighborChunks<'a> {
    type V = Surroundings;

    open spec fn view(&self) -> Surroundings {
        Surroundings {
            neg_x: view_of(self.neg_x),
            pos_x: view_of(self.pos_x),
            neg_y: view_of(self.neg_y),
            pos_y: view_of(self.pos_y),
            neg_z: view_of(self.neg_z),
            pos_z: view_of(self.pos_z),
        }
    }
}

/// The neighbour that touches the given face.
pub open spec fn toward(around: Surroundings, face: BlockFace) -> Option<ChunkView> {
    match face {
        BlockFace::Top => around.pos_y,
        BlockFace::Bottom => around.neg_y,
        BlockFace::North => around.neg_z,
        BlockFace::South => around.pos_z,
        BlockFace::East => around.pos_x,
        BlockFace::West => around.neg_x,
    }
}

impl<'a> NeighborChunks<'a> {
    pub fn none() -> (n: Self)
        ensures
            n@ == Surroundings::none(),
    {
        NeighborChunks {
            neg_x: None,
            pos_x: None,
            neg_y: None,
            pos_y: None,
            neg_z: None,
            pos_z: None,
        }
    }

    fn get(&self, face: BlockFace) -> (chunk: Option<&'a Chunk>)
        ensures
            view_of(chunk) == toward(self@, face),
    {
        match face {
            BlockFace::Top => self.pos_y,
            BlockFace::Bottom => self.neg_y,
            BlockFace::North => self.neg_z,
            BlockFace::South => self.pos_z,
            BlockFace::East => self.pos_x,
            BlockFace::West => self.neg_x,
        }
    }
}

/// Surroundings in which an unknown neighbour counts as air, and as fully
/// lit except below, where it counts as dark.
pub open spec fn direct_model(around: Surroundings) -> NeighborModel {
    NeighborModel {
        block: |face: BlockFace, x: int, y: int, z: int|
            match toward(around, face) {
                Some(c) => c.block_at(x, y, z),
                None => BlockId(0),
            },
        light: |face: BlockFace, x: int, y: int, z: int|
            match toward(around, face) {
                Some(c) => c.light_at(x, y, z),
                None => if face == BlockFace::Bottom {
                    0u8
                } else {
                    15u8
                },
            },
    }
}

/// Surroundings in which an unknown neighbour counts as air and as dark.
pub open spec fn dark_model(around: Surroundings) -> NeighborModel {
    NeighborModel {
        block: |face: BlockFace, x: int, y: int, z: int|
            match toward(around, face) {
                Some(c) => c.block_at(x, y, z),
                None => BlockId(0),
            },
        light: |face: BlockFace, x: int, y: int, z: int|
            match toward(around, face) {
                Some(c) => c.light_at(x, y, z),
                None => 0u8,
            },
    }
}

/// With direct references, an unknown neighbour counts as air, and as fully
/// lit except below, where it counts as dark.
impl<'a> NeighborAccess for NeighborChunks<'a> {
    open spec fn model(&self) -> NeighborModel {
        direct_model(self@)
    }

    fn block(&self, face: BlockFace, x: usize, y: usize, z: usize) -> (id: BlockId) {
        match self.get(face) {
            Some(c) => c.get_block(x, y, z),
            None => BlockId(0),
        }
    }

    fn light(&self, face: BlockFace, x: usize, y: usize, z: usize) -> (level: u8) {
        match self.get(face) {
            Some(c) => c.get_light(x, y, z),
            None => match face {
                BlockFace::Bottom => 0,
                _ => MAX_LIGHT_LEVEL,
            },
        }
    }
}

/// The step from a voxel to the voxel that touches it on `face`.
pub open spec fn face_step(face: BlockFace) -> (int, int, int) {
    match face {
        BlockFace::Top => (0, 1, 0),
        BlockFace::Bottom => (0, -1, 0),
        BlockFace::North => (0, 0, -1),
        BlockFace::South => (0, 0, 1),
        BlockFace::East => (1, 0, 0),
        BlockFace::West => (-1, 0, 0),
    }
}

/// A coordinate one step outside a chunk, as the neighbour counts it.
pub open spec fn wrap(a: int) -> int {
    if a < 0 {
        15
    } else if a >= 16 {
        0
    } else {
        a
    }
}

/// The block that touches the voxel `(x, y, z)` on `face`.
pub open spec fn block_toward(
    chunk: ChunkView,
    neighbors: NeighborModel,
    x: int,
    y: int,
    z: int,
    face: BlockFace,
) -> BlockId {
    let (dx, dy, dz) = face_step(face);
    if in_chunk(x + dx, y + dy, z + dz) {
        chunk.block_at(x + dx, y + dy, z + dz)
    } else {
        (neighbors.block)(face, wrap(x + dx), wrap(y + dy), wrap(z + dz))
    }
}

/// The light of the voxel that touches the voxel `(x, y, z)` on `face`.
pub open spec fn light_toward(
    chunk: ChunkView,
    neighbors: NeighborModel,
    x: int,
    y: int,
    z: int,
    face: BlockFace,
) -> u8 {
    let (dx, dy, dz) = face_step(face);
    if in_chunk(x + dx, y + dy, z + dz) {
        chunk.light_at(x + dx, y + dy, z + dz)
    } else {
        (neighbors.light)(face, wrap(x + dx), wrap(y + dy), wrap(z + dz))
    }
}

/// Stored light as it shows under the current sky: never brighter than the sky.
pub open spec fn spec_effective_light(light: u8, sky_light_level: u8) -> u8 {
    if light <= sky_light_level {
        light
    } else {
        sky_light_level
    }
}

#[verifier::when_used_as_spec(spec_effective_light)]
pub fn effective_light(light: u8, sky_light_level: u8) -> (effective: u8)
    ensures
        effective == spec_effective_light(light, sky_light_level),
        effective <= light,
        effective <= sky_light_level,
{
    if light <= sky_light_level {
        light
    } else {
        sky_light_level
    }
}

/// One visible face of a voxel, with everything that its four vertices carry.
#[derive(Debug, Clone, Copy, PartialEq, Eq)]
pub struct MeshFace {
    /// Local coordinates of the voxel.
    pub x: u8,
    pub y: u8,
    pub z: u8,
    /// Which face of the voxel.
    pub face: BlockFace,
    /// Bounds of the base texture.
    pub texture: UvBounds,
    /// Bounds of the overlay texture, if the face has one.
    pub overlay: Option<UvBounds>,
    /// Tint for the overlay if there is one, else for the base texture.
    pub tint: Tint,
    /// Light of the voxel that the face opens onto, as it shows under the sky.
    pub light: u8,
}

/// One corner of a face.
#[derive(Debug, Clone, Copy, PartialEq, Eq)]
pub struct MeshVertex {
    /// Chunk-local position, 0 to 16 on each axis.
    pub position: (u8, u8, u8),
    /// Outward unit normal.
    pub normal: (i8, i8, i8),
    /// Base texture coordinate, in units of 1/512.
    pub uv: (u16, u16),
    /// Overlay texture coordinate, in units of 1/512, or (0, 0) for none.
    pub uv2: (u16, u16),
    pub tint: Tint,
    /// Effective light level, from which the brightness follows.
    pub light: u8,
    /// The face that the vertex belongs to; it decides the directional shading.
    pub face: BlockFace,
}

/// The faces in the order in which a voxel emits them.
pub open spec fn face_of_rank(d: int) -> BlockFace {
    if d == 0 {
        BlockFace::Top
    } else if d == 1 {
        BlockFace::Bottom
    } else if d == 2 {
        BlockFace::South
    } else if d == 3 {
        BlockFace::North
    } else if d == 4 {
        BlockFace::East
    } else {
        BlockFace::West
    }
}

/// Texture bounds for a block that the catalog does not know: the whole
/// first cell, without padding.
pub open spec fn fallback_texture() -> UvBounds {
    (0, 0, 32, 32)
}

/// The catalog's entry for a block, if it has one.
pub open spec fn kind_of(catalog: Seq<BlockType>, id: BlockId) -> Option<BlockType> {
    if id.0 < catalog.len() {
        Some(catalog[id.0 as int])
    } else {
        None
    }
}

/// Whether a face is on one of the four sides.
pub open spec fn is_side(face: BlockFace) -> bool {
    face != BlockFace::Top && face != BlockFace::Bottom
}

pub open spec fn face_texture(kind: Option<BlockType>, face: BlockFace) -> UvBounds {
    match kind {
        Some(k) => k.properties.textures.spec_get_face(face).spec_uv_coords(),
        None => fallback_texture(),
    }
}

/// Side faces carry the block's side overlay; top and bottom never do.
pub open spec fn face_overlay(kind: Option<BlockType>, face: BlockFace) -> Option<UvBounds> {
    match kind {
        Some(k) => match k.properties.textures.side_overlay {
            Some(o) => if is_side(face) {
                Some(o.spec_uv_coords())
            } else {
                None
            },
            None => None,
        },
        None => None,
    }
}

/// The tint of a face: the block's top tint for a face with an overlay, else
/// the tint of the face itself; white where the block has none.
pub open spec fn face_tint(kind: Option<BlockType>, face: BlockFace) -> Tint {
    match kind {
        Some(k) => {
            let source = if face_overlay(kind, face) is Some {
                BlockFace::Top
            } else {
                face
            };
            match k.properties.tint_colors.spec_get(source) {
                Some(t) => t,
                None => Tint::spec_white(),
            }
        },
        None => Tint::spec_white(),
    }
}

/// Whether the voxel `i` shows its `face`: it is not air and the voxel that
/// touches it there is air.
pub open spec fn face_visible(
    chunk: ChunkView,
    neighbors: NeighborModel,
    i: int,
    face: BlockFace,
) -> bool {
    !chunk.blocks[i].is_air() && block_toward(chunk, neighbors, cx(i), cy(i), cz(i), face).is_air()
}

/// The face `face` of the voxel `i`, as the mesh carries it.
pub open spec fn face_at(
    chunk: ChunkView,
    catalog: Seq<BlockType>,
    neighbors: NeighborModel,
    sky_light_level: u8,
    i: int,
    face: BlockFace,
) -> MeshFace {
    let kind = kind_of(catalog, chunk.blocks[i]);
    MeshFace {
        x: cx(i) as u8,
        y: cy(i) as u8,
        z: cz(i) as u8,
        face,
        texture: face_texture(kind, face),
        overlay: face_overlay(kind, face),
        tint: face_tint(kind, face),
        light: spec_effective_light(
            light_toward(chunk, neighbors, cx(i), cy(i), cz(i), face),
            sky_light_level,
        ),
    }
}

/// The visible faces among the first `n` candidates, in order. Candidate
/// `6 * i + d` is the face of rank `d` of the voxel with linear index `i`.
pub open spec fn faces_upto(
    chunk: ChunkView,
    catalog: Seq<BlockType>,
    neighbors: NeighborModel,
    sky_light_level: u8,
    n: int,
) -> Seq<MeshFace>
    decreases n,
{
    if n <= 0 {
        Seq::empty()
    } else {
        let rest = faces_upto(chunk, catalog, neighbors, sky_light_level, n - 1);
        let i = (n - 1) / 6;
        let face = face_of_rank((n - 1) % 6);
        if face_visible(chunk, neighbors, i, face) {
            rest.push(face_at(chunk, catalog, neighbors, sky_light_level, i, face))
        } else {
            rest
        }
    }
}

/// All visible faces of a chunk, voxel by voxel in ascending linear index,
/// and for each voxel in the order top, bottom, south, north, east, west.
pub open spec fn visible_faces(
    chunk: ChunkView,
    catalog: Seq<BlockType>,
    neighbors: NeighborModel,
    sky_light_level: u8,
) -> Seq<MeshFace> {
    faces_upto(chunk, catalog, neighbors, sky_light_level, 24576)
}

/// Offset of corner `k` of a face from its voxel's origin. Seen from outside,
/// the corners of the two triangles (0, 3, 2) and (2, 1, 0) run counter-clockwise.
pub open spec fn corner_offset(face: BlockFace, k: int) -> (int, int, int) {
    match face {
        BlockFace::Top => if k == 0 {
            (0, 1, 0)
        } else if k == 1 {
            (1, 1, 0)
        } else if k == 2 {
            (1, 1, 1)
        } else {
            (0, 1, 1)
        },
        BlockFace::Bottom => if k == 0 {
            (0, 0, 0)
        } else if k == 1 {
            (0, 0, 1)
        } else if k == 2 {
            (1, 0, 1)
        } else {
            (1, 0, 0)
        },
        BlockFace::South => if k == 0 {
            (0, 0, 1)
        } else if k == 1 {
            (0, 1, 1)
        } else if k == 2 {
            (1, 1, 1)
        } else {
            (1, 0, 1)
        },
        BlockFace::North => if k == 0 {
            (0, 0, 0)
        } else if k == 1 {
            (1, 0, 0)
        } else if k == 2 {
            (1, 1, 0)
        } else {
            (0, 1, 0)
        },
        BlockFace::East => if k == 0 {
            (1, 0, 0)
        } else if k == 1 {
            (1, 0, 1)
        } else if k == 2 {
            (1, 1, 1)
        } else {
            (1, 1, 0)
        },
        BlockFace::West => if k == 0 {
            (0, 0, 0)
        } else if k == 1 {
            (0, 1, 0)
        } else if k == 2 {
            (0, 1, 1)
        } else {
            (0, 0, 1)
        },
    }
}

/// Which end of the texture bounds corner `k` of a face takes: whether its
/// `u` is the upper bound, and whether its `v` is. On the side faces `v` runs
/// downward, as image rows do.
pub open spec fn corner_uv_ends(face: BlockFace, k: int) -> (bool, bool) {
    match face {
        BlockFace::Top | BlockFace::Bottom => if k == 0 {
            (false, false)
        } else if k == 1 {
            (true, false)
        } else if k == 2 {
            (true, true)
        } else {
            (false, true)
        },
        BlockFace::South | BlockFace::West => if k == 0 {
            (false, true)
        } else if k == 1 {
            (false, false)
        } else if k == 2 {
            (true, false)
        } else {
            (true, true)
        },
        BlockFace::North | BlockFace::East => if k == 0 {
            (false, true)
        } else if k == 1 {
            (true, true)
        } else if k == 2 {
            (true, false)
        } else {
            (false, false)
        },
    }
}

/// The point of `bounds` at the given ends.
pub open spec fn uv_point(bounds: UvBounds, ends: (bool, bool)) -> (u16, u16) {
    (
        if ends.0 {
            bounds.2
        } else {
            bounds.0
        },
        if ends.1 {
            bounds.3
        } else {
            bounds.1
        },
    )
}

/// Corner `k` of a face.
pub open spec fn face_vertex(f: MeshFace, k: int) -> MeshVertex {
    let offset = corner_offset(f.face, k);
    let step = face_step(f.face);
    MeshVertex {
        position: ((f.x + offset.0) as u8, (f.y + offset.1) as u8, (f.z + offset.2) as u8),
        normal: (step.0 as i8, step.1 as i8, step.2 as i8),
        uv: uv_point(f.texture, corner_uv_ends(f.face, k)),
        uv2: match f.overlay {
            Some(o) => uv_point(o, corner_uv_ends(f.face, k)),
            None => (0, 0),
        },
        tint: f.tint,
        light: f.light,
        face: f.face,
    }
}

/// Which corner of its face the `j`-th index of a face's two triangles names.
pub open spec fn triangle_corner(j: int) -> int {
    if j == 0 {
        0
    } else if j == 1 {
        3
    } else if j == 2 {
        2
    } else if j == 3 {
        2
    } else if j == 4 {
        1
    } else {
        0
    }
}

/// Whether vertices and indices are the triangle list of `faces`: four
/// vertices and six indices for each face, in the order of the faces.
pub open spec fn is_triangle_list(
    vertices: Seq<MeshVertex>,
    indices: Seq<u32>,
    faces: Seq<MeshFace>,
) -> bool {
    &&& vertices.len() == 4 * faces.len()
    &&& indices.len() == 6 * faces.len()
    &&& forall|v: int|
        0 <= v < vertices.len() ==> #[trigger] vertices[v] == face_vertex(faces[v / 4], v % 4)
    &&& forall|t: int|
        0 <= t < indices.len() ==> #[trigger] indices[t] == 4 * (t / 6) + triangle_corner(t % 6)
}

/// Renderable surface of a chunk: a list of triangles over shared vertices.
pub struct ChunkMesh {
    pub vertices: Vec<MeshVertex>,
    pub indices: Vec<u32>,
}

/// Whether `mesh` is what meshing gives for `faces`: their triangle list, or
/// nothing where there is no face.
pub open spec fn is_mesh_of(mesh: Option<ChunkMesh>, faces: Seq<MeshFace>) -> bool {
    match mesh {
        Some(m) => faces.len() > 0 && is_triangle_list(m.vertices@, m.indices@, faces),
        None => faces.len() == 0,
    }
}

fn rank_face(d: usize) -> (face: BlockFace)
    requires
        d < 6,
    ensures
        face == face_of_rank(d as int),
{
    if d == 0 {
        BlockFace::Top
    } else if d == 1 {
        BlockFace::Bottom
    } else if d == 2 {
        BlockFace::South
    } else if d == 3 {
        BlockFace::North
    } else if d == 4 {
        BlockFace::East
    } else {
        BlockFace::West
    }
}

/// Coordinates of the voxel that touches `(x, y, z)` on `face`, as the chunk
/// that holds it counts them, and whether that is the own chunk.
fn step_toward(x: usize, y: usize, z: usize, face: BlockFace) -> (r: (bool, usize, usize, usize))
    requires
        in_chunk(x as int, y as int, z as int),
    ensures
        r.0 == in_chunk(
            x + face_step(face).0,
            y + face_step(face).1,
            z + face_step(face).2,
        ),
        r.1 == wrap(x + face_step(face).0),
        r.2 == wrap(y + face_step(face).1),
        r.3 == wrap(z + face_step(face).2),
        in_chunk(r.1 as int, r.2 as int, r.3 as int),
{
    match face {
        BlockFace::Top => if y == 15 {
            (false, x, 0, z)
        } else {
            (true, x, y + 1, z)
        },
        BlockFace::Bottom => if y == 0 {
            (false, x, 15, z)
        } else {
            (true, x, y - 1, z)
        },
        BlockFace::North => if z == 0 {
            (false, x, y, 15)
        } else {
            (true, x, y, z - 1)
        },
        BlockFace::South => if z == 15 {
            (false, x, y, 0)
        } else {
            (true, x, y, z + 1)
        },
        BlockFace::East => if x == 15 {
            (false, 0, y, z)
        } else {
            (true, x + 1, y, z)
        },
        BlockFace::West => if x == 0 {
            (false, 15, y, z)
        } else {
            (true, x - 1, y, z)
        },
    }
}

/// Whether the face of the voxel `(x, y, z)` toward `face` is to be drawn:
/// the voxel it touches, in this chunk or in the neighbour, is air.
fn should_render_face_with_neighbors<N: NeighborAccess>(
    chunk: &Chunk,
    neighbors: &N,
    x: usize,
    y: usize,
    z: usize,
    face: BlockFace,
) -> (exposed: bool)
    requires
        in_chunk(x as int, y as int, z as int),
    ensures
        exposed == block_toward(
            chunk@,
            neighbors.model(),
            x as int,
            y as int,
            z as int,
            face,
        ).is_air(),
{
    let (inside, nx, ny, nz) = step_toward(x, y, z, face);
    if inside {
        chunk.get_block(nx, ny, nz).is_air()
    } else {
        neighbors.block(face, nx, ny, nz).is_air()
    }
}

/// Light of the voxel that the face of `(x, y, z)` toward `face` opens onto.
fn get_light_at<N: NeighborAccess>(
    chunk: &Chunk,
    neighbors: &N,
    x: usize,
    y: usize,
    z: usize,
    face: BlockFace,
) -> (level: u8)
    requires
        in_chunk(x as int, y as int, z as int),
    ensures
        level == light_toward(chunk@, neighbors.model(), x as int, y as int, z as int, face),
{
    let (inside, nx, ny, nz) = step_toward(x, y, z, face);
    if inside {
        chunk.get_light(nx, ny, nz)
    } else {
        neighbors.light(face, nx, ny, nz)
    }
}

/// The brightest light among the six voxels that touch the voxel `(x, y, z)`.
pub open spec fn light_around(
    chunk: ChunkView,
    neighbors: NeighborModel,
    x: int,
    y: int,
    z: int,
) -> int {
    max2(
        max2(
            max2(
                light_toward(chunk, neighbors, x, y, z, BlockFace::Top) as int,
                light_toward(chunk, neighbors, x, y, z, BlockFace::Bottom) as int,
            ),
            max2(
                light_toward(chunk, neighbors, x, y, z, BlockFace::North) as int,
                light_toward(chunk, neighbors, x, y, z, BlockFace::South) as int,
            ),
        ),
        max2(
            light_toward(chunk, neighbors, x, y, z, BlockFace::East) as int,
            light_toward(chunk, neighbors, x, y, z, BlockFace::West) as int,
        ),
    )
}

/// The brightest light among the six voxels that touch the voxel `(x, y, z)`.
pub fn get_block_light<N: NeighborAccess>(
    chunk: &Chunk,
    neighbors: &N,
    x: usize,
    y: usize,
    z: usize,
) -> (level: u8)
    requires
        in_chunk(x as int, y as int, z as int),
    ensures
        level == light_around(chunk@, neighbors.model(), x as int, y as int, z as int),
{
    let mut brightest = get_light_at(chunk, neighbors, x, y, z, BlockFace::Top);
    let down = get_light_at(chunk, neighbors, x, y, z, BlockFace::Bottom);
    if down > brightest {
        brightest = down;
    }
    let north = get_light_at(chunk, neighbors, x, y, z, BlockFace::North);
    if north > brightest {
        brightest = north;
    }
    let south = get_light_at(chunk, neighbors, x, y, z, BlockFace::South);
    if south > brightest {
        brightest = south;
    }
    let east = get_light_at(chunk, neighbors, x, y, z, BlockFace::East);
    if east > brightest {
        brightest = east;
    }
    let west = get_light_at(chunk, neighbors, x, y, z, BlockFace::West);
    if west > brightest {
        brightest = west;
    }
    brightest
}

fn texture_of(block_type: Option<&BlockType>, face: BlockFace) -> (uv: UvBounds)
    ensures
        uv == face_texture(
            match block_type {
                Some(b) => Some(*b),
                None => None,
            },
            face,
        ),
{
    match block_type {
        Some(bt) => bt.properties.textures.get_face(face).uv_coords(),
        None => (0, 0, 32, 32),
    }
}

fn overlay_of(block_type: Option<&BlockType>, face: BlockFace) -> (uv: Option<UvBounds>)
    ensures
        uv == face_overlay(
            match block_type {
                Some(b) => Some(*b),
                None => None,
            },
            face,
        ),
{
    match face {
        BlockFace::Top => None,
        BlockFace::Bottom => None,
        _ => match block_type {
            Some(bt) => match bt.properties.textures.side_overlay {
                Some(overlay) => Some(overlay.uv_coords()),
                None => None,
            },
            None => None,
        },
    }
}

fn tint_of(block_type: Option<&BlockType>, face: BlockFace, has_overlay: bool) -> (tint: Tint)
    requires
        has_overlay == (face_overlay(
            match block_type {
                Some(b) => Some(*b),
                None => None,
            },
            face,
        ) is Some),
    ensures
        tint == face_tint(
            match block_type {
                Some(b) => Some(*b),
                None => None,
            },
            face,
        ),
{
    match block_type {
        Some(bt) => {
            let chosen = if has_overlay {
                bt.properties.tint_colors.top
            } else {
                bt.properties.tint_colors.get(face)
            };
            match chosen {
                Some(t) => t,
                None => Tint::white(),
            }
        },
        None => Tint::white(),
    }
}

fn corner_at(face: BlockFace, k: usize) -> (offset: (u8, u8, u8))
    requires
        k < 4,
    ensures
        offset.0 == corner_offset(face, k as int).0,
        offset.1 == corner_offset(face, k as int).1,
        offset.2 == corner_offset(face, k as int).2,
        offset.0 <= 1,
        offset.1 <= 1,
        offset.2 <= 1,
{
    match face {
        BlockFace::Top => if k == 0 {
            (0, 1, 0)
        } else if k == 1 {
            (1, 1, 0)
        } else if k == 2 {
            (1, 1, 1)
        } else {
            (0, 1, 1)
        },
        BlockFace::Bottom => if k == 0 {
            (0, 0, 0)
        } else if k == 1 {
            (0, 0, 1)
        } else if k == 2 {
            (1, 0, 1)
        } else {
            (1, 0, 0)
        },
        BlockFace::South => if k == 0 {
            (0, 0, 1)
        } else if k == 1 {
            (0, 1, 1)
        } else if k == 2 {
            (1, 1, 1)
        } else {
            (1, 0, 1)
        },
        BlockFace::North => if k == 0 {
            (0, 0, 0)
        } else if k == 1 {
            (1, 0, 0)
        } else if k == 2 {
            (1, 1, 0)
        } else {
            (0, 1, 0)
        },
        BlockFace::East => if k == 0 {
            (1, 0, 0)
        } else if k == 1 {
            (1, 0, 1)
        } else if k == 2 {
            (1, 1, 1)
        } else {
            (1, 1, 0)
        },
        BlockFace::West => if k == 0 {
            (0, 0, 0)
        } else if k == 1 {
            (0, 1, 0)
        } else if k == 2 {
            (0, 1, 1)
        } else {
            (0, 0, 1)
        },
    }
}

fn corner_ends(face: BlockFace, k: usize) -> (ends: (bool, bool))
    requires
        k < 4,
    ensures
        ends == corner_uv_ends(face, k as int),
{
    match face {
        BlockFace::Top | BlockFace::Bottom => if k == 0 {
            (false, false)
        } else if k == 1 {
            (true, false)
        } else if k == 2 {
            (true, true)
        } else {
            (false, true)
        },
        BlockFace::South | BlockFace::West => if k == 0 {
            (false, true)
        } else if k == 1 {
            (false, false)
        } else if k == 2 {
            (true, false)
        } else {
            (true, true)
        },
        BlockFace::North | BlockFace::East => if k == 0 {
            (false, true)
        } else if k == 1 {
            (true, true)
        } else if k == 2 {
            (true, false)
        } else {
            (false, false)
        },
    }
}

fn point_of(bounds: UvBounds, ends: (bool, bool)) -> (p: (u16, u16))
    ensures
        p == uv_point(bounds, ends),
{
    (
        if ends.0 {
            bounds.2
        } else {
            bounds.0
        },
        if ends.1 {
            bounds.3
        } else {
            bounds.1
        },
    )
}

fn normal_of(face: BlockFace) -> (n: (i8, i8, i8))
    ensures
        n.0 == face_step(face).0,
        n.1 == face_step(face).1,
        n.2 == face_step(face).2,
{
    match face {
        BlockFace::Top => (0, 1, 0),
        BlockFace::Bottom => (0, -1, 0),
        BlockFace::North => (0, 0, -1),
        BlockFace::South => (0, 0, 1),
        BlockFace::East => (1, 0, 0),
        BlockFace::West => (-1, 0, 0),
    }
}

impl MeshFace {
    /// Corner `k` of the face, for `k` from 0 to 3.
    pub fn vertex(&self, k: usize) -> (v: MeshVertex)
        requires
            k < 4,
            self.x < 16,
            self.y < 16,
            self.z < 16,
        ensures
            v == face_vertex(*self, k as int),
    {
        let offset = corner_at(self.face, k);
        let ends = corner_ends(self.face, k);
        MeshVertex {
            position: (self.x + offset.0, self.y + offset.1, self.z + offset.2),
            normal: normal_of(self.face),
            uv: point_of(self.texture, ends),
            uv2: match self.overlay {
                Some(o) => point_of(o, ends),
                None => (0, 0),
            },
            tint: self.tint,
            light: self.light,
            face: self.face,
        }
    }
}

impl ChunkMesh {
    /// Appends the four vertices and two triangles of a face.
    fn push_face(&mut self, f: MeshFace, Ghost(faces): Ghost<Seq<MeshFace>>)
        requires
            is_triangle_list(old(self).vertices@, old(self).indices@, faces),
            faces.len() < 24576,
            f.x < 16,
            f.y < 16,
            f.z < 16,
        ensures
            is_triangle_list(final(self).vertices@, final(self).indices@, faces.push(f)),
    {
        let base_index: u32 = self.vertices.len() as u32;
        let ghost n = faces.len() as int;
        self.vertices.push(f.vertex(0));
        self.vertices.push(f.vertex(1));
        self.vertices.push(f.vertex(2));
        self.vertices.push(f.vertex(3));
        self.indices.push(base_index);
        self.indices.push(base_index + 3);
        self.indices.push(base_index + 2);
        self.indices.push(base_index + 2);
        self.indices.push(base_index + 1);
        self.indices.push(base_index);
        proof {
            let after = faces.push(f);
            assert forall|v: int| 0 <= v < self.vertices@.len() implies #[trigger] self.vertices@[v]
                == face_vertex(after[v / 4], v % 4) by {
                if v < 4 * n {
                    assert(self.vertices@[v] == old(self).vertices@[v]);
                    assert(after[v / 4] == faces[v / 4]);
                } else {
                    assert(v / 4 == n);
                }
            }
            assert forall|t: int| 0 <= t < self.indices@.len() implies #[trigger] self.indices@[t]
                == 4 * (t / 6) + triangle_corner(t % 6) by {
                if t < 6 * n {
                    assert(self.indices@[t] == old(self).indices@[t]);
                } else {
                    assert(t / 6 == n);
                }
            }
        }
    }
}

/// The six candidates of an air voxel add no face.
proof fn lemma_air_voxel_adds_nothing(
    chunk: ChunkView,
    catalog: Seq<BlockType>,
    neighbors: NeighborModel,
    sky_light_level: u8,
    i: int,
)
    requires
        0 <= i < 4096,
        chunk.blocks[i].is_air(),
    ensures
        faces_upto(chunk, catalog, neighbors, sky_light_level, 6 * i + 6) == faces_upto(
            chunk,
            catalog,
            neighbors,
            sky_light_level,
            6 * i,
        ),
{
    let base = faces_upto(chunk, catalog, neighbors, sky_light_level, 6 * i);
    assert(faces_upto(chunk, catalog, neighbors, sky_light_level, 6 * i + 1) == base);
    assert(faces_upto(chunk, catalog, neighbors, sky_light_level, 6 * i + 2) == base);
    assert(faces_upto(chunk, catalog, neighbors, sky_light_level, 6 * i + 3) == base);
    assert(faces_upto(chunk, catalog, neighbors, sky_light_level, 6 * i + 4) == base);
    assert(faces_upto(chunk, catalog, neighbors, sky_light_level, 6 * i + 5) == base);
    assert(faces_upto(chunk, catalog, neighbors, sky_light_level, 6 * i + 6) == base);
}

/// No more faces than candidates.
proof fn lemma_faces_count(
    chunk: ChunkView,
    catalog: Seq<BlockType>,
    neighbors: NeighborModel,
    sky_light_level: u8,
    n: int,
)
    requires
        0 <= n,
    ensures
        faces_upto(chunk, catalog, neighbors, sky_light_level, n).len() <= n,
    decreases n,
{
    if n > 0 {
        lemma_faces_count(chunk, catalog, neighbors, sky_light_level, n - 1);
    }
}

/// Builds the surface mesh of a chunk.
///
/// A face is drawn where a voxel that is not air touches air; what lies
/// across the chunk boundary, and how bright it is, `neighbors` says. Light is
/// limited by `sky_light_level` before it goes into the vertices. The result
/// is the triangle list of the visible faces, or nothing if there are none.
pub fn create_chunk_mesh_with_cached_neighbors<N: NeighborAccess>(
    chunk: &Chunk,
    block_registry: &BlockRegistry,
    sky_light_level: u8,
    neighbors: &N,
) -> (mesh: Option<ChunkMesh>)
    ensures
        is_mesh_of(mesh, visible_faces(chunk@, block_registry@, neighbors.model(), sky_light_level)),
{
    proof {
        use_type_invariant(chunk);
    }
    let mut mesh = ChunkMesh { vertices: Vec::new(), indices: Vec::new() };
    let ghost mut faces: Seq<MeshFace> = Seq::empty();
    let ghost view = chunk@;
    let ghost catalog = block_registry@;
    let mut i: usize = 0;
    while i < 4096
        invariant
            i <= 4096,
            view == chunk@,
            view.wf(),
            catalog == block_registry@,
            faces == faces_upto(view, catalog, neighbors.model(), sky_light_level, 6 * i),
            is_triangle_list(mesh.vertices@, mesh.indices@, faces),
        decreases 4096 - i,
    {
        let x: usize = i % 16;
        let z: usize = (i / 16) % 16;
        let y: usize = i / 256;
        let block_id = chunk.get_block(x, y, z);
        if block_id.is_air() {
            proof {
                lemma_air_voxel_adds_nothing(
                    view,
                    catalog,
                    neighbors.model(),
                    sky_light_level,
                    i as int,
                );
            }
        } else {
            let block_type = block_registry.get_block(block_id);
            let mut d: usize = 0;
            while d < 6
                invariant
                    d <= 6,
                    i < 4096,
                    x == cx(i as int),
                    y == cy(i as int),
                    z == cz(i as int),
                    view == chunk@,
                    view.wf(),
                    catalog == block_registry@,
                    block_id == view.blocks[i as int],
                    !block_id.is_air(),
                    match block_type {
                        Some(b) => Some(*b),
                        None => None,
                    } == kind_of(catalog, block_id),
                    faces == faces_upto(view, catalog, neighbors.model(), sky_light_level, 6 * i + d),
                    is_triangle_list(mesh.vertices@, mesh.indices@, faces),
                decreases 6 - d,
            {
                let face = rank_face(d);
                proof {
                    lemma_faces_count(view, catalog, neighbors.model(), sky_light_level, 6 * i + d);
                    assert((6 * i + d + 1 - 1) / 6 == i as int);
                    assert((6 * i + d + 1 - 1) % 6 == d as int);
                }
                if should_render_face_with_neighbors(chunk, neighbors, x, y, z, face) {
                    let texture = texture_of(block_type, face);
                    let overlay = overlay_of(block_type, face);
                    let tint = tint_of(block_type, face, overlay.is_some());
                    let face_light = get_light_at(chunk, neighbors, x, y, z, face);
                    let f = MeshFace {
                        x: x as u8,
                        y: y as u8,
                        z: z as u8,
                        face,
                        texture,
                        overlay,
                        tint,
                        light: effective_light(face_light, sky_light_level),
                    };
                    assert(f == face_at(
                        view,
                        catalog,
                        neighbors.model(),
                        sky_light_level,
                        i as int,
                        face,
                    ));
                    mesh.push_face(f, Ghost(faces));
                    proof {
                        faces = faces.push(f);
                    }
                }
                d += 1;
            }
        }
        i += 1;
    }
    if mesh.vertices.len() == 0 {
        None
    } else {
        Some(mesh)
    }
}

/// The mesh of a chunk among the given neighbours, under the given sky.
pub fn create_chunk_mesh_with_sky_light(
    chunk: &Chunk,
    block_registry: &BlockRegistry,
    neighbors: &NeighborChunks,
    sky_light_level: u8,
) -> (mesh: Option<ChunkMesh>)
    ensures
        is_mesh_of(mesh, visible_faces(chunk@, block_registry@, neighbors.model(), sky_light_level)),
{
    create_chunk_mesh_with_cached_neighbors(chunk, block_registry, sky_light_level, neighbors)
}

/// The mesh of a chunk among the given neighbours, in full daylight.
pub fn create_chunk_mesh_with_neighbors(
    chunk: &Chunk,
    block_registry: &BlockRegistry,
    neighbors: &NeighborChunks,
) -> (mesh: Option<ChunkMesh>)
    ensures
        is_mesh_of(mesh, visible_faces(chunk@, block_registry@, neighbors.model(), 15)),
{
    create_chunk_mesh_with_sky_light(chunk, block_registry, neighbors, MAX_LIGHT_LEVEL)
}

/// The mesh of a chunk that stands alone, in full daylight.
pub fn create_chunk_mesh(chunk: &Chunk, block_registry: &BlockRegistry) -> (mesh: Option<ChunkMesh>)
    ensures
        is_mesh_of(mesh, visible_faces(chunk@, block_registry@, direct_model(Surroundings::none()), 15)),
{
    let neighbors = NeighborChunks::none();
    create_chunk_mesh_with_neighbors(chunk, block_registry, &neighbors)
}

/// A chunk of nothing but air has no visible face, whatever surrounds it.
pub proof fn lemma_air_chunk_has_no_faces(
    chunk: ChunkView,
    catalog: Seq<BlockType>,
    neighbors: NeighborModel,
    sky_light_level: u8,
)
    requires
        forall|i: int| 0 <= i < 4096 ==> (#[trigger] chunk.blocks[i]).is_air(),
    ensures
        visible_faces(chunk, catalog, neighbors, sky_light_level).len() == 0,
{
    lemma_air_prefix(chunk, catalog, neighbors, sky_light_level, 24576);
}

proof fn lemma_air_prefix(
    chunk: ChunkView,
    catalog: Seq<BlockType>,
    neighbors: NeighborModel,
    sky_light_level: u8,
    n: int,
)
    requires
        0 <= n <= 24576,
        forall|i: int| 0 <= i < 4096 ==> (#[trigger] chunk.blocks[i]).is_air(),
    ensures
        faces_upto(chunk, catalog, neighbors, sky_light_level, n).len() == 0,
    decreases n,
{
    if n > 0 {
        lemma_air_prefix(chunk, catalog, neighbors, sky_light_level, n - 1);
        assert(chunk.blocks[(n - 1) / 6].is_air());
    }
}

/// The faces that a chunk with the single non-air voxel `c` shows after `n` candidates.
spec fn lone_voxel_faces(
    chunk: ChunkView,
    catalog: Seq<BlockType>,
    sky_light_level: u8,
    c: int,
    n: int,
) -> Seq<MeshFace> {
    let shown = if n <= 6 * c {
        0
    } else if n >= 6 * c + 6 {
        6
    } else {
        n - 6 * c
    };
    Seq::new(
        shown as nat,
        |d: int|
            face_at(
                chunk,
                catalog,
                direct_model(Surroundings::none()),
                sky_light_level,
                c,
                face_of_rank(d),
            ),
    )
}

proof fn lemma_lone_voxel_prefix(
    chunk: ChunkView,
    catalog: Seq<BlockType>,
    sky_light_level: u8,
    c: int,
    n: int,
)
    requires
        chunk.wf(),
        0 <= c < 4096,
        0 <= n <= 24576,
        !chunk.blocks[c].is_air(),
        forall|i: int| 0 <= i < 4096 && i != c ==> (#[trigger] chunk.blocks[i]).is_air(),
    ensures
        faces_upto(chunk, catalog, direct_model(Surroundings::none()), sky_light_level, n)
            == lone_voxel_faces(chunk, catalog, sky_light_level, c, n),
    decreases n,
{
    let none = direct_model(Surroundings::none());
    if n > 0 {
        lemma_lone_voxel_prefix(chunk, catalog, sky_light_level, c, n - 1);
        let i = (n - 1) / 6;
        let d = (n - 1) % 6;
        let face = face_of_rank(d);
        if i == c {
            let step = face_step(face);
            let (nx, ny, nz) = (cx(c) + step.0, cy(c) + step.1, cz(c) + step.2);
            if in_chunk(nx, ny, nz) {
                assert(crate::chunk::cell(nx, ny, nz) != c);
                assert(chunk.blocks[crate::chunk::cell(nx, ny, nz)].is_air());
            }
            assert(face_visible(chunk, none, i, face));
        } else {
            assert(chunk.blocks[i].is_air());
        }
    }
    assert(faces_upto(chunk, catalog, none, sky_light_level, n) =~= lone_voxel_faces(
        chunk,
        catalog,
        sky_light_level,
        c,
        n,
    ));
}

/// A single voxel that is not air, in a chunk of air with no neighbour
/// known, shows exactly its six faces, one in each direction.
pub proof fn lemma_lone_voxel_shows_six_faces(
    chunk: ChunkView,
    catalog: Seq<BlockType>,
    sky_light_level: u8,
    c: int,
)
    requires
        chunk.wf(),
        0 <= c < 4096,
        !chunk.blocks[c].is_air(),
        forall|i: int| 0 <= i < 4096 && i != c ==> (#[trigger] chunk.blocks[i]).is_air(),
    ensures
        visible_faces(chunk, catalog, direct_model(Surroundings::none()), sky_light_level).len() == 6,
        forall|d: int|
            0 <= d < 6 ==> #[trigger] visible_faces(
                chunk,
                catalog,
                direct_model(Surroundings::none()),
                sky_light_level,
            )[d] == face_at(
                chunk,
                catalog,
                direct_model(Surroundings::none()),
                sky_light_level,
                c,
                face_of_rank(d),
            ),
        forall|d: int|
            0 <= d < 6 ==> (#[trigger] visible_faces(
                chunk,
                catalog,
                direct_model(Surroundings::none()),
                sky_light_level,
            )[d]).face == face_of_rank(d),
{
    lemma_lone_voxel_prefix(chunk, catalog, sky_light_level, c, 24576);
}

/// The cross product of two vectors.
pub open spec fn cross(a: (int, int, int), b: (int, int, int)) -> (int, int, int) {
    (a.1 * b.2 - a.2 * b.1, a.2 * b.0 - a.0 * b.2, a.0 * b.1 - a.1 * b.0)
}

/// The vector from corner `from` to corner `to` of a face.
pub open spec fn edge(face: BlockFace, from: int, to: int) -> (int, int, int) {
    (
        corner_offset(face, to).0 - corner_offset(face, from).0,
        corner_offset(face, to).1 - corner_offset(face, from).1,
        corner_offset(face, to).2 - corner_offset(face, from).2,
    )
}

/// The component of a vector along the axis that a face is perpendicular to.
pub open spec fn along(face: BlockFace, v: (int, int, int)) -> int {
    match face {
        BlockFace::Top | BlockFace::Bottom => v.1,
        BlockFace::North | BlockFace::South => v.2,
        BlockFace::East | BlockFace::West => v.0,
    }
}

/// Both triangles of a face wind counter-clockwise as seen from outside:
/// the cross product of their edges, taken in the order of their indices, is
/// the outward normal of the face. Every corner lies in the plane of the
/// face: on the far side of the voxel for the faces that look up, south or
/// east, on the near side for the others.
pub proof fn lemma_triangles_face_outward(face: BlockFace)
    ensures
        cross(
            edge(face, triangle_corner(0), triangle_corner(1)),
            edge(face, triangle_corner(0), triangle_corner(2)),
        ) == face_step(face),
        cross(
            edge(face, triangle_corner(3), triangle_corner(4)),
            edge(face, triangle_corner(3), triangle_corner(5)),
        ) == face_step(face),
        forall|k: int|
            0 <= k < 4 ==> along(face, #[trigger] corner_offset(face, k)) == if along(
                face,
                face_step(face),
            ) > 0 {
                1int
            } else {
                0int
            },
{
    let a = edge(face, triangle_corner(0), triangle_corner(1));
    let b = edge(face, triangle_corner(0), triangle_corner(2));
    let c = edge(face, triangle_corner(3), triangle_corner(4));
    let d = edge(face, triangle_corner(3), triangle_corner(5));
    match face {
        BlockFace::Top => {
            lemma_cross_value((0, 0, 1), (1, 0, 1));
            lemma_cross_value((0, 0, -1), (-1, 0, -1));
            assert(a == (0int, 0int, 1int) && b == (1int, 0int, 1int));
            assert(c == (0int, 0int, -1int) && d == (-1int, 0int, -1int));
        },
        BlockFace::Bottom => {
            lemma_cross_value((1, 0, 0), (1, 0, 1));
            lemma_cross_value((-1, 0, 0), (-1, 0, -1));
            assert(a == (1int, 0int, 0int) && b == (1int, 0int, 1int));
            assert(c == (-1int, 0int, 0int) && d == (-1int, 0int, -1int));
        },
        BlockFace::South => {
            lemma_cross_value((1, 0, 0), (1, 1, 0));
            lemma_cross_value((-1, 0, 0), (-1, -1, 0));
            assert(a == (1int, 0int, 0int) && b == (1int, 1int, 0int));
            assert(c == (-1int, 0int, 0int) && d == (-1int, -1int, 0int));
        },
        BlockFace::North => {
            lemma_cross_value((0, 1, 0), (1, 1, 0));
            lemma_cross_value((0, -1, 0), (-1, -1, 0));
            assert(a == (0int, 1int, 0int) && b == (1int, 1int, 0int));
            assert(c == (0int, -1int, 0int) && d == (-1int, -1int, 0int));
        },
        BlockFace::East => {
            lemma_cross_value((0, 1, 0), (0, 1, 1));
            lemma_cross_value((0, -1, 0), (0, -1, -1));
            assert(a == (0int, 1int, 0int) && b == (0int, 1int, 1int));
            assert(c == (0int, -1int, 0int) && d == (0int, -1int, -1int));
        },
        BlockFace::West => {
            lemma_cross_value((0, 0, 1), (0, 1, 1));
            lemma_cross_value((0, 0, -1), (0, -1, -1));
            assert(a == (0int, 0int, 1int) && b == (0int, 1int, 1int));
            assert(c == (0int, 0int, -1int) && d == (0int, -1int, -1int));
        },
    }
}

/// The cross product of two vectors whose components are -1, 0 or 1,
/// worked out component by component.
proof fn lemma_cross_value(a: (int, int, int), b: (int, int, int))
    requires
        -1 <= a.0 <= 1,
        -1 <= a.1 <= 1,
        -1 <= a.2 <= 1,
    ensures
        cross(a, b) == (
            small_times(a.1, b.2) - small_times(a.2, b.1),
            small_times(a.2, b.0) - small_times(a.0, b.2),
            small_times(a.0, b.1) - small_times(a.1, b.0),
        ),
{
    lemma_small_times(a.0, b.1);
    lemma_small_times(a.0, b.2);
    lemma_small_times(a.1, b.0);
    lemma_small_times(a.1, b.2);
    lemma_small_times(a.2, b.0);
    lemma_small_times(a.2, b.1);
}

/// The product of `a`, which is -1, 0 or 1, and `b`.
spec fn small_times(a: int, b: int) -> int {
    if a == 0 {
        0
    } else if a == 1 {
        b
    } else {
        -b
    }
}

proof fn lemma_small_times(a: int, b: int)
    requires
        -1 <= a <= 1,
    ensures
        a * b == small_times(a, b),
{
    assert(a * b == small_times(a, b)) by (nonlinear_arith)
        requires
            -1 <= a <= 1,
            small_times(a, b) == if a == 0 {
                0
            } else if a == 1 {
                b
            } else {
                -b
            },
    ;
}

} // verus!
