use vstd::prelude::*;
use crate::blocks::BlockId;

verus! {

/// Edge length of a chunk, in voxels.
pub const CHUNK_SIZE: usize = 16;

/// Number of voxels in a chunk.
pub const CHUNK_VOLUME: usize = 4096;

/// Horizontal streaming radius, in chunks.
pub const VIEW_DISTANCE: i32 = 10;

/// Vertical streaming radius, in chunks.
pub const VIEW_DISTANCE_VERTICAL: i32 = 5;

/// Light level of unobstructed sky.
pub const MAX_LIGHT_LEVEL: u8 = 15;

/// Position of a chunk in the chunk grid; one unit is one chunk edge.
#[derive(Debug, Clone, Copy, PartialEq, Eq, Hash, Structural)]
pub struct ChunkCoord {
    pub x: i32,
    pub y: i32,
    pub z: i32,
}

/// Absolute value of an integer.
pub open spec fn abs(a: int) -> int {
    if a < 0 {
        -a
    } else {
        a
    }
}

/// Floor of `a / 16`, computed without signed division.
fn floor_div_chunk(a: i32) -> (q: i32)
    ensures
        q == (a as int) / 16,
{
    let shifted: u64 = (a as i64 + 0x8000_0000i64) as u64;
    let q: u64 = shifted / 16;
    (q as i64 - 0x800_0000i64) as i32
}

impl ChunkCoord {
    pub fn new(x: i32, y: i32, z: i32) -> (c: ChunkCoord)
        ensures
            c == (ChunkCoord { x, y, z }),
    {
        ChunkCoord { x, y, z }
    }

    /// The chunk that owns the voxel at a world position: each axis divided by
    /// the chunk size, rounded toward negative infinity.
    pub open spec fn spec_from_world_pos(x: int, y: int, z: int) -> (int, int, int) {
        (x / 16, y / 16, z / 16)
    }

    pub fn from_world_pos(x: i32, y: i32, z: i32) -> (c: ChunkCoord)
        ensures
            (c.x as int, c.y as int, c.z as int) == Self::spec_from_world_pos(
                x as int,
                y as int,
                z as int,
            ),
    {
        ChunkCoord { x: floor_div_chunk(x), y: floor_div_chunk(y), z: floor_div_chunk(z) }
    }

    /// World position of the chunk's origin corner.
    pub fn to_world_pos(&self) -> (p: (i64, i64, i64))
        ensures
            p.0 == self.x * 16,
            p.1 == self.y * 16,
            p.2 == self.z * 16,
    {
        (self.x as i64 * 16, self.y as i64 * 16, self.z as i64 * 16)
    }

    /// The coordinate that lies `(dx, dy, dz)` chunks away, if there is one.
    pub open spec fn spec_offset(self, dx: int, dy: int, dz: int) -> Option<ChunkCoord> {
        if i32::MIN <= self.x + dx <= i32::MAX && i32::MIN <= self.y + dy <= i32::MAX && i32::MIN
            <= self.z + dz <= i32::MAX {
            Some(
                ChunkCoord {
                    x: (self.x + dx) as i32,
                    y: (self.y + dy) as i32,
                    z: (self.z + dz) as i32,
                },
            )
        } else {
            None
        }
    }

    /// The coordinate that lies `(dx, dy, dz)` chunks away; none where the
    /// grid ends.
    pub fn offset(&self, dx: i32, dy: i32, dz: i32) -> (c: Option<ChunkCoord>)
        ensures
            c == self.spec_offset(dx as int, dy as int, dz as int),
    {
        let x: i64 = self.x as i64 + dx as i64;
        let y: i64 = self.y as i64 + dy as i64;
        let z: i64 = self.z as i64 + dz as i64;
        if x < i32::MIN as i64 || x > i32::MAX as i64 || y < i32::MIN as i64 || y > i32::MAX as i64
            || z < i32::MIN as i64 || z > i32::MAX as i64 {
            None
        } else {
            Some(ChunkCoord { x: x as i32, y: y as i32, z: z as i32 })
        }
    }

    pub open spec fn spec_distance_squared(self, other: ChunkCoord) -> int {
        (self.x - other.x) * (self.x - other.x) + (self.y - other.y) * (self.y - other.y) + (self.z
            - other.z) * (self.z - other.z)
    }

    /// Squared Euclidean distance between two chunk coordinates.
    pub fn distance_squared(&self, other: &ChunkCoord) -> (d: i128)
        ensures
            d == self.spec_distance_squared(*other),
    {
        let dx: i128 = self.x as i128 - other.x as i128;
        let dy: i128 = self.y as i128 - other.y as i128;
        let dz: i128 = self.z as i128 - other.z as i128;
        assert(0 <= dx * dx <= 0x1_0000_0000_0000_0000) by (nonlinear_arith)
            requires
                -0x1_0000_0000 <= dx <= 0x1_0000_0000,
        ;
        assert(0 <= dy * dy <= 0x1_0000_0000_0000_0000) by (nonlinear_arith)
            requires
                -0x1_0000_0000 <= dy <= 0x1_0000_0000,
        ;
        assert(0 <= dz * dz <= 0x1_0000_0000_0000_0000) by (nonlinear_arith)
            requires
                -0x1_0000_0000 <= dz <= 0x1_0000_0000,
        ;
        dx * dx + dy * dy + dz * dz
    }

    pub open spec fn spec_manhattan_distance(self, other: ChunkCoord) -> int {
        abs(self.x - other.x) + abs(self.y - other.y) + abs(self.z - other.z)
    }

    /// Manhattan distance between two chunk coordinates.
    pub fn manhattan_distance(&self, other: &ChunkCoord) -> (d: i64)
        ensures
            d == self.spec_manhattan_distance(*other),
    {
        let dx: i64 = self.x as i64 - other.x as i64;
        let dy: i64 = self.y as i64 - other.y as i64;
        let dz: i64 = self.z as i64 - other.z as i64;
        let ax: i64 = if dx < 0 { -dx } else { dx };
        let ay: i64 = if dy < 0 { -dy } else { dy };
        let az: i64 = if dz < 0 { -dz } else { dz };
        ax + ay + az
    }
}

/// Linear index of the voxel at local coordinates `(x, y, z)`.
pub open spec fn cell(x: int, y: int, z: int) -> int {
    x + z * 16 + y * 256
}

/// Whether local coordinates lie inside a chunk.
pub open spec fn in_chunk(x: int, y: int, z: int) -> bool {
    0 <= x < 16 && 0 <= y < 16 && 0 <= z < 16
}

/// A light level limited to the range 0..=15.
pub open spec fn clamp_light(level: u8) -> u8 {
    if level > 15 {
        15u8
    } else {
        level
    }
}

/// Mathematical content of a chunk: its identity and its two voxel arrays.
pub ghost struct ChunkView {
    pub coord: ChunkCoord,
    pub blocks: Seq<BlockId>,
    pub light: Seq<u8>,
}

impl ChunkView {
    /// Both arrays cover the whole chunk and every light level is at most 15.
    pub open spec fn wf(self) -> bool {
        &&& self.blocks.len() == 4096
        &&& self.light.len() == 4096
        &&& forall|i: int| 0 <= i < 4096 ==> #[trigger] self.light[i] <= 15
    }

    /// Block at local coordinates; air outside the chunk.
    pub open spec fn block_at(self, x: int, y: int, z: int) -> BlockId {
        if in_chunk(x, y, z) {
            self.blocks[cell(x, y, z)]
        } else {
            BlockId(0)
        }
    }

    /// Light at local coordinates; full light outside the chunk.
    pub open spec fn light_at(self, x: int, y: int, z: int) -> u8 {
        if in_chunk(x, y, z) {
            self.light[cell(x, y, z)]
        } else {
            15
        }
    }

    /// The chunk after writing one block; unchanged when the coordinates are outside.
    pub open spec fn with_block(self, x: int, y: int, z: int, id: BlockId) -> ChunkView {
        if in_chunk(x, y, z) {
            ChunkView { blocks: self.blocks.update(cell(x, y, z), id), ..self }
        } else {
            self
        }
    }

    /// The chunk after writing one light level, clamped to 15; unchanged when
    /// the coordinates are outside.
    pub open spec fn with_light(self, x: int, y: int, z: int, level: u8) -> ChunkView {
        if in_chunk(x, y, z) {
            ChunkView {
                light: self.light.update(cell(x, y, z), clamp_light(level)),
                ..self
            }
        } else {
            self
        }
    }
}

/// One face of a chunk, named by the axis it is perpendicular to and its side.
#[derive(Clone, Copy)]
pub enum ChunkFace {
    NegX,
    PosX,
    NegY,
    PosY,
    NegZ,
    PosZ,
}

/// One boundary layer of light values, indexed by the two in-plane coordinates.
pub type LightPlane = [[u8; 16]; 16];

/// Light values on the six boundary layers of a chunk.
///
/// The X planes are indexed `[y][z]`, the Y planes `[x][z]`, the Z planes `[x][y]`.
pub struct BoundaryLight {
    pub neg_x: LightPlane,
    pub pos_x: LightPlane,
    pub neg_y: LightPlane,
    pub pos_y: LightPlane,
    pub neg_z: LightPlane,
    pub pos_z: LightPlane,
}

/// Whether some voxel of `ours` is bright enough to raise the facing voxel of
/// `theirs`: its light exceeds 1 and, less one, still exceeds the other's.
pub open spec fn plane_would_update(ours: LightPlane, theirs: LightPlane) -> bool {
    exists|a: int, b: int|
        0 <= a < 16 && 0 <= b < 16 && plane_cell_would_update(ours, theirs, a, b)
}

pub open spec fn plane_cell_would_update(
    ours: LightPlane,
    theirs: LightPlane,
    a: int,
    b: int,
) -> bool {
    ours[a][b] > 1 && ours[a][b] - 1 > theirs[a][b]
}

fn plane_updates(ours: &LightPlane, theirs: &LightPlane) -> (found: bool)
    ensures
        found == plane_would_update(*ours, *theirs),
{
    let mut a: usize = 0;
    while a < 16
        invariant
            a <= 16,
            forall|i: int, j: int|
                0 <= i < a && 0 <= j < 16 ==> !plane_cell_would_update(*ours, *theirs, i, j),
        decreases 16 - a,
    {
        let mut b: usize = 0;
        while b < 16
            invariant
                a < 16,
                b <= 16,
                forall|i: int, j: int|
                    0 <= i < a && 0 <= j < 16 ==> !plane_cell_would_update(*ours, *theirs, i, j),
                forall|j: int| 0 <= j < b ==> !plane_cell_would_update(*ours, *theirs, a as int, j),
            decreases 16 - b,
        {
            let our_light: u8 = ours[a][b];
            let their_light: u8 = theirs[a][b];
            if our_light > 1 && our_light - 1 > their_light {
                assert(plane_cell_would_update(*ours, *theirs, a as int, b as int));
                return true;
            }
            b += 1;
        }
        a += 1;
    }
    false
}

impl BoundaryLight {
    /// The boundary layer on the given face.
    pub open spec fn plane(self, face: ChunkFace) -> LightPlane {
        match face {
            ChunkFace::NegX => self.neg_x,
            ChunkFace::PosX => self.pos_x,
            ChunkFace::NegY => self.neg_y,
            ChunkFace::PosY => self.pos_y,
            ChunkFace::NegZ => self.neg_z,
            ChunkFace::PosZ => self.pos_z,
        }
    }

    /// Whether light on this chunk's `face` boundary would raise the light on
    /// the touching boundary of the neighbour across that face.
    pub fn would_update_neighbor(&self, face: ChunkFace, neighbor_boundary: &BoundaryLight) -> (found:
        bool)
        ensures
            found == plane_would_update(
                self.plane(face),
                neighbor_boundary.plane(opposite_face(face)),
            ),
    {
        match face {
            ChunkFace::NegX => plane_updates(&self.neg_x, &neighbor_boundary.pos_x),
            ChunkFace::PosX => plane_updates(&self.pos_x, &neighbor_boundary.neg_x),
            ChunkFace::NegY => plane_updates(&self.neg_y, &neighbor_boundary.pos_y),
            ChunkFace::PosY => plane_updates(&self.pos_y, &neighbor_boundary.neg_y),
            ChunkFace::NegZ => plane_updates(&self.neg_z, &neighbor_boundary.pos_z),
            ChunkFace::PosZ => plane_updates(&self.pos_z, &neighbor_boundary.neg_z),
        }
    }
}

/// The face on the other side of the same axis.
pub open spec fn opposite_face(face: ChunkFace) -> ChunkFace {
    match face {
        ChunkFace::NegX => ChunkFace::PosX,
        ChunkFace::PosX => ChunkFace::NegX,
        ChunkFace::NegY => ChunkFace::PosY,
        ChunkFace::PosY => ChunkFace::NegY,
        ChunkFace::NegZ => ChunkFace::PosZ,
        ChunkFace::PosZ => ChunkFace::NegZ,
    }
}

/// A block that is written is the block that is read there afterwards,
/// whatever is written or read outside the chunk in between: writes outside
/// change nothing, and reads outside give air and full light.
pub proof fn lemma_written_block_is_read(
    chunk: ChunkView,
    x: int,
    y: int,
    z: int,
    id: BlockId,
    ox: int,
    oy: int,
    oz: int,
    other: BlockId,
    level: u8,
)
    requires
        chunk.wf(),
        in_chunk(x, y, z),
        !in_chunk(ox, oy, oz),
    ensures
        chunk.with_block(x, y, z, id).block_at(x, y, z) == id,
        chunk.with_block(x, y, z, id).wf(),
        chunk.with_block(ox, oy, oz, other) == chunk,
        chunk.with_light(ox, oy, oz, level) == chunk,
        chunk.with_block(x, y, z, id).with_block(ox, oy, oz, other).with_light(
            ox,
            oy,
            oz,
            level,
        ).block_at(x, y, z) == id,
        chunk.block_at(ox, oy, oz) == BlockId(0),
        chunk.light_at(ox, oy, oz) == 15,
{
}

/// A write leaves every other voxel as it was.
pub proof fn lemma_write_is_local(
    chunk: ChunkView,
    x: int,
    y: int,
    z: int,
    id: BlockId,
    level: u8,
    a: int,
    b: int,
    c: int,
)
    requires
        chunk.wf(),
        (a, b, c) != (x, y, z),
    ensures
        chunk.with_block(x, y, z, id).block_at(a, b, c) == chunk.block_at(a, b, c),
        chunk.with_block(x, y, z, id).light == chunk.light,
        chunk.with_light(x, y, z, level).light_at(a, b, c) == chunk.light_at(a, b, c),
        chunk.with_light(x, y, z, level).blocks == chunk.blocks,
{
}

/// A cubic grid of voxels: one block identifier and one light level per voxel.
pub struct Chunk {
    pub(crate) coord: ChunkCoord,
    pub(crate) blocks: Vec<BlockId>,
    pub(crate) light_levels: Vec<u8>,
}

impl View for Chunk {
    type V = ChunkView;

    closed spec fn view(&self) -> ChunkView {
        ChunkView {
            coord: self.coord,
            blocks: self.blocks@,
            light: self.light_levels@.map_values(|level: u8| clamp_light(level)),
        }
    }
}

impl Chunk {
    #[verifier::type_invariant]
    pub open spec fn inv(self) -> bool {
        self@.wf()
    }

    /// A chunk of air at full light.
    pub fn new(coord: ChunkCoord) -> (chunk: Chunk)
        ensures
            chunk@.wf(),
            chunk@.coord == coord,
            forall|i: int| 0 <= i < 4096 ==> chunk@.blocks[i] == BlockId(0),
            forall|i: int| 0 <= i < 4096 ==> chunk@.light[i] == 15,
    {
        let blocks: Vec<BlockId> = vec![BlockId(0); CHUNK_VOLUME];
        let light_levels: Vec<u8> = vec![MAX_LIGHT_LEVEL; CHUNK_VOLUME];
        Chunk { coord, blocks, light_levels }
    }

    fn index(x: usize, y: usize, z: usize) -> (i: usize)
        requires
            in_chunk(x as int, y as int, z as int),
        ensures
            i == cell(x as int, y as int, z as int),
            i < 4096,
    {
        x + z * CHUNK_SIZE + y * CHUNK_SIZE * CHUNK_SIZE
    }

    /// The chunk's position in the grid.
    pub fn coord(&self) -> (c: ChunkCoord)
        ensures
            c == self@.coord,
    {
        self.coord
    }

    pub fn get_block(&self, x: usize, y: usize, z: usize) -> (id: BlockId)
        ensures
            id == self@.block_at(x as int, y as int, z as int),
    {
        proof {
            use_type_invariant(self);
        }
        if x >= CHUNK_SIZE || y >= CHUNK_SIZE || z >= CHUNK_SIZE {
            return BlockId(0);
        }
        self.blocks[Self::index(x, y, z)]
    }

    pub fn set_block(&mut self, x: usize, y: usize, z: usize, block_id: BlockId)
        ensures
            final(self)@ == old(self)@.with_block(x as int, y as int, z as int, block_id),
    {
        proof {
            use_type_invariant(&*self);
        }
        if x < CHUNK_SIZE && y < CHUNK_SIZE && z < CHUNK_SIZE {
            let i = Self::index(x, y, z);
            self.blocks[i] = block_id;
        }
    }

    pub fn get_light(&self, x: usize, y: usize, z: usize) -> (level: u8)
        ensures
            level == self@.light_at(x as int, y as int, z as int),
            level <= 15,
    {
        proof {
            use_type_invariant(self);
        }
        if x >= CHUNK_SIZE || y >= CHUNK_SIZE || z >= CHUNK_SIZE {
            return MAX_LIGHT_LEVEL;
        }
        let stored: u8 = self.light_levels[Self::index(x, y, z)];
        if stored > MAX_LIGHT_LEVEL {
            MAX_LIGHT_LEVEL
        } else {
            stored
        }
    }

    pub fn set_light(&mut self, x: usize, y: usize, z: usize, level: u8)
        ensures
            final(self)@ == old(self)@.with_light(x as int, y as int, z as int, level),
    {
        proof {
            use_type_invariant(&*self);
        }
        if x < CHUNK_SIZE && y < CHUNK_SIZE && z < CHUNK_SIZE {
            let i = Self::index(x, y, z);
            let clamped: u8 = if level > MAX_LIGHT_LEVEL { MAX_LIGHT_LEVEL } else { level };
            self.light_levels[i] = clamped;
            assert(final(self)@.light =~= old(self)@.light.update(i as int, clamped));
        }
    }
}

/// Local coordinates of the voxel at in-plane position `(a, b)` of a boundary layer.
pub open spec fn boundary_cell(face: ChunkFace, a: int, b: int) -> (int, int, int) {
    match face {
        ChunkFace::NegX => (0, a, b),
        ChunkFace::PosX => (15, a, b),
        ChunkFace::NegY => (a, 0, b),
        ChunkFace::PosY => (a, 15, b),
        ChunkFace::NegZ => (a, b, 0),
        ChunkFace::PosZ => (a, b, 15),
    }
}

/// Whether `plane` holds the light of the chunk's boundary layer on `face`.
pub open spec fn is_boundary_plane(plane: LightPlane, chunk: ChunkView, face: ChunkFace) -> bool {
    forall|a: int, b: int|
        0 <= a < 16 && 0 <= b < 16 ==> #[trigger] plane[a][b] == chunk.light_at(
            boundary_cell(face, a, b).0,
            boundary_cell(face, a, b).1,
            boundary_cell(face, a, b).2,
        )
}

impl Chunk {
    fn boundary_plane(&self, face: ChunkFace) -> (plane: LightPlane)
        ensures
            is_boundary_plane(plane, self@, face),
    {
        let mut plane: LightPlane = [[0u8; 16]; 16];
        let mut a: usize = 0;
        while a < 16
            invariant
                a <= 16,
                forall|i: int, j: int|
                    0 <= i < a && 0 <= j < 16 ==> #[trigger] plane[i][j] == self@.light_at(
                        boundary_cell(face, i, j).0,
                        boundary_cell(face, i, j).1,
                        boundary_cell(face, i, j).2,
                    ),
            decreases 16 - a,
        {
            let mut row: [u8; 16] = [0u8; 16];
            let mut b: usize = 0;
            while b < 16
                invariant
                    a < 16,
                    b <= 16,
                    forall|j: int|
                        0 <= j < b ==> #[trigger] row[j] == self@.light_at(
                            boundary_cell(face, a as int, j).0,
                            boundary_cell(face, a as int, j).1,
                            boundary_cell(face, a as int, j).2,
                        ),
                decreases 16 - b,
            {
                let level: u8 = match face {
                    ChunkFace::NegX => self.get_light(0, a, b),
                    ChunkFace::PosX => self.get_light(CHUNK_SIZE - 1, a, b),
                    ChunkFace::NegY => self.get_light(a, 0, b),
                    ChunkFace::PosY => self.get_light(a, CHUNK_SIZE - 1, b),
                    ChunkFace::NegZ => self.get_light(a, b, 0),
                    ChunkFace::PosZ => self.get_light(a, b, CHUNK_SIZE - 1),
                };
                row[b] = level;
                b += 1;
            }
            plane[a] = row;
            a += 1;
        }
        plane
    }

    /// The light values on the six boundary layers of the chunk.
    pub fn get_boundary_light(&self) -> (boundary: BoundaryLight)
        ensures
            is_boundary_plane(boundary.neg_x, self@, ChunkFace::NegX),
            is_boundary_plane(boundary.pos_x, self@, ChunkFace::PosX),
            is_boundary_plane(boundary.neg_y, self@, ChunkFace::NegY),
            is_boundary_plane(boundary.pos_y, self@, ChunkFace::PosY),
            is_boundary_plane(boundary.neg_z, self@, ChunkFace::NegZ),
            is_boundary_plane(boundary.pos_z, self@, ChunkFace::PosZ),
    {
        BoundaryLight {
            neg_x: self.boundary_plane(ChunkFace::NegX),
            pos_x: self.boundary_plane(ChunkFace::PosX),
            neg_y: self.boundary_plane(ChunkFace::NegY),
            pos_y: self.boundary_plane(ChunkFace::PosY),
            neg_z: self.boundary_plane(ChunkFace::NegZ),
            pos_z: self.boundary_plane(ChunkFace::PosZ),
        }
    }

    /// Whether the face of the voxel at `(x, y, z)` toward `(dx, dy, dz)` is
    /// exposed, judged from this chunk alone: a face on the chunk boundary
    /// counts as exposed, any other is exposed when the voxel it touches is air.
    pub fn should_render_face(&self, x: usize, y: usize, z: usize, dx: i32, dy: i32, dz: i32) -> (exposed:
        bool)
        ensures
            exposed == (!in_chunk(x + dx, y + dy, z + dz) || self@.block_at(
                x + dx,
                y + dy,
                z + dz,
            ).is_air()),
    {
        let nx: i128 = x as i128 + dx as i128;
        let ny: i128 = y as i128 + dy as i128;
        let nz: i128 = z as i128 + dz as i128;
        if nx < 0 || nx >= 16 || ny < 0 || ny >= 16 || nz < 0 || nz >= 16 {
            return true;
        }
        self.get_block(nx as usize, ny as usize, nz as usize).is_air()
    }

    /// Number of voxels from the chunk floor up to and including the highest
    /// non-air voxel of the column `(x, z)`; 0 when the column is all air.
    pub open spec fn spec_height_at(view: ChunkView, x: int, z: int, top: int) -> int
        decreases top,
    {
        if top <= 0 {
            0
        } else if !view.block_at(x, top - 1, z).is_air() {
            top
        } else {
            Self::spec_height_at(view, x, z, top - 1)
        }
    }

    pub fn get_height_at(&self, x: usize, z: usize) -> (height: usize)
        ensures
            height == Self::spec_height_at(self@, x as int, z as int, 16),
            height <= 16,
            height > 0 ==> !self@.block_at(x as int, height - 1, z as int).is_air(),
            forall|h: int| height <= h < 16 ==> self@.block_at(x as int, h, z as int).is_air(),
    {
        let mut y: usize = CHUNK_SIZE;
        while y > 0
            invariant
                y <= 16,
                Self::spec_height_at(self@, x as int, z as int, 16) == Self::spec_height_at(
                    self@,
                    x as int,
                    z as int,
                    y as int,
                ),
                forall|h: int| y <= h < 16 ==> self@.block_at(x as int, h, z as int).is_air(),
            decreases y,
        {
            if !self.get_block(x, y - 1, z).is_air() {
                return y;
            }
            y -= 1;
        }
        0
    }

    /// An independent copy of the chunk.
    pub fn snapshot(&self) -> (copy: Chunk)
        ensures
            copy@ == self@,
    {
        proof {
            use_type_invariant(self);
        }
        let blocks = self.blocks.clone();
        let light_levels = self.light_levels.clone();
        assert(blocks@ =~= self.blocks@);
        assert(light_levels@ =~= self.light_levels@);
        Chunk { coord: self.coord, blocks, light_levels }
    }
}

/// The six face-adjacent chunks of a chunk, as far as they are known.
pub ghost struct Surroundings {
    pub neg_x: Option<ChunkView>,
    pub pos_x: Option<ChunkView>,
    pub neg_y: Option<ChunkView>,
    pub pos_y: Option<ChunkView>,
    pub neg_z: Option<ChunkView>,
    pub pos_z: Option<ChunkView>,
}

impl Surroundings {
    /// No neighbour is known.
    pub open spec fn none() -> Surroundings {
        Surroundings {
            neg_x: None,
            pos_x: None,
            neg_y: None,
            pos_y: None,
            neg_z: None,
            pos_z: None,
        }
    }

    pub open spec fn wf(self) -> bool {
        &&& self.neg_x matches Some(c) ==> c.wf()
        &&& self.pos_x matches Some(c) ==> c.wf()
        &&& self.neg_y matches Some(c) ==> c.wf()
        &&& self.pos_y matches Some(c) ==> c.wf()
        &&& self.neg_z matches Some(c) ==> c.wf()
        &&& self.pos_z matches Some(c) ==> c.wf()
    }
}

/// The content of an optional chunk reference.
pub open spec fn view_of(chunk: Option<&Chunk>) -> Option<ChunkView> {
    match chunk {
        Some(c) => Some(c@),
        None => None,
    }
}

/// References to the neighbouring chunks whose light may flow into a chunk.
pub struct NeighborLightData<'a> {
    pub neg_x: Option<&'a Chunk>,
    pub pos_x: Option<&'a Chunk>,
    pub neg_y: Option<&'a Chunk>,
    pub pos_y: Option<&'a Chunk>,
    pub neg_z: Option<&'a Chunk>,
    pub pos_z: Option<&'a Chunk>,
}

impl<'a> View for NeighborLightData<'a> {
    type V = Surroundings;

    open spec fn view(&self) -> Surroundings {
        Surroundings {
            neg_x: view_of(self.neg_x),
            pos_x: view_of(self.pos_x),
            neg_y: view_of(self.neg_y),
            pos_y: view_of(self.pos_y),
            neg_z: view_of(self.neg_z),
            pos_z: view_of(self.pos_z),
        }
    }
}

impl<'a> NeighborLightData<'a> {
    pub fn none() -> (n: Self)
        ensures
            n@ == Surroundings::none(),
    {
        NeighborLightData {
            neg_x: None,
            pos_x: None,
            neg_y: None,
            pos_y: None,
            neg_z: None,
            pos_z: None,
        }
    }

    /// Establishes that every referenced chunk is well formed.
    pub(crate) fn check_wf(&self)
        ensures
            self@.wf(),
    {
        if let Some(c) = self.neg_x {
            proof {
                use_type_invariant(c);
            }
        }
        if let Some(c) = self.pos_x {
            proof {
                use_type_invariant(c);
            }
        }
        if let Some(c) = self.neg_y {
            proof {
                use_type_invariant(c);
            }
        }
        if let Some(c) = self.pos_y {
            proof {
                use_type_invariant(c);
            }
        }
        if let Some(c) = self.neg_z {
            proof {
                use_type_invariant(c);
            }
        }
        if let Some(c) = self.pos_z {
            proof {
                use_type_invariant(c);
            }
        }
    }
}

} // verus!
