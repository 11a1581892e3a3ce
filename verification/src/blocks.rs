use vstd::prelude::*;

verus! {

/// Compact numeric identifier of a block kind. The value 0 is reserved for air.
#[derive(Debug, Clone, Copy, PartialEq, Eq, Hash, Structural)]
pub struct BlockId(pub u16);

impl BlockId {
    /// The identifier of air, the empty block.
    pub fn air() -> (id: BlockId)
        ensures
            id == BlockId(0),
    {
        BlockId(0)
    }

    /// Whether this identifier denotes air.
    pub open spec fn spec_is_air(self) -> bool {
        self.0 == 0
    }

    #[verifier::when_used_as_spec(spec_is_air)]
    pub fn is_air(self) -> (air: bool)
        ensures
            air == (self.0 == 0),
    {
        self.0 == 0
    }
}

/// One of the six faces of a block.
#[derive(Debug, Clone, Copy, PartialEq, Eq, Hash, Structural)]
pub enum BlockFace {
    Top,
    Bottom,
    North,
    South,
    East,
    West,
}

/// Bit pattern of the single-precision value 1.0.
pub const CHANNEL_ONE: u32 = 0x3F80_0000;

/// A colour to multiply a texture with. Each channel is carried as the bit
/// pattern of a single-precision value between 0 and 1; the library selects
/// and forwards colours and never computes with them.
#[derive(Debug, Clone, Copy, PartialEq, Eq, Structural)]
pub struct Tint {
    pub r: u32,
    pub g: u32,
    pub b: u32,
}

impl Tint {
    /// The colour that leaves a texture as it is.
    pub open spec fn spec_white() -> Tint {
        Tint { r: 0x3F80_0000, g: 0x3F80_0000, b: 0x3F80_0000 }
    }

    #[verifier::when_used_as_spec(spec_white)]
    pub fn white() -> (t: Tint)
        ensures
            t == Self::spec_white(),
    {
        Tint { r: CHANNEL_ONE, g: CHANNEL_ONE, b: CHANNEL_ONE }
    }
}

/// Optional tint for each face of a block; a face without one is not tinted.
#[derive(Debug, Clone, Copy)]
pub struct FaceTints {
    pub top: Option<Tint>,
    pub bottom: Option<Tint>,
    pub north: Option<Tint>,
    pub south: Option<Tint>,
    pub east: Option<Tint>,
    pub west: Option<Tint>,
}

impl FaceTints {
    /// No tint on any face.
    pub fn none() -> (t: FaceTints)
        ensures
            t == Self::spec_uniform(None),
    {
        FaceTints { top: None, bottom: None, north: None, south: None, east: None, west: None }
    }

    /// The same optional tint on all faces.
    pub open spec fn spec_uniform(color: Option<Tint>) -> FaceTints {
        FaceTints {
            top: color,
            bottom: color,
            north: color,
            south: color,
            east: color,
            west: color,
        }
    }

    /// The same tint on all faces.
    pub fn uniform(color: Tint) -> (t: FaceTints)
        ensures
            t == Self::spec_uniform(Some(color)),
    {
        FaceTints::from(Some(color))
    }

    /// The tint on the top and the four sides, none on the bottom.
    pub fn top_and_sides(color: Tint) -> (t: FaceTints)
        ensures
            t == (FaceTints { bottom: None, ..Self::spec_uniform(Some(color)) }),
    {
        FaceTints {
            top: Some(color),
            bottom: None,
            north: Some(color),
            south: Some(color),
            east: Some(color),
            west: Some(color),
        }
    }

    /// The tint of one face.
    pub open spec fn spec_get(&self, face: BlockFace) -> Option<Tint> {
        match face {
            BlockFace::Top => self.top,
            BlockFace::Bottom => self.bottom,
            BlockFace::North => self.north,
            BlockFace::South => self.south,
            BlockFace::East => self.east,
            BlockFace::West => self.west,
        }
    }

    #[verifier::when_used_as_spec(spec_get)]
    pub fn get(&self, face: BlockFace) -> (t: Option<Tint>)
        ensures
            t == self.spec_get(face),
    {
        match face {
            BlockFace::Top => self.top,
            BlockFace::Bottom => self.bottom,
            BlockFace::North => self.north,
            BlockFace::South => self.south,
            BlockFace::East => self.east,
            BlockFace::West => self.west,
        }
    }
}

impl From<Option<Tint>> for FaceTints {
    fn from(color: Option<Tint>) -> (t: FaceTints) {
        match color {
            Some(c) => FaceTints {
                top: Some(c),
                bottom: Some(c),
                north: Some(c),
                south: Some(c),
                east: Some(c),
                west: Some(c),
            },
            None => FaceTints::none(),
        }
    }
}

impl vstd::std_specs::convert::FromSpecImpl<Option<Tint>> for FaceTints {
    open spec fn obeys_from_spec() -> bool {
        true
    }

    open spec fn from_spec(color: Option<Tint>) -> FaceTints {
        FaceTints::spec_uniform(color)
    }
}

/// Position of a texture in the atlas, a grid of 16 by 16 cells.
#[derive(Debug, Clone, Copy, PartialEq, Eq, Structural)]
pub struct AtlasCoord {
    pub x: u8,
    pub y: u8,
}

/// Bounds of an atlas cell in texture space, in units of 1/512 of the atlas
/// edge: `(u_min, v_min, u_max, v_max)`.
pub type UvBounds = (u16, u16, u16, u16);

impl AtlasCoord {
    pub fn new(x: u8, y: u8) -> (c: AtlasCoord)
        ensures
            c == (AtlasCoord { x, y }),
    {
        AtlasCoord { x, y }
    }

    /// The cell's bounds, drawn in by half a texel on every edge.
    ///
    /// A cell is 1/16 of the atlas edge, which is 32 units; half a texel of an
    /// atlas of 256 texels is 1 unit.
    pub open spec fn spec_uv_coords(&self) -> UvBounds {
        (
            (32 * self.x + 1) as u16,
            (32 * self.y + 1) as u16,
            (32 * (self.x + 1) - 1) as u16,
            (32 * (self.y + 1) - 1) as u16,
        )
    }

    #[verifier::when_used_as_spec(spec_uv_coords)]
    pub fn uv_coords(&self) -> (uv: UvBounds)
        ensures
            uv == self.spec_uv_coords(),
            uv.0 == 32 * self.x + 1,
            uv.1 == 32 * self.y + 1,
            uv.2 == 32 * (self.x + 1) - 1,
            uv.3 == 32 * (self.y + 1) - 1,
    {
        let x: u16 = self.x as u16;
        let y: u16 = self.y as u16;
        (32 * x + 1, 32 * y + 1, 32 * (x + 1) - 1, 32 * (y + 1) - 1)
    }
}

/// The atlas cells of a block's six faces, and an optional overlay for its sides.
#[derive(Debug, Clone, Copy)]
pub struct BlockTextures {
    pub top: AtlasCoord,
    pub bottom: AtlasCoord,
    pub north: AtlasCoord,
    pub south: AtlasCoord,
    pub east: AtlasCoord,
    pub west: AtlasCoord,
    /// A greyscale texture that is tinted and drawn over the side faces.
    pub side_overlay: Option<AtlasCoord>,
}

impl BlockTextures {
    /// The same texture on all faces.
    pub fn uniform(coord: AtlasCoord) -> (t: BlockTextures)
        ensures
            t == (BlockTextures {
                top: coord,
                bottom: coord,
                north: coord,
                south: coord,
                east: coord,
                west: coord,
                side_overlay: None,
            }),
    {
        BlockTextures {
            top: coord,
            bottom: coord,
            north: coord,
            south: coord,
            east: coord,
            west: coord,
            side_overlay: None,
        }
    }

    /// One texture for the top, one for the bottom, one for the four sides.
    pub fn top_bottom_sides(top: AtlasCoord, bottom: AtlasCoord, sides: AtlasCoord) -> (t:
        BlockTextures)
        ensures
            t == (BlockTextures {
                top,
                bottom,
                north: sides,
                south: sides,
                east: sides,
                west: sides,
                side_overlay: None,
            }),
    {
        BlockTextures {
            top,
            bottom,
            north: sides,
            south: sides,
            east: sides,
            west: sides,
            side_overlay: None,
        }
    }

    /// As `top_bottom_sides`, with an overlay on the sides.
    pub fn with_side_overlay(
        top: AtlasCoord,
        bottom: AtlasCoord,
        sides: AtlasCoord,
        overlay: AtlasCoord,
    ) -> (t: BlockTextures)
        ensures
            t == (BlockTextures {
                top,
                bottom,
                north: sides,
                south: sides,
                east: sides,
                west: sides,
                side_overlay: Some(overlay),
            }),
    {
        BlockTextures {
            top,
            bottom,
            north: sides,
            south: sides,
            east: sides,
            west: sides,
            side_overlay: Some(overlay),
        }
    }

    /// The atlas cell of one face.
    pub open spec fn spec_get_face(&self, face: BlockFace) -> AtlasCoord {
        match face {
            BlockFace::Top => self.top,
            BlockFace::Bottom => self.bottom,
            BlockFace::North => self.north,
            BlockFace::South => self.south,
            BlockFace::East => self.east,
            BlockFace::West => self.west,
        }
    }

    #[verifier::when_used_as_spec(spec_get_face)]
    pub fn get_face(&self, face: BlockFace) -> (c: AtlasCoord)
        ensures
            c == self.spec_get_face(face),
    {
        match face {
            BlockFace::Top => self.top,
            BlockFace::Bottom => self.bottom,
            BlockFace::North => self.north,
            BlockFace::South => self.south,
            BlockFace::East => self.east,
            BlockFace::West => self.west,
        }
    }
}

/// What the world needs to know of a block kind.
#[derive(Debug, Clone)]
pub struct BlockProperties {
    /// Unique name, such as `core:stone`.
    pub id: String,
    /// Name for display.
    pub name: String,
    pub is_solid: bool,
    pub is_transparent: bool,
    pub light_emission: u8,
    pub textures: BlockTextures,
    pub tint_colors: FaceTints,
}

/// A kind of block.
#[derive(Debug, Clone)]
pub struct BlockType {
    pub properties: BlockProperties,
}

impl BlockType {
    pub fn new(properties: BlockProperties) -> (t: BlockType)
        ensures
            t.properties == properties,
    {
        BlockType { properties }
    }

    /// Starts a block kind that is solid, opaque, dark, untinted and without textures.
    pub fn builder(id: &str, name: &str) -> (b: BlockTypeBuilder)
        ensures
            b.id@ == id@,
            b.name@ == name@,
            b.is_solid,
            !b.is_transparent,
            b.light_emission == 0,
            b.textures is None,
            b.tint_colors == FaceTints::spec_uniform(None),
    {
        BlockTypeBuilder {
            id: id.to_owned(),
            name: name.to_owned(),
            is_solid: true,
            is_transparent: false,
            light_emission: 0,
            textures: None,
            tint_colors: FaceTints::none(),
        }
    }
}

/// Step-by-step construction of a `BlockType`.
pub struct BlockTypeBuilder {
    pub id: String,
    pub name: String,
    pub is_solid: bool,
    pub is_transparent: bool,
    pub light_emission: u8,
    pub textures: Option<BlockTextures>,
    pub tint_colors: FaceTints,
}

impl BlockTypeBuilder {
    pub fn solid(self, is_solid: bool) -> (b: BlockTypeBuilder)
        ensures
            b == (BlockTypeBuilder { is_solid, ..self }),
    {
        let mut b = self;
        b.is_solid = is_solid;
        b
    }

    pub fn transparent(self, is_transparent: bool) -> (b: BlockTypeBuilder)
        ensures
            b == (BlockTypeBuilder { is_transparent, ..self }),
    {
        let mut b = self;
        b.is_transparent = is_transparent;
        b
    }

    pub fn light_emission(self, level: u8) -> (b: BlockTypeBuilder)
        ensures
            b == (BlockTypeBuilder { light_emission: level, ..self }),
    {
        let mut b = self;
        b.light_emission = level;
        b
    }

    pub fn textures(self, textures: BlockTextures) -> (b: BlockTypeBuilder)
        ensures
            b == (BlockTypeBuilder { textures: Some(textures), ..self }),
    {
        let mut b = self;
        b.textures = Some(textures);
        b
    }

    pub fn tint_colors(self, tints: FaceTints) -> (b: BlockTypeBuilder)
        ensures
            b == (BlockTypeBuilder { tint_colors: tints, ..self }),
    {
        let mut b = self;
        b.tint_colors = tints;
        b
    }

    /// The block kind as described so far. Without textures, every face
    /// shows the atlas cell (0, 0).
    pub fn build(self) -> (t: BlockType)
        ensures
            t.properties == (BlockProperties {
                id: self.id,
                name: self.name,
                is_solid: self.is_solid,
                is_transparent: self.is_transparent,
                light_emission: self.light_emission,
                textures: match self.textures {
                    Some(textures) => textures,
                    None => BlockTextures {
                        top: AtlasCoord { x: 0, y: 0 },
                        bottom: AtlasCoord { x: 0, y: 0 },
                        north: AtlasCoord { x: 0, y: 0 },
                        south: AtlasCoord { x: 0, y: 0 },
                        east: AtlasCoord { x: 0, y: 0 },
                        west: AtlasCoord { x: 0, y: 0 },
                        side_overlay: None,
                    },
                },
                tint_colors: self.tint_colors,
            }),
    {
        let textures = match self.textures {
            Some(textures) => textures,
            None => BlockTextures::uniform(AtlasCoord::new(0, 0)),
        };
        BlockType {
            properties: BlockProperties {
                id: self.id,
                name: self.name,
                is_solid: self.is_solid,
                is_transparent: self.is_transparent,
                light_emission: self.light_emission,
                textures,
                tint_colors: self.tint_colors,
            },
        }
    }
}

} // verus!
