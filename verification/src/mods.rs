use vstd::prelude::*;
use crate::blocks::{AtlasCoord, BlockTextures, BlockType, FaceTints, Tint};
use crate::registry::{registered, BlockRegistry, RegistryError};

verus! {

/// A mod: a named unit that adds block kinds to the catalog.
pub trait GameMod {
    /// Unique short name, such as `core`.
    fn id(&self) -> &str;

    /// Name for display.
    fn name(&self) -> &str;

    /// Version text.
    fn version(&self) -> &str;

    /// Registers the mod's block kinds.
    fn register_blocks(&self, registry: &mut BlockRegistry);
}

/// The mod that provides the blocks of the terrain: stone, dirt, grass and bedrock.
pub struct VanillaMod;

/// Red, green and blue of the grass colour, about (0.486, 0.741, 0.420), as
/// single-precision bit patterns.
pub const GRASS_RED: u32 = 0x3EF8_D4FE;

pub const GRASS_GREEN: u32 = 0x3F3D_B22D;

pub const GRASS_BLUE: u32 = 0x3ED7_0A3D;

/// Whether the four names of the core blocks are all free in `kinds`.
pub open spec fn core_names_free(kinds: Seq<BlockType>) -> bool {
    &&& !registered(kinds, "core:stone"@)
    &&& !registered(kinds, "core:dirt"@)
    &&& !registered(kinds, "core:grass"@)
    &&& !registered(kinds, "core:bedrock"@)
}

/// Whether `kinds` continues `before` with the four core blocks: stone, dirt,
/// grass and bedrock, in this order, all solid and opaque.
pub open spec fn has_core_blocks(kinds: Seq<BlockType>, before: Seq<BlockType>) -> bool {
    let n = before.len() as int;
    &&& kinds.len() == n + 4
    &&& kinds.subrange(0, n) == before
    &&& kinds[n].properties.id@ == "core:stone"@
    &&& kinds[n].properties.textures == uniform_textures(1, 0)
    &&& kinds[n].properties.tint_colors == FaceTints::spec_uniform(None)
    &&& kinds[n + 1].properties.id@ == "core:dirt"@
    &&& kinds[n + 1].properties.textures == uniform_textures(2, 0)
    &&& kinds[n + 1].properties.tint_colors == FaceTints::spec_uniform(None)
    &&& kinds[n + 2].properties.id@ == "core:grass"@
    &&& kinds[n + 2].properties.textures == (BlockTextures {
        top: AtlasCoord { x: 0, y: 0 },
        side_overlay: Some(AtlasCoord { x: 6, y: 2 }),
        ..uniform_textures(2, 0)
    })
    &&& kinds[n + 2].properties.tint_colors == (FaceTints {
        top: Some(Tint { r: 0x3EF8_D4FE, g: 0x3F3D_B22D, b: 0x3ED7_0A3D }),
        ..FaceTints::spec_uniform(None)
    })
    &&& kinds[n + 3].properties.id@ == "core:bedrock"@
    &&& kinds[n + 3].properties.textures == uniform_textures(1, 1)
    &&& kinds[n + 3].properties.tint_colors == FaceTints::spec_uniform(None)
    &&& forall|k: int|
        n <= k < n + 4 ==> (#[trigger] kinds[k]).properties.is_solid
            && !kinds[k].properties.is_transparent && kinds[k].properties.light_emission == 0
}

/// The same atlas cell on every face, without overlay.
pub open spec fn uniform_textures(x: u8, y: u8) -> BlockTextures {
    BlockTextures {
        top: AtlasCoord { x, y },
        bottom: AtlasCoord { x, y },
        north: AtlasCoord { x, y },
        south: AtlasCoord { x, y },
        east: AtlasCoord { x, y },
        west: AtlasCoord { x, y },
        side_overlay: None,
    }
}

impl VanillaMod {
    /// Registers stone, dirt, grass and bedrock, in this order, and stops at
    /// the first that the registry refuses.
    ///
    /// All four are registered where their names are free and the registry
    /// has room for four more.
    pub fn register_core_blocks(&self, registry: &mut BlockRegistry) -> (result: Result<
        (),
        RegistryError,
    >)
        ensures
            result is Ok <==> core_names_free(old(registry)@) && old(registry)@.len() + 4 <= 65535,
            result is Ok ==> has_core_blocks(final(registry)@, old(registry)@),
            final(registry)@.len() >= old(registry)@.len(),
            final(registry)@.subrange(0, old(registry)@.len() as int) == old(registry)@,
    {
        proof {
            reveal_strlit("core:stone");
            reveal_strlit("core:dirt");
            reveal_strlit("core:grass");
            reveal_strlit("core:bedrock");
            assert("core:stone"@ != "core:dirt"@) by {
                assert("core:stone"@[5] != "core:dirt"@[5]);
            }
            assert("core:stone"@ != "core:grass"@) by {
                assert("core:stone"@[5] != "core:grass"@[5]);
            }
            assert("core:stone"@ != "core:bedrock"@) by {
                assert("core:stone"@[5] != "core:bedrock"@[5]);
            }
            assert("core:dirt"@ != "core:grass"@) by {
                assert("core:dirt"@[5] != "core:grass"@[5]);
            }
            assert("core:dirt"@ != "core:bedrock"@) by {
                assert("core:dirt"@[5] != "core:bedrock"@[5]);
            }
            assert("core:grass"@ != "core:bedrock"@) by {
                assert("core:grass"@[5] != "core:bedrock"@[5]);
            }
        }
        let ghost before = registry@;
        let stone = BlockType::builder("core:stone", "Stone").solid(true).transparent(false).textures(
            BlockTextures::uniform(AtlasCoord::new(1, 0)),
        ).build();
        match registry.register_block(stone) {
            Ok(_) => {},
            Err(e) => {
                assert(registry@.subrange(0, before.len() as int) =~= before);
                return Err(e);
            },
        }
        let ghost with_stone = registry@;
        proof {
            lemma_registered_after_push(before, stone);
        }
        let dirt = BlockType::builder("core:dirt", "Dirt").solid(true).transparent(false).textures(
            BlockTextures::uniform(AtlasCoord::new(2, 0)),
        ).build();
        match registry.register_block(dirt) {
            Ok(_) => {},
            Err(e) => {
                assert(registry@.subrange(0, before.len() as int) =~= before);
                return Err(e);
            },
        }
        let ghost with_dirt = registry@;
        proof {
            lemma_registered_after_push(with_stone, dirt);
        }
        let grass = BlockType::builder("core:grass", "Grass Block").solid(true).transparent(
            false,
        ).textures(
            BlockTextures::with_side_overlay(
                AtlasCoord::new(0, 0),
                AtlasCoord::new(2, 0),
                AtlasCoord::new(2, 0),
                AtlasCoord::new(6, 2),
            ),
        ).tint_colors(
            FaceTints {
                top: Some(Tint { r: GRASS_RED, g: GRASS_GREEN, b: GRASS_BLUE }),
                bottom: None,
                north: None,
                south: None,
                east: None,
                west: None,
            },
        ).build();
        match registry.register_block(grass) {
            Ok(_) => {},
            Err(e) => {
                assert(registry@.subrange(0, before.len() as int) =~= before);
                return Err(e);
            },
        }
        let ghost with_grass = registry@;
        proof {
            lemma_registered_after_push(with_dirt, grass);
        }
        let bedrock = BlockType::builder("core:bedrock", "Bedrock").solid(true).transparent(
            false,
        ).textures(BlockTextures::uniform(AtlasCoord::new(1, 1))).build();
        match registry.register_block(bedrock) {
            Ok(_) => {},
            Err(e) => {
                assert(registry@.subrange(0, before.len() as int) =~= before);
                return Err(e);
            },
        }
        assert(registry@.subrange(0, before.len() as int) =~= before);
        Ok(())
    }
}

/// A name is registered after one more registration if it was before or is
/// the name of the new entry.
proof fn lemma_registered_after_push(kinds: Seq<BlockType>, added: BlockType)
    ensures
        forall|name: Seq<char>|
            #![trigger registered(kinds.push(added), name)]
            registered(kinds.push(added), name) <==> registered(kinds, name)
                || added.properties.id@ == name,
{
    assert forall|name: Seq<char>| #![trigger registered(kinds.push(added), name)]
        registered(kinds.push(added), name) <==> registered(kinds, name) || added.properties.id@
            == name by {
        if registered(kinds, name) {
            let i = choose|i: int| 0 <= i < kinds.len() && #[trigger] kinds[i].properties.id@ == name;
            assert(kinds.push(added)[i].properties.id@ == name);
        }
        if added.properties.id@ == name {
            assert(kinds.push(added)[kinds.len() as int].properties.id@ == name);
        }
        if registered(kinds.push(added), name) {
            let i = choose|i: int|
                0 <= i < kinds.push(added).len() && #[trigger] kinds.push(added)[i].properties.id@
                    == name;
            if i < kinds.len() {
                assert(kinds[i].properties.id@ == name);
            }
        }
    }
}

impl GameMod for VanillaMod {
    fn id(&self) -> (id: &str)
        ensures
            id@ == "core"@,
    {
        "core"
    }

    fn name(&self) -> (name: &str)
        ensures
            name@ == "VoxelCraft Core"@,
    {
        "VoxelCraft Core"
    }

    fn version(&self) -> (version: &str)
        ensures
            version@ == "0.1.0"@,
    {
        "0.1.0"
    }

    /// Registers the core blocks as far as the registry takes them: all
    /// four where their names are free and the registry has room for them.
    fn register_blocks(&self, registry: &mut BlockRegistry)
        ensures
            core_names_free(old(registry)@) && old(registry)@.len() + 4 <= 65535
                ==> has_core_blocks(final(registry)@, old(registry)@),
            final(registry)@.len() >= old(registry)@.len(),
            final(registry)@.subrange(0, old(registry)@.len() as int) == old(registry)@,
    {
        let _ = self.register_core_blocks(registry);
    }
}

} // verus!
