use voxel_world::blocks::{
    AtlasCoord, BlockFace, BlockId, BlockTextures, BlockType, FaceTints, Tint,
};
use voxel_world::mods::{GameMod, VanillaMod};
use voxel_world::registry::{BlockRegistry, RegistryError};

#[test]
fn test_air_block_registration() {
    let registry = BlockRegistry::new();
    assert_eq!(registry.block_count(), 1);
    assert!(registry.get_block(BlockId::air()).is_some());
    assert_eq!(
        registry.get_block(BlockId::air()).unwrap().properties.id,
        "core:air"
    );
}

#[test]
fn test_register_and_get_block() {
    let mut registry = BlockRegistry::new();

    let stone = BlockType::builder("core:stone", "Stone").build();
    let id = registry.register_block(stone).unwrap();

    assert_eq!(registry.block_count(), 2);
    assert!(registry.get_block(id).is_some());
    assert_eq!(registry.get_id("core:stone"), Some(id));
}

#[test]
fn test_duplicate_registration() {
    let mut registry = BlockRegistry::new();

    let stone1 = BlockType::builder("core:stone", "Stone").build();
    let stone2 = BlockType::builder("core:stone", "Stone").build();

    assert!(registry.register_block(stone1).is_ok());
    assert!(registry.register_block(stone2).is_err());
}

#[test]
fn duplicate_registration_names_its_cause_and_changes_nothing() {
    let mut registry = BlockRegistry::new();
    registry
        .register_block(BlockType::builder("core:stone", "Stone").build())
        .unwrap();
    let again = registry.register_block(BlockType::builder("core:stone", "Other").build());
    assert_eq!(again, Err(RegistryError::AlreadyRegistered));
    assert_eq!(registry.block_count(), 2);
    assert_eq!(
        registry.get_block(BlockId(1)).unwrap().properties.name,
        "Stone"
    );
}

#[test]
fn air_entry_is_not_solid_and_emits_no_light() {
    let registry = BlockRegistry::default();
    let air = registry.get_block(BlockId(0)).unwrap();
    assert!(!air.properties.is_solid);
    assert!(air.properties.is_transparent);
    assert_eq!(air.properties.light_emission, 0);
    assert_eq!(air.properties.name, "Air");
}

#[test]
fn identifiers_are_given_in_order_of_registration() {
    let mut registry = BlockRegistry::new();
    let a = registry
        .register_block(BlockType::builder("m:a", "A").build())
        .unwrap();
    let b = registry
        .register_block(BlockType::builder("m:b", "B").build())
        .unwrap();
    assert_eq!(a, BlockId(1));
    assert_eq!(b, BlockId(2));
    assert_eq!(
        registry.get_all_ids(),
        vec![BlockId(0), BlockId(1), BlockId(2)]
    );
    assert_eq!(registry.get_string_id(b), Some("m:b"));
    assert_eq!(registry.get_string_id(BlockId(3)), None);
    assert!(registry.get_block(BlockId(3)).is_none());
    assert_eq!(registry.get_id("m:c"), None);
    assert_eq!(
        registry.get_block_by_string_id("m:a").unwrap().properties.name,
        "A"
    );
    assert!(registry.get_block_by_string_id("m:z").is_none());
}

#[test]
fn registry_refuses_more_than_its_limit() {
    let mut registry = BlockRegistry::new();
    let mut n: u32 = 1;
    while n < 65535 {
        let name = format!("m:{}", n);
        let id = registry
            .register_block(BlockType::builder(&name, "X").build())
            .unwrap();
        assert_eq!(id, BlockId(n as u16));
        n += 1;
    }
    assert_eq!(registry.block_count(), 65535);
    let full = registry.register_block(BlockType::builder("m:last", "X").build());
    assert_eq!(full, Err(RegistryError::Full));
    assert_eq!(registry.block_count(), 65535);
}

#[test]
fn builder_defaults_and_overrides() {
    let plain = BlockType::builder("m:plain", "Plain").build();
    assert!(plain.properties.is_solid);
    assert!(!plain.properties.is_transparent);
    assert_eq!(plain.properties.light_emission, 0);
    assert_eq!(plain.properties.textures.top, AtlasCoord::new(0, 0));
    assert_eq!(plain.properties.textures.west, AtlasCoord::new(0, 0));
    assert!(plain.properties.textures.side_overlay.is_none());
    assert!(plain.properties.tint_colors.top.is_none());

    let red = Tint { r: 0x3F80_0000, g: 0, b: 0 };
    let lamp = BlockType::builder("m:lamp", "Lamp")
        .solid(false)
        .transparent(true)
        .light_emission(14)
        .textures(BlockTextures::uniform(AtlasCoord::new(3, 4)))
        .tint_colors(FaceTints::top_and_sides(red))
        .build();
    assert!(!lamp.properties.is_solid);
    assert!(lamp.properties.is_transparent);
    assert_eq!(lamp.properties.light_emission, 14);
    assert_eq!(lamp.properties.textures.north, AtlasCoord::new(3, 4));
    assert_eq!(lamp.properties.tint_colors.top, Some(red));
    assert_eq!(lamp.properties.tint_colors.east, Some(red));
    assert_eq!(lamp.properties.tint_colors.bottom, None);
}

#[test]
fn face_tints_from_one_colour() {
    let c = Tint { r: 1, g: 2, b: 3 };
    let all = FaceTints::uniform(c);
    assert_eq!(all.top, Some(c));
    assert_eq!(all.bottom, Some(c));
    assert_eq!(all.west, Some(c));
    let none = FaceTints::from(None);
    assert_eq!(none.top, None);
    assert_eq!(none.south, None);
    assert_eq!(FaceTints::none().north, None);
    assert_eq!(Tint::white(), Tint { r: 0x3F80_0000, g: 0x3F80_0000, b: 0x3F80_0000 });
    assert_eq!(f32::from_bits(Tint::white().r), 1.0);
}

#[test]
fn atlas_cell_bounds_are_padded_by_half_a_texel() {
    assert_eq!(AtlasCoord::new(0, 0).uv_coords(), (1, 1, 31, 31));
    assert_eq!(AtlasCoord::new(1, 0).uv_coords(), (33, 1, 63, 31));
    assert_eq!(AtlasCoord::new(15, 15).uv_coords(), (481, 481, 511, 511));
    assert_eq!(AtlasCoord::new(255, 255).uv_coords(), (8161, 8161, 8191, 8191));
    // in texture space: 1/16 + 0.001953125
    let (u_min, _, u_max, _) = AtlasCoord::new(1, 0).uv_coords();
    assert_eq!(u_min as f32 / 512.0, 1.0 / 16.0 + 0.001953125);
    assert_eq!(u_max as f32 / 512.0, 2.0 / 16.0 - 0.001953125);
}

#[test]
fn block_textures_by_face() {
    let t = BlockTextures::with_side_overlay(
        AtlasCoord::new(0, 0),
        AtlasCoord::new(2, 0),
        AtlasCoord::new(3, 0),
        AtlasCoord::new(6, 2),
    );
    assert_eq!(t.get_face(BlockFace::Top), AtlasCoord::new(0, 0));
    assert_eq!(t.get_face(BlockFace::Bottom), AtlasCoord::new(2, 0));
    assert_eq!(t.get_face(BlockFace::North), AtlasCoord::new(3, 0));
    assert_eq!(t.get_face(BlockFace::South), AtlasCoord::new(3, 0));
    assert_eq!(t.get_face(BlockFace::East), AtlasCoord::new(3, 0));
    assert_eq!(t.get_face(BlockFace::West), AtlasCoord::new(3, 0));
    assert_eq!(t.side_overlay, Some(AtlasCoord::new(6, 2)));
    let s = BlockTextures::top_bottom_sides(
        AtlasCoord::new(1, 1),
        AtlasCoord::new(2, 2),
        AtlasCoord::new(3, 3),
    );
    assert_eq!(s.get_face(BlockFace::Top), AtlasCoord::new(1, 1));
    assert_eq!(s.get_face(BlockFace::Bottom), AtlasCoord::new(2, 2));
    assert_eq!(s.get_face(BlockFace::East), AtlasCoord::new(3, 3));
    assert_eq!(s.side_overlay, None);
}

#[test]
fn vanilla_mod_registers_the_terrain_blocks() {
    let mut registry = BlockRegistry::new();
    let core = VanillaMod;
    assert_eq!(core.id(), "core");
    assert_eq!(core.name(), "VoxelCraft Core");
    assert_eq!(core.version(), "0.1.0");
    core.register_blocks(&mut registry);
    assert_eq!(registry.block_count(), 5);
    assert_eq!(registry.get_id("core:stone"), Some(BlockId(1)));
    assert_eq!(registry.get_id("core:dirt"), Some(BlockId(2)));
    assert_eq!(registry.get_id("core:grass"), Some(BlockId(3)));
    assert_eq!(registry.get_id("core:bedrock"), Some(BlockId(4)));
    let grass = registry.get_block(BlockId(3)).unwrap();
    assert_eq!(grass.properties.name, "Grass Block");
    assert_eq!(grass.properties.textures.top, AtlasCoord::new(0, 0));
    assert_eq!(grass.properties.textures.bottom, AtlasCoord::new(2, 0));
    assert_eq!(grass.properties.textures.north, AtlasCoord::new(2, 0));
    assert_eq!(grass.properties.textures.side_overlay, Some(AtlasCoord::new(6, 2)));
    let tint = grass.properties.tint_colors.top.unwrap();
    assert_eq!(f32::from_bits(tint.r), 0.486);
    assert_eq!(f32::from_bits(tint.g), 0.741);
    assert_eq!(f32::from_bits(tint.b), 0.420);
    assert!(grass.properties.tint_colors.north.is_none());
    let bedrock = registry.get_block(BlockId(4)).unwrap();
    assert_eq!(bedrock.properties.textures.top, AtlasCoord::new(1, 1));
    assert!(bedrock.properties.is_solid);
}

#[test]
fn vanilla_mod_stops_where_a_name_is_taken() {
    let mut registry = BlockRegistry::new();
    registry
        .register_block(BlockType::builder("core:dirt", "Mine").build())
        .unwrap();
    let core = VanillaMod;
    let result = core.register_core_blocks(&mut registry);
    assert_eq!(result, Err(RegistryError::AlreadyRegistered));
    // stone was registered before dirt was refused
    assert_eq!(registry.block_count(), 3);
    assert_eq!(registry.get_id("core:stone"), Some(BlockId(2)));
    assert_eq!(registry.get_id("core:grass"), None);
}
