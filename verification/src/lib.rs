//! The voxel-world core of a block sandbox: chunk storage, sky light,
//! terrain filling, surface meshing and chunk streaming, with every function
//! proved against its contract.
//!
//! The library computes on integers alone. A colour channel is carried as
//! the bit pattern of its single-precision value, a texture coordinate in
//! units of 1/512 of the atlas edge, and the brightness of a face as the light
//! level and the direction from which a renderer works it out.

pub mod batch;
pub mod blocks;
pub mod chunk;
pub mod coord_map;
pub mod game_state;
pub mod inventory;
pub mod light;
pub mod mesh;
pub mod mods;
pub mod overlay;
pub mod registry;
pub mod relight;
pub mod terrain;
pub mod world;
