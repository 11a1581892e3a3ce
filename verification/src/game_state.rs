use vstd::prelude::*;

verus! {

/// Switches of the running game.
pub struct GameState {
    pub paused: bool,
    pub ui_visible: bool,
    pub creative_mode: bool,
}

impl Default for GameState {
    /// A running game in creative mode with its interface shown.
    fn default() -> (state: GameState)
        ensures
            !state.paused,
            state.ui_visible,
            state.creative_mode,
    {
        GameState { paused: false, ui_visible: true, creative_mode: true }
    }
}

/// Health and hunger of the player, each in half units from 0 to its maximum.
pub struct PlayerStats {
    pub health: u8,
    pub max_health: u8,
    pub hunger: u8,
    pub max_hunger: u8,
}

impl Default for PlayerStats {
    /// Full health and no hunger: twenty half units each.
    fn default() -> (stats: PlayerStats)
        ensures
            stats.health == 20,
            stats.max_health == 20,
            stats.hunger == 20,
            stats.max_hunger == 20,
    {
        PlayerStats { health: 20, max_health: 20, hunger: 20, max_hunger: 20 }
    }
}

/// How chunk borders are drawn.
#[derive(Clone, Copy, PartialEq, Eq, Structural)]
pub enum ChunkBorderMode {
    Off,
    /// One tall frame around the current chunk.
    Mode1,
    /// A grid of frames from the ground up.
    Mode2,
}

impl ChunkBorderMode {
    /// The mode that follows this one: off, then the frame, then the grid, then off again.
    pub open spec fn spec_next(self) -> ChunkBorderMode {
        match self {
            ChunkBorderMode::Off => ChunkBorderMode::Mode1,
            ChunkBorderMode::Mode1 => ChunkBorderMode::Mode2,
            ChunkBorderMode::Mode2 => ChunkBorderMode::Off,
        }
    }

    #[verifier::when_used_as_spec(spec_next)]
    pub fn next(self) -> (mode: ChunkBorderMode)
        ensures
            mode == self.spec_next(),
    {
        match self {
            ChunkBorderMode::Off => ChunkBorderMode::Mode1,
            ChunkBorderMode::Mode1 => ChunkBorderMode::Mode2,
            ChunkBorderMode::Mode2 => ChunkBorderMode::Off,
        }
    }
}

/// The current way of drawing chunk borders.
pub struct ChunkBorderState {
    pub mode: ChunkBorderMode,
}

impl Default for ChunkBorderState {
    fn default() -> (state: ChunkBorderState)
        ensures
            state.mode == ChunkBorderMode::Off,
    {
        ChunkBorderState { mode: ChunkBorderMode::Off }
    }
}

/// How much of an icon of a bar is filled.
#[derive(Debug, Clone, Copy, PartialEq, Eq, Structural)]
pub enum IconFill {
    Full,
    Half,
    Empty,
}

/// The fill of the icon at `index` of a bar that shows `value` in half
/// icons: the icon stands for the two points above `2 * index`.
pub open spec fn spec_icon_fill(value: u8, index: int) -> IconFill {
    if value >= 2 * index + 2 {
        IconFill::Full
    } else if value >= 2 * index + 1 {
        IconFill::Half
    } else {
        IconFill::Empty
    }
}

pub fn icon_fill(value: u8, index: usize) -> (fill: IconFill)
    ensures
        fill == spec_icon_fill(value, index as int),
{
    if index >= 128 {
        return IconFill::Empty;
    }
    let threshold: usize = index * 2 + 2;
    let half_threshold: usize = index * 2 + 1;
    if value as usize >= threshold {
        IconFill::Full
    } else if value as usize >= half_threshold {
        IconFill::Half
    } else {
        IconFill::Empty
    }
}

} // verus!
