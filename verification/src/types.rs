//! The closed sets of values a cell, a mark and a phase can take.

use vstd::prelude::*;

verus! {

/// Phase of a game. `GameOver` is terminal.
#[derive(PartialEq, Eq, Structural, Clone, Copy, Debug)]
pub enum GameState {
    Ready,
    Playing,
    GameOver,
}

/// Static classification of a cell, fixed by the puzzle.
#[derive(PartialEq, Eq, Structural, Clone, Copy, Debug)]
pub enum CellType {
    /// A wall without a clue.
    Wall,
    /// A wall that asks for this many orthogonally adjacent bulbs.
    Target(u8),
    /// An open cell.
    Empty,
}

/// Illumination of a cell, derived from the player's marks.
#[derive(PartialEq, Eq, Structural, Clone, Copy, Debug)]
pub enum LightState {
    /// Walls are never lit.
    IsWall,
    /// Lit, with the number of bulbs that shine on the cell; a cell that
    /// holds a bulb is at `MAX_LEVEL`.
    Light(u8),
    /// Open and reached by no bulb.
    Dark,
}

/// What the player has put on a cell.
#[derive(PartialEq, Eq, Structural, Clone, Copy, Debug)]
pub enum PlayerObject {
    /// Nothing can be put on a wall.
    IsWall,
    Lightbulb,
    Flag,
    Empty,
}

/// What a cell shows.
#[derive(PartialEq, Eq, Structural, Clone, Copy, Debug)]
pub enum CellDisplay {
    Wall,
    /// A numbered wall with what remains of its clue, as an unsigned byte.
    Target(u8),
    LightBulb,
    Light(u8),
    Flag,
    Dark,
}

/// The two things a player can do at the cursor.
#[derive(PartialEq, Eq, Structural, Clone, Copy, Debug)]
pub enum PlayerOperation {
    AddLightbulb,
    AddFlag,
}

/// A step of the cursor.
#[derive(PartialEq, Eq, Structural, Clone, Copy, Debug)]
pub enum Direction {
    Up,
    Down,
    Left,
    Right,
}

/// The level at which a cell that holds a bulb is shown.
pub const MAX_LEVEL: u8 = 4;

/// The largest clue a numbered wall can carry: a cell has four neighbours.
pub const MAX_CLUE: u8 = 4;

impl LightState {
    /// A lit cell of the given level.
    pub fn light(value: u8) -> (state: Self)
        ensures
            state == LightState::Light(value),
    {
        LightState::Light(value)
    }

    /// One more bulb shines on the cell. A wall stays a wall.
    pub open spec fn brighter(self) -> LightState {
        match self {
            LightState::Light(n) => LightState::Light((n + 1) as u8),
            LightState::Dark => LightState::Light(1),
            LightState::IsWall => LightState::IsWall,
        }
    }
}

} // verus!
