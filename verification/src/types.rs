//! Plain value types shared by the whole engine.

use std::ops::Add;
use vstd::prelude::*;
use vstd::std_specs::convert::FromSpecImpl;
use vstd::std_specs::ops::AddSpecImpl;

verus! {

/// A cell position on the grid. `x` grows to the right, `y` downwards.
#[derive(Clone, Copy, Debug, PartialEq, Eq, Hash, Structural)]
pub struct Coordinates {
    pub x: i32,
    pub y: i32,
}

impl Coordinates {
    /// The position reached from `self` by moving `dx` columns and `dy` rows.
    pub open spec fn shifted(self, dx: int, dy: int) -> Coordinates {
        Coordinates { x: (self.x + dx) as i32, y: (self.y + dy) as i32 }
    }
}

impl From<(i32, i32)> for Coordinates {
    fn from(pair: (i32, i32)) -> (c: Self) {
        Coordinates { x: pair.0, y: pair.1 }
    }
}

impl FromSpecImpl<(i32, i32)> for Coordinates {
    open spec fn obeys_from_spec() -> bool {
        true
    }

    open spec fn from_spec(pair: (i32, i32)) -> Self {
        Coordinates { x: pair.0, y: pair.1 }
    }
}

impl Add for Coordinates {
    type Output = Coordinates;

    fn add(self, rhs: Coordinates) -> (sum: Coordinates) {
        Coordinates { x: self.x + rhs.x, y: self.y + rhs.y }
    }
}

impl AddSpecImpl for Coordinates {
    open spec fn obeys_add_spec() -> bool {
        true
    }

    open spec fn add_req(self, rhs: Coordinates) -> bool {
        &&& i32::MIN <= self.x + rhs.x <= i32::MAX
        &&& i32::MIN <= self.y + rhs.y <= i32::MAX
    }

    open spec fn add_spec(self, rhs: Coordinates) -> Coordinates {
        self.shifted(rhs.x as int, rhs.y as int)
    }
}

/// What a game is generated from: the grid's `(width, height)` and the number of mines.
#[derive(Clone, Copy, Debug)]
pub struct GameSettings {
    pub dimensions: (i32, i32),
    pub bomb_count: i32,
}

/// Why a board cannot be generated from what was asked for.
#[derive(Clone, Copy, Debug, PartialEq, Eq, Structural)]
pub enum ConfigError {
    /// The width or the height is not positive.
    EmptyGrid,
    /// The grid has more cells than the tile counter can count.
    GridTooLarge,
    /// The number of mines is negative, or leaves no cell without a mine.
    MineCount,
    /// A mine lies off the grid, or two mines share a cell.
    MinePosition,
}

/// The phase of a game. `Playing` is where every game starts; the other two are final.
#[derive(Clone, Copy, Debug, PartialEq, Eq, Hash, Structural)]
pub enum GameState {
    Won,
    Lost,
    Playing,
}

impl Default for GameState {
    fn default() -> (state: GameState)
        ensures
            state == GameState::Playing,
    {
        GameState::Playing
    }
}

/// The cell that the player's cursor rests on.
#[derive(Clone, Copy, Debug, PartialEq, Eq, Structural)]
pub struct PlayerPosition(pub Coordinates);

/// A request to open the tile at a position. The flag tells a request made by the
/// player (`true`) from one that a cascade produced (`false`).
#[derive(Clone, Copy, Debug, PartialEq, Eq, Structural)]
pub struct OpenTileEvent(pub Coordinates, pub bool);

/// A request to flip the flag of the tile at a position.
#[derive(Clone, Copy, Debug, PartialEq, Eq, Structural)]
pub struct FlagTileEvent(pub Coordinates);

} // verus!
