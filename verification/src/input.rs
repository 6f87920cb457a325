//! What a key press means: where the cursor goes and what is asked of the
//! engine. Reading the keyboard is left to the caller.

use crate::board::Board;
use crate::types::{Coordinates, FlagTileEvent, OpenTileEvent, PlayerPosition};
use vstd::prelude::*;

verus! {

/// A key, as far as the game tells keys apart.
#[derive(Clone, Copy, Debug, PartialEq, Eq, Structural)]
pub enum KeyPress {
    Escape,
    Up,
    Down,
    Left,
    Right,
    Char(char),
    Other,
}

/// What a key press asks for besides moving the cursor.
#[derive(Clone, Copy, Debug, PartialEq, Eq, Structural)]
pub enum Command {
    /// Leave the game.
    Quit,
    /// Open the tile under the cursor, at the player's request.
    Open(OpenTileEvent),
    /// Flip the flag of the tile under the cursor.
    Flag(FlagTileEvent),
}

/// The columns and rows by which a key moves the cursor: the arrow keys and
/// `w`, `a`, `s`, `d` move it by one cell, no other key moves it.
pub open spec fn step_of(key: Option<KeyPress>) -> (int, int) {
    match key {
        Some(KeyPress::Up) => (0, -1),
        Some(KeyPress::Left) => (-1, 0),
        Some(KeyPress::Down) => (0, 1),
        Some(KeyPress::Right) => (1, 0),
        Some(KeyPress::Char(c)) => if c == 'w' {
            (0, -1)
        } else if c == 'a' {
            (-1, 0)
        } else if c == 's' {
            (0, 1)
        } else if c == 'd' {
            (1, 0)
        } else {
            (0, 0)
        },
        _ => (0, 0),
    }
}

/// Where the cursor stands after a key: one step further if that is on the
/// grid, else where it stood.
pub open spec fn moved(from: Coordinates, key: Option<KeyPress>, width: int, height: int) -> Coordinates {
    let x = from.x + step_of(key).0;
    let y = from.y + step_of(key).1;
    if 0 <= x < width && 0 <= y < height {
        Coordinates { x: x as i32, y: y as i32 }
    } else {
        from
    }
}

/// What a key asks for with the cursor at `at`: `Esc` to leave, `q` to open the
/// tile there, `e` to flag it; any other key, and no key, asks for nothing.
pub open spec fn command_of(at: Coordinates, key: Option<KeyPress>) -> Option<Command> {
    match key {
        Some(KeyPress::Escape) => Some(Command::Quit),
        Some(KeyPress::Char(c)) => if c == 'q' {
            Some(Command::Open(OpenTileEvent(at, true)))
        } else if c == 'e' {
            Some(Command::Flag(FlagTileEvent(at)))
        } else {
            None
        },
        _ => None,
    }
}

/// Takes the key that was pressed, if one was: moves the cursor, which never
/// leaves the grid by a key, and returns what the key asks for at the place
/// where the cursor stood.
pub fn handle_input(
    player_pos: &mut PlayerPosition,
    board: &Board,
    key: Option<KeyPress>,
) -> (command: Option<Command>)
    ensures
        final(player_pos).0 == moved(old(player_pos).0, key, board@.width, board@.height),
        command == command_of(old(player_pos).0, key),
{
    let at = player_pos.0;
    let mut x: i64 = at.x as i64;
    let mut y: i64 = at.y as i64;
    let mut command: Option<Command> = None;
    match key {
        Some(KeyPress::Escape) => {
            command = Some(Command::Quit);
        },
        Some(KeyPress::Up) => {
            y = y - 1;
        },
        Some(KeyPress::Left) => {
            x = x - 1;
        },
        Some(KeyPress::Down) => {
            y = y + 1;
        },
        Some(KeyPress::Right) => {
            x = x + 1;
        },
        Some(KeyPress::Char(c)) => {
            if c == 'w' {
                y = y - 1;
            } else if c == 'a' {
                x = x - 1;
            } else if c == 's' {
                y = y + 1;
            } else if c == 'd' {
                x = x + 1;
            } else if c == 'q' {
                command = Some(Command::Open(OpenTileEvent(at, true)));
            } else if c == 'e' {
                command = Some(Command::Flag(FlagTileEvent(at)));
            }
        },
        _ => {},
    }
    if x < board.width() as i64 && x >= 0 && y < board.height() as i64 && y >= 0 {
        player_pos.0 = Coordinates { x: x as i32, y: y as i32 };
    }
    command
}

} // verus!
