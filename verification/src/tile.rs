//! The state of one cell.

use vstd::prelude::*;

verus! {

/// What a cell hides: a mine, or the number of mines among its neighbours.
#[derive(Clone, Copy, Debug, PartialEq, Eq, Structural)]
pub enum TileType {
    Bomb,
    Number(i32),
}

/// One cell of the board. `kind` never changes once the board is generated,
/// `open` only ever goes from `false` to `true`, and `flagged` is the player's mark
/// on a closed cell.
#[derive(Clone, Copy, Debug, PartialEq, Eq, Structural)]
pub struct Tile {
    pub kind: TileType,
    pub open: bool,
    pub flagged: bool,
}

impl Tile {
    /// A numbered tile counts between 0 and 8 mines.
    pub open spec fn wf(self) -> bool {
        self.kind matches TileType::Number(n) ==> 0 <= n <= 8
    }

    /// The two characters that show the tile: its content once open, else the
    /// flag or the blank cover.
    pub open spec fn glyph(self) -> Seq<char> {
        if self.open {
            match self.kind {
                TileType::Bomb => "✹ "@,
                TileType::Number(n) => if n == 0 {
                    "  "@
                } else {
                    seq![(('0' as u8) + n) as u8 as char, ' ']
                },
            }
        } else if self.flagged {
            "⚑ "@
        } else {
            "██"@
        }
    }

    /// A closed, unflagged tile of the given kind.
    pub fn new(kind: TileType) -> (tile: Tile)
        ensures
            tile == (Tile { kind, open: false, flagged: false }),
    {
        Tile { kind, open: false, flagged: false }
    }

    /// The text that shows the tile on screen.
    pub fn to_string(&self) -> (text: String)
        requires
            self.wf(),
        ensures
            text@ == self.glyph(),
    {
        proof {
            reveal_strlit("1 ");
            reveal_strlit("2 ");
            reveal_strlit("3 ");
            reveal_strlit("4 ");
            reveal_strlit("5 ");
            reveal_strlit("6 ");
            reveal_strlit("7 ");
            reveal_strlit("8 ");
        }
        let text: &str = if self.open {
            match self.kind {
                TileType::Bomb => "✹ ",
                TileType::Number(n) => {
                    if n == 0 {
                        "  "
                    } else if n == 1 {
                        "1 "
                    } else if n == 2 {
                        "2 "
                    } else if n == 3 {
                        "3 "
                    } else if n == 4 {
                        "4 "
                    } else if n == 5 {
                        "5 "
                    } else if n == 6 {
                        "6 "
                    } else if n == 7 {
                        "7 "
                    } else {
                        "8 "
                    }
                },
            }
        } else if self.flagged {
            "⚑ "
        } else {
            "██"
        };
        assert(text@ =~= self.glyph());
        text.to_owned()
    }
}

} // verus!
