//! The board: its tiles, how it is generated, and how requests change it.

use crate::generate::{distinct_on_grid, fill_numbers, lay_mines, only_mines, scatter_mines};
use crate::grid::{grid, lemma_filter_next, lemma_grid_len, neighbor, neighbors};
use crate::rules::{
    among, apply, apply_all, automatic, can_open, chord, closed, closed_numbers, flood, follow_ups, mines,
    numbers_fit, open_at, present, tick, toggle_all, toggle_at, untouched, Play, Tiles,
};
use crate::store::{count_flags_around, lookup, place, tiles_of};
use crate::tile::{Tile, TileType};
use crate::tile_map::TileMap;
use crate::types::{ConfigError, Coordinates, FlagTileEvent, GameSettings, GameState, OpenTileEvent};
use vstd::prelude::*;

verus! {

/// A rectangular field of tiles, and the count of numbered tiles not yet open.
pub struct Board {
    width: i32,
    height: i32,
    tiles: TileMap,
    tiles_left: i32,
}

/// What a board is, as mathematics.
pub struct BoardView {
    pub width: int,
    pub height: int,
    pub tiles: Tiles,
    pub tiles_left: int,
}

impl BoardView {
    /// What holds of every board in play:
    /// the grid is not empty and its size fits the counter; every position of the
    /// grid has one tile and no other position has any; no tile is both open and
    /// flagged; every number is the count of mines around its tile; and the
    /// counter is the number of closed numbered tiles.
    pub open spec fn wf(self) -> bool {
        &&& 0 < self.width <= i32::MAX
        &&& 0 < self.height <= i32::MAX
        &&& self.width * self.height <= i32::MAX
        &&& self.tiles.dom() =~= grid(self.width, self.height)
        &&& forall|pos: Coordinates| #[trigger]
            self.tiles.contains_key(pos) ==> !(self.tiles[pos].open && self.tiles[pos].flagged)
        &&& numbers_fit(self.tiles)
        &&& self.tiles_left == closed_numbers(self.tiles).len()
    }
}

impl View for Board {
    type V = BoardView;

    closed spec fn view(&self) -> BoardView {
        BoardView {
            width: self.width as int,
            height: self.height as int,
            tiles: tiles_of(self.tiles),
            tiles_left: self.tiles_left as int,
        }
    }
}

impl Board {
    /// Whether the board is well formed.
    pub open spec fn wf(&self) -> bool {
        self@.wf()
    }

    /// The number of columns.
    pub fn width(&self) -> (width: i32)
        ensures
            width == self@.width,
    {
        self.width
    }

    /// The number of rows.
    pub fn height(&self) -> (height: i32)
        ensures
            height == self@.height,
    {
        self.height
    }

    /// The number of numbered tiles that are not open yet.
    pub fn tiles_left(&self) -> (left: i32)
        ensures
            left == self@.tiles_left,
    {
        self.tiles_left
    }

    /// The tile at `pos`, if `pos` has one. On a well-formed board its number, if
    /// it has one, lies between 0 and 8.
    pub fn tile_at(&self, pos: Coordinates) -> (found: Option<Tile>)
        ensures
            found == if self@.tiles.contains_key(pos) {
                Some(self@.tiles[pos])
            } else {
                None
            },
            self.wf() ==> (found matches Some(tile) ==> tile.wf()),
    {
        proof {
            neighbors(pos).lemma_filter_len(among(mines(self@.tiles)));
        }
        lookup(&self.tiles, pos)
    }

    /// Puts `tile` at `pos`, in place of the tile there if there is one.
    fn set_tile(&mut self, pos: Coordinates, tile: Tile)
        ensures
            final(self)@.tiles == old(self)@.tiles.insert(pos, tile),
            final(self)@.width == old(self)@.width,
            final(self)@.height == old(self)@.height,
            final(self)@.tiles_left == old(self)@.tiles_left,
    {
        place(&mut self.tiles, pos, tile);
    }
}

/// What is wrong with a grid of the given size, if anything.
pub open spec fn grid_error(width: int, height: int) -> Option<ConfigError> {
    if width <= 0 || height <= 0 {
        Some(ConfigError::EmptyGrid)
    } else if width * height > i32::MAX {
        Some(ConfigError::GridTooLarge)
    } else {
        None
    }
}

/// What is wrong with the settings, if anything: the grid first, then the
/// number of mines, which must leave at least one cell free.
pub open spec fn settings_error(settings: GameSettings) -> Option<ConfigError> {
    let width = settings.dimensions.0 as int;
    let height = settings.dimensions.1 as int;
    if grid_error(width, height) is Some {
        grid_error(width, height)
    } else if settings.bomb_count < 0 || settings.bomb_count >= width * height {
        Some(ConfigError::MineCount)
    } else {
        None
    }
}

/// What is wrong with a grid and a list of mines for it, if anything: the
/// grid first, then the number of mines, then where they lie.
pub open spec fn mine_list_error(width: int, height: int, cells: Seq<Coordinates>) -> Option<ConfigError> {
    if grid_error(width, height) is Some {
        grid_error(width, height)
    } else if cells.len() >= width * height {
        Some(ConfigError::MineCount)
    } else if !distinct_on_grid(cells, width, height) {
        Some(ConfigError::MinePosition)
    } else {
        None
    }
}

/// The number of cells of a grid, or what is wrong with its size.
fn count_cells(width: i32, height: i32) -> (cells: Result<i32, ConfigError>)
    ensures
        match cells {
            Ok(n) => grid_error(width as int, height as int) is None && n == width * height,
            Err(e) => grid_error(width as int, height as int) == Some(e),
        },
{
    if width <= 0 || height <= 0 {
        return Err(ConfigError::EmptyGrid);
    }
    assert(0 < width * height <= 0x7fff_ffff * 0x7fff_ffff) by (nonlinear_arith)
        requires
            0 < width <= 0x7fff_ffff,
            0 < height <= 0x7fff_ffff,
    ;
    let cells: i64 = (width as i64) * (height as i64);
    if cells > i32::MAX as i64 {
        Err(ConfigError::GridTooLarge)
    } else {
        Ok(cells as i32)
    }
}

/// A board made of a store that holds the mines and nothing else.
fn number_board(width: i32, height: i32, cells: i32, store: TileMap, bomb_count: i32) -> (board: Board)
    requires
        grid_error(width as int, height as int) is None,
        cells == width * height,
        only_mines(tiles_of(store), width as int, height as int),
        tiles_of(store).dom().finite(),
        tiles_of(store).dom().len() == bomb_count,
    ensures
        board.wf(),
        board@.width == width,
        board@.height == height,
        board@.tiles_left == width * height - bomb_count,
        untouched(board@.tiles),
        mines(board@.tiles) =~= tiles_of(store).dom(),
{
    let ghost laid = tiles_of(store).dom();
    let mut store = store;
    fill_numbers(width, height, &mut store);
    proof {
        let tiles = tiles_of(store);
        let all = grid(width as int, height as int);
        lemma_grid_len(width as int, height as int);
        assert(closed_numbers(tiles) =~= all.difference(laid));
        assert(all.intersect(laid) =~= laid);
        vstd::set_lib::lemma_set_difference_len(all, laid);
    }
    Board { width, height, tiles: store, tiles_left: cells - bomb_count }
}

/// Generates the board for a new game: `bomb_count` mines on cells drawn at
/// random, no two on one cell, every other cell numbered with the mines around
/// it, and every tile closed and unflagged.
///
/// Settings with an empty or oversized grid, or with a mine count that is
/// negative or fills the grid, are refused before any tile is made.
///
/// A cell for a mine is drawn until a free one comes up. Should that take more
/// than `SAMPLE_LIMIT` draws, the first free cell of the grid is taken, so that
/// generation always ends.
pub fn initialize_board(settings: &GameSettings) -> (made: Result<Board, ConfigError>)
    ensures
        match made {
            Ok(board) => {
                &&& settings_error(*settings) is None
                &&& board.wf()
                &&& board@.width == settings.dimensions.0
                &&& board@.height == settings.dimensions.1
                &&& untouched(board@.tiles)
                &&& mines(board@.tiles).finite()
                &&& mines(board@.tiles).len() == settings.bomb_count
                &&& board@.tiles_left == settings.dimensions.0 * settings.dimensions.1 - settings.bomb_count
            },
            Err(e) => settings_error(*settings) == Some(e),
        },
{
    let width = settings.dimensions.0;
    let height = settings.dimensions.1;
    let bomb_count = settings.bomb_count;
    let cells = match count_cells(width, height) {
        Ok(n) => n,
        Err(e) => {
            return Err(e);
        },
    };
    if bomb_count < 0 || bomb_count >= cells {
        return Err(ConfigError::MineCount);
    }
    let store = scatter_mines(width, height, bomb_count);
    Ok(number_board(width, height, cells, store, bomb_count))
}

impl Board {
    /// The board with mines on exactly the given cells, every other cell
    /// numbered with the mines around it, and every tile closed and unflagged.
    ///
    /// A grid that is empty or oversized is refused; so is a list that leaves
    /// no cell free, names a cell off the grid, or names a cell twice.
    pub fn with_mines(width: i32, height: i32, cells: &Vec<Coordinates>) -> (made: Result<
        Board,
        ConfigError,
    >)
        ensures
            match made {
                Ok(board) => {
                    &&& mine_list_error(width as int, height as int, cells@) is None
                    &&& board.wf()
                    &&& board@.width == width
                    &&& board@.height == height
                    &&& untouched(board@.tiles)
                    &&& mines(board@.tiles) =~= cells@.to_set()
                    &&& board@.tiles_left == width * height - cells@.len()
                },
                Err(e) => mine_list_error(width as int, height as int, cells@) == Some(e),
            },
    {
        let total = match count_cells(width, height) {
            Ok(n) => n,
            Err(e) => {
                return Err(e);
            },
        };
        if cells.len() >= total as usize {
            return Err(ConfigError::MineCount);
        }
        match lay_mines(width, height, cells) {
            Some(store) => Ok(number_board(width, height, total, store, cells.len() as i32)),
            None => Err(ConfigError::MinePosition),
        }
    }
}

impl Board {
    /// Opens the tile at `pos`, which is `tile`, closed and unflagged, and counts
    /// it off if it is numbered.
    fn uncover(&mut self, pos: Coordinates, tile: Tile)
        requires
            old(self).wf(),
            can_open(old(self)@.tiles, pos),
            tile == old(self)@.tiles[pos],
        ensures
            final(self).wf(),
            final(self)@.tiles == open_at(old(self)@.tiles, pos),
            final(self)@.width == old(self)@.width,
            final(self)@.height == old(self)@.height,
            final(self)@.tiles_left == closed_numbers(old(self)@.tiles).len() - if tile.kind is Number {
                1int
            } else {
                0int
            },
    {
        let ghost before = self@.tiles;
        self.set_tile(pos, Tile { kind: tile.kind, open: true, flagged: tile.flagged });
        proof {
            let after = self@.tiles;
            lemma_grid_len(self@.width, self@.height);
            assert(after.dom() =~= before.dom());
            assert(mines(after) =~= mines(before));
            assert(closed_numbers(before).subset_of(before.dom()));
            if tile.kind is Number {
                assert(closed_numbers(before).contains(pos));
                assert(closed_numbers(after) =~= closed_numbers(before).remove(pos));
            } else {
                assert(closed_numbers(after) =~= closed_numbers(before));
            }
        }
        match tile.kind {
            TileType::Number(_) => {
                self.tiles_left = self.tiles_left - 1;
            },
            TileType::Bomb => {},
        }
    }

    /// Flips the flag of the tile at `pos` if there is one and it is closed.
    pub(crate) fn toggle(&mut self, pos: Coordinates)
        requires
            old(self).wf(),
        ensures
            final(self).wf(),
            final(self)@.tiles == toggle_at(old(self)@.tiles, pos),
            final(self)@.width == old(self)@.width,
            final(self)@.height == old(self)@.height,
            final(self)@.tiles_left == old(self)@.tiles_left,
    {
        let ghost before = self@.tiles;
        match self.tile_at(pos) {
            Some(tile) => {
                if !tile.open {
                    self.set_tile(pos, Tile { kind: tile.kind, open: false, flagged: !tile.flagged });
                    proof {
                        let after = self@.tiles;
                        assert(after.dom() =~= before.dom());
                        assert(mines(after) =~= mines(before));
                        assert(closed_numbers(after) =~= closed_numbers(before));
                    }
                }
            },
            None => {},
        }
    }

    /// A request, not made by the player, for each neighbour of `pos` that has a
    /// tile and, if `closed_only` is set, whose tile is closed.
    fn requests_around(&self, pos: Coordinates, closed_only: bool) -> (requests: Vec<OpenTileEvent>)
        requires
            i32::MIN < pos.x < i32::MAX,
            i32::MIN < pos.y < i32::MAX,
        ensures
            requests@ == automatic(
                neighbors(pos).filter(
                    if closed_only {
                        among(closed(self@.tiles))
                    } else {
                        among(present(self@.tiles))
                    },
                ),
            ),
    {
        let ghost keep = if closed_only {
            among(closed(self@.tiles))
        } else {
            among(present(self@.tiles))
        };
        let mut requests: Vec<OpenTileEvent> = Vec::new();
        for i in 0..8usize
            invariant
                i32::MIN < pos.x < i32::MAX,
                i32::MIN < pos.y < i32::MAX,
                keep == if closed_only {
                    among(closed(self@.tiles))
                } else {
                    among(present(self@.tiles))
                },
                requests@ == automatic(neighbors(pos).take(i as int).filter(keep)),
        {
            proof {
                lemma_filter_next(neighbors(pos), keep, i as int);
            }
            let cell = neighbor(pos, i);
            let wanted = match self.tile_at(cell) {
                Some(tile) => !closed_only || !tile.open,
                None => false,
            };
            if wanted {
                requests.push(OpenTileEvent(cell, false));
            }
        }
        assert(neighbors(pos).take(8) =~= neighbors(pos));
        requests
    }
}

/// The spread from `pos` when its tile has no mine around it: a request, not
/// made by the player, to open each neighbour that is still closed, in the
/// order of `NEIGHBORS`. Any other tile, and a position without a tile, spreads
/// nothing.
pub fn open_adjacent_tiles(board: &Board, pos: Coordinates) -> (requests: Vec<OpenTileEvent>)
    requires
        board.wf(),
    ensures
        requests@ == flood(board@.tiles, pos),
{
    match board.tile_at(pos) {
        Some(tile) => match tile.kind {
            TileType::Number(n) => {
                if n == 0 {
                    board.requests_around(pos, true)
                } else {
                    Vec::new()
                }
            },
            TileType::Bomb => Vec::new(),
        },
        None => Vec::new(),
    }
}

/// The requests that a chord on `pos` leaves behind.
fn chord_requests(board: &Board, pos: Coordinates) -> (requests: Vec<OpenTileEvent>)
    requires
        board.wf(),
    ensures
        requests@ == chord(board@.tiles, pos),
{
    match board.tile_at(pos) {
        Some(tile) => match tile.kind {
            TileType::Number(n) => {
                if tile.open && n == count_flags_around(&board.tiles, pos) {
                    board.requests_around(pos, false)
                } else {
                    Vec::new()
                }
            },
            TileType::Bomb => Vec::new(),
        },
        None => Vec::new(),
    }
}

/// One tick of the reveal engine.
///
/// A game that is won or lost takes no request: the board and the phase stay
/// as they are and nothing is left for the next tick.
///
/// A game in play takes the requests in the order given. A request for a
/// position without a tile does nothing. A request for a closed, unflagged tile
/// opens it: a mine loses the game; a number is counted off, and the game is won
/// when none is left; a tile with no mine around it leaves a request for each
/// neighbour that is still closed. A request by the player for an open numbered
/// tile whose number equals the count of flagged closed neighbours leaves a
/// request for every neighbour. Any other request does nothing. Once the phase
/// has left `Playing` it does not change again, though the rest of the tick's
/// requests still open their tiles.
///
/// Returned are the requests left for the next tick, in the order in which
/// they arose.
pub fn open_tile(board: &mut Board, state: &mut GameState, events: &Vec<OpenTileEvent>) -> (next: Vec<
    OpenTileEvent,
>)
    requires
        old(board).wf(),
    ensures
        final(board).wf(),
        final(board)@.width == old(board)@.width,
        final(board)@.height == old(board)@.height,
        final(board)@.tiles == tick(old(board)@.tiles, *old(state), events@).tiles,
        *final(state) == tick(old(board)@.tiles, *old(state), events@).state,
        next@ == tick(old(board)@.tiles, *old(state), events@).pending,
{
    let mut next: Vec<OpenTileEvent> = Vec::new();
    match *state {
        GameState::Playing => {},
        _ => {
            return next;
        },
    }
    let ghost start = Play { tiles: board@.tiles, state: *state, pending: Seq::empty() };
    for i in 0..events.len()
        invariant
            board.wf(),
            board@.width == old(board)@.width,
            board@.height == old(board)@.height,
            start == (Play { tiles: old(board)@.tiles, state: *old(state), pending: Seq::empty() }),
            apply_all(start, events@.take(i as int)) == (Play {
                tiles: board@.tiles,
                state: *state,
                pending: next@,
            }),
    {
        let event = events[i];
        let pos = event.0;
        let ghost before = Play { tiles: board@.tiles, state: *state, pending: next@ };
        proof {
            assert(events@.take(i + 1).drop_last() =~= events@.take(i as int));
            assert(apply_all(start, events@.take(i + 1)) == apply(before, event));
        }
        match board.tile_at(pos) {
            Some(tile) => {
                if !tile.open && !tile.flagged {
                    board.uncover(pos, tile);
                    match *state {
                        GameState::Playing => {
                            match tile.kind {
                                TileType::Bomb => {
                                    *state = GameState::Lost;
                                },
                                TileType::Number(_) => {
                                    if board.tiles_left == 0 {
                                        *state = GameState::Won;
                                    }
                                },
                            }
                        },
                        _ => {},
                    }
                    let mut spread = open_adjacent_tiles(board, pos);
                    next.append(&mut spread);
                } else if event.1 {
                    let mut around = chord_requests(board, pos);
                    next.append(&mut around);
                }
            },
            None => {},
        }
        assert(next@ =~= before.pending + follow_ups(before.tiles, event));
    }
    assert(events@.take(events@.len() as int) =~= events@);
    next
}

/// The positions that a run of flag requests names, in order.
pub open spec fn flag_positions(events: Seq<FlagTileEvent>) -> Seq<Coordinates> {
    Seq::new(events.len(), |i: int| events[i].0)
}

/// Flips flags as the requests say, in the order given. A request for a closed
/// tile sets its flag if it has none and takes it off if it has one; a request
/// for an open tile, or for a position without a tile, does nothing.
pub fn flag_tile(board: &mut Board, events: &Vec<FlagTileEvent>)
    requires
        old(board).wf(),
    ensures
        final(board).wf(),
        final(board)@.width == old(board)@.width,
        final(board)@.height == old(board)@.height,
        final(board)@.tiles_left == old(board)@.tiles_left,
        final(board)@.tiles == toggle_all(old(board)@.tiles, flag_positions(events@)),
{
    for i in 0..events.len()
        invariant
            board.wf(),
            board@.width == old(board)@.width,
            board@.height == old(board)@.height,
            board@.tiles_left == old(board)@.tiles_left,
            board@.tiles == toggle_all(old(board)@.tiles, flag_positions(events@.take(i as int))),
    {
        proof {
            assert(flag_positions(events@.take(i + 1)).drop_last() =~= flag_positions(
                events@.take(i as int),
            ));
        }
        board.toggle(events[i].0);
    }
    assert(events@.take(events@.len() as int) =~= events@);
}

} // verus!
