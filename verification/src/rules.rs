//! The rules of the game as mathematics: what a board's tiles say, what one
//! request to open or flag a tile does to them, and what a whole tick does.
//!
//! Nothing here runs. The executable engine is proved to compute exactly these
//! functions.

use crate::grid::neighbors;
use crate::tile::{Tile, TileType};
use crate::types::{Coordinates, GameState, OpenTileEvent};
use vstd::prelude::*;

verus! {

/// The tiles of a board, by position.
pub type Tiles = Map<Coordinates, Tile>;

/// Membership in `cells`, as a predicate.
pub open spec fn among(cells: Set<Coordinates>) -> spec_fn(Coordinates) -> bool {
    |pos: Coordinates| cells.contains(pos)
}

/// The positions that hold a mine.
pub open spec fn mines(tiles: Tiles) -> Set<Coordinates> {
    Set::new(|pos: Coordinates| tiles.contains_key(pos) && tiles[pos].kind is Bomb)
}

/// The positions that hold a tile.
pub open spec fn present(tiles: Tiles) -> Set<Coordinates> {
    tiles.dom()
}

/// The positions of the tiles that are not open.
pub open spec fn closed(tiles: Tiles) -> Set<Coordinates> {
    Set::new(|pos: Coordinates| tiles.contains_key(pos) && !tiles[pos].open)
}

/// The positions of the closed tiles that carry a flag.
pub open spec fn flagged(tiles: Tiles) -> Set<Coordinates> {
    Set::new(|pos: Coordinates| tiles.contains_key(pos) && !tiles[pos].open && tiles[pos].flagged)
}

/// The positions of the mines that have been opened.
pub open spec fn open_mines(tiles: Tiles) -> Set<Coordinates> {
    Set::new(|pos: Coordinates| tiles.contains_key(pos) && tiles[pos].kind is Bomb && tiles[pos].open)
}

/// The positions of the numbered tiles that are not open: what is left to reveal.
pub open spec fn closed_numbers(tiles: Tiles) -> Set<Coordinates> {
    Set::new(|pos: Coordinates| tiles.contains_key(pos) && tiles[pos].kind is Number && !tiles[pos].open)
}

/// Whether every tile is as generated: closed and without a flag.
pub open spec fn untouched(tiles: Tiles) -> bool {
    forall|pos: Coordinates| #[trigger]
        tiles.contains_key(pos) ==> !tiles[pos].open && !tiles[pos].flagged
}

/// How many of the eight positions around `pos` belong to `cells`.
pub open spec fn count_around(cells: Set<Coordinates>, pos: Coordinates) -> nat {
    neighbors(pos).filter(among(cells)).len()
}

/// Whether every number is the count of mines around its tile.
pub open spec fn numbers_fit(tiles: Tiles) -> bool {
    forall|pos: Coordinates| #[trigger]
        tiles.contains_key(pos) ==> (tiles[pos].kind matches TileType::Number(n) ==> n == count_around(
            mines(tiles),
            pos,
        ))
}

/// The requests, none of them made by the player, to open each of `cells` in turn.
pub open spec fn automatic(cells: Seq<Coordinates>) -> Seq<OpenTileEvent> {
    Seq::new(cells.len(), |i: int| OpenTileEvent(cells[i], false))
}

/// Whether a request to open `pos` opens it: there is a tile, closed and unflagged.
pub open spec fn can_open(tiles: Tiles, pos: Coordinates) -> bool {
    tiles.contains_key(pos) && !tiles[pos].open && !tiles[pos].flagged
}

/// The tiles after a request to open `pos`.
pub open spec fn open_at(tiles: Tiles, pos: Coordinates) -> Tiles {
    if can_open(tiles, pos) {
        tiles.insert(pos, Tile { kind: tiles[pos].kind, open: true, flagged: tiles[pos].flagged })
    } else {
        tiles
    }
}

/// The tiles after a request to flip the flag at `pos`: only a closed tile takes it.
pub open spec fn toggle_at(tiles: Tiles, pos: Coordinates) -> Tiles {
    if tiles.contains_key(pos) && !tiles[pos].open {
        tiles.insert(pos, Tile { kind: tiles[pos].kind, open: false, flagged: !tiles[pos].flagged })
    } else {
        tiles
    }
}

/// The tiles after a run of requests to flip flags, taken in order.
pub open spec fn toggle_all(tiles: Tiles, cells: Seq<Coordinates>) -> Tiles
    decreases cells.len(),
{
    if cells.len() == 0 {
        tiles
    } else {
        toggle_at(toggle_all(tiles, cells.drop_last()), cells.last())
    }
}

/// The phase after a request to open `pos`. Only a game in play changes phase:
/// opening a mine loses it, opening the last closed number wins it.
pub open spec fn phase_after(state: GameState, tiles: Tiles, pos: Coordinates) -> GameState {
    if state == GameState::Playing && can_open(tiles, pos) {
        match tiles[pos].kind {
            TileType::Bomb => GameState::Lost,
            TileType::Number(_) => if closed_numbers(tiles).len() == 1 {
                GameState::Won
            } else {
                GameState::Playing
            },
        }
    } else {
        state
    }
}

/// The spread from a tile with no mine around it: a request for each neighbour
/// that is still closed. Any other tile spreads nothing.
pub open spec fn flood(tiles: Tiles, pos: Coordinates) -> Seq<OpenTileEvent> {
    if tiles.contains_key(pos) && tiles[pos].kind == TileType::Number(0) {
        automatic(neighbors(pos).filter(among(closed(tiles))))
    } else {
        Seq::empty()
    }
}

/// The chord on an open numbered tile: when as many closed neighbours carry a
/// flag as the tile's number says, a request for every neighbour on the board,
/// open or closed, mine or not.
pub open spec fn chord(tiles: Tiles, pos: Coordinates) -> Seq<OpenTileEvent> {
    if tiles.contains_key(pos) && tiles[pos].open && (tiles[pos].kind matches TileType::Number(n)
        && n == count_around(flagged(tiles), pos)) {
        automatic(neighbors(pos).filter(among(present(tiles))))
    } else {
        Seq::empty()
    }
}

/// The requests that one request leaves for the next tick.
pub open spec fn follow_ups(tiles: Tiles, event: OpenTileEvent) -> Seq<OpenTileEvent> {
    if can_open(tiles, event.0) {
        flood(open_at(tiles, event.0), event.0)
    } else if event.1 {
        chord(tiles, event.0)
    } else {
        Seq::empty()
    }
}

/// A game at one moment: its tiles, its phase and the requests that wait for
/// the next tick.
pub struct Play {
    pub tiles: Tiles,
    pub state: GameState,
    pub pending: Seq<OpenTileEvent>,
}

/// The game after one request.
pub open spec fn apply(play: Play, event: OpenTileEvent) -> Play {
    Play {
        tiles: open_at(play.tiles, event.0),
        state: phase_after(play.state, play.tiles, event.0),
        pending: play.pending + follow_ups(play.tiles, event),
    }
}

/// The game after a run of requests, taken in order.
pub open spec fn apply_all(play: Play, events: Seq<OpenTileEvent>) -> Play
    decreases events.len(),
{
    if events.len() == 0 {
        play
    } else {
        apply(apply_all(play, events.drop_last()), events.last())
    }
}

/// One tick on the given requests. A game that is over takes none of them; a
/// game in play takes them all, in order, and collects what they leave behind.
pub open spec fn tick(tiles: Tiles, state: GameState, events: Seq<OpenTileEvent>) -> Play {
    if state == GameState::Playing {
        apply_all(Play { tiles, state, pending: Seq::empty() }, events)
    } else {
        Play { tiles, state, pending: Seq::empty() }
    }
}

/// Whether the phase is the one that the tiles call for: a game is in play
/// while no mine is open and a number is still closed; it is won only with
/// every number open; it is lost only with a mine open.
pub open spec fn phase_fits(tiles: Tiles, state: GameState) -> bool {
    match state {
        GameState::Playing => {
            &&& open_mines(tiles) =~= Set::<Coordinates>::empty()
            &&& closed_numbers(tiles).len() > 0
        },
        GameState::Won => closed_numbers(tiles).len() == 0,
        GameState::Lost => exists|pos: Coordinates| open_mines(tiles).contains(pos),
    }
}

/// Whether `after` differs from `before` at most in tiles that were closed and
/// unflagged and are now open.
pub open spec fn only_opened(before: Tiles, after: Tiles) -> bool {
    &&& after.dom() =~= before.dom()
    &&& forall|pos: Coordinates| #[trigger]
        before.contains_key(pos) ==> {
            &&& after[pos].kind == before[pos].kind
            &&& after[pos].flagged == before[pos].flagged
            &&& before[pos].open ==> after[pos].open
            &&& after[pos].open && !before[pos].open ==> !before[pos].flagged
        }
}

/// Opening only, then opening only again, is opening only.
pub proof fn lemma_only_opened_twice(first: Tiles, second: Tiles, third: Tiles)
    requires
        only_opened(first, second),
        only_opened(second, third),
    ensures
        only_opened(first, third),
{
    assert forall|pos: Coordinates| #[trigger] first.contains_key(pos) implies {
        &&& third[pos].kind == first[pos].kind
        &&& third[pos].flagged == first[pos].flagged
        &&& first[pos].open ==> third[pos].open
        &&& third[pos].open && !first[pos].open ==> !first[pos].flagged
    } by {
        assert(second.contains_key(pos));
    }
}

/// A run of requests only opens tiles.
pub proof fn lemma_apply_all_only_opens(play: Play, events: Seq<OpenTileEvent>)
    ensures
        only_opened(play.tiles, apply_all(play, events).tiles),
    decreases events.len(),
{
    if events.len() > 0 {
        let mid = apply_all(play, events.drop_last());
        lemma_apply_all_only_opens(play, events.drop_last());
        lemma_only_opened_twice(play.tiles, mid.tiles, open_at(mid.tiles, events.last().0));
    }
}

/// One request keeps the phase fitting the tiles.
pub proof fn lemma_apply_keeps_phase(play: Play, event: OpenTileEvent)
    requires
        play.tiles.dom().finite(),
        phase_fits(play.tiles, play.state),
    ensures
        phase_fits(apply(play, event).tiles, apply(play, event).state),
{
    let pos = event.0;
    let before = play.tiles;
    let after = open_at(before, pos);
    assert(closed_numbers(before).subset_of(before.dom()));
    vstd::set_lib::lemma_set_subset_finite(before.dom(), closed_numbers(before));
    if can_open(before, pos) {
        if before[pos].kind is Bomb {
            assert(closed_numbers(after) =~= closed_numbers(before));
            assert(open_mines(after).contains(pos));
        } else {
            assert(closed_numbers(before).contains(pos));
            assert(closed_numbers(after) =~= closed_numbers(before).remove(pos));
            assert(open_mines(after) =~= open_mines(before));
        }
        if play.state == GameState::Lost {
            let hit = choose|hit: Coordinates| open_mines(before).contains(hit);
            assert(open_mines(after).contains(hit));
        }
    }
}

/// A run of requests keeps the phase fitting the tiles.
pub proof fn lemma_apply_all_keeps_phase(play: Play, events: Seq<OpenTileEvent>)
    requires
        play.tiles.dom().finite(),
        phase_fits(play.tiles, play.state),
    ensures
        phase_fits(apply_all(play, events).tiles, apply_all(play, events).state),
    decreases events.len(),
{
    if events.len() > 0 {
        lemma_apply_all_keeps_phase(play, events.drop_last());
        lemma_apply_all_only_opens(play, events.drop_last());
        lemma_apply_keeps_phase(apply_all(play, events.drop_last()), events.last());
    }
}

/// A tick only opens tiles.
pub proof fn lemma_tick_only_opens(tiles: Tiles, state: GameState, events: Seq<OpenTileEvent>)
    ensures
        only_opened(tiles, tick(tiles, state, events).tiles),
{
    lemma_apply_all_only_opens(Play { tiles, state, pending: Seq::empty() }, events);
}

/// A tick keeps the phase fitting the tiles.
pub proof fn lemma_tick_keeps_phase(tiles: Tiles, state: GameState, events: Seq<OpenTileEvent>)
    requires
        tiles.dom().finite(),
        phase_fits(tiles, state),
    ensures
        phase_fits(tick(tiles, state, events).tiles, tick(tiles, state, events).state),
{
    lemma_apply_all_keeps_phase(Play { tiles, state, pending: Seq::empty() }, events);
}

/// Tiles that were only opened hold the same mines, and their numbers still
/// count them.
pub proof fn lemma_only_opened_keeps_mines(before: Tiles, after: Tiles)
    requires
        only_opened(before, after),
    ensures
        mines(after) == mines(before),
        numbers_fit(before) ==> numbers_fit(after),
{
    assert forall|pos: Coordinates| mines(after).contains(pos) <==> mines(before).contains(pos) by {
        if before.contains_key(pos) {
            assert(after[pos].kind == before[pos].kind);
        }
    }
    assert(mines(after) =~= mines(before));
    if numbers_fit(before) {
        assert forall|pos: Coordinates| #[trigger] after.contains_key(pos) implies (after[pos].kind
            matches TileType::Number(n) ==> n == count_around(mines(after), pos)) by {
            assert(before.contains_key(pos));
        }
    }
}

} // verus!
