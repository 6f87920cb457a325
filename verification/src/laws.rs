//! What holds of every game, proved from the rules.

use crate::cascade::{
    lemma_all_open_is_saturated, lemma_pending_automatic, lemma_saturated_path, lemma_spread_opens,
    lemma_spread_waits, requested, saturated, spread_waits, spreads, zero_path,
};
use crate::grid::lemma_grid_len;
use crate::rules::{
    apply, can_open, closed, closed_numbers, lemma_only_opened_keeps_mines, lemma_only_opened_twice,
    lemma_tick_keeps_phase, lemma_tick_only_opens, mines, only_opened, open_mines, tick, toggle_at,
    untouched, Play, Tiles,
};
use crate::session::{quiet, SessionView};
use crate::types::{Coordinates, GameState, OpenTileEvent};
use vstd::prelude::*;

verus! {

/// Whatever the requests, ticks leave every position with its tile, every tile
/// with its kind and its flag, and every open tile open.
pub proof fn law_ticks_only_open(session: SessionView, inputs: Seq<Seq<OpenTileEvent>>)
    ensures
        only_opened(session.board.tiles, session.after_ticks(inputs).board.tiles),
        session.after_ticks(inputs).board.width == session.board.width,
        session.after_ticks(inputs).board.height == session.board.height,
    decreases inputs.len(),
{
    if inputs.len() > 0 {
        let mid = session.after_ticks(inputs.drop_last());
        let end = session.after_ticks(inputs);
        law_ticks_only_open(session, inputs.drop_last());
        lemma_tick_only_opens(mid.board.tiles, mid.state, mid.pending + inputs.last());
        lemma_only_opened_twice(session.board.tiles, mid.board.tiles, end.board.tiles);
    }
}

/// A tile that is open stays open through any number of ticks, whatever the
/// requests.
pub proof fn law_open_stays_open(session: SessionView, inputs: Seq<Seq<OpenTileEvent>>, pos: Coordinates)
    requires
        session.board.tiles.contains_key(pos),
        session.board.tiles[pos].open,
    ensures
        session.after_ticks(inputs).board.tiles.contains_key(pos),
        session.after_ticks(inputs).board.tiles[pos].open,
{
    law_ticks_only_open(session, inputs);
}

/// A tick keeps a session well formed: the counter is the number of closed
/// numbered tiles and the phase is the one that the tiles call for. So the
/// game is won in the very tick that opens the last number, unless a mine was
/// opened by then; and while it is in play a number is left to open.
pub proof fn law_tick_keeps_counter_and_phase(session: SessionView, intents: Seq<OpenTileEvent>)
    requires
        session.wf(),
    ensures
        session.after_tick(intents).wf(),
        session.after_tick(intents).board.tiles_left == closed_numbers(
            session.after_tick(intents).board.tiles,
        ).len(),
        session.after_tick(intents).board.tiles_left == 0 && open_mines(
            session.after_tick(intents).board.tiles,
        ) =~= Set::<Coordinates>::empty() ==> session.after_tick(intents).state == GameState::Won,
        session.after_tick(intents).state == GameState::Won ==> session.after_tick(intents).board.tiles_left
            == 0,
        session.after_tick(intents).state == GameState::Playing ==> session.after_tick(
            intents,
        ).board.tiles_left > 0,
{
    let before = session.board.tiles;
    let events = session.pending + intents;
    let after = tick(before, session.state, events).tiles;
    lemma_grid_len(session.board.width, session.board.height);
    lemma_tick_only_opens(before, session.state, events);
    lemma_tick_keeps_phase(before, session.state, events);
    lemma_only_opened_keeps_mines(before, after);
    assert forall|pos: Coordinates| #[trigger] after.contains_key(pos) implies !(after[pos].open
        && after[pos].flagged) by {
        assert(before.contains_key(pos));
    }
    lemma_pending_automatic(Play { tiles: before, state: session.state, pending: Seq::empty() }, events);
}

/// Any number of ticks keeps a session well formed.
pub proof fn law_ticks_keep_counter_and_phase(session: SessionView, inputs: Seq<Seq<OpenTileEvent>>)
    requires
        session.wf(),
    ensures
        session.after_ticks(inputs).wf(),
    decreases inputs.len(),
{
    if inputs.len() > 0 {
        law_ticks_keep_counter_and_phase(session, inputs.drop_last());
        law_tick_keeps_counter_and_phase(session.after_ticks(inputs.drop_last()), inputs.last());
    }
}

/// A flag request keeps a session well formed, and leaves the counter and the
/// phase as they are.
pub proof fn law_toggle_keeps_counter_and_phase(session: SessionView, pos: Coordinates)
    requires
        session.wf(),
    ensures
        session.after_toggle(pos).wf(),
        session.after_toggle(pos).board.tiles_left == session.board.tiles_left,
        session.after_toggle(pos).state == session.state,
{
    let before = session.board.tiles;
    let after = session.after_toggle(pos).board.tiles;
    assert(after.dom() =~= before.dom());
    assert(mines(after) =~= mines(before));
    assert(closed_numbers(after) =~= closed_numbers(before));
    assert(open_mines(after) =~= open_mines(before));
}

/// Once a game is won or lost, ticks change neither a tile nor the phase,
/// whatever the requests, and leave no request behind.
pub proof fn law_terminal_lock(session: SessionView, inputs: Seq<Seq<OpenTileEvent>>)
    requires
        session.state != GameState::Playing,
    ensures
        session.after_ticks(inputs).board.tiles == session.board.tiles,
        session.after_ticks(inputs).state == session.state,
        inputs.len() > 0 ==> session.after_ticks(inputs).pending == Seq::<OpenTileEvent>::empty(),
    decreases inputs.len(),
{
    if inputs.len() > 0 {
        law_terminal_lock(session, inputs.drop_last());
    }
}

/// A flag request for an open tile changes nothing.
pub proof fn law_flag_ignores_open_tile(tiles: Tiles, pos: Coordinates)
    requires
        tiles.contains_key(pos),
        tiles[pos].open,
    ensures
        toggle_at(tiles, pos) == tiles,
{
}

/// A request to open a closed tile that carries a flag changes nothing,
/// whether the player made it or not: the tile stays closed and flagged, the
/// phase stays, and nothing is left for the next tick.
pub proof fn law_flag_blocks_open(play: Play, event: OpenTileEvent)
    requires
        play.tiles.contains_key(event.0),
        !play.tiles[event.0].open,
        play.tiles[event.0].flagged,
    ensures
        apply(play, event) == play,
{
    assert(!can_open(play.tiles, event.0));
    assert(apply(play, event).pending =~= play.pending);
}

/// On a board with no tile open, no spread has begun, so none has a tile left
/// to open.
pub proof fn law_new_game_has_no_spread(session: SessionView)
    requires
        untouched(session.board.tiles),
    ensures
        spread_waits(session.board.tiles, session.pending),
{
}

/// While a game is in play, every tile that a spread has yet to open has a
/// request waiting for it; once the game is won, every spread is complete.
/// This holds after any number of ticks, whatever the player asks for, of a
/// session of which it held before, such as a new one.
pub proof fn law_spread_is_carried_on(session: SessionView, inputs: Seq<Seq<OpenTileEvent>>)
    requires
        session.wf(),
        spread_waits(session.board.tiles, session.pending),
    ensures
        session.after_ticks(inputs).state == GameState::Playing ==> spread_waits(
            session.after_ticks(inputs).board.tiles,
            session.after_ticks(inputs).pending,
        ),
        session.after_ticks(inputs).state == GameState::Won ==> saturated(
            session.after_ticks(inputs).board.tiles,
        ),
    decreases inputs.len(),
{
    let end = session.after_ticks(inputs);
    law_ticks_keep_counter_and_phase(session, inputs);
    if end.state == GameState::Won {
        lemma_all_open_is_saturated(end.board);
    }
    if inputs.len() > 0 && end.state == GameState::Playing {
        let mid = session.after_ticks(inputs.drop_last());
        law_spread_is_carried_on(session, inputs.drop_last());
        let events = mid.pending + inputs.last();
        assert forall|from: Coordinates, to: Coordinates| #[trigger]
            spreads(mid.board.tiles, from, to) && can_open(mid.board.tiles, to) implies requested(
            events,
            to,
        ) by {
            let i = choose|i: int| 0 <= i < mid.pending.len() && (#[trigger] mid.pending[i]).0 == to;
            assert(events[i] == mid.pending[i]);
        }
        lemma_spread_waits(Play { tiles: mid.board.tiles, state: mid.state, pending: Seq::empty() }, events);
    }
}

/// Opening a tile with no mine around it opens, in time, the whole region of
/// such tiles that it belongs to, and the numbered tiles along its edge: once
/// no request waits any more and the game is not lost, every tile is open that
/// a path leads to from an open tile, each step of the path going from a tile
/// with no mine around it to a neighbour without a flag.
pub proof fn law_spread_reaches_region(
    session: SessionView,
    inputs: Seq<Seq<OpenTileEvent>>,
    path: Seq<Coordinates>,
    upto: int,
)
    requires
        session.wf(),
        spread_waits(session.board.tiles, session.pending),
        session.after_ticks(inputs).state != GameState::Lost,
        session.after_ticks(inputs).pending.len() == 0,
        zero_path(session.after_ticks(inputs).board.tiles, path),
        session.after_ticks(inputs).board.tiles[path[0]].open,
        0 <= upto < path.len(),
    ensures
        session.after_ticks(inputs).board.tiles[path[upto]].open,
{
    law_spread_is_carried_on(session, inputs);
    lemma_saturated_path(session.after_ticks(inputs).board.tiles, path, upto);
}

/// Ticks without a request from the player keep a session well formed and
/// close no tile, and each of them either opens a tile or leaves nothing
/// waiting.
proof fn lemma_quiet_progress(session: SessionView, ticks: nat)
    requires
        session.wf(),
    ensures
        session.after_ticks(quiet(ticks)).wf(),
        closed(session.after_ticks(quiet(ticks)).board.tiles).finite(),
        session.after_ticks(quiet(ticks)).pending.len() == 0 || closed(
            session.after_ticks(quiet(ticks)).board.tiles,
        ).len() + ticks <= closed(session.board.tiles).len(),
    decreases ticks,
{
    lemma_grid_len(session.board.width, session.board.height);
    assert(closed(session.board.tiles).subset_of(session.board.tiles.dom()));
    vstd::set_lib::lemma_set_subset_finite(session.board.tiles.dom(), closed(session.board.tiles));
    if ticks > 0 {
        assert(quiet(ticks).drop_last() =~= quiet((ticks - 1) as nat));
        let mid = session.after_ticks(quiet((ticks - 1) as nat));
        lemma_quiet_progress(session, (ticks - 1) as nat);
        law_tick_keeps_counter_and_phase(mid, Seq::empty());
        let events = mid.pending + Seq::<OpenTileEvent>::empty();
        assert(events =~= mid.pending);
        lemma_grid_len(mid.board.width, mid.board.height);
        lemma_spread_opens(Play { tiles: mid.board.tiles, state: mid.state, pending: Seq::empty() }, events);
    }
}

/// A spread ends: left to itself, a session has no request waiting any more
/// after at most one tick more than it has closed tiles. No tile is opened
/// twice on the way, since no tick closes a tile.
pub proof fn law_spread_ends(session: SessionView, ticks: nat)
    requires
        session.wf(),
        ticks > closed(session.board.tiles).len(),
    ensures
        session.after_ticks(quiet(ticks)).pending.len() == 0,
        only_opened(session.board.tiles, session.after_ticks(quiet(ticks)).board.tiles),
{
    lemma_quiet_progress(session, ticks);
    law_ticks_only_open(session, quiet(ticks));
}

/// A spread runs its course: left to itself for one tick more than it has
/// closed tiles, a session in which every spread so far was carried on has no
/// request waiting any more, and unless the game is lost every tile is open
/// that a path leads to from an open tile, each step of the path going from a
/// tile with no mine around it to a neighbour without a flag.
pub proof fn law_spread_completes(session: SessionView, ticks: nat, path: Seq<Coordinates>, upto: int)
    requires
        session.wf(),
        spread_waits(session.board.tiles, session.pending),
        ticks > closed(session.board.tiles).len(),
        session.after_ticks(quiet(ticks)).state != GameState::Lost,
        zero_path(session.after_ticks(quiet(ticks)).board.tiles, path),
        session.after_ticks(quiet(ticks)).board.tiles[path[0]].open,
        0 <= upto < path.len(),
    ensures
        session.after_ticks(quiet(ticks)).pending.len() == 0,
        session.after_ticks(quiet(ticks)).board.tiles[path[upto]].open,
{
    law_spread_ends(session, ticks);
    law_spread_reaches_region(session, quiet(ticks), path, upto);
}

} // verus!
