//! The cascade from tick to tick: why a spread reaches every tile it should,
//! and why it ends.

use crate::board::BoardView;
use crate::grid::neighbors;
use crate::rules::{
    among, apply, apply_all, automatic, can_open, closed, closed_numbers, count_around, follow_ups, mines,
    open_at, present, Play, Tiles,
};
use crate::tile::TileType;
use crate::types::{Coordinates, OpenTileEvent};
use vstd::prelude::*;

verus! {

/// Whether none of the requests was made by the player.
pub open spec fn all_automatic(events: Seq<OpenTileEvent>) -> bool {
    forall|i: int| 0 <= i < events.len() ==> !(#[trigger] events[i]).1
}

/// Whether one of the requests is for `pos`.
pub open spec fn requested(events: Seq<OpenTileEvent>, pos: Coordinates) -> bool {
    exists|i: int| 0 <= i < events.len() && (#[trigger] events[i]).0 == pos
}

/// Whether the open tile at `from` has no mine around it and `to` is one of
/// the eight positions around it.
pub open spec fn spreads(tiles: Tiles, from: Coordinates, to: Coordinates) -> bool {
    &&& tiles.contains_key(from)
    &&& tiles[from].open
    &&& tiles[from].kind == TileType::Number(0)
    &&& neighbors(from).contains(to)
}

/// Whether every tile that a spread has yet to open is asked for: around each
/// open tile with no mine near, each tile that a request would open has a
/// request among `events`.
pub open spec fn spread_waits(tiles: Tiles, events: Seq<OpenTileEvent>) -> bool {
    forall|from: Coordinates, to: Coordinates| #[trigger]
        spreads(tiles, from, to) && can_open(tiles, to) ==> requested(events, to)
}

/// Whether every spread is complete: around each open tile with no mine near,
/// no tile is left that a request would open.
pub open spec fn saturated(tiles: Tiles) -> bool {
    forall|from: Coordinates, to: Coordinates| #[trigger] spreads(tiles, from, to) ==> !can_open(tiles, to)
}

/// Whether `path` leads from tile to tile on the board, each step going from a
/// tile with no mine around it to one of its neighbours that carries no flag.
pub open spec fn zero_path(tiles: Tiles, path: Seq<Coordinates>) -> bool {
    &&& path.len() > 0
    &&& tiles.contains_key(path[0])
    &&& forall|i: int|
        #![trigger path[i]]
        0 < i < path.len() ==> {
            &&& tiles.contains_key(path[i])
            &&& !tiles[path[i]].flagged
            &&& tiles[path[i - 1]].kind == TileType::Number(0)
            &&& neighbors(path[i - 1]).contains(path[i])
        }
}

/// The requests of `automatic` are for the given cells, none by the player.
pub proof fn lemma_automatic(cells: Seq<Coordinates>)
    ensures
        all_automatic(automatic(cells)),
        forall|i: int| 0 <= i < cells.len() ==> requested(automatic(cells), #[trigger] cells[i]),
{
    assert forall|i: int| 0 <= i < cells.len() implies requested(automatic(cells), #[trigger] cells[i]) by {
        assert(automatic(cells)[i].0 == cells[i]);
    }
}

/// What one request leaves behind was not made by the player, and a request
/// not made by the player leaves something behind only if it opens its tile.
pub proof fn lemma_follow_ups(tiles: Tiles, event: OpenTileEvent)
    ensures
        all_automatic(follow_ups(tiles, event)),
        !event.1 && follow_ups(tiles, event).len() > 0 ==> can_open(tiles, event.0),
{
    let opened = open_at(tiles, event.0);
    lemma_automatic(neighbors(event.0).filter(among(closed(opened))));
    lemma_automatic(neighbors(event.0).filter(among(present(tiles))));
}

/// A run of requests leaves behind only requests not made by the player.
pub proof fn lemma_pending_automatic(play: Play, events: Seq<OpenTileEvent>)
    requires
        all_automatic(play.pending),
    ensures
        all_automatic(apply_all(play, events).pending),
    decreases events.len(),
{
    if events.len() > 0 {
        lemma_pending_automatic(play, events.drop_last());
        lemma_follow_ups(apply_all(play, events.drop_last()).tiles, events.last());
    }
}

/// A run of requests closes no tile, and where none of them was made by the
/// player it leaves something behind only if it opens a tile.
pub proof fn lemma_spread_opens(play: Play, events: Seq<OpenTileEvent>)
    requires
        play.tiles.dom().finite(),
    ensures
        closed(apply_all(play, events).tiles).finite(),
        closed(apply_all(play, events).tiles).len() <= closed(play.tiles).len(),
        all_automatic(events) && apply_all(play, events).pending.len() > play.pending.len() ==> closed(
            apply_all(play, events).tiles,
        ).len() < closed(play.tiles).len(),
        apply_all(play, events).tiles.dom() == play.tiles.dom(),
        apply_all(play, events).pending.len() >= play.pending.len(),
    decreases events.len(),
{
    assert(closed(play.tiles).subset_of(play.tiles.dom()));
    vstd::set_lib::lemma_set_subset_finite(play.tiles.dom(), closed(play.tiles));
    if events.len() > 0 {
        let mid = apply_all(play, events.drop_last());
        let event = events.last();
        lemma_spread_opens(play, events.drop_last());
        lemma_follow_ups(mid.tiles, event);
        let end = apply(mid, event);
        if can_open(mid.tiles, event.0) {
            assert(closed(mid.tiles).contains(event.0));
            assert(closed(end.tiles) =~= closed(mid.tiles).remove(event.0));
        } else {
            assert(closed(end.tiles) =~= closed(mid.tiles));
        }
        assert(end.tiles.dom() =~= mid.tiles.dom());
        if all_automatic(events) {
            assert(!events[events.len() - 1].1);
            let earlier = events.drop_last();
            assert forall|i: int| 0 <= i < earlier.len() implies !(#[trigger] earlier[i]).1 by {
                assert(!events[i].1);
            }
        }
    }
}

/// Halfway through a tick, every tile that a spread has yet to open is asked
/// for: by a request that the tick has left behind so far, or by one that the
/// tick has yet to take.
pub proof fn lemma_spread_waits_midway(play: Play, events: Seq<OpenTileEvent>, taken: int)
    requires
        play.pending.len() == 0,
        spread_waits(play.tiles, events),
        0 <= taken <= events.len(),
    ensures
        spread_waits(
            apply_all(play, events.take(taken)).tiles,
            apply_all(play, events.take(taken)).pending + events.skip(taken),
        ),
    decreases taken,
{
    let now = apply_all(play, events.take(taken));
    let waiting = now.pending + events.skip(taken);
    if taken == 0 {
        assert(events.take(0) =~= Seq::<OpenTileEvent>::empty());
        assert(waiting =~= events);
    } else {
        lemma_spread_waits_midway(play, events, taken - 1);
        assert(events.take(taken).drop_last() =~= events.take(taken - 1));
        let mid = apply_all(play, events.take(taken - 1));
        let event = events[taken - 1];
        assert(events.take(taken).last() == event);
        assert(now == apply(mid, event));
        let waited = mid.pending + events.skip(taken - 1);
        assert forall|from: Coordinates, to: Coordinates| #[trigger]
            spreads(now.tiles, from, to) && can_open(now.tiles, to) implies requested(waiting, to) by {
            assert(can_open(mid.tiles, to));
            if spreads(mid.tiles, from, to) {
                assert(requested(waited, to));
                let i = choose|i: int| 0 <= i < waited.len() && (#[trigger] waited[i]).0 == to;
                if i < mid.pending.len() {
                    assert(waiting[i] == waited[i]);
                } else if i == mid.pending.len() {
                    assert(waited[i] == event);
                    assert(false);
                } else {
                    assert(waiting[i - 1 + (now.pending.len() - mid.pending.len())] == waited[i]);
                }
            } else {
                assert(from == event.0);
                assert(can_open(mid.tiles, from));
                let around = neighbors(from);
                let keep = among(closed(now.tiles));
                let j = choose|j: int| 0 <= j < around.len() && around[j] == to;
                around.lemma_filter_contains(keep, j);
                let kept = around.filter(keep);
                let k = choose|k: int| 0 <= k < kept.len() && kept[k] == to;
                lemma_automatic(kept);
                assert(requested(automatic(kept), kept[k]));
                let left = follow_ups(mid.tiles, event);
                assert(left == automatic(kept));
                let m = choose|m: int| 0 <= m < left.len() && (#[trigger] left[m]).0 == to;
                assert(waiting[mid.pending.len() + m] == left[m]);
            }
        }
    }
}

/// After a run of requests that began with nothing waiting, every tile that a
/// spread has yet to open is asked for by what the run leaves behind.
pub proof fn lemma_spread_waits(play: Play, events: Seq<OpenTileEvent>)
    requires
        play.pending.len() == 0,
        spread_waits(play.tiles, events),
    ensures
        spread_waits(apply_all(play, events).tiles, apply_all(play, events).pending),
{
    lemma_spread_waits_midway(play, events, events.len() as int);
    assert(events.take(events.len() as int) =~= events);
    let end = apply_all(play, events);
    assert(end.pending + events.skip(events.len() as int) =~= end.pending);
}

/// On a well-formed board with every number open, every spread is complete.
pub proof fn lemma_all_open_is_saturated(board: BoardView)
    requires
        board.wf(),
        board.tiles_left == 0,
    ensures
        saturated(board.tiles),
{
    let tiles = board.tiles;
    crate::grid::lemma_grid_len(board.width, board.height);
    assert(closed_numbers(tiles).subset_of(tiles.dom()));
    vstd::set_lib::lemma_set_subset_finite(tiles.dom(), closed_numbers(tiles));
    assert forall|from: Coordinates, to: Coordinates| #[trigger] spreads(tiles, from, to) implies !can_open(
        tiles,
        to,
    ) by {
        if can_open(tiles, to) {
            if tiles[to].kind is Number {
                assert(closed_numbers(tiles).contains(to));
            } else {
                let around = neighbors(from);
                let keep = among(mines(tiles));
                let j = choose|j: int| 0 <= j < around.len() && around[j] == to;
                assert(mines(tiles).contains(to));
                around.lemma_filter_contains(keep, j);
                assert(count_around(mines(tiles), from) > 0);
                assert(tiles.contains_key(from));
            }
        }
    }
}

/// Where every spread is complete, a path that starts on an open tile leads
/// over open tiles only.
pub proof fn lemma_saturated_path(tiles: Tiles, path: Seq<Coordinates>, upto: int)
    requires
        saturated(tiles),
        zero_path(tiles, path),
        tiles[path[0]].open,
        0 <= upto < path.len(),
    ensures
        tiles[path[upto]].open,
    decreases upto,
{
    if upto > 0 {
        lemma_saturated_path(tiles, path, upto - 1);
        assert(tiles.contains_key(path[upto]));
        assert(tiles.contains_key(path[upto - 1])) by {
            if upto - 1 > 0 {
                assert(tiles.contains_key(path[upto - 1]));
            }
        }
        assert(spreads(tiles, path[upto - 1], path[upto]));
    }
}

} // verus!
