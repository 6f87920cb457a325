//! Tiles by position: the hash map of the board, read and written by
//! `Coordinates`, and what the engine counts in it.

use crate::grid::{lemma_filter_next, neighbor, neighbors};
use crate::rules::{among, count_around, flagged, mines, Tiles};
use crate::tile::{Tile, TileType};
use crate::tile_map::{tile_map_entries, tile_map_get, tile_map_insert, TileMap};
use crate::types::Coordinates;
use vstd::prelude::*;

verus! {

/// The tiles that a map from `(x, y)` holds, by position.
pub open spec fn tiles_by_position(entries: Map<(i32, i32), Tile>) -> Tiles {
    Map::new(
        |pos: Coordinates| entries.contains_key((pos.x, pos.y)),
        |pos: Coordinates| entries[(pos.x, pos.y)],
    )
}

/// The tiles that a store holds, by position.
pub open spec fn tiles_of(store: TileMap) -> Tiles {
    tiles_by_position(tile_map_entries(store))
}

/// The tile at `pos`, if `pos` has one.
pub(crate) fn lookup(store: &TileMap, pos: Coordinates) -> (found: Option<Tile>)
    ensures
        found == if tiles_of(*store).contains_key(pos) {
            Some(tiles_of(*store)[pos])
        } else {
            None
        },
{
    tile_map_get(store, pos.x, pos.y)
}

/// Puts `tile` at `pos`, in place of the tile there if there is one.
pub(crate) fn place(store: &mut TileMap, pos: Coordinates, tile: Tile)
    ensures
        tiles_of(*final(store)) == tiles_of(*old(store)).insert(pos, tile),
{
    tile_map_insert(store, pos.x, pos.y, tile);
}

/// Whether a mine lies at `pos`.
pub(crate) fn is_mine(store: &TileMap, pos: Coordinates) -> (yes: bool)
    ensures
        yes == mines(tiles_of(*store)).contains(pos),
{
    match lookup(store, pos) {
        Some(tile) => match tile.kind {
            TileType::Bomb => true,
            TileType::Number(_) => false,
        },
        None => false,
    }
}

/// Whether a closed tile with a flag lies at `pos`.
pub(crate) fn is_flagged(store: &TileMap, pos: Coordinates) -> (yes: bool)
    ensures
        yes == flagged(tiles_of(*store)).contains(pos),
{
    match lookup(store, pos) {
        Some(tile) => tile.flagged && !tile.open,
        None => false,
    }
}

/// The number of mines on the eight positions around `pos`.
pub(crate) fn count_mines_around(store: &TileMap, pos: Coordinates) -> (count: i32)
    requires
        i32::MIN < pos.x < i32::MAX,
        i32::MIN < pos.y < i32::MAX,
    ensures
        count == count_around(mines(tiles_of(*store)), pos),
        0 <= count <= 8,
{
    let ghost keep = among(mines(tiles_of(*store)));
    let mut count: i32 = 0;
    for i in 0..8usize
        invariant
            i32::MIN < pos.x < i32::MAX,
            i32::MIN < pos.y < i32::MAX,
            keep == among(mines(tiles_of(*store))),
            0 <= count <= i,
            count == neighbors(pos).take(i as int).filter(keep).len(),
    {
        proof {
            lemma_filter_next(neighbors(pos), keep, i as int);
        }
        if is_mine(store, neighbor(pos, i)) {
            count += 1;
        }
    }
    assert(neighbors(pos).take(8) =~= neighbors(pos));
    count
}

/// The number of flagged closed tiles on the eight positions around `pos`.
pub(crate) fn count_flags_around(store: &TileMap, pos: Coordinates) -> (count: i32)
    requires
        i32::MIN < pos.x < i32::MAX,
        i32::MIN < pos.y < i32::MAX,
    ensures
        count == count_around(flagged(tiles_of(*store)), pos),
        0 <= count <= 8,
{
    let ghost keep = among(flagged(tiles_of(*store)));
    let mut count: i32 = 0;
    for i in 0..8usize
        invariant
            i32::MIN < pos.x < i32::MAX,
            i32::MIN < pos.y < i32::MAX,
            keep == among(flagged(tiles_of(*store))),
            0 <= count <= i,
            count == neighbors(pos).take(i as int).filter(keep).len(),
    {
        proof {
            lemma_filter_next(neighbors(pos), keep, i as int);
        }
        if is_flagged(store, neighbor(pos, i)) {
            count += 1;
        }
    }
    assert(neighbors(pos).take(8) =~= neighbors(pos));
    count
}

} // verus!
