//! The store behind a board: bevy's hash map, keyed by a cell's `(x, y)` pair.
//!
//! The map itself is not verified. What the functions below say of it is taken
//! from the documentation of `hashbrown::HashMap`, which `bevy::utils::HashMap`
//! is an alias of; everything else in the crate is proved from these statements.

use crate::tile::Tile;
use vstd::prelude::*;

verus! {

/// A `bevy::utils::HashMap` from `(x, y)` to the tile at that cell.
#[verifier::external_body]
pub struct TileMap {
    inner: bevy::utils::HashMap<(i32, i32), Tile>,
}

/// The key-value pairs that a `TileMap` holds.
pub uninterp spec fn tile_map_entries(table: TileMap) -> Map<(i32, i32), Tile>;

/// `HashMap::new`: a map that holds nothing.
#[verifier::external_body]
pub(crate) fn tile_map_new() -> (table: TileMap)
    ensures
        tile_map_entries(table).is_empty(),
{
    TileMap { inner: bevy::utils::HashMap::new() }
}

/// `HashMap::get`: the value stored under the key, if there is one.
#[verifier::external_body]
pub(crate) fn tile_map_get(table: &TileMap, x: i32, y: i32) -> (found: Option<Tile>)
    ensures
        found == if tile_map_entries(*table).contains_key((x, y)) {
            Some(tile_map_entries(*table)[(x, y)])
        } else {
            None
        },
{
    table.inner.get(&(x, y)).copied()
}

/// `HashMap::insert`: afterwards the key maps to the given value and every other
/// key is as before; the value that the key had, if any, is returned.
#[verifier::external_body]
pub(crate) fn tile_map_insert(table: &mut TileMap, x: i32, y: i32, tile: Tile) -> (previous: Option<Tile>)
    ensures
        tile_map_entries(*final(table)) == tile_map_entries(*old(table)).insert((x, y), tile),
        previous == if tile_map_entries(*old(table)).contains_key((x, y)) {
            Some(tile_map_entries(*old(table))[(x, y)])
        } else {
            None
        },
{
    table.inner.insert((x, y), tile)
}

} // verus!
