//! Board generation: laying the mines and numbering the other cells.

use crate::grid::{cells_before, grid, in_grid, lemma_free_cell_exists};
use crate::random::random_range;
use crate::rules::{count_around, mines, numbers_fit, untouched, Tiles};
use crate::store::{count_mines_around, lookup, place, tiles_of};
use crate::tile::{Tile, TileType};
use crate::tile_map::{tile_map_new, TileMap};
use crate::types::Coordinates;
use vstd::prelude::*;

verus! {

/// How many random draws are spent on one mine before the first free cell is
/// taken instead.
pub const SAMPLE_LIMIT: u32 = 1_000_000;

/// Whether `tiles` holds closed, unflagged mines and nothing else, all of them
/// on the grid.
pub open spec fn only_mines(tiles: Tiles, width: int, height: int) -> bool {
    &&& tiles.dom().subset_of(grid(width, height))
    &&& forall|pos: Coordinates| #[trigger]
        tiles.contains_key(pos) ==> tiles[pos] == (Tile {
            kind: TileType::Bomb,
            open: false,
            flagged: false,
        })
}

/// Whether some cell of the grid has no tile.
pub open spec fn has_free_cell(tiles: Tiles, width: int, height: int) -> bool {
    exists|pos: Coordinates| in_grid(width, height, pos) && !tiles.contains_key(pos)
}

/// The first cell without a tile, walking the grid column by column.
fn first_free_cell(store: &TileMap, width: i32, height: i32) -> (cell: Coordinates)
    requires
        0 < width,
        0 < height,
        has_free_cell(tiles_of(*store), width as int, height as int),
    ensures
        in_grid(width as int, height as int, cell),
        !tiles_of(*store).contains_key(cell),
{
    let mut x: i32 = 0;
    while x < width
        invariant
            0 <= x <= width,
            0 < height,
            forall|pos: Coordinates| #[trigger]
                cells_before(width as int, height as int, x as int, 0).contains(pos) ==> tiles_of(
                    *store,
                ).contains_key(pos),
        decreases width - x,
    {
        let mut y: i32 = 0;
        while y < height
            invariant
                0 <= x < width,
                0 <= y <= height,
                forall|pos: Coordinates| #[trigger]
                    cells_before(width as int, height as int, x as int, y as int).contains(pos)
                        ==> tiles_of(*store).contains_key(pos),
            decreases height - y,
        {
            let cell = Coordinates { x, y };
            if lookup(store, cell).is_none() {
                return cell;
            }
            assert forall|pos: Coordinates| #[trigger]
                cells_before(width as int, height as int, x as int, y + 1).contains(
                    pos,
                ) implies tiles_of(*store).contains_key(pos) by {
                if pos != cell {
                    assert(cells_before(width as int, height as int, x as int, y as int).contains(pos));
                }
            }
            y += 1;
        }
        assert forall|pos: Coordinates| #[trigger]
            cells_before(width as int, height as int, x + 1, 0).contains(pos) implies tiles_of(
            *store,
        ).contains_key(pos) by {
            assert(cells_before(width as int, height as int, x as int, height as int).contains(pos));
        }
        x += 1;
    }
    proof {
        let free = choose|pos: Coordinates|
            in_grid(width as int, height as int, pos) && !tiles_of(*store).contains_key(pos);
        assert(cells_before(width as int, height as int, width as int, 0).contains(free));
    }
    Coordinates { x: 0, y: 0 }
}

/// A cell without a tile: one drawn at random where a draw finds one within
/// `SAMPLE_LIMIT` tries, else the first in walking order.
fn pick_free_cell(store: &TileMap, width: i32, height: i32) -> (cell: Coordinates)
    requires
        0 < width,
        0 < height,
        has_free_cell(tiles_of(*store), width as int, height as int),
    ensures
        in_grid(width as int, height as int, cell),
        !tiles_of(*store).contains_key(cell),
{
    let mut attempts: u32 = 0;
    while attempts < SAMPLE_LIMIT
        invariant
            0 < width,
            0 < height,
        decreases SAMPLE_LIMIT - attempts,
    {
        let cell = Coordinates { x: random_range(0, width), y: random_range(0, height) };
        if lookup(store, cell).is_none() {
            return cell;
        }
        attempts += 1;
    }
    first_free_cell(store, width, height)
}

/// A store of `bomb_count` mines on distinct cells of the grid, chosen at random.
pub(crate) fn scatter_mines(width: i32, height: i32, bomb_count: i32) -> (store: TileMap)
    requires
        0 < width,
        0 < height,
        0 <= bomb_count < width * height,
    ensures
        only_mines(tiles_of(store), width as int, height as int),
        tiles_of(store).dom().finite(),
        tiles_of(store).dom().len() == bomb_count,
{
    let mut store = tile_map_new();
    let mut bombs: i32 = 0;
    assert(tiles_of(store).dom() =~= Set::<Coordinates>::empty());
    while bombs < bomb_count
        invariant
            0 < width,
            0 < height,
            0 <= bombs <= bomb_count < width * height,
            only_mines(tiles_of(store), width as int, height as int),
            tiles_of(store).dom().finite(),
            tiles_of(store).dom().len() == bombs,
        decreases bomb_count - bombs,
    {
        proof {
            lemma_free_cell_exists(width as int, height as int, tiles_of(store).dom());
        }
        let cell = pick_free_cell(&store, width, height);
        place(&mut store, cell, Tile::new(TileType::Bomb));
        bombs += 1;
    }
    store
}

/// Whether the positions in `cells` are all on the grid and all different.
pub open spec fn distinct_on_grid(cells: Seq<Coordinates>, width: int, height: int) -> bool {
    &&& forall|i: int| 0 <= i < cells.len() ==> in_grid(width, height, #[trigger] cells[i])
    &&& forall|i: int, j: int| 0 <= i < j < cells.len() ==> cells[i] != cells[j]
}

/// A store of mines on the given cells, or nothing where one of them is off the
/// grid or given twice.
pub(crate) fn lay_mines(width: i32, height: i32, cells: &Vec<Coordinates>) -> (laid: Option<TileMap>)
    requires
        0 < width,
        0 < height,
    ensures
        laid is Some <==> distinct_on_grid(cells@, width as int, height as int),
        laid matches Some(store) ==> {
            &&& only_mines(tiles_of(store), width as int, height as int)
            &&& tiles_of(store).dom() =~= cells@.to_set()
            &&& tiles_of(store).dom().finite()
            &&& tiles_of(store).dom().len() == cells@.len()
        },
{
    let mut store = tile_map_new();
    let mut i: usize = 0;
    assert(tiles_of(store).dom() =~= Set::<Coordinates>::empty());
    while i < cells.len()
        invariant
            0 < width,
            0 < height,
            0 <= i <= cells.len(),
            distinct_on_grid(cells@.take(i as int), width as int, height as int),
            only_mines(tiles_of(store), width as int, height as int),
            tiles_of(store).dom() =~= cells@.take(i as int).to_set(),
            tiles_of(store).dom().finite(),
            tiles_of(store).dom().len() == i,
        decreases cells.len() - i,
    {
        let cell = cells[i];
        let on_grid = 0 <= cell.x && cell.x < width && 0 <= cell.y && cell.y < height;
        if !on_grid {
            return None;
        }
        if lookup(&store, cell).is_some() {
            proof {
                let j = choose|j: int| 0 <= j < i && cells@.take(i as int)[j] == cell;
                assert(cells@[j] == cells@[i as int]);
            }
            return None;
        }
        place(&mut store, cell, Tile::new(TileType::Bomb));
        proof {
            let before = cells@.take(i as int);
            let after = cells@.take(i + 1);
            assert(after =~= before.push(cell));
            assert forall|pos: Coordinates| after.to_set().contains(pos) <==> before.to_set().insert(
                cell,
            ).contains(pos) by {
                if after.to_set().contains(pos) {
                    let k = choose|k: int| 0 <= k < after.len() && after[k] == pos;
                    if k < i {
                        assert(before[k] == pos);
                    }
                }
                if before.to_set().contains(pos) {
                    let k = choose|k: int| 0 <= k < before.len() && before[k] == pos;
                    assert(after[k] == pos);
                }
                if pos == cell {
                    assert(after[i as int] == pos);
                }
            }
            assert(after.to_set() =~= before.to_set().insert(cell));
            assert forall|a: int, b: int| 0 <= a < b < after.len() implies after[a] != after[b] by {
                if b == i {
                    assert(before[a] == after[a]);
                    assert(before.to_set().contains(before[a]));
                }
            }
        }
        i += 1;
    }
    assert(cells@.take(cells@.len() as int) =~= cells@);
    Some(store)
}

/// Numbers every cell of the grid that holds no mine with the count of mines
/// around it.
pub(crate) fn fill_numbers(width: i32, height: i32, store: &mut TileMap)
    requires
        0 < width,
        0 < height,
        only_mines(tiles_of(*old(store)), width as int, height as int),
    ensures
        tiles_of(*final(store)).dom() =~= grid(width as int, height as int),
        mines(tiles_of(*final(store))) =~= tiles_of(*old(store)).dom(),
        untouched(tiles_of(*final(store))),
        numbers_fit(tiles_of(*final(store))),
{
    let ghost laid = tiles_of(*store).dom();
    let mut x: i32 = 0;
    assert(mines(tiles_of(*store)) =~= laid);
    assert(tiles_of(*store).dom() =~= laid + cells_before(width as int, height as int, 0, 0));
    while x < width
        invariant
            0 <= x <= width,
            0 < height,
            laid.subset_of(grid(width as int, height as int)),
            numbered_up_to(tiles_of(*store), laid, width as int, height as int, x as int, 0),
        decreases width - x,
    {
        let mut y: i32 = 0;
        while y < height
            invariant
                0 <= x < width,
                0 <= y <= height,
                laid.subset_of(grid(width as int, height as int)),
                numbered_up_to(tiles_of(*store), laid, width as int, height as int, x as int, y as int),
            decreases height - y,
        {
            let cell = Coordinates { x, y };
            let ghost before = tiles_of(*store);
            if lookup(store, cell).is_none() {
                let count = count_mines_around(store, cell);
                place(store, cell, Tile::new(TileType::Number(count)));
                assert(mines(tiles_of(*store)) =~= laid);
            }
            assert(tiles_of(*store).dom() =~= laid + cells_before(
                width as int,
                height as int,
                x as int,
                y + 1,
            )) by {
                assert(cells_before(width as int, height as int, x as int, y + 1) =~= cells_before(
                    width as int,
                    height as int,
                    x as int,
                    y as int,
                ).insert(cell));
            }
            y += 1;
        }
        assert(cells_before(width as int, height as int, x + 1, 0) =~= cells_before(
            width as int,
            height as int,
            x as int,
            height as int,
        ));
        x += 1;
    }
    assert(cells_before(width as int, height as int, width as int, 0) =~= grid(width as int, height as int));
}

/// How far the numbering has come when the walk stands at `(x, y)`: the mines
/// are as laid, every cell passed has its tile, and every tile is untouched
/// and, if numbered, counts the mines around it.
pub open spec fn numbered_up_to(
    tiles: Tiles,
    laid: Set<Coordinates>,
    width: int,
    height: int,
    x: int,
    y: int,
) -> bool {
    &&& tiles.dom() =~= laid + cells_before(width, height, x, y)
    &&& mines(tiles) =~= laid
    &&& untouched(tiles)
    &&& forall|pos: Coordinates| #[trigger]
        tiles.contains_key(pos) ==> (tiles[pos].kind matches TileType::Number(n) ==> n == count_around(
            laid,
            pos,
        ))
}

} // verus!
