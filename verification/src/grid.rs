//! The geometry of the grid: which positions lie on it and which are adjacent.

use crate::types::Coordinates;
use vstd::prelude::*;

verus! {

/// The offsets from a cell to its eight neighbours, row by row.
pub const NEIGHBORS: [(i32, i32); 8] = [
    (-1, -1),
    (0, -1),
    (1, -1),
    (-1, 0),
    (1, 0),
    (-1, 1),
    (0, 1),
    (1, 1),
];

/// Whether `pos` lies on a grid of the given size.
pub open spec fn in_grid(width: int, height: int, pos: Coordinates) -> bool {
    0 <= pos.x < width && 0 <= pos.y < height
}

/// All positions of a grid of the given size.
pub open spec fn grid(width: int, height: int) -> Set<Coordinates> {
    Set::new(|pos: Coordinates| in_grid(width, height, pos))
}

/// The eight positions around `pos`, in the order of `NEIGHBORS`, whether or not
/// they lie on a grid.
pub open spec fn neighbors(pos: Coordinates) -> Seq<Coordinates> {
    Seq::new(8, |i: int| pos.shifted(NEIGHBORS@[i].0 as int, NEIGHBORS@[i].1 as int))
}

/// The positions of the grid that come before `(x, y)` when the grid is walked
/// column by column, each column from the top.
pub open spec fn cells_before(width: int, height: int, x: int, y: int) -> Set<Coordinates> {
    Set::new(|pos: Coordinates| in_grid(width, height, pos) && (pos.x < x || (pos.x == x && pos.y < y)))
}

/// The `i`-th neighbour of `pos`.
pub fn neighbor(pos: Coordinates, i: usize) -> (cell: Coordinates)
    requires
        i < 8,
        i32::MIN < pos.x < i32::MAX,
        i32::MIN < pos.y < i32::MAX,
    ensures
        cell == neighbors(pos)[i as int],
{
    pos + Coordinates::from(NEIGHBORS[i])
}

/// Filtering one element more of a sequence keeps or drops that element and
/// leaves the rest as it was.
pub proof fn lemma_filter_next<A>(items: Seq<A>, keep: spec_fn(A) -> bool, i: int)
    requires
        0 <= i < items.len(),
    ensures
        items.take(i + 1).filter(keep) == if keep(items[i]) {
            items.take(i).filter(keep).push(items[i])
        } else {
            items.take(i).filter(keep)
        },
{
    reveal(Seq::filter);
    assert(items.take(i + 1).drop_last() =~= items.take(i));
}

/// Where fewer positions are taken than a grid has, one of the grid is free.
pub proof fn lemma_free_cell_exists(width: int, height: int, taken: Set<Coordinates>)
    requires
        0 < width <= i32::MAX,
        0 < height <= i32::MAX,
        taken.subset_of(grid(width, height)),
        taken.len() < width * height,
    ensures
        exists|pos: Coordinates| in_grid(width, height, pos) && !taken.contains(pos),
{
    lemma_grid_len(width, height);
    if forall|pos: Coordinates| in_grid(width, height, pos) ==> taken.contains(pos) {
        assert(taken =~= grid(width, height));
    }
}

/// Walking the grid up to `(x, y)` passes `x * height + y` cells.
pub proof fn lemma_cells_before_len(width: int, height: int, x: int, y: int)
    requires
        0 < width <= i32::MAX,
        0 < height <= i32::MAX,
        0 <= x <= width,
        0 <= y <= height,
        x == width ==> y == 0,
    ensures
        cells_before(width, height, x, y).finite(),
        cells_before(width, height, x, y).len() == x * height + y,
    decreases x, y,
{
    let here = cells_before(width, height, x, y);
    if y > 0 {
        lemma_cells_before_len(width, height, x, y - 1);
        let earlier = cells_before(width, height, x, y - 1);
        let last = Coordinates { x: x as i32, y: (y - 1) as i32 };
        assert(!earlier.contains(last));
        assert(here =~= earlier.insert(last));
    } else if x > 0 {
        lemma_cells_before_len(width, height, x - 1, height);
        assert(here =~= cells_before(width, height, x - 1, height));
        assert((x - 1) * height + height == x * height) by (nonlinear_arith);
    } else {
        assert(here =~= Set::<Coordinates>::empty());
        assert(x * height == 0) by (nonlinear_arith)
            requires
                x == 0,
        ;
    }
}

/// A grid has `width * height` positions.
pub proof fn lemma_grid_len(width: int, height: int)
    requires
        0 < width <= i32::MAX,
        0 < height <= i32::MAX,
    ensures
        grid(width, height).finite(),
        grid(width, height).len() == width * height,
{
    lemma_cells_before_len(width, height, width, 0);
    assert(grid(width, height) =~= cells_before(width, height, width, 0));
}

} // verus!
