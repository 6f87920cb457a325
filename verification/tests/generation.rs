use minesweeper::board::{initialize_board, Board};
use minesweeper::grid::NEIGHBORS;
use minesweeper::tile::TileType;
use minesweeper::types::{ConfigError, Coordinates, GameSettings};

fn at(x: i32, y: i32) -> Coordinates {
    Coordinates { x, y }
}

fn is_mine(board: &Board, pos: Coordinates) -> bool {
    matches!(board.tile_at(pos), Some(tile) if tile.kind == TileType::Bomb)
}

fn mines_around(board: &Board, pos: Coordinates) -> i32 {
    let mut count = 0;
    for (dx, dy) in NEIGHBORS {
        if is_mine(board, at(pos.x + dx, pos.y + dy)) {
            count += 1;
        }
    }
    count
}

fn check_generated(width: i32, height: i32, bomb_count: i32) {
    let settings = GameSettings { dimensions: (width, height), bomb_count };
    let board = initialize_board(&settings).unwrap();
    assert_eq!(board.width(), width);
    assert_eq!(board.height(), height);
    assert_eq!(board.tiles_left(), width * height - bomb_count);
    let mut mines = 0;
    for x in 0..width {
        for y in 0..height {
            let tile = board.tile_at(at(x, y)).unwrap();
            assert!(!tile.open);
            assert!(!tile.flagged);
            match tile.kind {
                TileType::Bomb => mines += 1,
                TileType::Number(n) => assert_eq!(n, mines_around(&board, at(x, y))),
            }
        }
    }
    assert_eq!(mines, bomb_count);
    for x in -1..=width {
        assert!(board.tile_at(at(x, -1)).is_none());
        assert!(board.tile_at(at(x, height)).is_none());
    }
    for y in -1..=height {
        assert!(board.tile_at(at(-1, y)).is_none());
        assert!(board.tile_at(at(width, y)).is_none());
    }
}

#[test]
fn generated_board_covers_the_grid_with_the_mines_asked_for() {
    check_generated(15, 20, 50);
}

#[test]
fn generated_board_without_mines_is_all_zeros() {
    check_generated(4, 3, 0);
    let board = initialize_board(&GameSettings { dimensions: (4, 3), bomb_count: 0 }).unwrap();
    assert_eq!(board.tile_at(at(3, 2)).unwrap().kind, TileType::Number(0));
    assert_eq!(board.tiles_left(), 12);
}

#[test]
fn generated_board_with_one_free_cell() {
    check_generated(3, 3, 8);
    let board = initialize_board(&GameSettings { dimensions: (3, 3), bomb_count: 8 }).unwrap();
    assert_eq!(board.tiles_left(), 1);
}

#[test]
fn generated_single_cell_board() {
    check_generated(1, 1, 0);
}

#[test]
fn generated_mines_are_scattered() {
    // Drawn at random, twenty mines on four hundred cells do not line up as the
    // first twenty cells of the walk through the grid.
    let settings = GameSettings { dimensions: (20, 20), bomb_count: 20 };
    let board = initialize_board(&settings).unwrap();
    let mut in_first_column = 0;
    for y in 0..20 {
        if is_mine(&board, at(0, y)) {
            in_first_column += 1;
        }
    }
    assert!(in_first_column < 20);
}

#[test]
fn two_generated_boards_differ() {
    let settings = GameSettings { dimensions: (30, 30), bomb_count: 100 };
    let first = initialize_board(&settings).unwrap();
    let second = initialize_board(&settings).unwrap();
    let mut same = true;
    for x in 0..30 {
        for y in 0..30 {
            if is_mine(&first, at(x, y)) != is_mine(&second, at(x, y)) {
                same = false;
            }
        }
    }
    assert!(!same);
}

#[test]
fn settings_that_fill_the_grid_with_mines_are_refused() {
    let full = GameSettings { dimensions: (3, 3), bomb_count: 9 };
    assert_eq!(initialize_board(&full).err(), Some(ConfigError::MineCount));
    let over = GameSettings { dimensions: (3, 3), bomb_count: 10 };
    assert_eq!(initialize_board(&over).err(), Some(ConfigError::MineCount));
}

#[test]
fn settings_with_a_negative_mine_count_are_refused() {
    let settings = GameSettings { dimensions: (3, 3), bomb_count: -1 };
    assert_eq!(initialize_board(&settings).err(), Some(ConfigError::MineCount));
}

#[test]
fn settings_with_an_empty_grid_are_refused() {
    for dimensions in [(0, 5), (5, 0), (-1, 5), (5, -3), (0, 0)] {
        let settings = GameSettings { dimensions, bomb_count: 0 };
        assert_eq!(initialize_board(&settings).err(), Some(ConfigError::EmptyGrid));
    }
}

#[test]
fn settings_with_an_oversized_grid_are_refused() {
    let settings = GameSettings { dimensions: (65536, 32768), bomb_count: 1 };
    assert_eq!(initialize_board(&settings).err(), Some(ConfigError::GridTooLarge));
    let settings = GameSettings { dimensions: (i32::MAX, i32::MAX), bomb_count: 1 };
    assert_eq!(initialize_board(&settings).err(), Some(ConfigError::GridTooLarge));
}

#[test]
fn the_grid_is_checked_before_the_mine_count() {
    let settings = GameSettings { dimensions: (0, 0), bomb_count: -5 };
    assert_eq!(initialize_board(&settings).err(), Some(ConfigError::EmptyGrid));
}

#[test]
fn board_with_given_mines_has_them_and_no_others() {
    let board = Board::with_mines(3, 2, &vec![at(2, 1), at(0, 0)]).unwrap();
    assert_eq!(board.width(), 3);
    assert_eq!(board.height(), 2);
    assert_eq!(board.tiles_left(), 4);
    assert_eq!(board.tile_at(at(0, 0)).unwrap().kind, TileType::Bomb);
    assert_eq!(board.tile_at(at(2, 1)).unwrap().kind, TileType::Bomb);
    assert_eq!(board.tile_at(at(1, 0)).unwrap().kind, TileType::Number(2));
    assert_eq!(board.tile_at(at(2, 0)).unwrap().kind, TileType::Number(1));
    assert_eq!(board.tile_at(at(0, 1)).unwrap().kind, TileType::Number(1));
    assert_eq!(board.tile_at(at(1, 1)).unwrap().kind, TileType::Number(2));
    assert!(board.tile_at(at(3, 0)).is_none());
    assert!(board.tile_at(at(0, 2)).is_none());
}

#[test]
fn corner_cell_counts_only_neighbours_on_the_grid() {
    // Every cell but the corner holds a mine: the corner sees its three
    // neighbours and nothing beyond the edge.
    let mut mines = Vec::new();
    for x in 0..3 {
        for y in 0..3 {
            if (x, y) != (0, 0) {
                mines.push(at(x, y));
            }
        }
    }
    let board = Board::with_mines(3, 3, &mines).unwrap();
    assert_eq!(board.tile_at(at(0, 0)).unwrap().kind, TileType::Number(3));
    assert_eq!(board.tiles_left(), 1);
}

#[test]
fn counts_do_not_wrap_around_the_edges() {
    let board = Board::with_mines(4, 3, &vec![at(3, 0), at(3, 1), at(3, 2)]).unwrap();
    for y in 0..3 {
        assert_eq!(board.tile_at(at(0, y)).unwrap().kind, TileType::Number(0));
        assert_eq!(board.tile_at(at(1, y)).unwrap().kind, TileType::Number(0));
    }
    assert_eq!(board.tile_at(at(2, 0)).unwrap().kind, TileType::Number(2));
    assert_eq!(board.tile_at(at(2, 1)).unwrap().kind, TileType::Number(3));
    assert_eq!(board.tile_at(at(2, 2)).unwrap().kind, TileType::Number(2));
}

#[test]
fn centre_cell_counts_eight_mines() {
    let mut mines = Vec::new();
    for x in 0..3 {
        for y in 0..3 {
            if (x, y) != (1, 1) {
                mines.push(at(x, y));
            }
        }
    }
    let board = Board::with_mines(3, 3, &mines).unwrap();
    assert_eq!(board.tile_at(at(1, 1)).unwrap().kind, TileType::Number(8));
}

#[test]
fn mine_list_with_a_mine_off_the_grid_is_refused() {
    assert_eq!(Board::with_mines(3, 3, &vec![at(3, 0)]).err(), Some(ConfigError::MinePosition));
    assert_eq!(Board::with_mines(3, 3, &vec![at(0, -1)]).err(), Some(ConfigError::MinePosition));
}

#[test]
fn mine_list_with_a_cell_named_twice_is_refused() {
    assert_eq!(
        Board::with_mines(3, 3, &vec![at(1, 1), at(2, 2), at(1, 1)]).err(),
        Some(ConfigError::MinePosition)
    );
}

#[test]
fn mine_list_that_fills_the_grid_is_refused() {
    assert_eq!(
        Board::with_mines(2, 1, &vec![at(0, 0), at(1, 0)]).err(),
        Some(ConfigError::MineCount)
    );
}

#[test]
fn mine_list_for_an_empty_or_oversized_grid_is_refused() {
    assert_eq!(Board::with_mines(0, 3, &vec![]).err(), Some(ConfigError::EmptyGrid));
    assert_eq!(Board::with_mines(3, -3, &vec![]).err(), Some(ConfigError::EmptyGrid));
    assert_eq!(Board::with_mines(50000, 50000, &vec![]).err(), Some(ConfigError::GridTooLarge));
}
