use minesweeper::board::{flag_tile, Board};
use minesweeper::session::Session;
use minesweeper::types::{Coordinates, FlagTileEvent, GameState, OpenTileEvent};

fn at(x: i32, y: i32) -> Coordinates {
    Coordinates { x, y }
}

#[test]
fn flag_goes_on_and_off_a_closed_tile() {
    let mut session = Session::with_mines(2, 2, &vec![at(0, 0)]).unwrap();
    session.toggle_flag(at(1, 1));
    let tile = session.board().tile_at(at(1, 1)).unwrap();
    assert!(tile.flagged);
    assert!(!tile.open);
    session.toggle_flag(at(1, 1));
    assert!(!session.board().tile_at(at(1, 1)).unwrap().flagged);
    assert_eq!(session.board().tiles_left(), 3);
    assert_eq!(session.state(), GameState::Playing);
}

#[test]
fn flag_on_an_open_tile_is_ignored() {
    let mut session = Session::with_mines(2, 2, &vec![at(0, 0)]).unwrap();
    session.process_tick(&vec![OpenTileEvent(at(1, 1), true)]);
    let before = session.board().tile_at(at(1, 1)).unwrap();
    assert!(before.open);
    session.toggle_flag(at(1, 1));
    assert_eq!(session.board().tile_at(at(1, 1)).unwrap(), before);
    assert!(!before.flagged);
}

#[test]
fn flag_off_the_grid_is_ignored() {
    let mut session = Session::with_mines(2, 2, &vec![at(0, 0)]).unwrap();
    session.toggle_flag(at(2, 2));
    session.toggle_flag(at(-1, 0));
    for x in 0..2 {
        for y in 0..2 {
            assert!(!session.board().tile_at(at(x, y)).unwrap().flagged);
        }
    }
    assert!(session.board().tile_at(at(2, 2)).is_none());
}

#[test]
fn flagged_tile_does_not_open() {
    let mut session = Session::with_mines(2, 2, &vec![at(0, 0)]).unwrap();
    session.toggle_flag(at(0, 0));
    session.toggle_flag(at(1, 1));
    session.process_tick(&vec![
        OpenTileEvent(at(0, 0), true),
        OpenTileEvent(at(1, 1), true),
        OpenTileEvent(at(1, 1), false),
    ]);
    for pos in [at(0, 0), at(1, 1)] {
        let tile = session.board().tile_at(pos).unwrap();
        assert!(!tile.open);
        assert!(tile.flagged);
    }
    assert_eq!(session.state(), GameState::Playing);
    assert_eq!(session.board().tiles_left(), 3);
    assert!(session.pending().is_empty());
}

#[test]
fn flagged_zero_tile_spreads_nothing() {
    let mut session = Session::with_mines(3, 3, &vec![]).unwrap();
    session.toggle_flag(at(1, 1));
    session.process_tick(&vec![OpenTileEvent(at(1, 1), true)]);
    assert!(session.pending().is_empty());
    assert_eq!(session.board().tiles_left(), 9);
}

#[test]
fn unflagged_tile_opens_again() {
    let mut session = Session::with_mines(2, 2, &vec![at(0, 0)]).unwrap();
    session.toggle_flag(at(1, 1));
    session.toggle_flag(at(1, 1));
    session.process_tick(&vec![OpenTileEvent(at(1, 1), true)]);
    assert!(session.board().tile_at(at(1, 1)).unwrap().open);
}

#[test]
fn flag_requests_are_taken_in_order() {
    let mut board = Board::with_mines(2, 2, &vec![at(0, 0)]).unwrap();
    flag_tile(
        &mut board,
        &vec![
            FlagTileEvent(at(0, 0)),
            FlagTileEvent(at(1, 0)),
            FlagTileEvent(at(0, 0)),
            FlagTileEvent(at(7, 7)),
            FlagTileEvent(at(0, 0)),
        ],
    );
    assert!(board.tile_at(at(0, 0)).unwrap().flagged);
    assert!(board.tile_at(at(1, 0)).unwrap().flagged);
    assert!(!board.tile_at(at(0, 1)).unwrap().flagged);
    assert!(!board.tile_at(at(1, 1)).unwrap().flagged);
    assert_eq!(board.tiles_left(), 3);
    flag_tile(&mut board, &vec![]);
    assert!(board.tile_at(at(0, 0)).unwrap().flagged);
}
