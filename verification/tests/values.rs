use minesweeper::board::Board;
use minesweeper::grid::{neighbor, NEIGHBORS};
use minesweeper::input::{handle_input, Command, KeyPress};
use minesweeper::session::Session;
use minesweeper::tile::{Tile, TileType};
use minesweeper::types::{
    Coordinates, FlagTileEvent, GameSettings, GameState, OpenTileEvent, PlayerPosition,
};

fn at(x: i32, y: i32) -> Coordinates {
    Coordinates { x, y }
}

#[test]
fn coordinates_come_from_a_pair() {
    assert_eq!(Coordinates::from((3, -4)), at(3, -4));
    let made: Coordinates = (0, 7).into();
    assert_eq!(made, at(0, 7));
}

#[test]
fn coordinates_add_by_component() {
    assert_eq!(at(1, 2) + at(10, -20), at(11, -18));
    assert_eq!(at(0, 0) + at(-1, -1), at(-1, -1));
}

#[test]
fn neighbours_are_the_eight_cells_around() {
    assert_eq!(
        NEIGHBORS,
        [(-1, -1), (0, -1), (1, -1), (-1, 0), (1, 0), (-1, 1), (0, 1), (1, 1)]
    );
    assert_eq!(neighbor(at(5, 5), 0), at(4, 4));
    assert_eq!(neighbor(at(5, 5), 4), at(6, 5));
    assert_eq!(neighbor(at(0, 0), 7), at(1, 1));
    assert_eq!(neighbor(at(0, 0), 3), at(-1, 0));
}

#[test]
fn default_phase_is_playing() {
    assert_eq!(GameState::default(), GameState::Playing);
}

#[test]
fn new_tile_is_closed_and_unflagged() {
    let tile = Tile::new(TileType::Number(3));
    assert_eq!(tile, Tile { kind: TileType::Number(3), open: false, flagged: false });
}

#[test]
fn tile_text_shows_the_cover_the_flag_or_the_content() {
    let closed = Tile { kind: TileType::Number(3), open: false, flagged: false };
    assert_eq!(closed.to_string(), "██");
    let flagged = Tile { kind: TileType::Bomb, open: false, flagged: true };
    assert_eq!(flagged.to_string(), "⚑ ");
    let hidden_mine = Tile { kind: TileType::Bomb, open: false, flagged: false };
    assert_eq!(hidden_mine.to_string(), "██");
    let mine = Tile { kind: TileType::Bomb, open: true, flagged: false };
    assert_eq!(mine.to_string(), "✹ ");
    let zero = Tile { kind: TileType::Number(0), open: true, flagged: false };
    assert_eq!(zero.to_string(), "  ");
    for n in 1..=8 {
        let tile = Tile { kind: TileType::Number(n), open: true, flagged: false };
        assert_eq!(tile.to_string(), format!("{} ", n));
    }
}

#[test]
fn new_session_is_in_play_with_nothing_waiting() {
    let settings = GameSettings { dimensions: (15, 20), bomb_count: 50 };
    let session = Session::new(&settings).unwrap();
    assert_eq!(session.state(), GameState::Playing);
    assert!(session.pending().is_empty());
    assert_eq!(session.board().width(), 15);
    assert_eq!(session.board().height(), 20);
    assert_eq!(session.board().tiles_left(), 250);
}

#[test]
fn new_session_refuses_what_the_board_refuses() {
    let settings = GameSettings { dimensions: (2, 2), bomb_count: 4 };
    assert!(Session::new(&settings).is_err());
    assert!(Session::with_mines(2, 2, &vec![at(0, 0), at(0, 0)]).is_err());
}

fn press(from: Coordinates, key: Option<KeyPress>) -> (Coordinates, Option<Command>) {
    let board = Board::with_mines(15, 20, &vec![]).unwrap();
    let mut player = PlayerPosition(from);
    let command = handle_input(&mut player, &board, key);
    (player.0, command)
}

#[test]
fn arrow_and_letter_keys_move_the_cursor() {
    let from = at(7, 10);
    for key in [KeyPress::Up, KeyPress::Char('w')] {
        assert_eq!(press(from, Some(key)), (at(7, 9), None));
    }
    for key in [KeyPress::Left, KeyPress::Char('a')] {
        assert_eq!(press(from, Some(key)), (at(6, 10), None));
    }
    for key in [KeyPress::Down, KeyPress::Char('s')] {
        assert_eq!(press(from, Some(key)), (at(7, 11), None));
    }
    for key in [KeyPress::Right, KeyPress::Char('d')] {
        assert_eq!(press(from, Some(key)), (at(8, 10), None));
    }
}

#[test]
fn cursor_stops_at_the_edges() {
    assert_eq!(press(at(0, 0), Some(KeyPress::Up)), (at(0, 0), None));
    assert_eq!(press(at(0, 0), Some(KeyPress::Left)), (at(0, 0), None));
    assert_eq!(press(at(14, 19), Some(KeyPress::Down)), (at(14, 19), None));
    assert_eq!(press(at(14, 19), Some(KeyPress::Right)), (at(14, 19), None));
    assert_eq!(press(at(14, 0), Some(KeyPress::Char('d'))), (at(14, 0), None));
    assert_eq!(press(at(14, 0), Some(KeyPress::Char('s'))), (at(14, 1), None));
}

#[test]
fn cursor_off_the_grid_comes_back_only_by_a_step_onto_it() {
    assert_eq!(press(at(-1, 5), Some(KeyPress::Right)), (at(0, 5), None));
    assert_eq!(press(at(-1, 5), Some(KeyPress::Left)), (at(-1, 5), None));
    assert_eq!(press(at(-1, 5), None), (at(-1, 5), None));
    assert_eq!(press(at(i32::MAX, 0), Some(KeyPress::Right)), (at(i32::MAX, 0), None));
    assert_eq!(press(at(0, i32::MIN), Some(KeyPress::Up)), (at(0, i32::MIN), None));
}

#[test]
fn keys_ask_to_open_to_flag_and_to_quit() {
    let from = at(3, 4);
    assert_eq!(
        press(from, Some(KeyPress::Char('q'))),
        (from, Some(Command::Open(OpenTileEvent(from, true))))
    );
    assert_eq!(
        press(from, Some(KeyPress::Char('e'))),
        (from, Some(Command::Flag(FlagTileEvent(from))))
    );
    assert_eq!(press(from, Some(KeyPress::Escape)), (from, Some(Command::Quit)));
}

#[test]
fn other_keys_and_no_key_do_nothing() {
    let from = at(3, 4);
    assert_eq!(press(from, None), (from, None));
    assert_eq!(press(from, Some(KeyPress::Other)), (from, None));
    assert_eq!(press(from, Some(KeyPress::Char('x'))), (from, None));
    assert_eq!(press(from, Some(KeyPress::Char('W'))), (from, None));
    assert_eq!(press(from, Some(KeyPress::Char('Q'))), (from, None));
}
