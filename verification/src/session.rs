//! A game session: one board, its phase, and the requests that wait for the
//! next tick.

use crate::board::{initialize_board, mine_list_error, open_tile, settings_error, Board, BoardView};
use crate::cascade::{all_automatic, lemma_pending_automatic};
use crate::grid::lemma_grid_len;
use crate::rules::{
    closed_numbers, lemma_tick_keeps_phase, mines, open_mines, phase_fits, tick, toggle_at, untouched, Play,
    Tiles,
};
use crate::types::{ConfigError, Coordinates, GameSettings, GameState, OpenTileEvent};
use vstd::prelude::*;

verus! {

/// One game from start to end. All that changes it is `process_tick` and
/// `toggle_flag`.
pub struct Session {
    board: Board,
    state: GameState,
    pending: Vec<OpenTileEvent>,
}

/// What a session is, as mathematics.
pub struct SessionView {
    pub board: BoardView,
    pub state: GameState,
    pub pending: Seq<OpenTileEvent>,
}

/// So many ticks' worth of requests from a player who asks for nothing.
pub open spec fn quiet(ticks: nat) -> Seq<Seq<OpenTileEvent>> {
    Seq::new(ticks, |i: int| Seq::empty())
}

impl SessionView {
    /// What holds of every session: the board is well formed, the phase is the
    /// one that its tiles call for, and no request that waits was made by the
    /// player.
    pub open spec fn wf(self) -> bool {
        &&& self.board.wf()
        &&& phase_fits(self.board.tiles, self.state)
        &&& all_automatic(self.pending)
    }

    /// The session with other tiles on its board, the counter set to match.
    pub open spec fn with_tiles(self, tiles: Tiles) -> SessionView {
        SessionView {
            board: BoardView {
                width: self.board.width,
                height: self.board.height,
                tiles,
                tiles_left: closed_numbers(tiles).len() as int,
            },
            state: self.state,
            pending: self.pending,
        }
    }

    /// The session after one tick on the player's requests `intents`. The
    /// requests left by the tick before are taken first, then the player's.
    pub open spec fn after_tick(self, intents: Seq<OpenTileEvent>) -> SessionView {
        let done = tick(self.board.tiles, self.state, self.pending + intents);
        SessionView { state: done.state, pending: done.pending, ..self.with_tiles(done.tiles) }
    }

    /// The session after one tick for each entry of `inputs`, in order.
    pub open spec fn after_ticks(self, inputs: Seq<Seq<OpenTileEvent>>) -> SessionView
        decreases inputs.len(),
    {
        if inputs.len() == 0 {
            self
        } else {
            self.after_ticks(inputs.drop_last()).after_tick(inputs.last())
        }
    }

    /// The session after a request to flip the flag at `pos`, which only a game
    /// in play takes.
    pub open spec fn after_toggle(self, pos: Coordinates) -> SessionView {
        if self.state == GameState::Playing {
            self.with_tiles(toggle_at(self.board.tiles, pos))
        } else {
            self
        }
    }
}

impl View for Session {
    type V = SessionView;

    closed spec fn view(&self) -> SessionView {
        SessionView { board: self.board@, state: self.state, pending: self.pending@ }
    }
}

impl Session {
    /// Whether the session is well formed.
    pub open spec fn wf(&self) -> bool {
        self@.wf()
    }

    /// A session on a board that is well formed, untouched and has a number to
    /// reveal.
    fn start(board: Board) -> (session: Session)
        requires
            board.wf(),
            untouched(board@.tiles),
            board@.tiles_left > 0,
        ensures
            session.wf(),
            session@.board == board@,
            session@.state == GameState::Playing,
            session@.pending == Seq::<OpenTileEvent>::empty(),
    {
        assert(open_mines(board@.tiles) =~= Set::<Coordinates>::empty());
        Session { board, state: GameState::Playing, pending: Vec::new() }
    }

    /// A new game on a board generated from `settings`, or the reason why the
    /// settings allow none.
    pub fn new(settings: &GameSettings) -> (made: Result<Session, ConfigError>)
        ensures
            match made {
                Ok(session) => {
                    &&& settings_error(*settings) is None
                    &&& session.wf()
                    &&& session@.state == GameState::Playing
                    &&& session@.pending == Seq::<OpenTileEvent>::empty()
                    &&& session@.board.width == settings.dimensions.0
                    &&& session@.board.height == settings.dimensions.1
                    &&& untouched(session@.board.tiles)
                    &&& mines(session@.board.tiles).finite()
                    &&& mines(session@.board.tiles).len() == settings.bomb_count
                    &&& session@.board.tiles_left == settings.dimensions.0 * settings.dimensions.1
                        - settings.bomb_count
                },
                Err(e) => settings_error(*settings) == Some(e),
            },
    {
        match initialize_board(settings) {
            Ok(board) => Ok(Session::start(board)),
            Err(e) => Err(e),
        }
    }

    /// A new game on the board with mines on exactly the given cells, or the
    /// reason why there is no such board.
    pub fn with_mines(width: i32, height: i32, cells: &Vec<Coordinates>) -> (made: Result<
        Session,
        ConfigError,
    >)
        ensures
            match made {
                Ok(session) => {
                    &&& mine_list_error(width as int, height as int, cells@) is None
                    &&& session.wf()
                    &&& session@.state == GameState::Playing
                    &&& session@.pending == Seq::<OpenTileEvent>::empty()
                    &&& session@.board.width == width
                    &&& session@.board.height == height
                    &&& untouched(session@.board.tiles)
                    &&& mines(session@.board.tiles) =~= cells@.to_set()
                    &&& session@.board.tiles_left == width * height - cells@.len()
                },
                Err(e) => mine_list_error(width as int, height as int, cells@) == Some(e),
            },
    {
        match Board::with_mines(width, height, cells) {
            Ok(board) => Ok(Session::start(board)),
            Err(e) => Err(e),
        }
    }

    /// The board.
    pub fn board(&self) -> (board: &Board)
        ensures
            board@ == self@.board,
    {
        &self.board
    }

    /// The phase of the game.
    pub fn state(&self) -> (state: GameState)
        ensures
            state == self@.state,
    {
        self.state
    }

    /// The requests that wait for the next tick.
    pub fn pending(&self) -> (pending: &Vec<OpenTileEvent>)
        ensures
            pending@ == self@.pending,
    {
        &self.pending
    }

    /// One tick: the requests left by the tick before, then the player's
    /// requests `intents`, go through the reveal engine in that order, and
    /// what they leave behind waits for the next tick. A game that is won or
    /// lost drops all of them and stays as it is.
    pub fn process_tick(&mut self, intents: &Vec<OpenTileEvent>)
        requires
            old(self).wf(),
        ensures
            final(self).wf(),
            final(self)@ == old(self)@.after_tick(intents@),
    {
        let mut events: Vec<OpenTileEvent> = Vec::new();
        events.append(&mut self.pending);
        for i in 0..intents.len()
            invariant
                events@ == old(self)@.pending + intents@.take(i as int),
        {
            events.push(intents[i]);
            assert(intents@.take(i + 1) =~= intents@.take(i as int).push(intents@[i as int]));
        }
        assert(intents@.take(intents@.len() as int) =~= intents@);
        proof {
            lemma_grid_len(self.board@.width, self.board@.height);
            lemma_tick_keeps_phase(self.board@.tiles, self.state, events@);
            lemma_pending_automatic(
                Play { tiles: self.board@.tiles, state: self.state, pending: Seq::empty() },
                events@,
            );
        }
        self.pending = open_tile(&mut self.board, &mut self.state, &events);
    }

    /// Flips the flag of the tile at `pos` if the game is in play, `pos` has a
    /// tile and the tile is closed; does nothing otherwise.
    pub fn toggle_flag(&mut self, pos: Coordinates)
        requires
            old(self).wf(),
        ensures
            final(self).wf(),
            final(self)@ == old(self)@.after_toggle(pos),
    {
        match self.state {
            GameState::Playing => {
                let ghost before = self.board@.tiles;
                self.board.toggle(pos);
                proof {
                    let after = self.board@.tiles;
                    assert(closed_numbers(after) =~= closed_numbers(before));
                    assert(open_mines(after) =~= open_mines(before));
                }
            },
            _ => {},
        }
    }
}

} // verus!
