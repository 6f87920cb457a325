//! A mine-sweeping board engine: grid generation, tile state, and the
//! tick-by-tick reveal cascade that decides when a game is won or lost.
//!
//! A game is a [`session::Session`]: a board, a phase and the requests that
//! wait for the next tick. Once per tick the caller hands it the player's
//! requests to open tiles; the session opens what they open, spreads from
//! tiles with no mine around them one ring per tick, and reports the phase.
//! Reading keys and drawing the board are the caller's business; what a key
//! means is decided in [`input`].
//!
//! Everything is verified but two things, which are taken on trust: the hash
//! map that stores the tiles ([`tile_map`]) and the random numbers that place
//! the mines ([`random`]). [`rules`] states what the engine computes,
//! [`laws`] what follows for every game.

pub mod board;
pub mod cascade;
pub mod generate;
pub mod grid;
pub mod input;
pub mod laws;
pub mod random;
pub mod rules;
pub mod session;
pub mod store;
pub mod tile;
pub mod tile_map;
pub mod types;
