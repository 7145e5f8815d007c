//! A grid-based snake simulation: movement, self-collision, growth,
//! scoring, food placement and the game-over reset, verified against a
//! mathematical model of the game state.
//!
//! The crate owns only the simulation rules. Rendering, input polling and
//! windowing are left to the caller, which feeds one frame's worth of held
//! keys and elapsed time into [`game::Game::frame`] and draws the resulting
//! positions.

pub mod game;
pub mod grid;
pub mod text;
pub mod timer;
