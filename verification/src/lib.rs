//! Game-tree search core for a two-player, zero-sum, perfect-information
//! board game engine: a fail-hard negamax/alpha-beta search with quiescence,
//! a shared transposition table keyed by position hash, a history heuristic
//! for move ordering, and a correction history that nudges the static
//! evaluation toward search-discovered truth.
//!
//! Position representation, legal-move generation and static evaluation are
//! external collaborators: the search is verified against the [`game::Game`]
//! and [`game::Evaluator`] interfaces alone, so its guarantees hold for every
//! implementation that meets them.

pub mod arith;
pub mod corrhist;
pub mod game;
pub mod history;
pub mod model;
pub mod pv;
pub mod search;
pub mod tt;
pub mod zobrist;

pub use search::{is_repetition_draw, Search, SearchParams};
pub use tt::{allocate_tt, TtEntry};
pub use zobrist::Zobrist;
