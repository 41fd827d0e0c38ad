//! A memory-matching puzzle: a grid of face-down tiles, each symbol on two
//! of them, which the player turns over two at a time.
//!
//! - [`data`]: the settings chosen in the menu and the page on show.
//! - [`tile`] and [`grid`]: the tiles and the rule by which a flip changes
//!   them.
//! - [`layout`]: which symbols a new grid bears, and why none may be laid
//!   out.
//! - [`pool`]: the emojis that serve as symbols and the shuffle, both taken
//!   from other crates and not verified here.
//! - [`session`]: one play-through with its clock, its flip counter and its
//!   end, driven by events.
//! - [`laws`]: what holds of every play-through.

pub mod data;
pub mod grid;
pub mod laws;
pub mod layout;
pub mod pool;
pub mod session;
pub mod tile;

pub use data::{GameAction, GameData, GameEvent, GameMode, Page};
pub use layout::ConfigError;
pub use session::{GameSession, Outcome, SessionAction, SessionEvent, SessionState};
pub use tile::Tile;
