//! Rules engine and turn flow of a two-player card-placement game on a
//! three-by-three board.
//!
//! Two sides, Red and Blue, hold five cards each and take turns placing one
//! on an empty cell. A placed card compares the rank on each of its four
//! edges with the facing edge of every adjacent opposing card and captures
//! the cards it beats. Optional rules (Same, Plus, the wall variant of Same,
//! elemental tiles, sudden death) change what is captured and how a round
//! ends. Red is played by a search over hypothetical placements.

pub mod ai;
pub mod board;
pub mod capture;
pub mod cards;
pub mod entity;
pub mod events;
pub mod hand;
pub mod opponent;
pub mod play_state;
pub mod random;
pub mod ranks;
pub mod search;
pub mod snapshot;
