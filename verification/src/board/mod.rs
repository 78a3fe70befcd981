//! The live round: the nine cells with their cards and elemental tiles, the
//! two hands, and the stack of phases that carries the round from the deal
//! to its result.

pub mod checks;
pub mod soundness;
pub mod model;
pub mod setup;
pub mod turn;
pub mod wellformed;

pub use model::{
    Board, CardFlipped, ComboMessage, GameModel, Input, PlayingField, State, TurnPhase,
};
