//! What the game reports upward: sounds to play, menu choices, round results.

use vstd::prelude::*;
use crate::cards::DuelOutcome;

verus! {

/// An optional rule that the menu can switch on or off.
#[derive(Clone, Copy, Debug, PartialEq, Eq, Structural)]
pub enum Rule {
    Open,
    Elemental,
    Random,
    Same,
    Wall,
    Plus,
    SuddenDeath,
}

impl Rule {
    /// The rules in the order in which the menu lists them.
    pub open spec fn listed() -> Seq<Rule> {
        seq![
            Rule::Open,
            Rule::Elemental,
            Rule::Random,
            Rule::Same,
            Rule::Wall,
            Rule::Plus,
            Rule::SuddenDeath,
        ]
    }

    /// The rules in the order in which the menu lists them.
    pub fn iterator() -> (rules: [Rule; 7])
        ensures
            rules@ == Rule::listed(),
    {
        let rules = [
            Rule::Open,
            Rule::Elemental,
            Rule::Random,
            Rule::Same,
            Rule::Wall,
            Rule::Plus,
            Rule::SuddenDeath,
        ];
        assert(rules@ =~= Rule::listed());
        rules
    }
}

/// A class of sound effect.
#[derive(Clone, Copy, Debug, PartialEq, Eq, Structural)]
pub enum Sfx {
    Move,
    Select,
    Cancel,
    Fanfare,
    Flip,
}

/// An event handed from one layer of the game to the layer above it.
#[derive(Clone, Copy, Debug, PartialEq, Eq, Structural)]
pub enum Event {
    Play,
    Quit,
    Finished,
    GameSummary(DuelOutcome, bool),
    ChangeRule(Rule),
    ChangeDifficulty,
    ToggleCards(usize),
    PlaySound(Sfx),
    NoEvent,
}

} // verus!
