//! Deciding at run time whether a round is in a state that play can go on
//! from.

use vstd::prelude::*;
use crate::ai::{Action, Opponent as Ai, ThreadStatus, TIMEOUT};
use crate::board::model::{
    count_from, hand_owned, pending, stack_shape, Board, State, TurnPhase,
};
use crate::cards::{Suit, MAX_RANK};
use crate::entity::{all_wf, CardEntity, ElementalEffect, FlipDirection, FlipStage};
use crate::hand::{count_cards, Hand};

verus! {

impl CardEntity {
    /// Whether the card is well formed.
    pub fn is_wf(&self) -> (res: bool)
        ensures
            res == self.wf(),
    {
        let in_range = self.rank.t <= MAX_RANK && self.rank.b <= MAX_RANK && self.rank.l <= MAX_RANK
            && self.rank.r <= MAX_RANK;
        let opening = match self.flip_animation.direction {
            FlipDirection::Open => true,
            _ => false,
        };
        let late = match self.flip_animation.stage {
            FlipStage::Third | FlipStage::Fourth => true,
            _ => false,
        };
        in_range && self.flip_animation.active == self.is_flipping() && !(opening && late)
    }

    /// Whether the card fits into a hand of `side`: it belongs to the side
    /// and counts for it, carries no modifier, and turns over only to show
    /// its face.
    pub fn is_at_home(&self, side: Suit) -> (res: bool)
        ensures
            res == (self.owner == side && self.controller == side && self.elemental_effect
                == ElementalEffect::NoEffect && (self.flip_animation.active
                ==> self.flip_animation.direction == FlipDirection::Open)),
    {
        let plain = match self.elemental_effect {
            ElementalEffect::NoEffect => true,
            _ => false,
        };
        let opening = match self.flip_animation.direction {
            FlipDirection::Open => true,
            _ => false,
        };
        self.owner == side && self.controller == side && plain && (!self.flip_animation.active
            || opening)
    }
}

/// Whether every card of a row is well formed.
pub fn row_is_wf(cards: &[Option<CardEntity>]) -> (res: bool)
    ensures
        res == all_wf(cards@),
{
    let mut i: usize = 0;
    while i < cards.len()
        invariant
            i <= cards@.len(),
            forall|k: int|
                0 <= k < i ==> match #[trigger] cards@[k] {
                    Some(card) => card.wf(),
                    None => true,
                },
        decreases cards@.len() - i,
    {
        if let Some(card) = cards[i] {
            if !card.is_wf() {
                return false;
            }
        }
        i += 1;
    }
    true
}

/// Whether every card of a row fits into a hand of `side`.
pub fn row_is_owned(cards: &[Option<CardEntity>], side: Suit) -> (res: bool)
    ensures
        res == hand_owned(cards@, side),
{
    let mut i: usize = 0;
    while i < cards.len()
        invariant
            i <= cards@.len(),
            forall|k: int|
                0 <= k < i ==> match #[trigger] cards@[k] {
                    Some(card) => {
                        &&& card.owner == side
                        &&& card.controller == side
                        &&& card.elemental_effect == ElementalEffect::NoEffect
                        &&& card.flip_animation.active ==> card.flip_animation.direction
                            == FlipDirection::Open
                    },
                    None => true,
                },
        decreases cards@.len() - i,
    {
        if let Some(card) = cards[i] {
            if !card.is_at_home(side) {
                return false;
            }
        }
        i += 1;
    }
    true
}

/// How many cards a row holds, and how many of them came from the hand of
/// Red and of Blue.
pub fn count_row(cards: &[Option<CardEntity>]) -> (res: (usize, usize, usize))
    requires
        cards@.len() <= 9,
    ensures
        res.0 == count_cards(cards@, cards@.len() as int),
        res.1 == count_from(cards@, Suit::Red, cards@.len() as int),
        res.2 == count_from(cards@, Suit::Blue, cards@.len() as int),
        res.0 <= 9,
        res.1 <= 9,
        res.2 <= 9,
{
    let mut all: usize = 0;
    let mut red: usize = 0;
    let mut blue: usize = 0;
    let mut i: usize = 0;
    while i < cards.len()
        invariant
            i <= cards@.len() <= 9,
            all == count_cards(cards@, i as int),
            red == count_from(cards@, Suit::Red, i as int),
            blue == count_from(cards@, Suit::Blue, i as int),
            all <= i,
            red <= i,
            blue <= i,
        decreases cards@.len() - i,
    {
        if let Some(card) = cards[i] {
            all += 1;
            match card.owner {
                Suit::Red => red += 1,
                Suit::Blue => blue += 1,
            }
        }
        i += 1;
    }
    (all, red, blue)
}

impl Hand {
    /// Whether the hand is well formed.
    pub fn is_wf(&self) -> (res: bool)
        ensures
            res == self.wf(),
    {
        let focus_ok = match self.focus {
            Some(i) => i < 5,
            None => true,
        };
        let selected_ok = match self.selected {
            Some(i) => i < 5 && self.cards[i].is_some(),
            None => true,
        };
        focus_ok && selected_ok && row_is_wf(&self.cards)
    }
}

impl Ai {
    /// Whether the automated side rests between two turns.
    pub fn is_idle(&self) -> (res: bool)
        ensures
            res == self@.idle(),
    {
        let waiting = match self.thread_status {
            ThreadStatus::Waiting => true,
            _ => false,
        };
        self.diffuculty >= 1 && -1 <= self.timer && self.timer <= TIMEOUT && self.actions.len() == 0
            && waiting
    }

    /// Whether a move can be played.
    fn can_play(from: usize, to: usize, red: &Hand, field: &[Option<CardEntity>; 9]) -> (res: bool)
        ensures
            res == crate::ai::playable_move(from, to, red@.cards, field@),
    {
        from < 5 && to < 9 && red.cards[from].is_some() && field[to].is_none()
    }

    /// Whether the automated side is ready to think about a move from the
    /// given hand on the given board.
    pub fn is_ready(&self, red: &Hand, field: &[Option<CardEntity>; 9]) -> (res: bool)
        ensures
            res == self@.ready(red@, field@),
    {
        if !(self.diffuculty >= 1 && -1 <= self.timer && self.timer <= TIMEOUT
            && red.selected.is_none()) {
            return false;
        }
        let waiting = match self.thread_status {
            ThreadStatus::Waiting => true,
            _ => false,
        };
        let finished = match self.thread_status {
            ThreadStatus::Finished => true,
            _ => false,
        };
        if self.actions.len() == 0 {
            return waiting && red.count() > 0;
        }
        match self.actions[0] {
            Action::Put(from, to) => {
                if self.actions.len() == 1 {
                    return waiting && Self::can_play(from, to, red, field);
                }
                false
            },
            Action::Check(_) => false,
            Action::PutBest => {
                let mut j: usize = 1;
                while j < self.actions.len()
                    invariant
                        1 <= j <= self.actions@.len(),
                        forall|k: int|
                            1 <= k < j ==> (#[trigger] self.actions@[k]) is Check
                                && self.actions@[k]->Check_0 < 5 && red@.cards[self.actions@[k]->Check_0 as int] is Some,
                    decreases self.actions@.len() - j,
                {
                    match self.actions[j] {
                        Action::Check(i) => {
                            if !(i < 5 && red.cards[i].is_some()) {
                                return false;
                            }
                        },
                        _ => {
                            return false;
                        },
                    }
                    j += 1;
                }
                if self.actions.len() == 1 && !(self.maybe_move.is_some() && waiting) {
                    return false;
                }
                if let Some(m) = self.maybe_move {
                    if !Self::can_play(m.from, m.to, red, field) {
                        return false;
                    }
                }
                if finished && !Self::can_play(
                    self.solve_result.from,
                    self.solve_result.to,
                    red,
                    field,
                ) {
                    return false;
                }
                true
            },
        }
    }
}

impl Board {
    /// Whether the parts of the round are sound each for itself.
    pub fn is_sound(&self) -> (res: bool)
        ensures
            res == self@.sound(),
    {
        let red_side = match self.red_hand.side {
            Suit::Red => true,
            Suit::Blue => false,
        };
        let blue_side = match self.blue_hand.side {
            Suit::Blue => true,
            Suit::Red => false,
        };
        let enabled = self.opponent.cards();
        let mut levels: usize = 0;
        let mut i: usize = 0;
        while i < 10
            invariant
                i <= 10,
                enabled == self.opponent.card_enabled,
                levels == crate::opponent::count_enabled(self@.card_enabled, i as int),
                levels <= i,
            decreases 10 - i,
        {
            if enabled[i] {
                levels += 1;
            }
            i += 1;
        }
        row_is_wf(&self.playing_field.cards) && self.red_hand.is_wf() && self.blue_hand.is_wf()
            && red_side && blue_side && row_is_owned(&self.red_hand.cards, Suit::Red)
            && row_is_owned(&self.blue_hand.cards, Suit::Blue) && levels >= 1
            && self.opponent.ai.diffuculty >= 1 && -1 <= self.opponent.ai.timer
            && self.opponent.ai.timer <= TIMEOUT
    }

    /// The side whose turn is running or comes next, as far as the stack of
    /// phases says.
    fn pending_side(&self) -> (res: Option<Suit>)
        ensures
            res == pending(self@.stack),
    {
        if self.state_stack.len() < 2 {
            return None;
        }
        match self.state_stack[1] {
            State::RedPlayerTurn(_) => Some(Suit::Red),
            State::BluePlayerTurn(_) => Some(Suit::Blue),
            State::NextTurn(side) => Some(side),
            _ => None,
        }
    }

    /// Whether the stack of phases is one that a round passes through.
    pub fn has_stack_shape(&self) -> (res: bool)
        ensures
            res == stack_shape(self@.stack),
    {
        let len = self.state_stack.len();
        if len < 1 || len > 4 {
            return false;
        }
        match self.state_stack[0] {
            State::Finish => {},
            _ => {
                return false;
            },
        }
        if len >= 2 && self.pending_side().is_none() {
            return false;
        }
        if len >= 3 {
            let change = match self.state_stack[1] {
                State::NextTurn(_) => true,
                _ => false,
            };
            match self.state_stack[1] {
                State::RedPlayerTurn(TurnPhase::Place) | State::BluePlayerTurn(TurnPhase::Place) => {
                    return false;
                },
                _ => {},
            }
            match self.state_stack[2] {
                State::Check => {},
                State::Start => {
                    if change {
                        return false;
                    }
                },
                _ => {
                    return false;
                },
            }
            if len == 4 {
                match (self.state_stack[2], self.state_stack[3]) {
                    (State::Start, State::WaitingPick) => {},
                    (State::Check, State::ComboCheck) => {},
                    (State::Check, State::WaitingMove) => {
                        if !change {
                            return false;
                        }
                    },
                    _ => {
                        return false;
                    },
                }
            }
        }
        true
    }

    /// Whether the round is in a state that play can go on from.
    pub fn is_wf(&self) -> (res: bool)
        ensures
            res == self.wf(),
    {
        if !(self.is_sound() && self.has_stack_shape()) {
            return false;
        }
        let top = self.state_stack[self.state_stack.len() - 1];
        let placing = match top {
            State::BluePlayerTurn(TurnPhase::Place) => true,
            _ => false,
        };
        if placing && self.blue_hand.selected.is_none() {
            return false;
        }
        let red_moves = match top {
            State::RedPlayerTurn(_) => true,
            _ => false,
        };
        if red_moves {
            if !self.opponent.ai.is_ready(&self.red_hand, &self.playing_field.cards) {
                return false;
            }
        } else if !(self.opponent.ai.is_idle() && self.red_hand.selected.is_none()) {
            return false;
        }
        let on_board = count_row(&self.playing_field.cards);
        let in_red = count_row(&self.red_hand.cards);
        let in_blue = count_row(&self.blue_hand.cards);
        let needs_room = self.state_stack.len() >= 2 && match top {
            State::RedPlayerTurn(_) | State::BluePlayerTurn(_) | State::NextTurn(_) | State::Start => true,
            _ => false,
        };
        if needs_room && on_board.0 > 8 {
            return false;
        }
        let waiting = match top {
            State::WaitingPick => true,
            _ => false,
        };
        if waiting {
            return true;
        }
        if !(on_board.1 + in_red.0 == 5 && on_board.2 + in_blue.0 == 5) {
            return false;
        }
        match self.pending_side() {
            Some(Suit::Red) => in_blue.0 <= in_red.0 && in_red.0 <= in_blue.0 + 1,
            Some(Suit::Blue) => in_red.0 <= in_blue.0 && in_blue.0 <= in_red.0 + 1,
            None => true,
        }
    }
}

} // verus!
