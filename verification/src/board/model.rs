//! The data of a live round and its mathematical content.

use std::rc::Rc;
use vstd::prelude::*;
use crate::ai::OpponentModel;
use crate::capture::Combo;
use crate::cards::{CardAtlas, DuelOutcome, Rules, Suit};
use crate::entity::{all_wf, simples, tile_elements, CardEntity, CardTick, ElementEntity};
use crate::hand::{count_cards, Hand, HandModel};
use crate::opponent::{count_enabled, Opponent};
use crate::snapshot::BoardModel;

verus! {

/// The two halves of a player's turn.
#[derive(Clone, Copy, Debug, PartialEq, Eq, Structural)]
pub enum TurnPhase {
    /// Choosing a card of the hand.
    Pick,
    /// Choosing the cell for the chosen card.
    Place,
}

/// A phase of the round. The phases form a stack; the last one is active,
/// and a phase that ends hands over to the one beneath it.
#[derive(Clone, Copy, Debug, PartialEq, Eq, Structural)]
pub enum State {
    /// The cards are being dealt.
    Start,
    RedPlayerTurn(TurnPhase),
    BluePlayerTurn(TurnPhase),
    /// The turn passes to the given side.
    NextTurn(Suit),
    /// A placed card is on its way to its cell.
    WaitingMove,
    /// Blue is still choosing the cards of its hand.
    WaitingPick,
    /// Cards captured by Same or Plus are turning over and await their own
    /// check.
    ComboCheck,
    /// The captures of the cards that await their check are resolved.
    Check,
    /// The round is over.
    Finish,
}

/// A capture: the cell of the captured card and the rule behind it.
#[derive(Clone, Copy, Debug, PartialEq, Eq, Structural)]
pub struct CardFlipped {
    pub cell_id: usize,
    pub combo: Combo,
}

/// The nine cells: the card on each and the elemental tile under each.
#[derive(Clone, Copy, Debug)]
pub struct PlayingField {
    pub cards: [Option<CardEntity>; 9],
    pub elem: [Option<ElementEntity>; 9],
}

/// How long the banner of a combination stays, in microseconds.
pub const COMBO_BANNER_DURATION: u64 = 1_000_000;

/// The banner that announces a Same, Plus or follow-up capture.
#[derive(Clone, Copy, Debug, PartialEq, Eq, Structural)]
pub struct ComboMessage {
    pub active: bool,
    /// For how long the banner has been shown, in microseconds.
    pub timer: u64,
    pub combo: Combo,
}

impl ComboMessage {
    /// The banner after `dt` more microseconds: it goes out once it has
    /// been shown for its duration.
    pub open spec fn ticked(self, dt: u32) -> ComboMessage {
        if !self.active || self.timer >= COMBO_BANNER_DURATION {
            ComboMessage { active: false, ..self }
        } else {
            ComboMessage { timer: (self.timer + dt) as u64, ..self }
        }
    }

    /// The banner freshly lit for `combo`.
    pub open spec fn started(combo: Combo) -> ComboMessage {
        ComboMessage { active: true, timer: 0, combo }
    }

    /// No banner.
    pub fn new() -> (res: ComboMessage)
        ensures
            res == (ComboMessage { active: false, timer: 0, combo: Combo::NoCombo }),
    {
        ComboMessage { active: false, timer: 0, combo: Combo::NoCombo }
    }

    /// Lights the banner for `combo`.
    pub fn start(&mut self, combo: Combo)
        ensures
            *final(self) == ComboMessage::started(combo),
    {
        self.combo = combo;
        self.timer = 0;
        self.active = true;
    }

    /// Lets `dt` microseconds pass.
    pub fn update(&mut self, dt: u32)
        ensures
            *final(self) == old(self).ticked(dt),
    {
        if self.timer >= COMBO_BANNER_DURATION {
            self.active = false;
        }
        if !self.active {
            return;
        }
        self.timer = self.timer + dt as u64;
    }
}

/// What the presentation layer reports for one tick.
#[derive(Clone, Copy, Debug)]
pub struct Input {
    /// The time since the last tick, in microseconds.
    pub dt: u32,
    /// The primary button went down in this tick.
    pub left_pressed: bool,
    /// The secondary button went down in this tick.
    pub right_pressed: bool,
    /// The foremost slot of Blue's hand under the pointer.
    pub hand_hover: Option<usize>,
    /// The cell under the pointer.
    pub cell_hover: Option<usize>,
    /// The progress of the animations of the cards on the board.
    pub field: [CardTick; 9],
    /// The progress of the animations of the cards in Red's hand.
    pub red: [CardTick; 5],
    /// The progress of the animations of the cards in Blue's hand.
    pub blue: [CardTick; 5],
}

/// The live round.
#[derive(Debug)]
pub struct Board {
    pub playing_field: PlayingField,
    pub red_hand: Hand,
    pub blue_hand: Hand,
    pub rules: Rules,
    pub opponent: Opponent,
    pub combo_message: ComboMessage,
    pub state_stack: Vec<State>,
    pub card_atlas: Rc<CardAtlas>,
}

/// The mathematical content of a live round.
pub struct GameModel {
    /// The card on each of the nine cells.
    pub cards: Seq<Option<CardEntity>>,
    /// The elemental tile under each of the nine cells.
    pub elem: Seq<Option<ElementEntity>>,
    pub red_hand: HandModel,
    pub blue_hand: HandModel,
    pub rules: Rules,
    /// The turn of the automated side.
    pub ai: OpponentModel,
    /// For each card level, whether the automated side may draw from it.
    pub card_enabled: Seq<bool>,
    pub combo_message: ComboMessage,
    /// The stack of phases; the last one is active.
    pub stack: Seq<State>,
    pub atlas: CardAtlas,
}

impl View for Board {
    type V = GameModel;

    open spec fn view(&self) -> GameModel {
        GameModel {
            cards: self.playing_field.cards@,
            elem: self.playing_field.elem@,
            red_hand: self.red_hand@,
            blue_hand: self.blue_hand@,
            rules: self.rules,
            ai: self.opponent.ai@,
            card_enabled: self.opponent.card_enabled@,
            combo_message: self.combo_message,
            stack: self.state_stack@,
            atlas: *self.card_atlas,
        }
    }
}

/// How many of the first `upto` slots hold a card that came from the hand of
/// `side`.
pub open spec fn count_from(cards: Seq<Option<CardEntity>>, side: Suit, upto: int) -> int
    decreases upto,
{
    if upto <= 0 {
        0
    } else {
        count_from(cards, side, upto - 1) + (match cards[upto - 1] {
            Some(card) => if card.owner == side { 1int } else { 0 },
            None => 0,
        })
    }
}

/// Every card of a hand of `side` belongs to that side and counts for it,
/// carries no elemental modifier, and turns over, if at all, only to show
/// its face.
pub open spec fn hand_owned(cards: Seq<Option<CardEntity>>, side: Suit) -> bool {
    forall|i: int|
        0 <= i < cards.len() ==> match #[trigger] cards[i] {
            Some(card) => {
                &&& card.owner == side
                &&& card.controller == side
                &&& card.elemental_effect == crate::entity::ElementalEffect::NoEffect
                &&& card.flip_animation.active ==> card.flip_animation.direction
                    == crate::entity::FlipDirection::Open
            },
            None => true,
        }
}

/// The result of a round with the given score, seen from the Blue side.
pub open spec fn outcome_of(score: (int, int)) -> DuelOutcome {
    if score.0 > score.1 {
        DuelOutcome::Lose
    } else if score.0 < score.1 {
        DuelOutcome::Win
    } else {
        DuelOutcome::Draw
    }
}

/// The side whose turn is running or comes next, as far as the stack of
/// phases says: the second phase from the bottom names it.
pub open spec fn pending(stack: Seq<State>) -> Option<Suit> {
    if stack.len() < 2 {
        None
    } else {
        match stack[1] {
            State::RedPlayerTurn(_) => Some(Suit::Red),
            State::BluePlayerTurn(_) => Some(Suit::Blue),
            State::NextTurn(side) => Some(side),
            _ => None,
        }
    }
}

/// The stacks of phases that a round passes through: `Finish` at the
/// bottom; above it, if anything, a turn or a change of turn; above a turn
/// that has not begun, the deal or a check; above a change of turn, a check;
/// above a check, at most a combination check or a card on its way.
pub open spec fn stack_shape(stack: Seq<State>) -> bool {
    &&& 1 <= stack.len() <= 4
    &&& stack[0] == State::Finish
    &&& stack.len() >= 2 ==> pending(stack) is Some
    &&& stack.len() >= 3 ==> {
        &&& stack[1] != State::RedPlayerTurn(TurnPhase::Place)
        &&& stack[1] != State::BluePlayerTurn(TurnPhase::Place)
        &&& stack[2] == State::Check || (stack[2] == State::Start && !(stack[1] is NextTurn))
    }
    &&& stack.len() == 4 ==> {
        ||| stack[2] == State::Start && stack[3] == State::WaitingPick
        ||| stack[2] == State::Check && (stack[3] == State::ComboCheck || (stack[3]
            == State::WaitingMove && stack[1] is NextTurn))
    }
}

impl GameModel {
    /// The round as the search sees it.
    pub open spec fn snapshot(self) -> BoardModel {
        BoardModel {
            red_hand: simples(self.red_hand.cards),
            blue_hand: simples(self.blue_hand.cards),
            cards: simples(self.cards),
            tiles: tile_elements(self.elem),
            rules: self.rules,
        }
    }

    /// The number of cards that Red controls and the number that Blue
    /// controls, over both hands and the board.
    pub open spec fn score(self) -> (int, int) {
        self.snapshot().score()
    }

    /// The number of cards in both hands and on the board.
    pub open spec fn card_count(self) -> int {
        count_cards(self.red_hand.cards, 5) + count_cards(self.blue_hand.cards, 5) + count_cards(
            self.cards,
            9,
        )
    }

    /// The hand of the given side.
    pub open spec fn hand(self, side: Suit) -> HandModel {
        match side {
            Suit::Red => self.red_hand,
            Suit::Blue => self.blue_hand,
        }
    }

    /// The active phase.
    pub open spec fn top(self) -> State {
        self.stack.last()
    }

    /// The parts are sound each for itself: nine cells, two well-formed
    /// hands of the right sides, well-formed cards, at least one card level
    /// to draw from.
    pub open spec fn sound(self) -> bool {
        &&& self.cards.len() == 9
        &&& self.elem.len() == 9
        &&& all_wf(self.cards)
        &&& self.red_hand.wf()
        &&& self.blue_hand.wf()
        &&& self.red_hand.side == Suit::Red
        &&& self.blue_hand.side == Suit::Blue
        &&& hand_owned(self.red_hand.cards, Suit::Red)
        &&& hand_owned(self.blue_hand.cards, Suit::Blue)
        &&& self.card_enabled.len() == 10
        &&& count_enabled(self.card_enabled, 10) >= 1
        &&& self.ai.diffuculty >= 1
        &&& -1 <= self.ai.timer <= crate::ai::TIMEOUT
    }

    /// Both sides have been dealt their five cards: of the cards that came
    /// from a side's hand, those on the board and those still in the hand
    /// are five together.
    pub open spec fn dealt(self) -> bool {
        &&& count_from(self.cards, Suit::Red, 9) + count_cards(self.red_hand.cards, 5) == 5
        &&& count_from(self.cards, Suit::Blue, 9) + count_cards(self.blue_hand.cards, 5) == 5
    }

    /// The side that is to move holds as many cards as the other, or one
    /// more.
    pub open spec fn balanced(self) -> bool {
        match pending(self.stack) {
            Some(side) => {
                let mine = count_cards(self.hand(side).cards, 5);
                let theirs = count_cards(self.hand(side.other()).cards, 5);
                theirs <= mine <= theirs + 1
            },
            None => true,
        }
    }

    /// The hands and the automated side fit the active phase: while Blue
    /// places, a card of its hand is selected; while Red is at its turn, the
    /// automated side is ready to think; at any other time it rests and no
    /// card of Red's hand is selected.
    pub open spec fn in_phase(self) -> bool {
        &&& self.stack.len() >= 1 && self.top() == State::BluePlayerTurn(TurnPhase::Place)
            ==> self.blue_hand.selected is Some
        &&& if self.stack.len() >= 1 && self.top() is RedPlayerTurn {
            self.ai.ready(self.red_hand, self.cards)
        } else {
            self.ai.idle() && self.red_hand.selected is None
        }
    }

    /// While a turn, a change of turn or the deal is the active phase, the
    /// board has an empty cell.
    pub open spec fn has_room(self) -> bool {
        self.stack.len() >= 2 && (self.top() is RedPlayerTurn || self.top() is BluePlayerTurn
            || self.top() is NextTurn || self.top() == State::Start) ==> count_cards(self.cards, 9)
            <= 8
    }

    /// The round is in a state that play can go on from. While Blue still
    /// chooses its cards, nothing is asked of the number of cards dealt.
    pub open spec fn wf(self) -> bool {
        &&& self.sound()
        &&& stack_shape(self.stack)
        &&& self.in_phase()
        &&& self.has_room()
        &&& self.top() != State::WaitingPick ==> self.dealt() && self.balanced()
    }
}

impl Board {
    /// The round is in a state that play can go on from.
    pub open spec fn wf(&self) -> bool {
        self@.wf()
    }
}

} // verus!
