//! Setting a round up, putting it back, and reading it off: everything
//! about the live round but the turn itself.

use std::rc::Rc;
use vstd::prelude::*;
use crate::ai::{playable_move, OpponentModel, SearchJob, ThreadStatus};
use crate::board::model::{
    count_from, outcome_of, Board, ComboMessage, GameModel, PlayingField, State, TurnPhase,
};
use crate::capture::Combo;
use crate::cards::{CardAtlas, DuelOutcome, Element, Rules, Suit};
use crate::entity::{
    all_wf, simples, CardEntity, ElementEntity, ElementalEffect, FlipAnimation, FlipDirection,
    FlipStage, MoveAnimation,
};
use crate::events::Rule;
use crate::hand::{
    count_cards, first_free, lemma_count_cards_update, lemma_room_in_hand, Hand,
    HandModel,
};
use crate::opponent::Opponent;
use crate::random::{random_below, random_ratio};
use crate::search::Move;
use crate::snapshot::count_owned;

verus! {

/// Out of how many draws a cell gets an elemental tile of its own accord.
pub const ELEM_CHANCE_OUT_OF: u32 = 10;

/// In how many of those draws it does.
pub const ELEM_CHANCE: u32 = 3;

/// The stack of phases at the beginning of a round in which `first` moves
/// first: the deal, then the first turn, and `Finish` at the bottom.
pub open spec fn opening_stack(first: Suit) -> Seq<State> {
    seq![
        State::Finish,
        match first {
            Suit::Red => State::RedPlayerTurn(TurnPhase::Pick),
            Suit::Blue => State::BluePlayerTurn(TurnPhase::Pick),
        },
        State::Start,
    ]
}

/// Nine cells without a card.
pub open spec fn no_cards() -> Seq<Option<CardEntity>> {
    Seq::new(9, |i: int| None::<CardEntity>)
}

/// Nine cells without a tile.
pub open spec fn no_tiles() -> Seq<Option<ElementEntity>> {
    Seq::new(9, |i: int| None::<ElementEntity>)
}

/// A hand without cards.
pub open spec fn empty_hand(side: Suit, atlas: CardAtlas) -> HandModel {
    HandModel {
        cards: Seq::new(5, |i: int| None::<CardEntity>),
        focus: None,
        selected: None,
        side,
        atlas,
    }
}

/// The tiles after the draws of a round: where cell `i` is the guaranteed
/// cell `first`, or its draw `hits[i]` came out true, it gets a tile of the
/// element drawn for it, not yet glowing; every other cell keeps what it
/// had.
pub open spec fn laid(
    before: Seq<Option<ElementEntity>>,
    first: int,
    hits: Seq<bool>,
    elements: Seq<usize>,
) -> Seq<Option<ElementEntity>> {
    Seq::new(
        9,
        |i: int|
            if hits[i] || i == first {
                Some(ElementEntity { element: Element::at(elements[i] as int), active: false })
            } else {
                before[i]
            },
    )
}

/// The tiles are those of a new round: none if the rules have no elemental
/// tiles; else what some draws lay on the bare board, one cell being
/// guaranteed its tile.
pub open spec fn tiles_drawn(elem: Seq<Option<ElementEntity>>, elemental: bool) -> bool {
    if elemental {
        exists|first: int, hits: Seq<bool>, elements: Seq<usize>|
            0 <= first < 9 && elem == #[trigger] laid(no_tiles(), first, hits, elements)
    } else {
        elem == no_tiles()
    }
}

/// A card as it goes back into the hand of its owner: it counts for its
/// owner again, carries no modifier, and rests.
pub open spec fn at_rest(card: CardEntity) -> CardEntity {
    CardEntity {
        controller: card.owner,
        elemental_effect: ElementalEffect::NoEffect,
        flip_animation: FlipAnimation {
            active: false,
            combo: false,
            stage: FlipStage::Waiting,
            direction: FlipDirection::Vertical,
        },
        move_animation: MoveAnimation { active: false },
        deal_animation: false,
        ..card
    }
}

/// The hand after the cards of its side on cells 0 to `upto - 1` have gone
/// back into it, cell by cell, each into the first free slot.
pub open spec fn taken_back(hand: HandModel, field: Seq<Option<CardEntity>>, upto: int) -> HandModel
    decreases upto,
{
    if upto <= 0 {
        hand
    } else {
        let before = taken_back(hand, field, upto - 1);
        match field[upto - 1] {
            Some(card) => if card.owner == hand.side {
                before.receiving(at_rest(card))
            } else {
                before
            },
            None => before,
        }
    }
}

/// The rules with one of them switched over.
pub open spec fn toggled(rules: Rules, r: Rule) -> Rules {
    match r {
        Rule::Open => Rules { open: !rules.open, ..rules },
        Rule::Elemental => Rules { elemental: !rules.elemental, ..rules },
        Rule::Random => Rules { random: !rules.random, ..rules },
        Rule::Same => Rules { same: !rules.same, ..rules },
        Rule::Wall => Rules { same_wall: !rules.same_wall, ..rules },
        Rule::Plus => Rules { plus: !rules.plus, ..rules },
        Rule::SuddenDeath => Rules { sudden_death: !rules.sudden_death, ..rules },
    }
}

/// The modifier that a tile puts on a card of the given element: none
/// without a tile, a bonus where the elements agree, a malus on any other
/// tile.
pub open spec fn effect_on(element: Option<Element>, tile: Option<ElementEntity>) -> ElementalEffect {
    match tile {
        None => ElementalEffect::NoEffect,
        Some(t) => if element == Some(t.element) {
            ElementalEffect::Bonus
        } else {
            ElementalEffect::Malus
        },
    }
}

/// A card as it is put on a cell with the given tile: it takes the tile's
/// modifier, counts for its owner, awaits its capture check, and is on its
/// way to the cell.
pub open spec fn placed(card: CardEntity, tile: Option<ElementEntity>) -> CardEntity {
    CardEntity {
        elemental_effect: effect_on(card.element, tile),
        controller: card.owner,
        flip_animation: FlipAnimation {
            active: false,
            combo: false,
            stage: FlipStage::Finished,
            ..card.flip_animation
        },
        move_animation: MoveAnimation { active: true },
        ..card
    }
}

/// A card placed on a tile of its own element has every rank raised by one;
/// on any other tile every rank is lowered by one, but not below zero;
/// without a tile the ranks are the base ranks. The search places a card in
/// the same way.
pub proof fn lemma_placed_ranks(card: CardEntity, tile: Option<ElementEntity>)
    ensures
        placed(card, tile).rank == card.rank,
        placed(card, tile).effective() == (match tile {
            None => card.rank,
            Some(t) => if card.element == Some(t.element) {
                card.rank.raised()
            } else {
                card.rank.lowered()
            },
        }),
        placed(card, tile).simple() == (crate::snapshot::CardSimple {
            rank: card.rank,
            rank_elem: card.rank,
            suit: card.owner,
            element: card.element,
        }).placed_on(
            match tile {
                Some(t) => Some(t.element),
                None => None,
            },
        ),
{
}

/// No card of the row is on its way to its cell.
pub open spec fn none_moving(cards: Seq<Option<CardEntity>>) -> bool {
    forall|i: int|
        0 <= i < cards.len() ==> match #[trigger] cards[i] {
            Some(card) => !card.move_animation.active,
            None => true,
        }
}

/// No card of the row is on its way into the hand.
pub open spec fn none_dealing(cards: Seq<Option<CardEntity>>) -> bool {
    forall|i: int|
        0 <= i < cards.len() ==> match #[trigger] cards[i] {
            Some(card) => !card.deal_animation,
            None => true,
        }
}

/// No card of the row is turning over.
pub open spec fn none_flipping(cards: Seq<Option<CardEntity>>) -> bool {
    forall|i: int|
        0 <= i < cards.len() ==> match #[trigger] cards[i] {
            Some(card) => !FlipAnimation::in_flight(card.flip_animation.stage),
            None => true,
        }
}

/// The cards of a hand, each with the flip begun that shows its face.
pub open spec fn opened(cards: Seq<Option<CardEntity>>) -> Seq<Option<CardEntity>> {
    Seq::new(
        cards.len(),
        |i: int|
            match cards[i] {
                Some(card) => Some(
                    CardEntity {
                        flip_animation: FlipAnimation {
                            active: true,
                            stage: FlipStage::First,
                            direction: FlipDirection::Open,
                            ..card.flip_animation
                        },
                        ..card
                    },
                ),
                None => None,
            },
    )
}

/// Taking cards back fills the hand by as many cards as the board held of
/// its side, and leaves it a sound hand of that side.
pub proof fn lemma_taken_back(hand: HandModel, field: Seq<Option<CardEntity>>, upto: int)
    requires
        hand.wf(),
        crate::board::model::hand_owned(hand.cards, hand.side),
        field.len() == 9,
        all_wf(field),
        0 <= upto <= 9,
        count_cards(hand.cards, 5) + count_from(field, hand.side, upto) <= 5,
    ensures
        ({
            let after = taken_back(hand, field, upto);
            &&& count_cards(after.cards, 5) == count_cards(hand.cards, 5) + count_from(
                field,
                hand.side,
                upto,
            )
            &&& after.cards.len() == 5
            &&& all_wf(after.cards)
            &&& crate::board::model::hand_owned(after.cards, hand.side)
            &&& after.side == hand.side
            &&& after.atlas == hand.atlas
            &&& after.focus == hand.focus
            &&& (HandModel { selected: None, ..after }).wf()
        }),
    decreases upto,
{
    if upto > 0 {
        lemma_count_from_bounds(field, upto - 1);
        lemma_taken_back(hand, field, upto - 1);
        let before = taken_back(hand, field, upto - 1);
        assert(count_from(field, hand.side, upto) == count_from(field, hand.side, upto - 1) + (
        match field[upto - 1] {
            Some(card) => if card.owner == hand.side { 1int } else { 0 },
            None => 0,
        }));
        match field[upto - 1] {
            Some(card) => {
                if card.owner == hand.side {
                    lemma_room_in_hand(before.cards);
                    lemma_count_cards_update(
                        before.cards,
                        first_free(before.cards, 0),
                        Some(at_rest(card)),
                        5,
                    );
                    assert(card.wf());
                }
            },
            None => {},
        }
    } else {
        crate::hand::lemma_count_cards_uniform(hand.cards, 5);
    }
}

impl GameModel {
    /// The round before anything has been dealt.
    pub open spec fn initial(atlas: CardAtlas) -> GameModel {
        GameModel {
            cards: no_cards(),
            elem: no_tiles(),
            red_hand: empty_hand(Suit::Red, atlas),
            blue_hand: empty_hand(Suit::Blue, atlas),
            rules: Rules::none(),
            ai: OpponentModel::fresh(),
            card_enabled: Seq::new(10, |i: int| true),
            combo_message: ComboMessage { active: false, timer: 0, combo: Combo::NoCombo },
            stack: opening_stack(Suit::Red),
            atlas,
        }
    }

    /// The round cleared for a new one, with the given new tiles: no card on
    /// the board or in a hand, and the opening stack of phases.
    pub open spec fn cleared(self, elem: Seq<Option<ElementEntity>>) -> GameModel {
        GameModel {
            cards: no_cards(),
            elem,
            red_hand: empty_hand(Suit::Red, self.atlas),
            blue_hand: empty_hand(Suit::Blue, self.atlas),
            stack: opening_stack(Suit::Red),
            ..self
        }
    }

    /// The round after the reset of sudden death, with the given new tiles:
    /// every card is back in the hand of the side it came from, and the
    /// deal and a turn stand on the stack of phases.
    pub open spec fn reset_for_sudden_death(self, elem: Seq<Option<ElementEntity>>) -> GameModel {
        GameModel {
            cards: no_cards(),
            elem,
            red_hand: HandModel {
                focus: None,
                selected: None,
                ..taken_back(self.red_hand, self.cards, 9)
            },
            blue_hand: HandModel {
                focus: None,
                selected: None,
                ..taken_back(self.blue_hand, self.cards, 9)
            },
            stack: self.stack.push(State::Start).push(State::RedPlayerTurn(TurnPhase::Pick)),
            ..self
        }
    }

    /// Everything is in place for the deal: both sides hold their five
    /// cards, the board is empty, and the automated side rests.
    pub open spec fn ready_to_start(self) -> bool {
        &&& self.sound()
        &&& count_cards(self.red_hand.cards, 5) == 5
        &&& count_cards(self.blue_hand.cards, 5) == 5
        &&& count_cards(self.cards, 9) == 0
        &&& self.ai.idle()
        &&& self.red_hand.selected is None
        &&& self.blue_hand.selected is None
    }
}

/// A board without cards has no card that came from either hand.
pub proof fn lemma_count_from_bounds(cards: Seq<Option<CardEntity>>, upto: int)
    requires
        0 <= upto <= cards.len(),
    ensures
        count_from(cards, Suit::Red, upto) + count_from(cards, Suit::Blue, upto) == count_cards(
            cards,
            upto,
        ),
        0 <= count_from(cards, Suit::Red, upto),
        0 <= count_from(cards, Suit::Blue, upto),
    decreases upto,
{
    if upto > 0 {
        lemma_count_from_bounds(cards, upto - 1);
    }
}

/// The count of the cards of a side grows with the number of cells looked
/// at.
pub proof fn lemma_count_from_mono(cards: Seq<Option<CardEntity>>, side: Suit, lower: int, upper: int)
    requires
        0 <= lower <= upper <= cards.len(),
    ensures
        count_from(cards, side, lower) <= count_from(cards, side, upper),
    decreases upper - lower,
{
    if lower < upper {
        lemma_count_from_mono(cards, side, lower, upper - 1);
    }
}

/// With both hands full and the board empty, a round is ready to be played
/// from the opening stack of phases, whoever moves first.
pub proof fn lemma_opening_is_wf(g: GameModel, first: Suit)
    requires
        g.ready_to_start(),
        g.stack == opening_stack(first),
    ensures
        g.wf(),
{
    lemma_count_from_bounds(g.cards, 9);
}

impl PlayingField {
    /// Takes every card and every tile off the board.
    pub fn clear(&mut self)
        ensures
            final(self).cards@ == no_cards(),
            final(self).elem@ == no_tiles(),
    {
        self.cards = [None;9];
        self.elem = [None;9];
        assert(self.cards@ =~= no_cards());
        assert(self.elem@ =~= no_tiles());
    }
}

impl Board {
    /// A round before anything has been dealt, with every optional rule
    /// off.
    pub fn empty(card_atlas: &Rc<CardAtlas>) -> (res: Board)
        ensures
            res@ == GameModel::initial(**card_atlas),
    {
        let mut state_stack = Vec::new();
        state_stack.push(State::Finish);
        state_stack.push(State::RedPlayerTurn(TurnPhase::Pick));
        state_stack.push(State::Start);
        assert(state_stack@ =~= opening_stack(Suit::Red));
        let mut playing_field = PlayingField { cards: [None;9], elem: [None;9] };
        playing_field.clear();
        Board {
            playing_field,
            red_hand: Hand::empty(Suit::Red, card_atlas),
            blue_hand: Hand::empty(Suit::Blue, card_atlas),
            rules: Rules::default(),
            opponent: Opponent::new(),
            state_stack,
            combo_message: ComboMessage::new(),
            card_atlas: Rc::clone(card_atlas),
        }
    }

    /// Puts the round back to where `empty` begins, rules included.
    pub fn init(&mut self)
        ensures
            final(self)@ == (GameModel {
                combo_message: old(self)@.combo_message,
                ..GameModel::initial(old(self)@.atlas)
            }),
    {
        self.playing_field.clear();
        self.rules = Rules::default();
        self.opponent.clear();
        self.reset_stack(Suit::Red);
        self.red_hand = Hand::empty(Suit::Red, &self.card_atlas);
        self.blue_hand = Hand::empty(Suit::Blue, &self.card_atlas);
    }

    /// Replaces the stack of phases by the opening stack.
    fn reset_stack(&mut self, first: Suit)
        ensures
            final(self)@ == (GameModel { stack: opening_stack(first), ..old(self)@ }),
    {
        self.state_stack.clear();
        self.state_stack.push(State::Finish);
        match first {
            Suit::Red => self.state_stack.push(State::RedPlayerTurn(TurnPhase::Pick)),
            Suit::Blue => self.state_stack.push(State::BluePlayerTurn(TurnPhase::Pick)),
        }
        self.state_stack.push(State::Start);
        assert(self.state_stack@ =~= opening_stack(first));
    }

    /// Begins the round anew with `p` to move first. With both hands full
    /// and the board empty, play can go on from there.
    pub fn first_turn(&mut self, p: Suit)
        ensures
            final(self)@ == (GameModel { stack: opening_stack(p), ..old(self)@ }),
            old(self)@.ready_to_start() ==> final(self).wf(),
    {
        self.reset_stack(p);
        proof {
            if old(self)@.ready_to_start() {
                lemma_opening_is_wf(self@, p);
            }
        }
    }

    /// Clears the board and both hands for a new round under the rules as
    /// they stand, and draws new elemental tiles if the rules have them.
    pub fn clear(&mut self)
        ensures
            tiles_drawn(final(self)@.elem, old(self)@.rules.elemental),
            final(self)@ == old(self)@.cleared(final(self)@.elem),
    {
        self.playing_field.clear();
        if self.rules.elemental {
            self.populate_elem();
        }
        self.reset_stack(Suit::Red);
        self.blue_hand = Hand::empty(Suit::Blue, &self.card_atlas);
        self.red_hand = Hand::empty(Suit::Red, &self.card_atlas);
    }

    /// Lays the elemental tiles that the given draws call for.
    pub fn lay_tiles(&mut self, first: usize, hits: &[bool; 9], elements: &[usize; 9])
        requires
            forall|i: int| 0 <= i < 9 ==> (#[trigger] elements[i]) < 8,
        ensures
            final(self)@ == (GameModel {
                elem: laid(old(self)@.elem, first as int, hits@, elements@),
                ..old(self)@
            }),
    {
        let mut i: usize = 0;
        while i < 9
            invariant
                i <= 9,
                forall|k: int| 0 <= k < 9 ==> (#[trigger] elements[k]) < 8,
                self@ == (GameModel { elem: self@.elem, ..old(self)@ }),
                forall|k: int|
                    0 <= k < 9 ==> (#[trigger] self@.elem[k]) == (if k < i {
                        laid(old(self)@.elem, first as int, hits@, elements@)[k]
                    } else {
                        old(self)@.elem[k]
                    }),
            decreases 9 - i,
        {
            if hits[i] || i == first {
                let element = Element::from_index(elements[i]);
                self.playing_field.elem[i] = Some(ElementEntity::new(element));
            }
            i += 1;
        }
        assert(self@.elem =~= laid(old(self)@.elem, first as int, hits@, elements@));
    }

    /// Draws the elemental tiles of a round: one cell, drawn evenly from the
    /// nine, gets a tile in any case, and each other cell gets one with a
    /// chance of three in ten; the element of each tile is drawn evenly from
    /// the eight.
    pub fn populate_elem(&mut self)
        ensures
            exists|first: int, hits: Seq<bool>, elements: Seq<usize>|
                0 <= first < 9 && final(self)@ == (GameModel {
                    elem: #[trigger] laid(old(self)@.elem, first, hits, elements),
                    ..old(self)@
                }),
    {
        let first = random_below(9);
        let mut hits = [false;9];
        let mut elements: [usize; 9] = [0;9];
        let mut i: usize = 0;
        while i < 9
            invariant
                i <= 9,
                forall|k: int| 0 <= k < 9 ==> (#[trigger] elements[k]) < 8,
            decreases 9 - i,
        {
            hits[i] = random_ratio(ELEM_CHANCE, ELEM_CHANCE_OUT_OF);
            elements[i] = random_below(8);
            i += 1;
        }
        self.lay_tiles(first, &hits, &elements);
    }

    /// Lets every tile glow.
    pub fn activate_elem(&mut self)
        ensures
            final(self)@ == (GameModel { elem: glowing(old(self)@.elem), ..old(self)@ }),
    {
        let mut i: usize = 0;
        while i < 9
            invariant
                i <= 9,
                self@ == (GameModel { elem: self@.elem, ..old(self)@ }),
                forall|k: int|
                    0 <= k < 9 ==> (#[trigger] self@.elem[k]) == (if k < i {
                        glowing(old(self)@.elem)[k]
                    } else {
                        old(self)@.elem[k]
                    }),
            decreases 9 - i,
        {
            if let Some(tile) = self.playing_field.elem[i] {
                self.playing_field.elem[i] = Some(ElementEntity { active: true, ..tile });
            }
            i += 1;
        }
        assert(self@.elem =~= glowing(old(self)@.elem));
    }

    /// Puts out the glow of every tile that lies under a card.
    pub fn deactivate_occupied_elem(&mut self)
        ensures
            final(self)@ == (GameModel {
                elem: covered(old(self)@.elem, old(self)@.cards),
                ..old(self)@
            }),
    {
        let mut i: usize = 0;
        while i < 9
            invariant
                i <= 9,
                self@ == (GameModel { elem: self@.elem, ..old(self)@ }),
                forall|k: int|
                    0 <= k < 9 ==> (#[trigger] self@.elem[k]) == (if k < i {
                        covered(old(self)@.elem, old(self)@.cards)[k]
                    } else {
                        old(self)@.elem[k]
                    }),
            decreases 9 - i,
        {
            if let Some(tile) = self.playing_field.elem[i] {
                if self.playing_field.cards[i].is_some() {
                    self.playing_field.elem[i] = Some(ElementEntity { active: false, ..tile });
                }
            }
            i += 1;
        }
        assert(self@.elem =~= covered(old(self)@.elem, old(self)@.cards));
    }

    /// Blue is about to choose its cards: nothing moves until it has.
    pub fn wait_for_pick(&mut self)
        ensures
            final(self)@ == (GameModel {
                stack: old(self)@.stack.push(State::WaitingPick),
                ..old(self)@
            }),
    {
        self.state_stack.push(State::WaitingPick);
    }

    /// Ends the active phase.
    pub fn next_state(&mut self)
        ensures
            final(self)@ == (GameModel {
                stack: if old(self)@.stack.len() > 0 {
                    old(self)@.stack.drop_last()
                } else {
                    old(self)@.stack
                },
                ..old(self)@
            }),
    {
        self.state_stack.pop();
    }

    /// Switches a rule over.
    pub fn toggle_rule(&mut self, r: Rule)
        ensures
            final(self)@ == (GameModel { rules: toggled(old(self)@.rules, r), ..old(self)@ }),
    {
        match r {
            Rule::Open => self.rules.open = !self.rules.open,
            Rule::Elemental => self.rules.elemental = !self.rules.elemental,
            Rule::Random => self.rules.random = !self.rules.random,
            Rule::Same => self.rules.same = !self.rules.same,
            Rule::Wall => self.rules.same_wall = !self.rules.same_wall,
            Rule::Plus => self.rules.plus = !self.rules.plus,
            Rule::SuddenDeath => self.rules.sudden_death = !self.rules.sudden_death,
        }
    }

    /// Which side's turn marker is lit: Red's, Blue's.
    pub fn turn_marker_status(&self) -> (res: [bool; 2])
        ensures
            res[0] == (self@.stack.len() > 0 && self@.top() is RedPlayerTurn),
            res[1] == (self@.stack.len() > 0 && self@.top() is BluePlayerTurn),
    {
        if self.state_stack.len() == 0 {
            return [false, false];
        }
        match self.state_stack[self.state_stack.len() - 1] {
            State::RedPlayerTurn(_) => [true, false],
            State::BluePlayerTurn(_) => [false, true],
            _ => [false, false],
        }
    }

    /// How many cards of a row each side controls.
    fn tally(cards: &[Option<CardEntity>], upto: usize) -> (res: (usize, usize))
        requires
            upto == cards@.len(),
            upto <= 9,
        ensures
            res.0 == count_owned(simples(cards@), Suit::Red, upto as int),
            res.1 == count_owned(simples(cards@), Suit::Blue, upto as int),
            res.0 + res.1 <= upto,
    {
        let mut red: usize = 0;
        let mut blue: usize = 0;
        let mut i: usize = 0;
        while i < upto
            invariant
                i <= upto,
                upto == cards@.len(),
                red == count_owned(simples(cards@), Suit::Red, i as int),
                blue == count_owned(simples(cards@), Suit::Blue, i as int),
                red + blue <= i,
            decreases upto - i,
        {
            match cards[i] {
                Some(card) => match card.controller {
                    Suit::Red => red += 1,
                    Suit::Blue => blue += 1,
                },
                None => {},
            }
            i += 1;
        }
        (red, blue)
    }

    /// The number of cards that Red controls and the number that Blue
    /// controls, over both hands and the board.
    pub fn calculate_score(&self) -> (res: (usize, usize))
        ensures
            res.0 == self@.score().0,
            res.1 == self@.score().1,
            res.0 + res.1 <= 19,
            self@.sound() ==> res.0 + res.1 == self@.card_count(),
            self@.sound() && self@.dealt() ==> res.0 + res.1 == 10,
    {
        proof {
            if self@.sound() {
                crate::board::soundness::lemma_score_counts_every_card(self@);
                if self@.dealt() {
                    crate::board::soundness::lemma_score_is_ten(self@);
                }
            }
        }
        let on_board = Self::tally(&self.playing_field.cards, 9);
        let in_red = Self::tally(&self.red_hand.cards, 5);
        let in_blue = Self::tally(&self.blue_hand.cards, 5);
        (in_red.0 + in_blue.0 + on_board.0, in_red.1 + in_blue.1 + on_board.1)
    }

    /// The result of the round as it stands, seen from the Blue side.
    pub fn calculate_result(&self) -> (res: DuelOutcome)
        ensures
            res == outcome_of(self@.score()),
    {
        let score = self.calculate_score();
        if score.0 > score.1 {
            DuelOutcome::Lose
        } else if score.0 < score.1 {
            DuelOutcome::Win
        } else {
            DuelOutcome::Draw
        }
    }

    /// Puts `card` on the empty cell `cell_id`.
    pub fn put_card(&mut self, cell_id: usize, card: CardEntity)
        requires
            cell_id < 9,
            old(self)@.cards[cell_id as int] is None,
        ensures
            final(self)@ == (GameModel {
                cards: old(self)@.cards.update(
                    cell_id as int,
                    Some(placed(card, old(self)@.elem[cell_id as int])),
                ),
                ..old(self)@
            }),
    {
        let mut card = card;
        card.mark_unchecked();
        card.start_move_tween();
        card.controller = card.owner;
        let card_elem = card.element;
        card.elemental_effect = match self.playing_field.elem[cell_id] {
            None => ElementalEffect::NoEffect,
            Some(tile) => match card_elem {
                Some(element) => {
                    if element == tile.element {
                        ElementalEffect::Bonus
                    } else {
                        ElementalEffect::Malus
                    }
                },
                None => ElementalEffect::Malus,
            },
        };
        self.playing_field.cards[cell_id] = Some(card);
    }

    /// Whether no card on the board is still on its way to its cell.
    pub fn move_animation_finished(&self) -> (res: bool)
        ensures
            res == none_moving(self@.cards),
    {
        let mut i: usize = 0;
        while i < 9
            invariant
                i <= 9,
                none_moving(self@.cards.take(i as int)),
            decreases 9 - i,
        {
            if let Some(card) = self.playing_field.cards[i] {
                if card.move_animation.active {
                    return false;
                }
            }
            assert forall|k: int| 0 <= k < i + 1 implies match #[trigger] self@.cards.take(
                i + 1,
            )[k] {
                Some(card) => !card.move_animation.active,
                None => true,
            } by {
                if k < i {
                    assert(self@.cards.take(i as int)[k] == self@.cards[k]);
                }
            }
            i += 1;
        }
        assert(self@.cards.take(9) =~= self@.cards);
        true
    }

    /// Whether every card of Blue's hand has arrived in it.
    pub fn deal_animation_finished(&self) -> (res: bool)
        ensures
            res == none_dealing(self@.blue_hand.cards),
    {
        let mut i: usize = 0;
        while i < 5
            invariant
                i <= 5,
                none_dealing(self@.blue_hand.cards.take(i as int)),
            decreases 5 - i,
        {
            if let Some(card) = self.blue_hand.cards[i] {
                if !card.deal_animation_finished() {
                    return false;
                }
            }
            assert forall|k: int| 0 <= k < i + 1 implies match #[trigger] self@.blue_hand.cards.take(
                i + 1,
            )[k] {
                Some(card) => !card.deal_animation,
                None => true,
            } by {
                if k < i {
                    assert(self@.blue_hand.cards.take(i as int)[k] == self@.blue_hand.cards[k]);
                }
            }
            i += 1;
        }
        assert(self@.blue_hand.cards.take(5) =~= self@.blue_hand.cards);
        true
    }

    /// Whether no card of a row is turning over.
    fn row_at_rest(cards: &[Option<CardEntity>]) -> (res: bool)
        ensures
            res == none_flipping(cards@),
    {
        let mut i: usize = 0;
        while i < cards.len()
            invariant
                i <= cards@.len(),
                none_flipping(cards@.take(i as int)),
            decreases cards@.len() - i,
        {
            if let Some(card) = cards[i] {
                if card.is_flipping() {
                    return false;
                }
            }
            assert forall|k: int| 0 <= k < i + 1 implies match #[trigger] cards@.take(i + 1)[k] {
                Some(card) => !FlipAnimation::in_flight(card.flip_animation.stage),
                None => true,
            } by {
                if k < i {
                    assert(cards@.take(i as int)[k] == cards@[k]);
                }
            }
            i += 1;
        }
        assert(cards@.take(cards@.len() as int) =~= cards@);
        true
    }

    /// Whether no card, on the board or in a hand, is turning over.
    pub fn flip_animation_finished(&self) -> (res: bool)
        ensures
            res == (none_flipping(self@.cards) && none_flipping(self@.red_hand.cards)
                && none_flipping(self@.blue_hand.cards)),
    {
        Self::row_at_rest(&self.playing_field.cards) && Self::row_at_rest(&self.red_hand.cards)
            && Self::row_at_rest(&self.blue_hand.cards)
    }

    /// Begins to show the face of every card in Red's hand.
    pub fn open_opponent_cards(&mut self)
        ensures
            final(self)@ == (GameModel {
                red_hand: HandModel {
                    cards: opened(old(self)@.red_hand.cards),
                    ..old(self)@.red_hand
                },
                ..old(self)@
            }),
    {
        let mut i: usize = 0;
        while i < 5
            invariant
                i <= 5,
                self@ == (GameModel {
                    red_hand: HandModel { cards: self@.red_hand.cards, ..old(self)@.red_hand },
                    ..old(self)@
                }),
                forall|k: int|
                    0 <= k < 5 ==> (#[trigger] self@.red_hand.cards[k]) == (if k < i {
                        opened(old(self)@.red_hand.cards)[k]
                    } else {
                        old(self)@.red_hand.cards[k]
                    }),
            decreases 5 - i,
        {
            if let Some(card) = self.red_hand.cards[i] {
                let mut card = card;
                card.flip_open();
                self.red_hand.cards[i] = Some(card);
            }
            i += 1;
        }
        assert(self@.red_hand.cards =~= opened(old(self)@.red_hand.cards));
    }

    /// The reset of sudden death: every card on the board goes back into
    /// the hand of the side it came from, the board is cleared, new
    /// elemental tiles are drawn if the rules have them, and the deal and a
    /// turn are put on the stack of phases for the round that follows.
    pub fn deal_sunnden_death(&mut self)
        requires
            old(self)@.sound(),
            count_from(old(self)@.cards, Suit::Red, 9) + count_cards(old(self)@.red_hand.cards, 5)
                <= 5,
            count_from(old(self)@.cards, Suit::Blue, 9) + count_cards(
                old(self)@.blue_hand.cards,
                5,
            ) <= 5,
        ensures
            tiles_drawn(final(self)@.elem, old(self)@.rules.elemental),
            final(self)@ == old(self)@.reset_for_sudden_death(final(self)@.elem),
            final(self)@.sound(),
            old(self)@.dealt() && old(self)@.ai.idle() ==> final(self)@.ready_to_start(),
    {
        let mut i: usize = 0;
        while i < 9
            invariant
                i <= 9,
                old(self)@.sound(),
                count_from(old(self)@.cards, Suit::Red, 9) + count_cards(
                    old(self)@.red_hand.cards,
                    5,
                ) <= 5,
                count_from(old(self)@.cards, Suit::Blue, 9) + count_cards(
                    old(self)@.blue_hand.cards,
                    5,
                ) <= 5,
                self@ == (GameModel {
                    red_hand: taken_back(old(self)@.red_hand, old(self)@.cards, i as int),
                    blue_hand: taken_back(old(self)@.blue_hand, old(self)@.cards, i as int),
                    ..old(self)@
                }),
            decreases 9 - i,
        {
            proof {
                lemma_count_from_bounds(old(self)@.cards, 9);
                lemma_count_from_mono(old(self)@.cards, Suit::Red, i as int + 1, 9);
                lemma_count_from_mono(old(self)@.cards, Suit::Blue, i as int + 1, 9);
                lemma_taken_back(old(self)@.red_hand, old(self)@.cards, i as int);
                lemma_taken_back(old(self)@.blue_hand, old(self)@.cards, i as int);
                lemma_taken_back(old(self)@.red_hand, old(self)@.cards, i as int + 1);
                lemma_taken_back(old(self)@.blue_hand, old(self)@.cards, i as int + 1);
            }
            if let Some(card) = self.playing_field.cards[i] {
                let back = CardEntity {
                    controller: card.owner,
                    elemental_effect: ElementalEffect::NoEffect,
                    flip_animation: FlipAnimation::new(),
                    move_animation: MoveAnimation::init(),
                    deal_animation: false,
                    ..card
                };
                assert(back == at_rest(card));
                match card.owner {
                    Suit::Red => {
                        proof {
                            lemma_room_in_hand(self@.red_hand.cards);
                        }
                        self.red_hand.add_card_entity(back);
                    },
                    Suit::Blue => {
                        proof {
                            lemma_room_in_hand(self@.blue_hand.cards);
                        }
                        self.blue_hand.add_card_entity(back);
                    },
                }
            }
            i += 1;
        }
        proof {
            lemma_taken_back(old(self)@.red_hand, old(self)@.cards, 9);
            lemma_taken_back(old(self)@.blue_hand, old(self)@.cards, 9);
            lemma_count_from_bounds(old(self)@.cards, 9);
        }
        self.playing_field.clear();
        if self.rules.elemental {
            self.populate_elem();
        }
        self.red_hand.reset_foucus();
        self.blue_hand.reset_foucus();
        self.red_hand.clear_selected();
        self.blue_hand.clear_selected();
        self.state_stack.push(State::Start);
        self.state_stack.push(State::RedPlayerTurn(TurnPhase::Pick));
        proof {
            crate::hand::lemma_count_cards_uniform(self@.cards, 9);
        }
    }

    /// Hands out the search that is to be started, if there is one.
    pub fn take_job(&mut self) -> (job: Option<SearchJob>)
        ensures
            job == old(self).opponent.ai.job,
            final(self)@ == (GameModel {
                ai: OpponentModel { job: None, ..old(self)@.ai },
                ..old(self)@
            }),
            old(self).wf() ==> final(self).wf(),
    {
        self.opponent.ai.take_job()
    }

    /// Takes delivery of what a search has found. A result is accepted
    /// while a search is under way and if it names a hand slot of Red that
    /// holds a card and a cell that is empty. Any other delivery while a
    /// search is under way, `None` included, has the search started again.
    /// Without a search under way nothing happens. Returns whether the
    /// result was accepted.
    pub fn search_finished(&mut self, result: Option<Move>) -> (accepted: bool)
        ensures
            accepted == (old(self)@.ai.thread_status == ThreadStatus::Active && result is Some
                && playable_move(
                result.unwrap().from,
                result.unwrap().to,
                old(self)@.red_hand.cards,
                old(self)@.cards,
            )),
            final(self)@ == (GameModel {
                ai: if old(self)@.ai.thread_status != ThreadStatus::Active {
                    old(self)@.ai
                } else if accepted {
                    OpponentModel {
                        thread_status: ThreadStatus::Finished,
                        solve_result: result.unwrap(),
                        ..old(self)@.ai
                    }
                } else {
                    OpponentModel { thread_status: ThreadStatus::Waiting, ..old(self)@.ai }
                },
                ..old(self)@
            }),
            old(self).wf() ==> final(self).wf(),
    {
        match self.opponent.ai.thread_status {
            ThreadStatus::Active => {},
            _ => {
                return false;
            },
        }
        match result {
            Some(found) => {
                if found.from < 5 && found.to < 9 && self.red_hand.cards[found.from].is_some()
                    && self.playing_field.cards[found.to].is_none() {
                    self.opponent.ai.finish_search(found);
                    return true;
                }
            },
            None => {},
        }
        self.opponent.ai.abandon_search();
        false
    }
}

/// The tiles, all glowing.
pub open spec fn glowing(elem: Seq<Option<ElementEntity>>) -> Seq<Option<ElementEntity>> {
    Seq::new(
        9,
        |i: int|
            match elem[i] {
                Some(tile) => Some(ElementEntity { active: true, ..tile }),
                None => None,
            },
    )
}

/// The tiles with the glow put out under every card.
pub open spec fn covered(
    elem: Seq<Option<ElementEntity>>,
    cards: Seq<Option<CardEntity>>,
) -> Seq<Option<ElementEntity>> {
    Seq::new(
        9,
        |i: int|
            match elem[i] {
                Some(tile) => if cards[i] is Some {
                    Some(ElementEntity { active: false, ..tile })
                } else {
                    Some(tile)
                },
                None => None,
            },
    )
}

} // verus!
