//! One tick of the live round: the animations move on, and the active phase
//! takes its step.

use vstd::prelude::*;
use crate::board::checks::{checked_through, deduped, flips_through, unchecked_cells};
use crate::board::soundness::{
    lemma_animated_wf, lemma_blue_pick_wf, lemma_blue_place_wf, lemma_check_wf,
    lemma_combo_check_wf, lemma_move_waited_wf, lemma_red_turn_wf, lemma_started_wf,
    lemma_turn_passed_wf,
};
use crate::board::model::{
    outcome_of, Board, CardFlipped, ComboMessage, GameModel, Input, State, TurnPhase,
};
use crate::board::setup::{covered, glowing, none_dealing, none_flipping, none_moving, opened, placed};
use crate::capture::Combo;
use crate::cards::Suit;
use crate::entity::{all_wf, CardEntity, CardTick};
use crate::events::{Event, Sfx};
use crate::hand::{count_cards, HandModel};
use crate::opponent::AiEvent;

verus! {

/// The cards of a row after a tick, each moved on by its own report.
pub open spec fn ticked_all(cards: Seq<Option<CardEntity>>, ticks: Seq<CardTick>) -> Seq<
    Option<CardEntity>,
> {
    Seq::new(
        cards.len(),
        |i: int|
            match cards[i] {
                Some(card) => Some(card.ticked(ticks[i])),
                None => None,
            },
    )
}

/// Whether one of the first `upto` captures is of the given kind.
pub open spec fn has_kind(flips: Seq<CardFlipped>, kind: Combo, upto: int) -> bool
    decreases upto,
{
    if upto <= 0 {
        false
    } else {
        flips[upto - 1].combo == kind || has_kind(flips, kind, upto - 1)
    }
}

/// The phase in which `side` chooses a card.
pub open spec fn pick_phase(side: Suit) -> State {
    match side {
        Suit::Red => State::RedPlayerTurn(TurnPhase::Pick),
        Suit::Blue => State::BluePlayerTurn(TurnPhase::Pick),
    }
}

impl GameModel {
    /// The round after the animations have moved on by one tick.
    pub open spec fn animated(self, input: Input) -> GameModel {
        GameModel {
            cards: ticked_all(self.cards, input.field@),
            red_hand: HandModel {
                cards: ticked_all(self.red_hand.cards, input.red@),
                ..self.red_hand
            },
            blue_hand: HandModel {
                cards: ticked_all(self.blue_hand.cards, input.blue@),
                ..self.blue_hand
            },
            combo_message: self.combo_message.ticked(input.dt),
            ..self
        }
    }

    /// The round with the active phase replaced by another.
    pub open spec fn replaced_top(self, state: State) -> GameModel {
        GameModel { stack: self.stack.drop_last().push(state), ..self }
    }

    /// The round with the active phase ended.
    pub open spec fn popped(self) -> GameModel {
        GameModel {
            stack: if self.stack.len() > 0 {
                self.stack.drop_last()
            } else {
                self.stack
            },
            ..self
        }
    }

    /// The slot of Blue's hand that the pointer dwells on: the slot
    /// reported, if the hand has it and it holds a card.
    pub open spec fn hover(self, input: Input) -> Option<usize> {
        match input.hand_hover {
            Some(i) => if i < 5 && self.blue_hand.cards[i as int] is Some {
                Some(i)
            } else {
                None
            },
            None => None,
        }
    }

    /// The round after `side` has played its selected card on `cell`: the
    /// card has left the hand and lies on the cell, and in place of the
    /// turn stand the change of turn, above it the check, above that the
    /// wait for the card to arrive.
    pub open spec fn with_placement(self, side: Suit, cell: usize) -> GameModel {
        let hand = self.hand(side);
        let card = hand.cards[hand.selected.unwrap() as int].unwrap();
        let cards = self.cards.update(cell as int, Some(placed(card, self.elem[cell as int])));
        let stack = self.stack.drop_last().push(State::NextTurn(side.other())).push(
            State::Check,
        ).push(State::WaitingMove);
        match side {
            Suit::Red => GameModel { red_hand: hand.played(), cards, stack, ..self },
            Suit::Blue => GameModel { blue_hand: hand.played(), cards, stack, ..self },
        }
    }

    /// The step of the deal: once every card of Blue's hand has arrived,
    /// the tiles begin to glow and the deal ends; under the Open rule Red's
    /// cards begin to show their faces and a check follows.
    pub open spec fn started(self) -> GameModel {
        if !none_dealing(self.blue_hand.cards) {
            self
        } else if self.rules.open {
            GameModel {
                elem: glowing(self.elem),
                red_hand: HandModel { cards: opened(self.red_hand.cards), ..self.red_hand },
                stack: self.stack.drop_last().push(State::Check),
                ..self
            }
        } else {
            GameModel { elem: glowing(self.elem), stack: self.stack.drop_last(), ..self }
        }
    }

    /// The step in which Blue chooses a card. The focus follows the
    /// pointer; a press on a card selects it and begins the placing. A
    /// sound is played when the focus moves to another card and when a card
    /// is selected.
    pub open spec fn blue_pick(self, input: Input) -> (GameModel, Option<Event>) {
        match self.hover(input) {
            Some(i) => {
                let focused = self.blue_hand.focused_on(i);
                if input.left_pressed {
                    (
                        GameModel { blue_hand: focused.selecting(i), ..self }.replaced_top(
                            State::BluePlayerTurn(TurnPhase::Place),
                        ),
                        Some(Event::PlaySound(Sfx::Move)),
                    )
                } else {
                    (
                        GameModel { blue_hand: focused, ..self },
                        if self.blue_hand.focus != Some(i) {
                            Some(Event::PlaySound(Sfx::Move))
                        } else {
                            None
                        },
                    )
                }
            },
            None => (
                GameModel { blue_hand: HandModel { focus: None, ..self.blue_hand }, ..self },
                None,
            ),
        }
    }

    /// The step in which Blue places its card. Nothing happens without a
    /// press. The secondary button, or a press away from the board, takes
    /// the choice back. A press on an empty cell places the card there; a
    /// press on a taken cell does nothing.
    pub open spec fn blue_place(self, input: Input) -> (GameModel, Option<Event>) {
        if !(input.left_pressed || input.right_pressed) {
            (self, None)
        } else if input.right_pressed || input.cell_hover is None || input.cell_hover.unwrap()
            >= 9 {
            (
                GameModel { blue_hand: HandModel { selected: None, ..self.blue_hand }, ..self }.replaced_top(
                    State::BluePlayerTurn(TurnPhase::Pick),
                ),
                None,
            )
        } else if self.cards[input.cell_hover.unwrap() as int] is None {
            (
                self.with_placement(Suit::Blue, input.cell_hover.unwrap()),
                Some(Event::PlaySound(Sfx::Move)),
            )
        } else {
            (self, None)
        }
    }

    /// The step of Red's turn: the automated side thinks, and a card that
    /// it wants placed is placed. Every visible step comes with a sound.
    pub open spec fn red_turn(self, input: Input) -> (GameModel, Option<Event>) {
        let thought = self.ai.think(
            input.dt,
            self.red_hand,
            self.blue_hand,
            self.cards,
            self.elem,
            self.rules,
        );
        let after = GameModel { ai: thought.ai, red_hand: thought.red_hand, ..self };
        match thought.event {
            Some(AiEvent::Put(to)) => (
                after.with_placement(Suit::Red, to),
                Some(Event::PlaySound(Sfx::Move)),
            ),
            Some(AiEvent::Focus) => (after, Some(Event::PlaySound(Sfx::Move))),
            None => (after, None),
        }
    }

    /// The captures that a round of checks finds.
    pub open spec fn found(self) -> Seq<CardFlipped> {
        let due = unchecked_cells(self.cards, 9);
        let all = flips_through(self.cards, self.rules, due, due.len() as int);
        deduped(all, all.len() as int)
    }

    /// The round after every card that awaited its check has been checked.
    pub open spec fn all_checked(self) -> GameModel {
        let due = unchecked_cells(self.cards, 9);
        GameModel {
            cards: checked_through(self.cards, self.rules, due, due.len() as int),
            ..self
        }
    }

    /// No card, on the board or in a hand, is turning over.
    pub open spec fn flips_done(self) -> bool {
        none_flipping(self.cards) && none_flipping(self.red_hand.cards) && none_flipping(
            self.blue_hand.cards,
        )
    }

    /// The step of the check. Every card that awaits its check is checked.
    /// A capture by Same lights the Same banner, else one by Plus the Plus
    /// banner, and either puts a combination check on the stack. If
    /// anything was captured, the flip sound is played and the check stays
    /// active. Otherwise, once no card is turning over, the check ends; and
    /// if the board is full, the phase beneath it ends with it.
    pub open spec fn check(self) -> (GameModel, Option<Event>) {
        let found = self.found();
        let same = has_kind(found, Combo::Same, found.len() as int);
        let plus = has_kind(found, Combo::Plus, found.len() as int);
        let checked = self.all_checked();
        let announced = if same {
            GameModel { combo_message: ComboMessage::started(Combo::Same), ..checked }
        } else if plus {
            GameModel { combo_message: ComboMessage::started(Combo::Plus), ..checked }
        } else {
            checked
        };
        let after = if same || plus {
            GameModel { stack: announced.stack.push(State::ComboCheck), ..announced }
        } else {
            announced
        };
        if found.len() > 0 {
            (after, Some(Event::PlaySound(Sfx::Flip)))
        } else if !after.flips_done() {
            (after, None)
        } else if count_cards(after.cards, 9) == 9 {
            (after.popped().popped(), None)
        } else {
            (after.popped(), None)
        }
    }

    /// The step of the combination check. Once no card is turning over, it
    /// ends, and the cards that now await their check are checked; if that
    /// captures anything, the combination banner is lit and the flip sound
    /// is played.
    pub open spec fn combo_check(self) -> (GameModel, Option<Event>) {
        if !self.flips_done() {
            (self, None)
        } else {
            let ended = self.popped();
            if unchecked_cells(ended.cards, 9).len() == 0 {
                (ended, None)
            } else if ended.found().len() > 0 {
                (
                    GameModel {
                        combo_message: ComboMessage::started(Combo::Combo),
                        ..ended.all_checked()
                    },
                    Some(Event::PlaySound(Sfx::Flip)),
                )
            } else {
                (ended.all_checked(), None)
            }
        }
    }

    /// The step of the wait for a placed card: once no card on the board is
    /// on its way, the glow goes out under every card and the wait ends.
    pub open spec fn move_waited(self) -> GameModel {
        if none_moving(self.cards) {
            GameModel { elem: covered(self.elem, self.cards), ..self }.popped()
        } else {
            self
        }
    }

    /// The step of the active phase, after the animations have moved on.
    pub open spec fn phase_step(self, input: Input) -> (GameModel, Option<Event>) {
        match self.top() {
            State::WaitingPick => (self, None),
            State::Start => (self.started(), None),
            State::BluePlayerTurn(TurnPhase::Pick) => self.blue_pick(input),
            State::BluePlayerTurn(TurnPhase::Place) => self.blue_place(input),
            State::RedPlayerTurn(_) => self.red_turn(input),
            State::NextTurn(side) => (self.replaced_top(pick_phase(side)), None),
            State::Check => self.check(),
            State::ComboCheck => self.combo_check(),
            State::WaitingMove => (self.move_waited(), None),
            State::Finish => (
                self,
                Some(Event::GameSummary(outcome_of(self.score()), self.rules.sudden_death)),
            ),
        }
    }

    /// One tick of the round: the animations move on, then the active phase
    /// takes its step.
    pub open spec fn step(self, input: Input) -> (GameModel, Option<Event>) {
        self.animated(input).phase_step(input)
    }
}

impl Board {
    /// Moves the animations of a row of cards on by one tick.
    fn animate_row(cards: &mut [Option<CardEntity>], ticks: &[CardTick])
        requires
            old(cards)@.len() == ticks@.len(),
            all_wf(old(cards)@),
        ensures
            final(cards)@ == ticked_all(old(cards)@, ticks@),
            all_wf(final(cards)@),
    {
        let mut i: usize = 0;
        while i < cards.len()
            invariant
                i <= cards@.len(),
                cards@.len() == old(cards)@.len() == ticks@.len(),
                all_wf(cards@),
                forall|k: int|
                    0 <= k < cards@.len() ==> (#[trigger] cards@[k]) == (if k < i {
                        ticked_all(old(cards)@, ticks@)[k]
                    } else {
                        old(cards)@[k]
                    }),
            decreases cards@.len() - i,
        {
            if let Some(card) = cards[i] {
                let mut card = card;
                assert(card.wf());
                card.update(ticks[i]);
                cards[i] = Some(card);
            }
            i += 1;
        }
        assert(cards@ =~= ticked_all(old(cards)@, ticks@));
    }

    /// Moves every animation on by one tick.
    fn animate(&mut self, input: &Input)
        requires
            old(self)@.sound(),
        ensures
            final(self)@ == old(self)@.animated(*input),
    {
        Self::animate_row(&mut self.blue_hand.cards, &input.blue);
        Self::animate_row(&mut self.red_hand.cards, &input.red);
        Self::animate_row(&mut self.playing_field.cards, &input.field);
        self.combo_message.update(input.dt);
    }
    /// The active phase.
    fn top(&self) -> (state: State)
        requires
            self@.stack.len() > 0,
        ensures
            state == self@.top(),
    {
        self.state_stack[self.state_stack.len() - 1]
    }

    /// Replaces the active phase by another.
    fn replace_top(&mut self, state: State)
        requires
            old(self)@.stack.len() > 0,
        ensures
            final(self)@ == old(self)@.replaced_top(state),
    {
        self.state_stack.pop();
        self.state_stack.push(state);
    }

    /// Plays the selected card of the hand of `side` on the empty cell.
    fn place(&mut self, side: Suit, cell: usize)
        requires
            cell < 9,
            old(self)@.cards[cell as int] is None,
            old(self)@.hand(side).wf(),
            old(self)@.hand(side).selected is Some,
            old(self)@.stack.len() > 0,
        ensures
            final(self)@ == old(self)@.with_placement(side, cell),
    {
        let card = match side {
            Suit::Red => self.red_hand.take_selected(),
            Suit::Blue => self.blue_hand.take_selected(),
        };
        self.put_card(cell, card);
        self.state_stack.pop();
        self.state_stack.push(State::NextTurn(side.opponent()));
        self.state_stack.push(State::Check);
        self.state_stack.push(State::WaitingMove);
    }

    /// The step of the deal.
    fn start(&mut self)
        requires
            old(self)@.stack.len() > 0,
        ensures
            final(self)@ == old(self)@.started(),
    {
        if self.deal_animation_finished() {
            self.activate_elem();
            self.state_stack.pop();
            if self.rules.open {
                self.open_opponent_cards();
                self.state_stack.push(State::Check);
            }
        }
    }

    /// The step in which Blue chooses a card.
    fn blue_pick(&mut self, input: &Input) -> (event: Option<Event>)
        requires
            old(self)@.stack.len() > 0,
        ensures
            final(self)@ == old(self)@.blue_pick(*input).0,
            event == old(self)@.blue_pick(*input).1,
    {
        let hover = match input.hand_hover {
            Some(i) => if i < 5 && self.blue_hand.cards[i].is_some() {
                Some(i)
            } else {
                None
            },
            None => None,
        };
        match hover {
            Some(i) => {
                let play_sound = match self.blue_hand.focus() {
                    Some(focus) => focus != i,
                    None => true,
                };
                self.blue_hand.set_focus(i);
                if input.left_pressed {
                    self.blue_hand.select(i);
                    self.replace_top(State::BluePlayerTurn(TurnPhase::Place));
                    return Some(Event::PlaySound(Sfx::Move));
                }
                if play_sound {
                    return Some(Event::PlaySound(Sfx::Move));
                }
                None
            },
            None => {
                self.blue_hand.reset_foucus();
                None
            },
        }
    }

    /// The step in which Blue places its card.
    fn blue_place(&mut self, input: &Input) -> (event: Option<Event>)
        requires
            old(self)@.blue_hand.wf(),
            old(self)@.blue_hand.selected is Some,
            old(self)@.cards.len() == 9,
            old(self)@.stack.len() > 0,
        ensures
            final(self)@ == old(self)@.blue_place(*input).0,
            event == old(self)@.blue_place(*input).1,
    {
        if !(input.left_pressed || input.right_pressed) {
            return None;
        }
        let cell = match input.cell_hover {
            Some(cell) => if cell < 9 && !input.right_pressed {
                Some(cell)
            } else {
                None
            },
            None => None,
        };
        match cell {
            None => {
                self.blue_hand.clear_selected();
                self.replace_top(State::BluePlayerTurn(TurnPhase::Pick));
                None
            },
            Some(cell) => {
                if self.playing_field.cards[cell].is_some() {
                    return None;
                }
                self.place(Suit::Blue, cell);
                Some(Event::PlaySound(Sfx::Move))
            },
        }
    }

    /// The step of Red's turn.
    fn red_turn(&mut self, input: &Input) -> (event: Option<Event>)
        requires
            old(self)@.sound(),
            old(self)@.ai.ready(old(self)@.red_hand, old(self)@.cards),
            old(self)@.stack.len() > 0,
        ensures
            final(self)@ == old(self)@.red_turn(*input).0,
            event == old(self)@.red_turn(*input).1,
            ({
                let thought = old(self)@.ai.think(
                    input.dt,
                    old(self)@.red_hand,
                    old(self)@.blue_hand,
                    old(self)@.cards,
                    old(self)@.elem,
                    old(self)@.rules,
                );
                &&& thought.red_hand.wf()
                &&& match thought.event {
                    Some(AiEvent::Put(to)) => {
                        &&& thought.ai.idle()
                        &&& thought.red_hand.selected is Some
                        &&& to < 9
                        &&& old(self)@.cards[to as int] is None
                    },
                    _ => thought.ai.ready(thought.red_hand, old(self)@.cards),
                }
            }),
    {
        let thought = self.opponent.think(
            input.dt,
            &mut self.red_hand,
            &mut self.blue_hand,
            &self.playing_field.cards,
            &self.playing_field.elem,
            &self.rules,
        );
        match thought {
            Some(AiEvent::Put(to)) => {
                self.place(Suit::Red, to);
                Some(Event::PlaySound(Sfx::Move))
            },
            Some(AiEvent::Focus) => Some(Event::PlaySound(Sfx::Move)),
            None => None,
        }
    }

    /// Whether one of the captures is of the given kind.
    fn any_kind(flips: &Vec<CardFlipped>, kind: Combo) -> (res: bool)
        ensures
            res == has_kind(flips@, kind, flips@.len() as int),
    {
        let mut res = false;
        let mut i: usize = 0;
        while i < flips.len()
            invariant
                i <= flips@.len(),
                res == has_kind(flips@, kind, i as int),
            decreases flips@.len() - i,
        {
            if flips[i].combo == kind {
                res = true;
            }
            i += 1;
        }
        res
    }

    /// Whether a card stands on every cell.
    fn board_full(&self) -> (res: bool)
        ensures
            res == (count_cards(self@.cards, 9) == 9),
    {
        let mut held: usize = 0;
        let mut i: usize = 0;
        while i < 9
            invariant
                i <= 9,
                held == count_cards(self@.cards, i as int),
                held <= i,
            decreases 9 - i,
        {
            if self.playing_field.cards[i].is_some() {
                held += 1;
            }
            i += 1;
        }
        held == 9
    }

    /// The step of the check.
    fn check(&mut self) -> (event: Option<Event>)
        requires
            old(self)@.cards.len() == 9,
            all_wf(old(self)@.cards),
        ensures
            final(self)@ == old(self)@.check().0,
            event == old(self)@.check().1,
    {
        let flipped_cards = self.check_cards();
        let combo_same = Self::any_kind(&flipped_cards, Combo::Same);
        let combo_plus = Self::any_kind(&flipped_cards, Combo::Plus);
        if combo_same {
            self.combo_message.start(Combo::Same);
        } else if combo_plus {
            self.combo_message.start(Combo::Plus);
        }
        if combo_plus || combo_same {
            self.state_stack.push(State::ComboCheck);
        }
        if flipped_cards.len() > 0 {
            return Some(Event::PlaySound(Sfx::Flip));
        }
        if !self.flip_animation_finished() {
            return None;
        }
        self.state_stack.pop();
        if self.board_full() {
            self.state_stack.pop();
        }
        None
    }

    /// The step of the combination check.
    fn combo_check(&mut self) -> (event: Option<Event>)
        requires
            old(self)@.cards.len() == 9,
            all_wf(old(self)@.cards),
        ensures
            final(self)@ == old(self)@.combo_check().0,
            event == old(self)@.combo_check().1,
    {
        if !self.flip_animation_finished() {
            return None;
        }
        self.state_stack.pop();
        if self.cards_to_check().len() > 0 {
            let flipped_cards = self.check_cards();
            if flipped_cards.len() > 0 {
                self.combo_message.start(Combo::Combo);
                return Some(Event::PlaySound(Sfx::Flip));
            }
        }
        None
    }

    /// The step of the wait for a placed card.
    fn wait_move(&mut self)
        ensures
            final(self)@ == old(self)@.move_waited(),
    {
        if self.move_animation_finished() {
            self.deactivate_occupied_elem();
            self.state_stack.pop();
        }
    }

    /// One tick of the round.
    pub fn update(&mut self, input: &Input) -> (event: Option<Event>)
        requires
            old(self).wf(),
        ensures
            final(self)@ == old(self)@.step(*input).0,
            event == old(self)@.step(*input).1,
            final(self).wf(),
    {
        self.animate(input);
        let ghost moved = self@;
        proof {
            lemma_animated_wf(old(self)@, *input);
        }
        match self.top() {
            State::WaitingPick => None,
            State::Start => {
                proof {
                    lemma_started_wf(moved);
                }
                self.start();
                None
            },
            State::BluePlayerTurn(phase) => match phase {
                TurnPhase::Pick => {
                    proof {
                        lemma_blue_pick_wf(moved, *input);
                    }
                    self.blue_pick(input)
                },
                TurnPhase::Place => {
                    proof {
                        lemma_blue_place_wf(moved, *input);
                    }
                    self.blue_place(input)
                },
            },
            State::RedPlayerTurn(_) => {
                let event = self.red_turn(input);
                proof {
                    lemma_red_turn_wf(moved, *input);
                }
                event
            },
            State::NextTurn(player) => {
                proof {
                    lemma_turn_passed_wf(moved, player);
                }
                match player {
                    Suit::Blue => self.replace_top(State::BluePlayerTurn(TurnPhase::Pick)),
                    Suit::Red => self.replace_top(State::RedPlayerTurn(TurnPhase::Pick)),
                }
                None
            },
            State::Check => {
                proof {
                    lemma_check_wf(moved);
                }
                self.check()
            },
            State::ComboCheck => {
                proof {
                    lemma_combo_check_wf(moved);
                }
                self.combo_check()
            },
            State::WaitingMove => {
                proof {
                    lemma_move_waited_wf(moved);
                }
                self.wait_move();
                None
            },
            State::Finish => {
                let outcome = self.calculate_result();
                Some(Event::GameSummary(outcome, self.rules.sudden_death))
            },
        }
    }
}

} // verus!
