//! The five card slots of one side, with the slot in focus and the slot
//! chosen for placement.

use std::rc::Rc;
use vstd::prelude::*;
use crate::cards::{CardAtlas, Suit};
use crate::entity::{
    all_wf, CardEntity, ElementalEffect, FlipAnimation, FlipDirection, FlipStage, MoveAnimation,
};

verus! {

/// The hand of one side.
#[derive(Clone, Debug)]
pub struct Hand {
    pub cards: [Option<CardEntity>; 5],
    /// The slot that the pointer, or the automated side, dwells on.
    pub focus: Option<usize>,
    /// The slot whose card is about to be placed.
    pub selected: Option<usize>,
    pub side: Suit,
    pub card_atlas: Rc<CardAtlas>,
}

/// The card with catalogue id `id` as it is dealt into a hand of `side`,
/// face up if `open`.
pub open spec fn dealt_card(id: int, side: Suit, open: bool, card_atlas: CardAtlas) -> CardEntity {
    CardEntity {
        id: id as usize,
        controller: side,
        owner: side,
        elemental_effect: ElementalEffect::NoEffect,
        flipped: !open,
        flip_animation: FlipAnimation {
            active: false,
            combo: false,
            stage: FlipStage::Waiting,
            direction: FlipDirection::Vertical,
        },
        move_animation: MoveAnimation { active: false },
        deal_animation: true,
        rank: card_atlas.cards@[id].rank(),
        element: card_atlas.cards@[id].element,
    }
}

/// The mathematical content of a hand.
pub struct HandModel {
    pub cards: Seq<Option<CardEntity>>,
    pub focus: Option<usize>,
    pub selected: Option<usize>,
    pub side: Suit,
    pub atlas: CardAtlas,
}

impl View for Hand {
    type V = HandModel;

    open spec fn view(&self) -> HandModel {
        HandModel {
            cards: self.cards@,
            focus: self.focus,
            selected: self.selected,
            side: self.side,
            atlas: *self.card_atlas,
        }
    }
}

impl HandModel {
    /// The hand has five slots, the focus and the selection name slots of
    /// it, the selected slot holds a card, and every card is well formed.
    pub open spec fn wf(self) -> bool {
        &&& self.cards.len() == 5
        &&& match self.focus {
            Some(i) => i < 5,
            None => true,
        }
        &&& match self.selected {
            Some(i) => i < 5 && self.cards[i as int] is Some,
            None => true,
        }
        &&& all_wf(self.cards)
    }

    /// The catalogue has a valid card under `id`.
    pub open spec fn knows(self, id: int) -> bool {
        0 <= id < self.atlas.cards@.len() && self.atlas.cards@[id].valid()
    }

    /// The hand with the focus on slot `new`; a hand with a selected card
    /// keeps its focus.
    pub open spec fn focused_on(self, new: usize) -> HandModel {
        if self.selected is Some {
            self
        } else {
            HandModel { focus: Some(new), ..self }
        }
    }

    /// The hand with the card of slot `slot` selected and face up.
    pub open spec fn selecting(self, slot: usize) -> HandModel {
        HandModel {
            cards: self.cards.update(
                slot as int,
                Some(CardEntity { flipped: false, ..self.cards[slot as int].unwrap() }),
            ),
            selected: Some(slot),
            ..self
        }
    }

    /// The hand without its selected card and without a selection.
    pub open spec fn played(self) -> HandModel {
        HandModel {
            cards: self.cards.update(self.selected.unwrap() as int, None),
            selected: None,
            ..self
        }
    }

    /// The hand with `card` in its first free slot and without a selection.
    pub open spec fn receiving(self, card: CardEntity) -> HandModel {
        HandModel {
            cards: self.cards.update(first_free(self.cards, 0), Some(card)),
            selected: None,
            ..self
        }
    }
}

/// The hand of `side` that has just been dealt the cards with the given
/// catalogue ids, in this order.
pub open spec fn dealt_hand(side: Suit, open: bool, ids: Seq<usize>, atlas: CardAtlas) -> HandModel {
    HandModel {
        cards: Seq::new(
            5,
            |n: int|
                if n < ids.len() {
                    Some(dealt_card(ids[n] as int, side, open, atlas))
                } else {
                    None
                },
        ),
        focus: None,
        selected: None,
        side,
        atlas,
    }
}

/// The first slot from `from` on that is free, or the number of slots if
/// none is.
pub open spec fn first_free(cards: Seq<Option<CardEntity>>, from: int) -> int
    decreases cards.len() - from,
{
    if from < 0 || from >= cards.len() {
        cards.len() as int
    } else if cards[from] is None {
        from
    } else {
        first_free(cards, from + 1)
    }
}

/// The first free slot is free, and every slot before it is taken.
pub proof fn lemma_first_free(cards: Seq<Option<CardEntity>>, from: int)
    requires
        0 <= from <= cards.len(),
    ensures
        from <= first_free(cards, from) <= cards.len(),
        first_free(cards, from) < cards.len() ==> cards[first_free(cards, from)] is None,
        forall|j: int| from <= j < first_free(cards, from) ==> (#[trigger] cards[j]) is Some,
    decreases cards.len() - from,
{
    if from < cards.len() && cards[from] is Some {
        lemma_first_free(cards, from + 1);
    }
}

impl Hand {
    /// The hand is well formed.
    pub open spec fn wf(&self) -> bool {
        self@.wf()
    }

    /// A hand without cards.
    pub fn empty(side: Suit, card_atlas: &Rc<CardAtlas>) -> (res: Hand)
        ensures
            res@ == (HandModel {
                cards: Seq::new(5, |i: int| None::<CardEntity>),
                focus: None,
                selected: None,
                side,
                atlas: **card_atlas,
            }),
            res.wf(),
    {
        let cards: [Option<CardEntity>; 5] = [None;5];
        assert(cards@ =~= Seq::new(5, |i: int| None::<CardEntity>));
        Hand { cards, focus: None, selected: None, side, card_atlas: Rc::clone(card_atlas) }
    }

    /// A hand that holds the cards with the given catalogue ids, in this
    /// order, each on its way in; face up if `open`.
    pub fn from_ids(side: Suit, open: bool, ids: &[usize], card_atlas: &Rc<CardAtlas>) -> (res: Hand)
        requires
            ids@.len() <= 5,
            forall|n: int|
                0 <= n < ids@.len() ==> (#[trigger] ids@[n]) < card_atlas.cards@.len()
                    && card_atlas.cards@[ids@[n] as int].valid(),
        ensures
            res@ == dealt_hand(side, open, ids@, **card_atlas),
            res.wf(),
    {
        let mut cards: [Option<CardEntity>; 5] = [None;5];
        let mut n: usize = 0;
        while n < ids.len()
            invariant
                n <= ids@.len() <= 5,
                forall|k: int|
                    0 <= k < ids@.len() ==> (#[trigger] ids@[k]) < card_atlas.cards@.len()
                        && card_atlas.cards@[ids@[k] as int].valid(),
                forall|k: int|
                    0 <= k < 5 ==> (#[trigger] cards[k]) == (if k < n {
                        Some(dealt_card(ids@[k] as int, side, open, **card_atlas))
                    } else {
                        None
                    }),
            decreases ids@.len() - n,
        {
            let mut card_entity = CardEntity::new(ids[n], side, side, !open, card_atlas);
            card_entity.start_deal_animation();
            cards[n] = Some(card_entity);
            n += 1;
        }
        assert(cards@ =~= Seq::new(
            5,
            |n: int|
                if n < ids@.len() {
                    Some(dealt_card(ids@[n] as int, side, open, **card_atlas))
                } else {
                    None
                },
        ));
        Hand { cards, focus: None, selected: None, side, card_atlas: Rc::clone(card_atlas) }
    }

    /// Deals the card with catalogue id `id` into slot `n`, face up if
    /// `open`.
    pub fn add_card(&mut self, id: usize, n: u8, open: bool)
        requires
            n < 5,
            old(self)@.knows(id as int),
        ensures
            final(self)@ == (HandModel {
                cards: old(self)@.cards.update(
                    n as int,
                    Some(dealt_card(id as int, old(self)@.side, open, old(self)@.atlas)),
                ),
                ..old(self)@
            }),
            old(self).wf() ==> final(self).wf(),
    {
        let mut card_entity = CardEntity::new(id, self.side, self.side, !open, &self.card_atlas);
        card_entity.start_deal_animation();
        self.cards[n as usize] = Some(card_entity);
    }

    /// Puts a card into the first free slot and drops the selection.
    pub fn add_card_entity(&mut self, card: CardEntity)
        requires
            first_free(old(self)@.cards, 0) < 5,
        ensures
            final(self)@ == old(self)@.receiving(card),
            old(self).wf() && card.wf() ==> final(self).wf(),
    {
        let mut n: usize = 0;
        while n < 5 && self.cards[n].is_some()
            invariant
                n <= 5,
                *self == *old(self),
                first_free(self.cards@, n as int) == first_free(self.cards@, 0),
            decreases 5 - n,
        {
            n += 1;
        }
        self.selected = None;
        self.cards[n] = Some(card);
    }

    /// The slot in focus.
    pub fn focus(&self) -> (res: Option<usize>)
        ensures
            res == self.focus,
    {
        self.focus
    }

    /// Moves the focus to slot `new`, unless a card is selected.
    pub fn set_focus(&mut self, new: usize)
        requires
            new < 5,
        ensures
            final(self)@ == old(self)@.focused_on(new),
            old(self).wf() ==> final(self).wf(),
    {
        if self.selected.is_some() {
            return;
        }
        self.focus = Some(new);
    }

    /// Selects the card in slot `card_id` and turns it face up.
    pub fn select(&mut self, card_id: usize)
        requires
            card_id < 5,
            old(self).cards[card_id as int] is Some,
        ensures
            final(self)@ == old(self)@.selecting(card_id),
            old(self).wf() ==> final(self).wf(),
    {
        let mut card = self.cards[card_id].unwrap();
        card.flipped = false;
        self.cards[card_id] = Some(card);
        self.selected = Some(card_id);
    }

    /// Selects the card in the slot in focus.
    pub fn select_focused(&mut self)
        requires
            old(self).focus is Some,
            old(self).focus.unwrap() < 5,
            old(self).cards[old(self).focus.unwrap() as int] is Some,
        ensures
            final(self)@ == old(self)@.selecting(old(self).focus.unwrap()),
            old(self).wf() ==> final(self).wf(),
    {
        let id = self.focus.unwrap();
        self.select(id);
    }

    /// Drops the selection.
    pub fn clear_selected(&mut self)
        ensures
            final(self)@ == (HandModel { selected: None, ..old(self)@ }),
            old(self).wf() ==> final(self).wf(),
    {
        self.selected = None;
    }

    /// Takes the selected card out of the hand.
    pub fn take_selected(&mut self) -> (card: CardEntity)
        requires
            old(self).selected is Some,
            old(self).selected.unwrap() < 5,
            old(self).cards[old(self).selected.unwrap() as int] is Some,
        ensures
            card == old(self).cards[old(self).selected.unwrap() as int].unwrap(),
            final(self)@ == old(self)@.played(),
            old(self).wf() ==> final(self).wf(),
    {
        let id = self.selected.unwrap();
        self.clear_selected();
        let card = self.cards[id].unwrap();
        self.cards[id] = None;
        card
    }

    /// Takes the focus off the hand.
    pub fn reset_foucus(&mut self)
        ensures
            final(self)@ == (HandModel { focus: None, ..old(self)@ }),
            old(self).wf() ==> final(self).wf(),
    {
        self.focus = None;
    }

    /// The number of cards in the hand.
    pub fn count(&self) -> (res: usize)
        ensures
            res == count_cards(self@.cards, 5),
            res <= 5,
    {
        let mut held: usize = 0;
        let mut i: usize = 0;
        while i < 5
            invariant
                i <= 5,
                held == count_cards(self@.cards, i as int),
                held <= i,
            decreases 5 - i,
        {
            if self.cards[i].is_some() {
                held += 1;
            }
            i += 1;
        }
        held
    }
}

/// How many of the first `upto` slots hold a card.
pub open spec fn count_cards(cards: Seq<Option<CardEntity>>, upto: int) -> int
    decreases upto,
{
    if upto <= 0 {
        0
    } else {
        count_cards(cards, upto - 1) + (if cards[upto - 1] is Some { 1int } else { 0 })
    }
}

/// Writing to slot `k` changes the count by what the slot gains or loses.
pub proof fn lemma_count_cards_update(
    cards: Seq<Option<CardEntity>>,
    k: int,
    slot: Option<CardEntity>,
    upto: int,
)
    requires
        0 <= k < cards.len(),
        upto <= cards.len(),
    ensures
        count_cards(cards.update(k, slot), upto) == count_cards(cards, upto) + (if k < upto {
            (if slot is Some { 1int } else { 0 }) - (if cards[k] is Some { 1int } else { 0 })
        } else {
            0
        }),
        0 <= count_cards(cards, upto),
        upto >= 0 ==> count_cards(cards, upto) <= upto,
    decreases upto,
{
    if upto > 0 {
        lemma_count_cards_update(cards, k, slot, upto - 1);
    }
}

/// A row whose first `upto` slots all hold a card counts `upto` cards, and a
/// row whose first `upto` slots are all free counts none.
pub proof fn lemma_count_cards_uniform(cards: Seq<Option<CardEntity>>, upto: int)
    requires
        0 <= upto <= cards.len(),
    ensures
        (forall|j: int| 0 <= j < upto ==> (#[trigger] cards[j]) is Some) ==> count_cards(cards, upto)
            == upto,
        (forall|j: int| 0 <= j < upto ==> (#[trigger] cards[j]) is None) ==> count_cards(cards, upto)
            == 0,
        count_cards(cards, upto) == upto ==> (forall|j: int|
            0 <= j < upto ==> (#[trigger] cards[j]) is Some),
        0 <= count_cards(cards, upto) <= upto,
    decreases upto,
{
    if upto > 0 {
        lemma_count_cards_uniform(cards, upto - 1);
    }
}

/// A hand with fewer than five cards has a free slot.
pub proof fn lemma_room_in_hand(cards: Seq<Option<CardEntity>>)
    requires
        cards.len() == 5,
        count_cards(cards, 5) < 5,
    ensures
        0 <= first_free(cards, 0) < 5,
        cards[first_free(cards, 0)] is None,
{
    lemma_first_free(cards, 0);
    lemma_count_cards_uniform(cards, 5);
}

} // verus!
