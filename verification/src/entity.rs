//! The cards and elemental tiles of the live game, reduced to the discrete
//! state that the rules read. Positions, scales and the timing of the
//! animations belong to the presentation layer, which reports once per tick
//! what has finished.

use vstd::prelude::*;
use crate::cards::{CardAtlas, Element, Rank, Suit};
use crate::snapshot::CardSimple;

verus! {

/// The modifier that an elemental tile puts on the card lying on it.
#[derive(Clone, Copy, Debug, PartialEq, Eq, Structural)]
pub enum ElementalEffect {
    Bonus,
    Malus,
    NoEffect,
}

/// Where a card stands in its flip animation, and with it whether its
/// captures have been checked: a card at `Finished` awaits its check, a card
/// at `Waiting` has had it, and the four stages between are a flip in
/// flight.
#[derive(Clone, Copy, Debug, PartialEq, Eq, Structural)]
pub enum FlipStage {
    Waiting,
    First,
    Second,
    Third,
    Fourth,
    Finished,
}

/// The axis of a flip.
#[derive(Clone, Copy, Debug, PartialEq, Eq, Structural)]
pub enum FlipDirection {
    Vertical,
    Horizontal,
    Open,
}

/// What the presentation layer reports about one card for one tick.
#[derive(Clone, Copy, Debug, PartialEq, Eq, Structural)]
pub struct CardTick {
    /// The card has arrived at its place in the hand.
    pub deal_finished: bool,
    /// The card has arrived at its cell.
    pub move_finished: bool,
    /// The current stage of the card's flip has run its time.
    pub flip_finished: bool,
}

/// The movement of a card from a hand to its cell.
#[derive(Clone, Copy, Debug, PartialEq, Eq, Structural)]
pub struct MoveAnimation {
    pub active: bool,
}

impl MoveAnimation {
    /// No movement in flight.
    pub fn init() -> (res: MoveAnimation)
        ensures
            !res.active,
    {
        MoveAnimation { active: false }
    }

    /// Starts the movement.
    pub fn activate(&mut self)
        ensures
            final(self).active,
    {
        self.active = true;
    }

    /// Ends the movement once the presentation layer reports its arrival.
    pub fn update(&mut self, finished: bool)
        ensures
            final(self).active == (old(self).active && !finished),
    {
        if finished {
            self.active = false;
        }
    }
}

/// The flip of a card, as a sequence of stages.
#[derive(Clone, Copy, Debug, PartialEq, Eq, Structural)]
pub struct FlipAnimation {
    pub active: bool,
    /// The flip was caused by a Same or Plus capture. It stays set after the
    /// flip has finished, until the card has been checked.
    pub combo: bool,
    pub stage: FlipStage,
    pub direction: FlipDirection,
}

impl FlipAnimation {
    /// The stage after `stage` in a flip that changes the side of the card.
    /// After the fourth stage the card awaits its check if the capture was a
    /// combination, and rests if it was not.
    pub open spec fn next_stage(stage: FlipStage, combo: bool) -> FlipStage {
        match stage {
            FlipStage::First => FlipStage::Second,
            FlipStage::Second => FlipStage::Third,
            FlipStage::Third => FlipStage::Fourth,
            FlipStage::Fourth => if combo { FlipStage::Finished } else { FlipStage::Waiting },
            other => other,
        }
    }

    /// The stage is one of the four in which a flip is in flight.
    pub open spec fn in_flight(stage: FlipStage) -> bool {
        stage == FlipStage::First || stage == FlipStage::Second || stage == FlipStage::Third
            || stage == FlipStage::Fourth
    }

    /// The animation after one tick of a flip that changes the side.
    pub open spec fn turned(self, finished: bool) -> FlipAnimation {
        if !finished {
            self
        } else {
            FlipAnimation {
                stage: Self::next_stage(self.stage, self.combo),
                active: self.active && self.stage != FlipStage::Fourth,
                ..self
            }
        }
    }

    /// The animation after one tick of the flip that reveals a card.
    pub open spec fn opened(self, finished: bool) -> FlipAnimation {
        if !finished {
            self
        } else if self.stage == FlipStage::First {
            FlipAnimation { stage: FlipStage::Second, ..self }
        } else {
            FlipAnimation { stage: FlipStage::Waiting, active: false, ..self }
        }
    }

    /// A resting animation.
    pub fn new() -> (res: FlipAnimation)
        ensures
            res == (FlipAnimation {
                active: false,
                combo: false,
                stage: FlipStage::Waiting,
                direction: FlipDirection::Vertical,
            }),
    {
        FlipAnimation {
            active: false,
            combo: false,
            stage: FlipStage::Waiting,
            direction: FlipDirection::Vertical,
        }
    }

    /// One tick of the flip that reveals a card. `finished` says whether the
    /// current stage has run its time. Returns whether the face of the card
    /// turns over now: at the end of the first stage.
    pub fn update_open(&mut self, finished: bool) -> (flip_face: bool)
        requires
            old(self).stage == FlipStage::First || old(self).stage == FlipStage::Second,
        ensures
            *final(self) == old(self).opened(finished),
            flip_face == (finished && old(self).stage == FlipStage::First),
    {
        if !finished {
            return false;
        }
        match self.stage {
            FlipStage::First => {
                self.stage = FlipStage::Second;
                true
            },
            _ => {
                self.stage = FlipStage::Waiting;
                self.active = false;
                false
            },
        }
    }

    /// One tick of a flip that changes the side of the card. Returns
    /// whether the card changes sides now (at the end of the fourth stage)
    /// and whether its face turns over now (at the end of the first and of
    /// the third stage).
    fn advance(&mut self, finished: bool) -> (res: (bool, bool))
        requires
            Self::in_flight(old(self).stage),
        ensures
            *final(self) == old(self).turned(finished),
            res.0 == (finished && old(self).stage == FlipStage::Fourth),
            res.1 == (finished && (old(self).stage == FlipStage::First || old(self).stage
                == FlipStage::Third)),
    {
        if !finished {
            return (false, false);
        }
        match self.stage {
            FlipStage::First => {
                self.stage = FlipStage::Second;
                (false, true)
            },
            FlipStage::Second => {
                self.stage = FlipStage::Third;
                (false, false)
            },
            FlipStage::Third => {
                self.stage = FlipStage::Fourth;
                (false, true)
            },
            _ => {
                self.stage = if self.combo {
                    FlipStage::Finished
                } else {
                    FlipStage::Waiting
                };
                self.active = false;
                (true, false)
            },
        }
    }

    /// One tick of a flip about the horizontal axis.
    pub fn update_horizontal(&mut self, finished: bool) -> (res: (bool, bool))
        requires
            Self::in_flight(old(self).stage),
        ensures
            *final(self) == old(self).turned(finished),
            res.0 == (finished && old(self).stage == FlipStage::Fourth),
            res.1 == (finished && (old(self).stage == FlipStage::First || old(self).stage
                == FlipStage::Third)),
    {
        self.advance(finished)
    }

    /// One tick of a flip about the vertical axis.
    pub fn update_vertical(&mut self, finished: bool) -> (res: (bool, bool))
        requires
            Self::in_flight(old(self).stage),
        ensures
            *final(self) == old(self).turned(finished),
            res.0 == (finished && old(self).stage == FlipStage::Fourth),
            res.1 == (finished && (old(self).stage == FlipStage::First || old(self).stage
                == FlipStage::Third)),
    {
        self.advance(finished)
    }
}

/// A card of the live game, in a hand or on the board.
#[derive(Clone, Copy, Debug, PartialEq, Eq, Structural)]
pub struct CardEntity {
    /// The card's position in the catalogue.
    pub id: usize,
    /// The side for which the card counts.
    pub controller: Suit,
    /// The side from whose hand the card came.
    pub owner: Suit,
    pub elemental_effect: ElementalEffect,
    /// The card lies face down.
    pub flipped: bool,
    pub flip_animation: FlipAnimation,
    pub move_animation: MoveAnimation,
    /// The card is on its way into the hand.
    pub deal_animation: bool,
    /// The base ranks, as the catalogue gives them.
    pub rank: Rank,
    /// The element, as the catalogue gives it.
    pub element: Option<Element>,
}

impl CardEntity {
    /// The base ranks lie between 0 and 10, and the stage of the flip
    /// agrees with its being in flight.
    pub open spec fn wf(self) -> bool {
        &&& self.rank.in_catalogue_range()
        &&& self.flip_animation.active == FlipAnimation::in_flight(self.flip_animation.stage)
        &&& self.flip_animation.direction == FlipDirection::Open ==> (self.flip_animation.stage
            != FlipStage::Third && self.flip_animation.stage != FlipStage::Fourth)
    }

    /// The ranks after the elemental modifier: one more on every edge under
    /// a bonus, one less but not below zero under a malus.
    pub open spec fn effective(self) -> Rank {
        match self.elemental_effect {
            ElementalEffect::Bonus => self.rank.raised(),
            ElementalEffect::Malus => self.rank.lowered(),
            ElementalEffect::NoEffect => self.rank,
        }
    }

    /// The card as capture resolution sees it.
    pub open spec fn simple(self) -> CardSimple {
        CardSimple {
            rank: self.rank,
            rank_elem: self.effective(),
            suit: self.controller,
            element: self.element,
        }
    }

    /// The card awaits its capture check.
    pub open spec fn unchecked(self) -> bool {
        self.flip_animation.stage == FlipStage::Finished
    }

    /// The card as it is right after a capture check.
    pub open spec fn checked(self) -> CardEntity {
        CardEntity {
            flip_animation: FlipAnimation {
                active: false,
                combo: false,
                stage: FlipStage::Waiting,
                ..self.flip_animation
            },
            ..self
        }
    }

    /// The card with a flip begun that will hand it to the other side.
    pub open spec fn captured(self, direction: FlipDirection, combo: bool) -> CardEntity {
        CardEntity {
            flip_animation: FlipAnimation { active: true, combo, stage: FlipStage::First, direction },
            ..self
        }
    }

    /// The card after one tick in which the presentation layer reported
    /// `tick`.
    pub open spec fn ticked(self, tick: CardTick) -> CardEntity {
        let moved = CardEntity {
            deal_animation: self.deal_animation && !tick.deal_finished,
            move_animation: MoveAnimation {
                active: self.move_animation.active && !tick.move_finished,
            },
            ..self
        };
        if !self.flip_animation.active {
            moved
        } else if self.flip_animation.direction == FlipDirection::Open {
            CardEntity {
                flip_animation: self.flip_animation.opened(tick.flip_finished),
                flipped: if tick.flip_finished && self.flip_animation.stage == FlipStage::First {
                    !self.flipped
                } else {
                    self.flipped
                },
                ..moved
            }
        } else {
            CardEntity {
                flip_animation: self.flip_animation.turned(tick.flip_finished),
                flipped: if tick.flip_finished && (self.flip_animation.stage == FlipStage::First
                    || self.flip_animation.stage == FlipStage::Third) {
                    !self.flipped
                } else {
                    self.flipped
                },
                controller: if tick.flip_finished && self.flip_animation.stage
                    == FlipStage::Fourth {
                    self.controller.other()
                } else {
                    self.controller
                },
                ..moved
            }
        }
    }

    /// The card with the given catalogue id, resting, without a modifier.
    pub fn new(id: usize, controller: Suit, owner: Suit, flipped: bool, card_atlas: &CardAtlas) -> (res:
        CardEntity)
        requires
            id < card_atlas.cards@.len(),
            card_atlas.cards@[id as int].valid(),
        ensures
            res == (CardEntity {
                id,
                controller,
                owner,
                elemental_effect: ElementalEffect::NoEffect,
                flipped,
                flip_animation: FlipAnimation {
                    active: false,
                    combo: false,
                    stage: FlipStage::Waiting,
                    direction: FlipDirection::Vertical,
                },
                move_animation: MoveAnimation { active: false },
                deal_animation: false,
                rank: card_atlas.cards@[id as int].rank(),
                element: card_atlas.cards@[id as int].element,
            }),
            res.wf(),
    {
        let stats = &card_atlas.cards[id];
        CardEntity {
            id,
            controller,
            owner,
            elemental_effect: ElementalEffect::NoEffect,
            flipped,
            flip_animation: FlipAnimation::new(),
            move_animation: MoveAnimation::init(),
            deal_animation: false,
            rank: Rank {
                t: stats.pow_top,
                b: stats.pow_bottom,
                l: stats.pow_left,
                r: stats.pow_right,
            },
            element: stats.element,
        }
    }

    /// Marks the card as awaiting its capture check, with combination rules
    /// allowed.
    pub fn mark_unchecked(&mut self)
        ensures
            *final(self) == (CardEntity {
                flip_animation: FlipAnimation {
                    active: false,
                    combo: false,
                    stage: FlipStage::Finished,
                    ..old(self).flip_animation
                },
                ..*old(self)
            }),
    {
        self.flip_animation.active = false;
        self.flip_animation.combo = false;
        self.flip_animation.stage = FlipStage::Finished;
    }

    /// Marks the card as checked.
    pub fn mark_checked(&mut self)
        ensures
            *final(self) == old(self).checked(),
    {
        self.flip_animation.active = false;
        self.flip_animation.combo = false;
        self.flip_animation.stage = FlipStage::Waiting;
    }

    /// Whether the card awaits its capture check.
    pub fn is_unchecked(&self) -> (res: bool)
        ensures
            res == self.unchecked(),
    {
        self.flip_animation.stage == FlipStage::Finished
    }

    /// Whether a flip of the card is in flight.
    pub fn is_flipping(&self) -> (res: bool)
        ensures
            res == FlipAnimation::in_flight(self.flip_animation.stage),
    {
        !(self.flip_animation.stage == FlipStage::Waiting || self.flip_animation.stage
            == FlipStage::Finished)
    }

    /// Whether the check of this card may use the Same and Plus rules: it
    /// may not where the card was itself captured by one of them.
    pub fn combo_eligible(&self) -> (res: bool)
        ensures
            res == !self.flip_animation.combo,
    {
        !self.flip_animation.combo
    }

    /// One tick of the card's animations.
    pub fn update(&mut self, tick: CardTick)
        requires
            old(self).wf(),
        ensures
            *final(self) == old(self).ticked(tick),
            final(self).wf(),
    {
        if tick.deal_finished {
            self.deal_animation = false;
        }
        self.move_animation.update(tick.move_finished);
        if self.flip_animation.active {
            let mut flip_owner = false;
            let flip_face;
            match self.flip_animation.direction {
                FlipDirection::Horizontal => {
                    let res = self.flip_animation.update_horizontal(tick.flip_finished);
                    flip_owner = res.0;
                    flip_face = res.1;
                },
                FlipDirection::Open => {
                    flip_face = self.flip_animation.update_open(tick.flip_finished);
                },
                FlipDirection::Vertical => {
                    let res = self.flip_animation.update_vertical(tick.flip_finished);
                    flip_owner = res.0;
                    flip_face = res.1;
                },
            }
            if flip_owner {
                self.flip_color();
            }
            if flip_face {
                self.flipped = !self.flipped;
            }
        }
    }

    /// Starts the card's way into the hand.
    pub fn start_deal_animation(&mut self)
        ensures
            *final(self) == (CardEntity { deal_animation: true, ..*old(self) }),
    {
        self.deal_animation = true;
    }

    /// Whether the card has arrived in the hand.
    pub fn deal_animation_finished(&self) -> (res: bool)
        ensures
            res == !self.deal_animation,
    {
        !self.deal_animation
    }

    /// Starts the card's way to its cell.
    pub fn start_move_tween(&mut self)
        ensures
            *final(self) == (CardEntity {
                move_animation: MoveAnimation { active: true },
                ..*old(self)
            }),
    {
        self.move_animation.activate();
    }

    /// Begins the flip that reveals the card.
    pub fn flip_open(&mut self)
        ensures
            *final(self) == (CardEntity {
                flip_animation: FlipAnimation {
                    active: true,
                    stage: FlipStage::First,
                    direction: FlipDirection::Open,
                    ..old(self).flip_animation
                },
                ..*old(self)
            }),
    {
        self.flip_animation.direction = FlipDirection::Open;
        self.flip_animation.stage = FlipStage::First;
        self.flip_animation.active = true;
    }

    /// Begins a flip about the horizontal axis that hands the card to the
    /// other side.
    pub fn flip_horizontal(&mut self, combo: bool)
        ensures
            *final(self) == old(self).captured(FlipDirection::Horizontal, combo),
    {
        self.flip_animation.direction = FlipDirection::Horizontal;
        self.flip_animation.stage = FlipStage::First;
        self.flip_animation.active = true;
        self.flip_animation.combo = combo;
    }

    /// Begins a flip about the vertical axis that hands the card to the
    /// other side.
    pub fn flip_vertical(&mut self, combo: bool)
        ensures
            *final(self) == old(self).captured(FlipDirection::Vertical, combo),
    {
        self.flip_animation.direction = FlipDirection::Vertical;
        self.flip_animation.stage = FlipStage::First;
        self.flip_animation.active = true;
        self.flip_animation.combo = combo;
    }

    fn flip_color(&mut self)
        ensures
            *final(self) == (CardEntity { controller: old(self).controller.other(), ..*old(self) }),
    {
        self.controller = self.controller.opponent();
    }

    pub fn rank_top(&self) -> (res: u8)
        ensures
            res == self.rank.t,
    {
        self.rank.t
    }

    pub fn rank_right(&self) -> (res: u8)
        ensures
            res == self.rank.r,
    {
        self.rank.r
    }

    pub fn rank_bottom(&self) -> (res: u8)
        ensures
            res == self.rank.b,
    {
        self.rank.b
    }

    pub fn rank_left(&self) -> (res: u8)
        ensures
            res == self.rank.l,
    {
        self.rank.l
    }

    pub fn element(&self) -> (res: Option<Element>)
        ensures
            res == self.element,
    {
        self.element
    }

    /// The elemental modifier as a number: 1, -1 or 0.
    pub fn elemental_effect(&self) -> (res: i16)
        ensures
            res == (match self.elemental_effect {
                ElementalEffect::NoEffect => 0i16,
                ElementalEffect::Bonus => 1i16,
                ElementalEffect::Malus => -1i16,
            }),
    {
        match self.elemental_effect {
            ElementalEffect::NoEffect => 0,
            ElementalEffect::Bonus => 1,
            ElementalEffect::Malus => -1,
        }
    }

    /// The base ranks in the order top, right, bottom, left.
    pub fn rank_slice(&self) -> (res: [u8; 4])
        ensures
            res@ == self.rank.edges(),
    {
        self.rank.as_slice()
    }

    /// The modified ranks.
    pub fn rank_elemental(&self) -> (res: Rank)
        requires
            self.rank.can_rise(),
        ensures
            res == self.effective(),
    {
        Rank {
            t: self.modified(self.rank.t),
            b: self.modified(self.rank.b),
            l: self.modified(self.rank.l),
            r: self.modified(self.rank.r),
        }
    }

    /// One rank under the card's elemental modifier.
    fn modified(&self, rank: u8) -> (res: u8)
        requires
            rank < u8::MAX,
        ensures
            res == (match self.elemental_effect {
                ElementalEffect::Bonus => (rank + 1) as u8,
                ElementalEffect::Malus => if rank > 0 { (rank - 1) as u8 } else { 0 },
                ElementalEffect::NoEffect => rank,
            }),
    {
        match self.elemental_effect {
            ElementalEffect::Bonus => rank + 1,
            ElementalEffect::Malus => if rank > 0 { rank - 1 } else { 0 },
            ElementalEffect::NoEffect => rank,
        }
    }

    /// The modified ranks in the order top, right, bottom, left.
    pub fn rank_slice_elemental(&self) -> (res: [u8; 4])
        requires
            self.rank.can_rise(),
        ensures
            res@ == self.effective().edges(),
    {
        self.rank_elemental().as_slice()
    }

    pub fn rank_top_with_elemental(&self) -> (res: u8)
        requires
            self.rank.can_rise(),
        ensures
            res == self.effective().t,
    {
        self.modified(self.rank.t)
    }

    pub fn rank_right_with_elemental(&self) -> (res: u8)
        requires
            self.rank.can_rise(),
        ensures
            res == self.effective().r,
    {
        self.modified(self.rank.r)
    }

    pub fn rank_bottom_with_elemental(&self) -> (res: u8)
        requires
            self.rank.can_rise(),
        ensures
            res == self.effective().b,
    {
        self.modified(self.rank.b)
    }

    pub fn rank_left_with_elemental(&self) -> (res: u8)
        requires
            self.rank.can_rise(),
        ensures
            res == self.effective().l,
    {
        self.modified(self.rank.l)
    }
}

/// An elemental tile of the board.
#[derive(Clone, Copy, Debug, PartialEq, Eq, Structural)]
pub struct ElementEntity {
    pub element: Element,
    /// The tile glows: it is shown as still free.
    pub active: bool,
}

impl ElementEntity {
    /// A tile of the given element, not yet glowing.
    pub fn new(element: Element) -> (res: ElementEntity)
        ensures
            res == (ElementEntity { element, active: false }),
    {
        ElementEntity { element, active: false }
    }
}

/// The cards of a row of slots as capture resolution sees them.
pub open spec fn simples(cards: Seq<Option<CardEntity>>) -> Seq<Option<CardSimple>> {
    Seq::new(
        cards.len(),
        |i: int|
            match cards[i] {
                Some(card) => Some(card.simple()),
                None => None,
            },
    )
}

/// The elements of a row of tiles.
pub open spec fn tile_elements(tiles: Seq<Option<ElementEntity>>) -> Seq<Option<Element>> {
    Seq::new(
        tiles.len(),
        |i: int|
            match tiles[i] {
                Some(tile) => Some(tile.element),
                None => None,
            },
    )
}

/// Every card in a row of slots is well formed.
pub open spec fn all_wf(cards: Seq<Option<CardEntity>>) -> bool {
    forall|i: int|
        0 <= i < cards.len() ==> match #[trigger] cards[i] {
            Some(card) => card.wf(),
            None => true,
        }
}

} // verus!
