//! The card catalogue and the small value types shared by every other module.

use vstd::prelude::*;

verus! {

/// The optional rules of a round.
#[derive(Clone, Copy, Debug, PartialEq, Eq, Structural)]
pub struct Rules {
    pub open: bool,
    pub random: bool,
    pub plus: bool,
    pub same: bool,
    pub same_wall: bool,
    pub elemental: bool,
    pub sudden_death: bool,
}

impl Default for Rules {
    /// Every optional rule switched off.
    fn default() -> (rules: Rules)
        ensures
            rules == Rules::none(),
    {
        Rules {
            open: false,
            random: false,
            plus: false,
            same: false,
            same_wall: false,
            elemental: false,
            sudden_death: false,
        }
    }
}

impl Rules {
    /// The rule set with every optional rule switched off.
    pub open spec fn none() -> Rules {
        Rules {
            open: false,
            random: false,
            plus: false,
            same: false,
            same_wall: false,
            elemental: false,
            sudden_death: false,
        }
    }
}

/// How a round ended, seen from the Blue side.
#[derive(Clone, Copy, Debug, PartialEq, Eq, Structural)]
pub enum DuelOutcome {
    Win,
    Lose,
    Draw,
}

/// One of the two sides.
#[derive(Clone, Copy, Debug, PartialEq, Eq, Structural)]
pub enum Suit {
    Red,
    Blue,
}

impl Suit {
    /// The other side.
    pub open spec fn other(self) -> Suit {
        match self {
            Suit::Red => Suit::Blue,
            Suit::Blue => Suit::Red,
        }
    }

    /// The other side.
    pub fn opponent(self) -> (suit: Suit)
        ensures
            suit == self.other(),
    {
        match self {
            Suit::Red => Suit::Blue,
            Suit::Blue => Suit::Red,
        }
    }
}

/// The elemental affinity of a card or of a board tile.
#[derive(Clone, Copy, Debug, PartialEq, Eq, Structural)]
pub enum Element {
    Fire,
    Ice,
    Thunder,
    Earth,
    Poison,
    Wind,
    Water,
    Holy,
}

impl Element {
    /// The element with the given position in the list of eight.
    pub open spec fn at(index: int) -> Element {
        if index == 0 {
            Element::Fire
        } else if index == 1 {
            Element::Ice
        } else if index == 2 {
            Element::Thunder
        } else if index == 3 {
            Element::Earth
        } else if index == 4 {
            Element::Poison
        } else if index == 5 {
            Element::Wind
        } else if index == 6 {
            Element::Water
        } else {
            Element::Holy
        }
    }

    /// The element with the given position in the list of eight.
    pub fn from_index(index: usize) -> (element: Element)
        requires
            index < 8,
        ensures
            element == Element::at(index as int),
    {
        if index == 0 {
            Element::Fire
        } else if index == 1 {
            Element::Ice
        } else if index == 2 {
            Element::Thunder
        } else if index == 3 {
            Element::Earth
        } else if index == 4 {
            Element::Poison
        } else if index == 5 {
            Element::Wind
        } else if index == 6 {
            Element::Water
        } else {
            Element::Holy
        }
    }
}

/// The highest rank an edge of a catalogue card may carry.
pub const MAX_RANK: u8 = 10;

/// The ranks on the four edges of a card.
#[derive(Clone, Copy, Debug, PartialEq, Eq, Structural)]
pub struct Rank {
    pub t: u8,
    pub b: u8,
    pub l: u8,
    pub r: u8,
}

impl Rank {
    /// The ranks in the order top, right, bottom, left.
    pub open spec fn edges(self) -> Seq<u8> {
        seq![self.t, self.r, self.b, self.l]
    }

    /// The rank on the edge that faces a card lying in direction `dir` of
    /// this one's neighbour: the bottom edge for a neighbour above (0), the
    /// left edge for one to the right (1), the top edge for one below (2),
    /// the right edge for one to the left (3).
    pub open spec fn facing(self, dir: int) -> u8 {
        if dir == 0 {
            self.b
        } else if dir == 1 {
            self.l
        } else if dir == 2 {
            self.t
        } else {
            self.r
        }
    }

    /// Every edge raised by one.
    pub open spec fn raised(self) -> Rank {
        Rank {
            t: (self.t + 1) as u8,
            b: (self.b + 1) as u8,
            l: (self.l + 1) as u8,
            r: (self.r + 1) as u8,
        }
    }

    /// Every edge lowered by one, but never below zero.
    pub open spec fn lowered(self) -> Rank {
        Rank {
            t: if self.t > 0 { (self.t - 1) as u8 } else { 0 },
            b: if self.b > 0 { (self.b - 1) as u8 } else { 0 },
            l: if self.l > 0 { (self.l - 1) as u8 } else { 0 },
            r: if self.r > 0 { (self.r - 1) as u8 } else { 0 },
        }
    }

    /// No edge is at the top of the machine range, so all can be raised.
    pub open spec fn can_rise(self) -> bool {
        self.t < u8::MAX && self.b < u8::MAX && self.l < u8::MAX && self.r < u8::MAX
    }

    /// No edge is above the highest catalogue rank.
    pub open spec fn in_catalogue_range(self) -> bool {
        self.t <= MAX_RANK && self.b <= MAX_RANK && self.l <= MAX_RANK && self.r <= MAX_RANK
    }

    /// The ranks in the order top, right, bottom, left.
    pub fn as_slice(&self) -> (ranks: [u8; 4])
        ensures
            ranks@ == self.edges(),
    {
        let ranks = [self.t, self.r, self.b, self.l];
        assert(ranks@ =~= self.edges());
        ranks
    }

    /// The rank on the edge facing back from direction `dir`.
    pub fn facing_edge(&self, dir: usize) -> (rank: u8)
        requires
            dir < 4,
        ensures
            rank == self.facing(dir as int),
    {
        if dir == 0 {
            self.b
        } else if dir == 1 {
            self.l
        } else if dir == 2 {
            self.t
        } else {
            self.r
        }
    }
}

/// One entry of the card catalogue.
#[derive(Clone, Debug)]
pub struct Card {
    pub id: usize,
    pub name: String,
    pub level: u8,
    pub pow_left: u8,
    pub pow_right: u8,
    pub pow_top: u8,
    pub pow_bottom: u8,
    pub element: Option<Element>,
}

impl Card {
    /// The four base ranks of the card.
    pub open spec fn rank(&self) -> Rank {
        Rank { t: self.pow_top, b: self.pow_bottom, l: self.pow_left, r: self.pow_right }
    }

    /// Every base rank lies between 0 and 10.
    pub open spec fn valid(&self) -> bool {
        self.rank().in_catalogue_range()
    }

    /// The base ranks in the order top, right, bottom, left.
    pub fn rank_as_slice(&self) -> (ranks: [u8; 4])
        ensures
            ranks@ == self.rank().edges(),
    {
        let ranks = [self.pow_top, self.pow_right, self.pow_bottom, self.pow_left];
        assert(ranks@ =~= self.rank().edges());
        ranks
    }

    /// Whether every base rank lies between 0 and 10.
    pub fn is_valid(&self) -> (ok: bool)
        ensures
            ok == self.valid(),
    {
        self.pow_top <= MAX_RANK && self.pow_bottom <= MAX_RANK && self.pow_left <= MAX_RANK
            && self.pow_right <= MAX_RANK
    }
}

/// The card catalogue: a card's id is its position in `cards`.
#[derive(Clone, Debug)]
pub struct CardAtlas {
    pub cards: Vec<Card>,
}

impl CardAtlas {
    /// Every card of the catalogue has ranks between 0 and 10.
    pub open spec fn valid(&self) -> bool {
        forall|i: int| 0 <= i < self.cards@.len() ==> (#[trigger] self.cards@[i]).valid()
    }

    /// Whether every card of the catalogue has ranks between 0 and 10.
    pub fn is_valid(&self) -> (ok: bool)
        ensures
            ok == self.valid(),
    {
        let mut i: usize = 0;
        while i < self.cards.len()
            invariant
                i <= self.cards@.len(),
                forall|k: int| 0 <= k < i ==> (#[trigger] self.cards@[k]).valid(),
            decreases self.cards@.len() - i,
        {
            if !self.cards[i].is_valid() {
                return false;
            }
            i += 1;
        }
        true
    }
}

} // verus!
