//! The automated side as the rest of the game sees it: which card levels it
//! may draw its hand from, how far it looks ahead, and what it does next.

use vstd::prelude::*;
use crate::ai;
use crate::cards::Rules;
use crate::entity::{all_wf, CardEntity, ElementEntity};
use crate::hand::Hand;
use crate::random::choose_id;

verus! {

/// What the automated side did in a tick.
#[derive(Clone, Copy, Debug, PartialEq, Eq, Structural)]
pub enum AiEvent {
    /// It moved its focus to another card of its hand.
    Focus,
    /// It selected a card and wants it placed on the given cell.
    Put(usize),
}

/// The number of card levels in the catalogue.
pub const LEVELS: usize = 10;

/// The number of cards in each level of the catalogue.
pub const CARDS_PER_LEVEL: usize = 11;

/// The automated side.
#[derive(Debug)]
pub struct Opponent {
    /// For each level, whether the side may draw cards of it.
    pub card_enabled: [bool; 10],
    pub ai: ai::Opponent,
}

/// How many of the first `upto` levels are enabled.
pub open spec fn count_enabled(levels: Seq<bool>, upto: int) -> int
    decreases upto,
{
    if upto <= 0 {
        0
    } else {
        count_enabled(levels, upto - 1) + (if levels[upto - 1] { 1int } else { 0 })
    }
}

/// A card id belongs to the pool from which a hand is drawn: it lies in an
/// enabled level, where level `l` holds the ids from `11 * l` up to but not
/// including `11 * (l + 1)`.
pub open spec fn in_pool(levels: Seq<bool>, id: int) -> bool {
    0 <= id < 110 && levels[id / 11]
}

/// The pool built from the first `upto` levels, in ascending order of id.
pub open spec fn pool_of(levels: Seq<bool>, upto: int) -> Seq<usize>
    decreases upto,
{
    if upto <= 0 {
        Seq::empty()
    } else if levels[upto - 1] {
        pool_of(levels, upto - 1) + Seq::new(11, |j: int| (11 * (upto - 1) + j) as usize)
    } else {
        pool_of(levels, upto - 1)
    }
}

/// The pool holds exactly the ids of the enabled levels.
pub proof fn lemma_pool_member(levels: Seq<bool>, upto: int, id: usize)
    requires
        0 <= upto <= 10,
        levels.len() == 10,
    ensures
        pool_of(levels, upto).contains(id) <==> (in_pool(levels, id as int) && id < 11 * upto),
    decreases upto,
{
    if upto > 0 {
        lemma_pool_member(levels, upto - 1, id);
        let before = pool_of(levels, upto - 1);
        let level = Seq::new(11, |j: int| (11 * (upto - 1) + j) as usize);
        if levels[upto - 1] {
            if (before + level).contains(id) {
                let k = choose|k: int| 0 <= k < (before + level).len() && (before + level)[k] == id;
                if k < before.len() {
                    assert(before[k] == id);
                    assert(before.contains(id));
                } else {
                    assert(level[k - before.len()] == id);
                    assert(id as int / 11 == upto - 1);
                }
            }
            if in_pool(levels, id as int) && id < 11 * upto {
                if id < 11 * (upto - 1) {
                    assert(before.contains(id));
                    let k = choose|k: int| 0 <= k < before.len() && before[k] == id;
                    assert((before + level)[k] == id);
                } else {
                    let j = id - 11 * (upto - 1);
                    assert(level[j] == id);
                    assert((before + level)[before.len() + j] == id);
                }
            }
        } else {
            if in_pool(levels, id as int) && id < 11 * upto {
                if id >= 11 * (upto - 1) {
                    assert(id as int / 11 == upto - 1);
                }
            }
        }
    }
}

/// The pool holds eleven ids for every enabled level.
pub proof fn lemma_pool_len(levels: Seq<bool>, upto: int)
    requires
        0 <= upto <= 10,
        levels.len() == 10,
    ensures
        pool_of(levels, upto).len() == 11 * count_enabled(levels, upto),
        count_enabled(levels, upto) >= 0,
    decreases upto,
{
    if upto > 0 {
        lemma_pool_len(levels, upto - 1);
    }
}

impl Opponent {
    /// At least one level is enabled, and the search is set up soundly.
    pub open spec fn wf(&self) -> bool {
        count_enabled(self.card_enabled@, 10) >= 1 && self.ai@.diffuculty >= 1
    }

    /// An automated side that may draw from every level and looks one
    /// placement ahead.
    pub fn new() -> (res: Opponent)
        ensures
            res.card_enabled@ == Seq::new(10, |i: int| true),
            res.ai@ == ai::OpponentModel::fresh(),
            res.wf(),
    {
        let card_enabled = [true;10];
        assert(card_enabled@ =~= Seq::new(10, |i: int| true));
        proof {
            lemma_all_enabled(card_enabled@, 10);
        }
        Opponent { card_enabled, ai: ai::Opponent::new() }
    }

    /// Switches level `n` on or off; the last enabled level stays on.
    pub fn toogle_cards(&mut self, n: usize)
        requires
            n < 10,
        ensures
            final(self).ai == old(self).ai,
            final(self).card_enabled@ == (if count_enabled(old(self).card_enabled@, 10) <= 1
                && old(self).card_enabled[n as int] {
                old(self).card_enabled@
            } else {
                old(self).card_enabled@.update(n as int, !old(self).card_enabled[n as int])
            }),
            old(self).wf() ==> final(self).wf(),
    {
        let enabled = self.enabled_levels();
        if enabled <= 1 && self.card_enabled[n] {
            return;
        }
        proof {
            lemma_enabled_update(self.card_enabled@, n as int, !self.card_enabled[n as int], 10);
        }
        self.card_enabled[n] = !self.card_enabled[n];
    }

    /// The number of enabled levels.
    fn enabled_levels(&self) -> (res: usize)
        ensures
            res == count_enabled(self.card_enabled@, 10),
    {
        let mut count: usize = 0;
        let mut i: usize = 0;
        while i < 10
            invariant
                i <= 10,
                count == count_enabled(self.card_enabled@, i as int),
                count <= i,
            decreases 10 - i,
        {
            if self.card_enabled[i] {
                count += 1;
            }
            i += 1;
        }
        count
    }

    /// How many placements the search looks ahead.
    pub fn difficulty(&self) -> (res: usize)
        ensures
            res == self.ai@.diffuculty,
    {
        self.ai.diffuculty
    }

    /// For each level, whether it is enabled.
    pub fn cards(&self) -> (res: [bool; 10])
        ensures
            res == self.card_enabled,
    {
        self.card_enabled
    }

    /// Sets how many placements the search looks ahead, at most five.
    pub fn set_difficulty(&mut self, value: usize)
        ensures
            final(self).card_enabled == old(self).card_enabled,
            final(self).ai@ == (ai::OpponentModel {
                diffuculty: if value <= 5 { value } else { 5 },
                ..old(self).ai@
            }),
            old(self).wf() && value >= 1 ==> final(self).wf(),
    {
        self.ai.diffuculty(value)
    }

    /// Back to the state of a new automated side.
    pub fn clear(&mut self)
        ensures
            final(self).card_enabled@ == Seq::new(10, |i: int| true),
            final(self).ai@ == ai::OpponentModel::fresh(),
            final(self).wf(),
    {
        self.ai = ai::Opponent::new();
        self.card_enabled = [true;10];
        assert(self.card_enabled@ =~= Seq::new(10, |i: int| true));
        proof {
            lemma_all_enabled(self.card_enabled@, 10);
        }
    }

    /// One tick of thinking about Red's move, `dt` microseconds after the
    /// last.
    pub fn think(
        &mut self,
        dt: u32,
        red_hand: &mut Hand,
        blue_hand: &mut Hand,
        field: &[Option<CardEntity>; 9],
        elem: &[Option<ElementEntity>; 9],
        rules: &Rules,
    ) -> (event: Option<AiEvent>)
        requires
            old(self).ai@.ready(old(red_hand)@, field@),
            old(red_hand).wf(),
            old(blue_hand).wf(),
            all_wf(field@),
        ensures
            ({
                let thought = old(self).ai@.think(
                    dt,
                    old(red_hand)@,
                    old(blue_hand)@,
                    field@,
                    elem@,
                    *rules,
                );
                &&& final(self).ai@ == thought.ai
                &&& final(red_hand)@ == thought.red_hand
                &&& event == thought.event
            }),
            final(self).card_enabled == old(self).card_enabled,
            final(blue_hand)@ == old(blue_hand)@,
            final(red_hand).wf(),
            match event {
                Some(AiEvent::Put(to)) => {
                    &&& final(self).ai@.idle()
                    &&& final(red_hand)@.selected is Some
                    &&& to < 9
                    &&& field[to as int] is None
                },
                _ => final(self).ai@.ready(final(red_hand)@, field@),
            },
            match final(self).ai.job {
                Some(job) => final(self).ai@.job != old(self).ai@.job ==> job.wf(),
                None => true,
            },
    {
        self.ai.think(dt, red_hand, blue_hand, field, elem, rules)
    }

    /// Draws the ids of a hand of five cards, each independently from the
    /// cards of the enabled levels.
    pub fn new_hand(&self) -> (ids: [usize; 5])
        requires
            self.wf(),
        ensures
            forall|k: int| 0 <= k < 5 ==> in_pool(self.card_enabled@, (#[trigger] ids[k]) as int),
    {
        let cards = self.pool();
        proof {
            lemma_pool_len(self.card_enabled@, 10);
            assert forall|id: usize| cards@.contains(id) implies in_pool(
                self.card_enabled@,
                id as int,
            ) by {
                lemma_pool_member(self.card_enabled@, 10, id);
            }
        }
        let mut ids: [usize; 5] = [0;5];
        let mut k: usize = 0;
        while k < 5
            invariant
                k <= 5,
                cards@.len() > 0,
                forall|id: usize| cards@.contains(id) ==> in_pool(self.card_enabled@, id as int),
                forall|j: int| 0 <= j < k ==> in_pool(self.card_enabled@, (#[trigger] ids[j]) as int),
            decreases 5 - k,
        {
            ids[k] = choose_id(&cards);
            k += 1;
        }
        ids
    }

    /// The ids of all cards of the enabled levels, in ascending order.
    pub fn pool(&self) -> (cards: Vec<usize>)
        ensures
            cards@ == pool_of(self.card_enabled@, 10),
    {
        let mut cards: Vec<usize> = Vec::with_capacity(110);
        let mut i: usize = 0;
        while i < 10
            invariant
                i <= 10,
                cards@ == pool_of(self.card_enabled@, i as int),
            decreases 10 - i,
        {
            if self.card_enabled[i] {
                let lower_bound = i * 11;
                let upper_bound = (i + 1) * 11;
                let ghost before = cards@;
                let mut j = lower_bound;
                while j < upper_bound
                    invariant
                        i < 10,
                        lower_bound == i * 11,
                        upper_bound == lower_bound + 11,
                        lower_bound <= j <= upper_bound,
                        cards@ == before + Seq::new(
                            (j - lower_bound) as nat,
                            |k: int| (11 * i + k) as usize,
                        ),
                    decreases upper_bound - j,
                {
                    cards.push(j);
                    assert(cards@ =~= before + Seq::new(
                        (j + 1 - lower_bound) as nat,
                        |k: int| (11 * i + k) as usize,
                    ));
                    j += 1;
                }
                assert(cards@ =~= pool_of(self.card_enabled@, i + 1));
            }
            i += 1;
        }
        cards
    }
}

/// A row of levels that are all enabled counts as many as it is long.
pub proof fn lemma_all_enabled(levels: Seq<bool>, upto: int)
    requires
        0 <= upto <= levels.len(),
        forall|i: int| 0 <= i < levels.len() ==> levels[i],
    ensures
        count_enabled(levels, upto) == upto,
    decreases upto,
{
    if upto > 0 {
        lemma_all_enabled(levels, upto - 1);
    }
}

/// Switching one level changes the count by one.
pub proof fn lemma_enabled_update(levels: Seq<bool>, n: int, value: bool, upto: int)
    requires
        0 <= n < levels.len(),
        0 <= upto <= levels.len(),
    ensures
        count_enabled(levels.update(n, value), upto) == count_enabled(levels, upto) + (if n < upto {
            (if value { 1int } else { 0 }) - (if levels[n] { 1int } else { 0 })
        } else {
            0
        }),
        count_enabled(levels, upto) >= 0,
    decreases upto,
{
    if upto > 0 {
        lemma_enabled_update(levels, n, value, upto - 1);
    }
}

} // verus!
