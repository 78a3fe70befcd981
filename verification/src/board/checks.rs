//! The capture checks of the live round. A captured card does not change
//! sides at once: it begins to turn over, and changes sides when the flip
//! has run through its stages.

use vstd::prelude::*;
use crate::board::model::{Board, CardFlipped, GameModel};
use crate::capture::{captures, Combo};
use crate::cards::Rules;
use crate::entity::{all_wf, simples, CardEntity, FlipDirection};
use crate::ranks::{border_mask, neighbor};
use crate::snapshot::{
    capture_at, lemma_capture_target, neighbor_rank, neighbor_ranks, nothing_around, nothing_at,
};

verus! {

/// The axis about which a card captured in direction `dir` turns over: the
/// vertical axis for a neighbour to the right or to the left, the
/// horizontal axis for one above or below.
pub open spec fn axis(dir: int) -> FlipDirection {
    if dir % 2 != 0 {
        FlipDirection::Vertical
    } else {
        FlipDirection::Horizontal
    }
}

/// The rule by which the card on cell `n` captures its neighbour in
/// direction `dir`, if it does. A card that was itself captured by Same or
/// Plus captures by the Normal rule alone.
pub open spec fn live_capture(
    cards: Seq<Option<CardEntity>>,
    rules: Rules,
    n: int,
    dir: int,
) -> Option<Combo> {
    capture_at(simples(cards), rules, n, !cards[n].unwrap().flip_animation.combo, dir)
}

/// What the check of the card on cell `n` reports for each direction.
pub open spec fn flips_of(cards: Seq<Option<CardEntity>>, rules: Rules, n: int) -> Seq<
    Option<CardFlipped>,
> {
    Seq::new(
        4,
        |dir: int|
            match live_capture(cards, rules, n, dir) {
                Some(kind) => Some(
                    CardFlipped { cell_id: neighbor(n, dir).unwrap() as usize, combo: kind },
                ),
                None => None,
            },
    )
}

/// The cards with the flip of the card on cell `k` begun.
pub open spec fn begin_flip(
    cards: Seq<Option<CardEntity>>,
    k: int,
    direction: FlipDirection,
    combo: bool,
) -> Seq<Option<CardEntity>> {
    match cards[k] {
        Some(card) => cards.update(k, Some(card.captured(direction, combo))),
        None => cards,
    }
}

/// The cards after the captures in directions `dir` to 3 of the check of
/// cell `n` have begun on `cards`, where `start` holds the cards as they
/// were when the check began.
pub open spec fn captured_from(
    start: Seq<Option<CardEntity>>,
    cards: Seq<Option<CardEntity>>,
    rules: Rules,
    n: int,
    dir: int,
) -> Seq<Option<CardEntity>>
    decreases 4 - dir,
{
    if dir < 0 || dir >= 4 {
        cards
    } else {
        captured_from(
            start,
            match live_capture(start, rules, n, dir) {
                Some(kind) => begin_flip(
                    cards,
                    neighbor(n, dir).unwrap(),
                    axis(dir),
                    kind != Combo::NoCombo,
                ),
                None => cards,
            },
            rules,
            n,
            dir + 1,
        )
    }
}

/// The cards after the check of the card on cell `n`: every captured
/// neighbour has begun to turn over, and the card itself is checked.
pub open spec fn after_check(cards: Seq<Option<CardEntity>>, rules: Rules, n: int) -> Seq<
    Option<CardEntity>,
> {
    let turned = captured_from(cards, cards, rules, n, 0);
    turned.update(n, Some(turned[n].unwrap().checked()))
}

/// The cells among the first `upto` whose card awaits its check, in
/// ascending order.
pub open spec fn unchecked_cells(cards: Seq<Option<CardEntity>>, upto: int) -> Seq<usize>
    decreases upto,
{
    if upto <= 0 {
        Seq::empty()
    } else if cards[upto - 1] is Some && cards[upto - 1].unwrap().unchecked() {
        unchecked_cells(cards, upto - 1).push((upto - 1) as usize)
    } else {
        unchecked_cells(cards, upto - 1)
    }
}

/// The cards after the first `upto` cells of `due` have been checked in
/// turn.
pub open spec fn checked_through(
    cards: Seq<Option<CardEntity>>,
    rules: Rules,
    due: Seq<usize>,
    upto: int,
) -> Seq<Option<CardEntity>>
    decreases upto,
{
    if upto <= 0 {
        cards
    } else {
        after_check(checked_through(cards, rules, due, upto - 1), rules, due[upto - 1] as int)
    }
}

/// The captures among the first `upto` directions of a report, in order.
pub open spec fn present(flips: Seq<Option<CardFlipped>>, upto: int) -> Seq<CardFlipped>
    decreases upto,
{
    if upto <= 0 {
        Seq::empty()
    } else {
        match flips[upto - 1] {
            Some(flip) => present(flips, upto - 1).push(flip),
            None => present(flips, upto - 1),
        }
    }
}

/// The captures that the checks of the first `upto` cells of `due` report,
/// in the order of the checks.
pub open spec fn flips_through(
    cards: Seq<Option<CardEntity>>,
    rules: Rules,
    due: Seq<usize>,
    upto: int,
) -> Seq<CardFlipped>
    decreases upto,
{
    if upto <= 0 {
        Seq::empty()
    } else {
        flips_through(cards, rules, due, upto - 1) + present(
            flips_of(checked_through(cards, rules, due, upto - 1), rules, due[upto - 1] as int),
            4,
        )
    }
}

/// The first `upto` captures without those that name the same cell as the
/// capture kept before them.
pub open spec fn deduped(flips: Seq<CardFlipped>, upto: int) -> Seq<CardFlipped>
    decreases upto,
{
    if upto <= 0 {
        Seq::empty()
    } else {
        let before = deduped(flips, upto - 1);
        if before.len() > 0 && before.last().cell_id == flips[upto - 1].cell_id {
            before
        } else {
            before.push(flips[upto - 1])
        }
    }
}

/// Two grids hold the same cards on the same cells, but for the state of
/// their flips.
pub open spec fn same_cards(a: Seq<Option<CardEntity>>, b: Seq<Option<CardEntity>>) -> bool {
    a.len() == b.len() && forall|j: int|
        0 <= j < a.len() ==> match (#[trigger] a[j], b[j]) {
            (Some(x), Some(y)) => x == (CardEntity { flip_animation: x.flip_animation, ..y }),
            (None, None) => true,
            _ => false,
        }
}

/// A captured neighbour is a card on another cell of the board.
pub proof fn lemma_live_target(cards: Seq<Option<CardEntity>>, rules: Rules, n: int, dir: int)
    requires
        cards.len() == 9,
        0 <= n < 9,
        0 <= dir < 4,
        cards[n] is Some,
        live_capture(cards, rules, n, dir) is Some,
    ensures
        neighbor(n, dir) is Some,
        0 <= neighbor(n, dir).unwrap() < 9,
        neighbor(n, dir).unwrap() != n,
        cards[neighbor(n, dir).unwrap()] is Some,
        live_capture(cards, rules, n, dir) != Some(Combo::Combo),
{
    lemma_capture_target(simples(cards), rules, n, !cards[n].unwrap().flip_animation.combo, dir);
}

/// A check moves no card and changes nothing of a card but its flip; the
/// cards stay well formed.
pub proof fn lemma_captured_from_same(
    start: Seq<Option<CardEntity>>,
    cards: Seq<Option<CardEntity>>,
    rules: Rules,
    n: int,
    dir: int,
)
    requires
        start.len() == 9,
        0 <= n < 9,
        start[n] is Some,
        same_cards(cards, start),
        all_wf(cards),
    ensures
        same_cards(captured_from(start, cards, rules, n, dir), start),
        all_wf(captured_from(start, cards, rules, n, dir)),
    decreases 4 - dir,
{
    if 0 <= dir < 4 {
        let next = match live_capture(start, rules, n, dir) {
            Some(kind) => begin_flip(
                cards,
                neighbor(n, dir).unwrap(),
                axis(dir),
                kind != Combo::NoCombo,
            ),
            None => cards,
        };
        if live_capture(start, rules, n, dir) is Some {
            lemma_live_target(start, rules, n, dir);
            let k = neighbor(n, dir).unwrap();
            assert(cards[k] is Some);
            assert(cards[k].unwrap().wf());
        }
        assert(same_cards(next, start));
        assert(all_wf(next));
        lemma_captured_from_same(start, next, rules, n, dir + 1);
    }
}

/// `lemma_captured_from_same` for a whole check.
pub proof fn lemma_after_check_same(cards: Seq<Option<CardEntity>>, rules: Rules, n: int)
    requires
        cards.len() == 9,
        0 <= n < 9,
        cards[n] is Some,
        all_wf(cards),
    ensures
        same_cards(after_check(cards, rules, n), cards),
        all_wf(after_check(cards, rules, n)),
{
    lemma_captured_from_same(cards, cards, rules, n, 0);
    let turned = captured_from(cards, cards, rules, n, 0);
    assert(turned[n] is Some);
    assert(turned[n].unwrap().wf());
}

/// Every cell that awaits its check is a cell of the board with a card.
pub proof fn lemma_unchecked_cells(cards: Seq<Option<CardEntity>>, upto: int)
    requires
        0 <= upto <= cards.len(),
        cards.len() == 9,
    ensures
        unchecked_cells(cards, upto).len() <= upto,
        forall|k: int|
            0 <= k < unchecked_cells(cards, upto).len() ==> (#[trigger] unchecked_cells(
                cards,
                upto,
            )[k]) < upto && cards[unchecked_cells(cards, upto)[k] as int] is Some,
        unchecked_cells(cards, upto).len() == 0 <==> (forall|j: int|
            0 <= j < upto ==> !((#[trigger] cards[j]) is Some && cards[j].unwrap().unchecked())),
    decreases upto,
{
    if upto > 0 {
        lemma_unchecked_cells(cards, upto - 1);
        let before = unchecked_cells(cards, upto - 1);
        let all = unchecked_cells(cards, upto);
        assert forall|k: int| 0 <= k < all.len() implies (#[trigger] all[k]) < upto && cards[all[k] as int] is Some by {
            if cards[upto - 1] is Some && cards[upto - 1].unwrap().unchecked() {
                assert(all == before.push((upto - 1) as usize));
                if k < before.len() {
                    assert(all[k] == before[k]);
                    assert(before[k] < upto - 1 && cards[before[k] as int] is Some);
                } else {
                    assert(all[k] == (upto - 1) as usize);
                }
            } else {
                assert(all == before);
                assert(before[k] < upto - 1 && cards[before[k] as int] is Some);
            }
        }
        if all.len() == 0 {
            assert(before.len() == 0);
        }
    }
}

/// `lemma_after_check_same` for a row of checks.
pub proof fn lemma_checked_through_same(
    cards: Seq<Option<CardEntity>>,
    rules: Rules,
    due: Seq<usize>,
    upto: int,
)
    requires
        cards.len() == 9,
        all_wf(cards),
        0 <= upto <= due.len(),
        forall|k: int| 0 <= k < due.len() ==> (#[trigger] due[k]) < 9 && cards[due[k] as int] is Some,
    ensures
        same_cards(checked_through(cards, rules, due, upto), cards),
        all_wf(checked_through(cards, rules, due, upto)),
    decreases upto,
{
    if upto > 0 {
        lemma_checked_through_same(cards, rules, due, upto - 1);
        let before = checked_through(cards, rules, due, upto - 1);
        assert(due[upto - 1] < 9 && cards[due[upto - 1] as int] is Some);
        assert(before[due[upto - 1] as int] is Some);
        lemma_after_check_same(before, rules, due[upto - 1] as int);
    }
}

/// While the captures of a check begin, no card comes to await its check
/// that did not before.
pub proof fn lemma_captured_from_status(
    start: Seq<Option<CardEntity>>,
    cards: Seq<Option<CardEntity>>,
    rules: Rules,
    n: int,
    dir: int,
    j: int,
)
    requires
        start.len() == 9,
        cards.len() == 9,
        0 <= n < 9,
        0 <= j < 9,
        start[n] is Some,
        captured_from(start, cards, rules, n, dir)[j] is Some,
        captured_from(start, cards, rules, n, dir)[j].unwrap().unchecked(),
    ensures
        cards[j] is Some,
        cards[j].unwrap().unchecked(),
    decreases 4 - dir,
{
    if 0 <= dir < 4 {
        let next = match live_capture(start, rules, n, dir) {
            Some(kind) => begin_flip(
                cards,
                neighbor(n, dir).unwrap(),
                axis(dir),
                kind != Combo::NoCombo,
            ),
            None => cards,
        };
        if live_capture(start, rules, n, dir) is Some {
            lemma_live_target(start, rules, n, dir);
        }
        lemma_captured_from_status(start, next, rules, n, dir + 1, j);
    }
}

/// After the check of a cell, a card awaits its check only if it did
/// before and is not the card checked.
pub proof fn lemma_after_check_status(cards: Seq<Option<CardEntity>>, rules: Rules, n: int, j: int)
    requires
        cards.len() == 9,
        0 <= n < 9,
        0 <= j < 9,
        cards[n] is Some,
        all_wf(cards),
        after_check(cards, rules, n)[j] is Some,
        after_check(cards, rules, n)[j].unwrap().unchecked(),
    ensures
        j != n,
        cards[j] is Some,
        cards[j].unwrap().unchecked(),
{
    lemma_captured_from_same(cards, cards, rules, n, 0);
    let turned = captured_from(cards, cards, rules, n, 0);
    assert(turned[n] is Some);
    if j != n {
        assert(after_check(cards, rules, n)[j] == turned[j]);
        lemma_captured_from_status(cards, cards, rules, n, 0, j);
    }
}

/// A cell whose card awaits its check is among the cells to check.
pub proof fn lemma_unchecked_is_listed(cards: Seq<Option<CardEntity>>, upto: int, j: int)
    requires
        cards.len() == 9,
        0 <= j < upto <= 9,
        cards[j] is Some,
        cards[j].unwrap().unchecked(),
    ensures
        exists|k: int|
            0 <= k < unchecked_cells(cards, upto).len() && #[trigger] unchecked_cells(cards, upto)[k]
                == j,
    decreases upto,
{
    let all = unchecked_cells(cards, upto);
    if j == upto - 1 {
        assert(all[all.len() - 1] == j);
    } else {
        lemma_unchecked_is_listed(cards, upto - 1, j);
        let before = unchecked_cells(cards, upto - 1);
        let k = choose|k: int| 0 <= k < before.len() && #[trigger] before[k] == j;
        assert(all[k] == j);
    }
}

/// After the first `upto` cells of `due` have been checked, a card awaits
/// its check only if it did before and its cell is not among those cells.
pub proof fn lemma_checked_through_status(
    cards: Seq<Option<CardEntity>>,
    rules: Rules,
    due: Seq<usize>,
    upto: int,
    j: int,
)
    requires
        cards.len() == 9,
        all_wf(cards),
        0 <= upto <= due.len(),
        0 <= j < 9,
        forall|k: int| 0 <= k < due.len() ==> (#[trigger] due[k]) < 9 && cards[due[k] as int] is Some,
        checked_through(cards, rules, due, upto)[j] is Some,
        checked_through(cards, rules, due, upto)[j].unwrap().unchecked(),
    ensures
        cards[j] is Some,
        cards[j].unwrap().unchecked(),
        forall|k: int| 0 <= k < upto ==> (#[trigger] due[k]) != j,
    decreases upto,
{
    if upto > 0 {
        let before = checked_through(cards, rules, due, upto - 1);
        lemma_checked_through_same(cards, rules, due, upto - 1);
        assert(due[upto - 1] < 9 && cards[due[upto - 1] as int] is Some);
        assert(before[due[upto - 1] as int] is Some);
        lemma_after_check_status(before, rules, due[upto - 1] as int, j);
        lemma_checked_through_status(cards, rules, due, upto - 1, j);
    }
}

/// A round of checks leaves no card that awaits its check: asking again
/// for the cells to check gives none, and a second round of checks finds
/// nothing to do.
pub proof fn lemma_checks_leave_nothing(cards: Seq<Option<CardEntity>>, rules: Rules)
    requires
        cards.len() == 9,
        all_wf(cards),
    ensures
        unchecked_cells(
            checked_through(
                cards,
                rules,
                unchecked_cells(cards, 9),
                unchecked_cells(cards, 9).len() as int,
            ),
            9,
        ).len() == 0,
{
    let due = unchecked_cells(cards, 9);
    let after = checked_through(cards, rules, due, due.len() as int);
    lemma_unchecked_cells(cards, 9);
    lemma_checked_through_same(cards, rules, due, due.len() as int);
    assert forall|j: int| 0 <= j < 9 implies !((#[trigger] after[j]) is Some
        && after[j].unwrap().unchecked()) by {
        if after[j] is Some && after[j].unwrap().unchecked() {
            lemma_checked_through_status(cards, rules, due, due.len() as int, j);
            lemma_unchecked_is_listed(cards, 9, j);
            let k = choose|k: int| 0 <= k < due.len() && #[trigger] due[k] == j;
            assert(due[k] != j);
        }
    }
    lemma_unchecked_cells(after, 9);
}

impl Board {
    /// For each direction, whether no card lies next to cell `n` there.
    fn gaps_around(&self, n: usize) -> (res: [bool; 4])
        requires
            n < 9,
        ensures
            res@ == nothing_around(simples(self@.cards), n as int),
    {
        let mask = border_mask(n);
        let mut res = [true;4];
        let mut i: usize = 0;
        while i < 4
            invariant
                i <= 4,
                n < 9,
                forall|dir: int|
                    0 <= dir < 4 ==> (#[trigger] mask[dir]) == (match neighbor(n as int, dir) {
                        Some(k) => Some(k as usize),
                        None => None,
                    }),
                forall|dir: int|
                    0 <= dir < i ==> (#[trigger] res[dir]) == nothing_at(
                        simples(self@.cards),
                        n as int,
                        dir,
                    ),
            decreases 4 - i,
        {
            let gap = match mask[i] {
                Some(k) => {
                    assert(neighbor(n as int, i as int) == Some(k as int));
                    assert(k < 9);
                    self.playing_field.cards[k].is_none()
                },
                None => true,
            };
            res[i] = gap;
            i += 1;
        }
        assert(res@ =~= nothing_around(simples(self@.cards), n as int));
        res
    }

    /// The facing ranks of the neighbours of the card on cell `n`.
    fn ranks_around(&self, n: usize, elemental: bool) -> (res: [Option<u8>; 4])
        requires
            n < 9,
            self@.cards[n as int] is Some,
            all_wf(self@.cards),
        ensures
            res@ == neighbor_ranks(simples(self@.cards), n as int, elemental),
    {
        let mask = border_mask(n);
        let suit = self.playing_field.cards[n].unwrap().controller;
        let mut res: [Option<u8>; 4] = [None;4];
        let mut i: usize = 0;
        while i < 4
            invariant
                i <= 4,
                n < 9,
                self@.cards[n as int] is Some,
                all_wf(self@.cards),
                suit == self@.cards[n as int].unwrap().controller,
                forall|dir: int|
                    0 <= dir < 4 ==> (#[trigger] mask[dir]) == (match neighbor(n as int, dir) {
                        Some(k) => Some(k as usize),
                        None => None,
                    }),
                forall|dir: int|
                    0 <= dir < i ==> (#[trigger] res[dir]) == neighbor_rank(
                        simples(self@.cards),
                        n as int,
                        dir,
                        elemental,
                    ),
            decreases 4 - i,
        {
            let seen = match mask[i] {
                Some(k) => {
                    assert(neighbor(n as int, i as int) == Some(k as int));
                    assert(k < 9);
                    match self.playing_field.cards[k] {
                        Some(card) => {
                            assert(card.wf());
                            if card.controller == suit {
                                None
                            } else if elemental {
                                Some(card.rank_elemental().facing_edge(i))
                            } else {
                                Some(card.rank.facing_edge(i))
                            }
                        },
                        None => None,
                    }
                },
                None => None,
            };
            res[i] = seen;
            i += 1;
        }
        assert(res@ =~= neighbor_ranks(simples(self@.cards), n as int, elemental));
        res
    }

    /// The cells whose card awaits its check, in ascending order.
    pub fn cards_to_check(&self) -> (cells: Vec<usize>)
        ensures
            cells@ == unchecked_cells(self@.cards, 9),
    {
        let mut cells: Vec<usize> = Vec::new();
        let mut i: usize = 0;
        while i < 9
            invariant
                i <= 9,
                cells@ == unchecked_cells(self@.cards, i as int),
            decreases 9 - i,
        {
            if let Some(card) = self.playing_field.cards[i] {
                if card.is_unchecked() {
                    cells.push(i);
                }
            }
            i += 1;
        }
        cells
    }

    /// Checks the captures of the card on cell `cell_id`: every neighbour
    /// that it captures begins to turn over, and the card is marked as
    /// checked. Returns the capture in each direction.
    pub fn check_card(&mut self, cell_id: usize) -> (flips: [Option<CardFlipped>; 4])
        requires
            cell_id < 9,
            old(self)@.cards[cell_id as int] is Some,
            all_wf(old(self)@.cards),
        ensures
            flips@ == flips_of(old(self)@.cards, old(self)@.rules, cell_id as int),
            final(self)@ == (GameModel {
                cards: after_check(old(self)@.cards, old(self)@.rules, cell_id as int),
                ..old(self)@
            }),
    {
        let mut cards_flipped: [Option<CardFlipped>; 4] = [None;4];
        let card = self.playing_field.cards[cell_id].unwrap();
        assert(card.wf());
        let mask = border_mask(cell_id);
        let other = self.ranks_around(cell_id, false);
        let other_elem = self.ranks_around(cell_id, true);
        let gaps = self.gaps_around(cell_id);
        let kinds = captures(
            card.rank_slice(),
            card.rank_slice_elemental(),
            other,
            other_elem,
            gaps,
            &self.rules,
            card.combo_eligible(),
        );
        let ghost start = self@;
        let mut i: usize = 0;
        while i < 4
            invariant
                i <= 4,
                cell_id < 9,
                start.cards.len() == 9,
                start.cards[cell_id as int] is Some,
                all_wf(start.cards),
                self@ == (GameModel { cards: self@.cards, ..start }),
                same_cards(self@.cards, start.cards),
                all_wf(self@.cards),
                forall|dir: int|
                    0 <= dir < 4 ==> (#[trigger] mask[dir]) == (match neighbor(cell_id as int, dir) {
                        Some(k) => Some(k as usize),
                        None => None,
                    }),
                forall|dir: int|
                    0 <= dir < 4 ==> (#[trigger] kinds[dir]) == live_capture(
                        start.cards,
                        start.rules,
                        cell_id as int,
                        dir,
                    ),
                forall|dir: int|
                    0 <= dir < 4 ==> (#[trigger] cards_flipped[dir]) == (if dir < i {
                        flips_of(start.cards, start.rules, cell_id as int)[dir]
                    } else {
                        None
                    }),
                captured_from(start.cards, self@.cards, start.rules, cell_id as int, i as int)
                    == captured_from(start.cards, start.cards, start.rules, cell_id as int, 0),
            decreases 4 - i,
        {
            let ghost prev = self@.cards;
            match kinds[i] {
                Some(kind) => {
                    proof {
                        lemma_live_target(start.cards, start.rules, cell_id as int, i as int);
                    }
                    let k = mask[i].unwrap();
                    let combo = match kind {
                        Combo::Same | Combo::Plus => true,
                        _ => false,
                    };
                    let mut target = self.playing_field.cards[k].unwrap();
                    assert(target.wf());
                    if i % 2 != 0 {
                        target.flip_vertical(combo);
                    } else {
                        target.flip_horizontal(combo);
                    }
                    self.playing_field.cards[k] = Some(target);
                    cards_flipped[i] = Some(CardFlipped { cell_id: k, combo: kind });
                    assert(self@.cards =~= begin_flip(
                        prev,
                        k as int,
                        axis(i as int),
                        kind != Combo::NoCombo,
                    ));
                },
                None => {},
            }
            i += 1;
        }
        assert(cards_flipped@ =~= flips_of(start.cards, start.rules, cell_id as int));
        let mut checked = self.playing_field.cards[cell_id].unwrap();
        checked.mark_checked();
        self.playing_field.cards[cell_id] = Some(checked);
        cards_flipped
    }

    /// Checks every card that awaits its check, in ascending order of the
    /// cells. Returns the captures in the order in which they were found,
    /// without those that name the same cell as the one before.
    pub fn check_cards(&mut self) -> (flips: Vec<CardFlipped>)
        requires
            old(self)@.cards.len() == 9,
            all_wf(old(self)@.cards),
        ensures
            ({
                let due = unchecked_cells(old(self)@.cards, 9);
                let found = flips_through(
                    old(self)@.cards,
                    old(self)@.rules,
                    due,
                    due.len() as int,
                );
                &&& flips@ == deduped(found, found.len() as int)
                &&& final(self)@ == (GameModel {
                    cards: checked_through(
                        old(self)@.cards,
                        old(self)@.rules,
                        due,
                        due.len() as int,
                    ),
                    ..old(self)@
                })
            }),
    {
        let due = self.cards_to_check();
        proof {
            lemma_unchecked_cells(self@.cards, 9);
        }
        let ghost start = self@;
        let mut found: Vec<CardFlipped> = Vec::new();
        let mut k: usize = 0;
        while k < due.len()
            invariant
                k <= due@.len(),
                start.cards.len() == 9,
                all_wf(start.cards),
                forall|j: int|
                    0 <= j < due@.len() ==> (#[trigger] due@[j]) < 9 && start.cards[due@[j] as int] is Some,
                self@ == (GameModel {
                    cards: checked_through(start.cards, start.rules, due@, k as int),
                    ..start
                }),
                found@ == flips_through(start.cards, start.rules, due@, k as int),
            decreases due@.len() - k,
        {
            proof {
                lemma_checked_through_same(start.cards, start.rules, due@, k as int);
                assert(due@[k as int] < 9 && start.cards[due@[k as int] as int] is Some);
            }
            let ghost before = found@;
            let report = self.check_card(due[k]);
            let mut i: usize = 0;
            while i < 4
                invariant
                    i <= 4,
                    found@ == before + present(report@, i as int),
                decreases 4 - i,
            {
                if let Some(flip) = report[i] {
                    found.push(flip);
                }
                assert(found@ =~= before + present(report@, i as int + 1));
                i += 1;
            }
            k += 1;
        }
        let mut flips: Vec<CardFlipped> = Vec::new();
        let mut j: usize = 0;
        while j < found.len()
            invariant
                j <= found@.len(),
                flips@ == deduped(found@, j as int),
            decreases found@.len() - j,
        {
            let flip = found[j];
            let repeated = flips.len() > 0 && flips[flips.len() - 1].cell_id == flip.cell_id;
            if !repeated {
                flips.push(flip);
            }
            j += 1;
        }
        flips
    }
}

} // verus!
