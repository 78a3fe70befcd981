//! A plain-value snapshot of a round: both hands, the nine cells and the
//! rules. The search works on copies of it and never touches the live game.

use vstd::prelude::*;
use crate::capture::{capture_kind, captures, Combo};
use crate::cards::{Element, Rank, Rules, Suit};
use crate::entity::{all_wf, simples, tile_elements, CardEntity, ElementEntity};
use crate::hand::Hand;
use crate::ranks::{border_mask, neighbor};

verus! {

/// A card reduced to what capture resolution reads.
#[derive(Clone, Copy, Debug, PartialEq, Eq, Structural)]
pub struct CardSimple {
    /// The base ranks.
    pub rank: Rank,
    /// The ranks after the elemental modifier.
    pub rank_elem: Rank,
    /// The side that controls the card.
    pub suit: Suit,
    pub element: Option<Element>,
}

impl CardSimple {
    /// The card with every modified rank raised by one.
    pub open spec fn with_bonus(self) -> CardSimple {
        CardSimple { rank_elem: self.rank_elem.raised(), ..self }
    }

    /// The card with every modified rank lowered by one, not below zero.
    pub open spec fn with_malus(self) -> CardSimple {
        CardSimple { rank_elem: self.rank_elem.lowered(), ..self }
    }

    /// The card under the control of the other side.
    pub open spec fn turned(self) -> CardSimple {
        CardSimple { suit: self.suit.other(), ..self }
    }

    /// The card as it lies on a cell with the given tile: unchanged without
    /// a tile, with a bonus where the tile has the card's element, with a
    /// malus on any other tile.
    pub open spec fn placed_on(self, tile: Option<Element>) -> CardSimple {
        if tile is None {
            self
        } else if self.element == tile {
            self.with_bonus()
        } else {
            self.with_malus()
        }
    }

    /// The live card as capture resolution sees it: its base ranks, its
    /// ranks under its elemental modifier, its controller and its element.
    pub fn from(value: &CardEntity) -> (res: CardSimple)
        requires
            value.rank.can_rise(),
        ensures
            res == value.simple(),
    {
        CardSimple {
            rank: value.rank,
            rank_elem: value.rank_elemental(),
            suit: value.controller,
            element: value.element(),
        }
    }

    /// Raises every modified rank by one.
    pub fn add_bonus(&mut self)
        requires
            old(self).rank_elem.can_rise(),
        ensures
            *final(self) == old(self).with_bonus(),
    {
        self.rank_elem.t += 1;
        self.rank_elem.b += 1;
        self.rank_elem.l += 1;
        self.rank_elem.r += 1;
    }

    /// Lowers every modified rank by one, not below zero.
    pub fn add_malus(&mut self)
        ensures
            *final(self) == old(self).with_malus(),
    {
        self.rank_elem.t = if self.rank_elem.t > 0 { self.rank_elem.t - 1 } else { 0 };
        self.rank_elem.b = if self.rank_elem.b > 0 { self.rank_elem.b - 1 } else { 0 };
        self.rank_elem.l = if self.rank_elem.l > 0 { self.rank_elem.l - 1 } else { 0 };
        self.rank_elem.r = if self.rank_elem.r > 0 { self.rank_elem.r - 1 } else { 0 };
    }

    /// Hands the card to the other side.
    pub fn flip_suit(&mut self)
        ensures
            *final(self) == old(self).turned(),
    {
        match self.suit {
            Suit::Red => self.suit = Suit::Blue,
            Suit::Blue => self.suit = Suit::Red,
        }
    }
}

/// One cell of the board: the card on it and the elemental tile under it.
#[derive(Clone, Copy, Debug, PartialEq, Eq, Structural)]
pub struct Cell {
    pub card: Option<CardSimple>,
    pub element: Option<Element>,
}

/// The snapshot itself.
#[derive(Clone, Copy, Debug)]
pub struct BoardSimple {
    pub red_hand: [Option<CardSimple>; 5],
    pub blue_hand: [Option<CardSimple>; 5],
    pub board: [Cell; 9],
    pub rules: Rules,
}

/// The mathematical content of a snapshot.
pub struct BoardModel {
    pub red_hand: Seq<Option<CardSimple>>,
    pub blue_hand: Seq<Option<CardSimple>>,
    /// The card on each of the nine cells.
    pub cards: Seq<Option<CardSimple>>,
    /// The elemental tile under each of the nine cells.
    pub tiles: Seq<Option<Element>>,
    pub rules: Rules,
}

impl View for BoardSimple {
    type V = BoardModel;

    open spec fn view(&self) -> BoardModel {
        BoardModel {
            red_hand: self.red_hand@,
            blue_hand: self.blue_hand@,
            cards: Seq::new(9, |i: int| self.board[i].card),
            tiles: Seq::new(9, |i: int| self.board[i].element),
            rules: self.rules,
        }
    }
}

/// What the card on cell `n` sees in direction `dir`: the facing rank of the
/// neighbour there, if that cell exists, holds a card, and the card belongs
/// to the other side. With `elemental` the modified rank is read, else the
/// base rank.
pub open spec fn neighbor_rank(
    cards: Seq<Option<CardSimple>>,
    n: int,
    dir: int,
    elemental: bool,
) -> Option<u8> {
    match neighbor(n, dir) {
        Some(k) => match cards[k] {
            Some(card) => if card.suit == cards[n].unwrap().suit {
                None
            } else if elemental {
                Some(card.rank_elem.facing(dir))
            } else {
                Some(card.rank.facing(dir))
            },
            None => None,
        },
        None => None,
    }
}

/// `neighbor_rank` for the four directions.
pub open spec fn neighbor_ranks(cards: Seq<Option<CardSimple>>, n: int, elemental: bool) -> Seq<
    Option<u8>,
> {
    Seq::new(4, |dir: int| neighbor_rank(cards, n, dir, elemental))
}

/// Whether no card lies next to cell `n` in direction `dir`: the board ends
/// there, or the cell there is empty.
pub open spec fn nothing_at(cards: Seq<Option<CardSimple>>, n: int, dir: int) -> bool {
    match neighbor(n, dir) {
        Some(k) => cards[k] is None,
        None => true,
    }
}

/// `nothing_at` for the four directions.
pub open spec fn nothing_around(cards: Seq<Option<CardSimple>>, n: int) -> Seq<bool> {
    Seq::new(4, |dir: int| nothing_at(cards, n, dir))
}

/// The rule by which the card on cell `n` captures its neighbour in
/// direction `dir`, if it does. Under the wall variant of Same the edge of
/// the board and an empty cell count as neighbours of rank 10; a neighbour
/// of the same side counts for nothing.
pub open spec fn capture_at(
    cards: Seq<Option<CardSimple>>,
    rules: Rules,
    n: int,
    combo: bool,
    dir: int,
) -> Option<Combo> {
    let this = cards[n].unwrap();
    capture_kind(
        this.rank.edges(),
        this.rank_elem.edges(),
        neighbor_ranks(cards, n, false),
        neighbor_ranks(cards, n, true),
        nothing_around(cards, n),
        rules,
        combo,
        dir,
    )
}

/// The grid with the card on cell `k`, if any, handed to the other side.
pub open spec fn flipped(cards: Seq<Option<CardSimple>>, k: int) -> Seq<Option<CardSimple>> {
    match cards[k] {
        Some(card) => cards.update(k, Some(card.turned())),
        None => cards,
    }
}

/// The grid after the capture check of the card on cell `n`.
///
/// What is captured in each direction is decided on the grid as it is when
/// the check begins. The directions are then taken in the order top, right,
/// bottom, left. A neighbour captured by Same or Plus changes sides and is
/// at once checked itself, with combination rules switched off; a neighbour
/// captured by the Normal rule changes sides and nothing more.
pub open spec fn resolved(
    cards: Seq<Option<CardSimple>>,
    rules: Rules,
    n: int,
    combo: bool,
) -> Seq<Option<CardSimple>>
    decreases (if combo { 1int } else { 0int }), 5int,
{
    resolved_from(cards, cards, rules, n, combo, 0)
}

/// The grid after directions `dir` to 3 of the check of cell `n` have been
/// carried out on `cards`, where `start` is the grid on which the check
/// began.
pub open spec fn resolved_from(
    start: Seq<Option<CardSimple>>,
    cards: Seq<Option<CardSimple>>,
    rules: Rules,
    n: int,
    combo: bool,
    dir: int,
) -> Seq<Option<CardSimple>>
    decreases (if combo { 1int } else { 0int }), 4 - dir,
{
    if dir < 0 || dir >= 4 {
        cards
    } else {
        resolved_from(start, after_direction(start, cards, rules, n, combo, dir), rules, n, combo, dir + 1)
    }
}

/// The grid after direction `dir` alone of the check of cell `n` has been
/// carried out on `cards`.
pub open spec fn after_direction(
    start: Seq<Option<CardSimple>>,
    cards: Seq<Option<CardSimple>>,
    rules: Rules,
    n: int,
    combo: bool,
    dir: int,
) -> Seq<Option<CardSimple>>
    decreases (if combo { 1int } else { 0int }), 0int,
{
    match capture_at(start, rules, n, combo, dir) {
        Some(kind) => {
            let k = neighbor(n, dir).unwrap();
            if combo && kind != Combo::NoCombo {
                resolved(flipped(cards, k), rules, k, false)
            } else {
                flipped(cards, k)
            }
        },
        None => cards,
    }
}

/// Whether the check of cell `n` captures the card on cell `j`: `j` is the
/// neighbour of `n` in some direction, and the card of `n` captures in that
/// direction.
pub open spec fn captures_cell(
    cards: Seq<Option<CardSimple>>,
    rules: Rules,
    n: int,
    combo: bool,
    j: int,
) -> bool {
    ||| neighbor(n, 0) == Some(j) && capture_at(cards, rules, n, combo, 0) is Some
    ||| neighbor(n, 1) == Some(j) && capture_at(cards, rules, n, combo, 1) is Some
    ||| neighbor(n, 2) == Some(j) && capture_at(cards, rules, n, combo, 2) is Some
    ||| neighbor(n, 3) == Some(j) && capture_at(cards, rules, n, combo, 3) is Some
}

/// A neighbour captured by the Normal rule changes sides, and nothing else
/// follows from its capture.
pub proof fn lemma_normal_capture_stops(
    start: Seq<Option<CardSimple>>,
    cards: Seq<Option<CardSimple>>,
    rules: Rules,
    n: int,
    combo: bool,
    dir: int,
)
    requires
        capture_at(start, rules, n, combo, dir) == Some(Combo::NoCombo),
    ensures
        after_direction(start, cards, rules, n, combo, dir) == flipped(
            cards,
            neighbor(n, dir).unwrap(),
        ),
{
}

/// A neighbour captured by Same or Plus changes sides and is then checked
/// itself, with combination rules switched off for that check.
pub proof fn lemma_combo_capture_recurs(
    start: Seq<Option<CardSimple>>,
    cards: Seq<Option<CardSimple>>,
    rules: Rules,
    n: int,
    dir: int,
)
    requires
        capture_at(start, rules, n, true, dir) == Some(Combo::Same) || capture_at(
            start,
            rules,
            n,
            true,
            dir,
        ) == Some(Combo::Plus),
    ensures
        after_direction(start, cards, rules, n, true, dir) == resolved(
            flipped(cards, neighbor(n, dir).unwrap()),
            rules,
            neighbor(n, dir).unwrap(),
            false,
        ),
{
}

/// A check with combination rules switched off goes no further than the
/// neighbours of its cell: the cards that it captures change sides, and
/// every other card stays as it is. So the check that follows a Same or
/// Plus capture sets off no check of its own.
pub proof fn lemma_check_without_combo(cards: Seq<Option<CardSimple>>, rules: Rules, n: int)
    requires
        cards.len() == 9,
        0 <= n < 9,
        cards[n] is Some,
    ensures
        resolved(cards, rules, n, false).len() == 9,
        forall|j: int|
            0 <= j < 9 ==> #[trigger] resolved(cards, rules, n, false)[j] == (if captures_cell(
                cards,
                rules,
                n,
                false,
                j,
            ) {
                Some(cards[j].unwrap().turned())
            } else {
                cards[j]
            }),
{
    let a0 = cards;
    let a1 = after_direction(cards, a0, rules, n, false, 0);
    let a2 = after_direction(cards, a1, rules, n, false, 1);
    let a3 = after_direction(cards, a2, rules, n, false, 2);
    let a4 = after_direction(cards, a3, rules, n, false, 3);
    assert(resolved_from(cards, a4, rules, n, false, 4) == a4);
    assert(resolved_from(cards, a3, rules, n, false, 3) == a4);
    assert(resolved_from(cards, a2, rules, n, false, 2) == a4);
    assert(resolved_from(cards, a1, rules, n, false, 1) == a4);
    assert(resolved_from(cards, a0, rules, n, false, 0) == a4);
    assert(resolved(cards, rules, n, false) == a4);
    if capture_at(cards, rules, n, false, 0) is Some {
        lemma_capture_target(cards, rules, n, false, 0);
    }
    if capture_at(cards, rules, n, false, 1) is Some {
        lemma_capture_target(cards, rules, n, false, 1);
    }
    if capture_at(cards, rules, n, false, 2) is Some {
        lemma_capture_target(cards, rules, n, false, 2);
    }
    if capture_at(cards, rules, n, false, 3) is Some {
        lemma_capture_target(cards, rules, n, false, 3);
    }
    assert forall|j: int| 0 <= j < 9 implies #[trigger] a4[j] == (if captures_cell(
        cards,
        rules,
        n,
        false,
        j,
    ) {
        Some(cards[j].unwrap().turned())
    } else {
        cards[j]
    }) by {}
}

/// Two grids hold cards on the same cells, and the same cards but for the
/// side that controls them.
pub open spec fn same_shape(a: Seq<Option<CardSimple>>, b: Seq<Option<CardSimple>>) -> bool {
    a.len() == b.len() && forall|j: int|
        0 <= j < a.len() ==> match (#[trigger] a[j], b[j]) {
            (Some(x), Some(y)) => x.rank == y.rank && x.rank_elem == y.rank_elem && x.element
                == y.element,
            (None, None) => true,
            _ => false,
        }
}

/// A captured neighbour exists, lies on the board, and belongs to the other
/// side.
pub proof fn lemma_capture_target(
    cards: Seq<Option<CardSimple>>,
    rules: Rules,
    n: int,
    combo: bool,
    dir: int,
)
    requires
        cards.len() == 9,
        0 <= n < 9,
        0 <= dir < 4,
        cards[n] is Some,
        capture_at(cards, rules, n, combo, dir) is Some,
    ensures
        neighbor(n, dir) is Some,
        0 <= neighbor(n, dir).unwrap() < 9,
        neighbor(n, dir).unwrap() != n,
        cards[neighbor(n, dir).unwrap()] is Some,
        cards[neighbor(n, dir).unwrap()].unwrap().suit == cards[n].unwrap().suit.other(),
        capture_at(cards, rules, n, combo, dir) != Some(Combo::Combo),
        !combo ==> capture_at(cards, rules, n, combo, dir) == Some(Combo::NoCombo),
{
    assert(neighbor_ranks(cards, n, false)[dir] == neighbor_rank(cards, n, dir, false));
    assert(neighbor_ranks(cards, n, true)[dir] == neighbor_rank(cards, n, dir, true));
}

/// A capture check moves no card and changes no rank: it only changes which
/// side controls some of the cards.
pub proof fn lemma_resolved_shape(
    cards: Seq<Option<CardSimple>>,
    rules: Rules,
    n: int,
    combo: bool,
)
    requires
        cards.len() == 9,
        0 <= n < 9,
        cards[n] is Some,
    ensures
        same_shape(resolved(cards, rules, n, combo), cards),
    decreases (if combo { 1int } else { 0int }), 5int,
{
    lemma_resolved_from_shape(cards, cards, rules, n, combo, 0);
}

/// `lemma_resolved_shape` for the directions from `dir` on.
pub proof fn lemma_resolved_from_shape(
    start: Seq<Option<CardSimple>>,
    cards: Seq<Option<CardSimple>>,
    rules: Rules,
    n: int,
    combo: bool,
    dir: int,
)
    requires
        start.len() == 9,
        0 <= n < 9,
        start[n] is Some,
        same_shape(cards, start),
    ensures
        same_shape(resolved_from(start, cards, rules, n, combo, dir), start),
    decreases (if combo { 1int } else { 0int }), 4 - dir,
{
    if 0 <= dir < 4 {
        lemma_after_direction_shape(start, cards, rules, n, combo, dir);
        lemma_resolved_from_shape(
            start,
            after_direction(start, cards, rules, n, combo, dir),
            rules,
            n,
            combo,
            dir + 1,
        );
    }
}

/// `lemma_resolved_shape` for one direction.
pub proof fn lemma_after_direction_shape(
    start: Seq<Option<CardSimple>>,
    cards: Seq<Option<CardSimple>>,
    rules: Rules,
    n: int,
    combo: bool,
    dir: int,
)
    requires
        start.len() == 9,
        0 <= n < 9,
        0 <= dir < 4,
        start[n] is Some,
        same_shape(cards, start),
    ensures
        same_shape(after_direction(start, cards, rules, n, combo, dir), start),
    decreases (if combo { 1int } else { 0int }), 0int,
{
    match capture_at(start, rules, n, combo, dir) {
        Some(kind) => {
            lemma_capture_target(start, rules, n, combo, dir);
            let k = neighbor(n, dir).unwrap();
            let turned = flipped(cards, k);
            assert(same_shape(turned, start));
            if combo && kind != Combo::NoCombo {
                lemma_resolved_shape(turned, rules, k, false);
            }
        },
        None => {},
    }
}

/// 1 if the slot holds a card that `suit` controls, else 0.
pub open spec fn owned(slot: Option<CardSimple>, suit: Suit) -> int {
    match slot {
        Some(card) => if card.suit == suit { 1 } else { 0 },
        None => 0,
    }
}

/// How many of the first `upto` slots hold a card that `suit` controls.
pub open spec fn count_owned(slots: Seq<Option<CardSimple>>, suit: Suit, upto: int) -> int
    decreases upto,
{
    if upto <= 0 {
        0
    } else {
        count_owned(slots, suit, upto - 1) + owned(slots[upto - 1], suit)
    }
}

/// How many of the first `upto` slots hold a card.
pub open spec fn count_held(slots: Seq<Option<CardSimple>>, upto: int) -> int
    decreases upto,
{
    if upto <= 0 {
        0
    } else {
        count_held(slots, upto - 1) + (if slots[upto - 1] is Some { 1int } else { 0 })
    }
}

impl BoardModel {
    /// The cards that Red controls and the cards that Blue controls, counted
    /// over both hands and the board.
    pub open spec fn score(self) -> (int, int) {
        (
            count_owned(self.red_hand, Suit::Red, 5) + count_owned(self.blue_hand, Suit::Red, 5)
                + count_owned(self.cards, Suit::Red, 9),
            count_owned(self.red_hand, Suit::Blue, 5) + count_owned(self.blue_hand, Suit::Blue, 5)
                + count_owned(self.cards, Suit::Blue, 9),
        )
    }

    /// The number of cards in both hands and on the board.
    pub open spec fn card_count(self) -> int {
        count_held(self.red_hand, 5) + count_held(self.blue_hand, 5) + count_held(self.cards, 9)
    }

    /// The number of cells without a card.
    pub open spec fn empty_cells(self) -> int {
        9 - count_held(self.cards, 9)
    }

    /// The hand of the given side.
    pub open spec fn hand(self, side: Suit) -> Seq<Option<CardSimple>> {
        match side {
            Suit::Red => self.red_hand,
            Suit::Blue => self.blue_hand,
        }
    }
}

/// Every card in a row of slots is controlled by exactly one side.
pub proof fn lemma_count_split(slots: Seq<Option<CardSimple>>, upto: int)
    ensures
        count_owned(slots, Suit::Red, upto) + count_owned(slots, Suit::Blue, upto) == count_held(
            slots,
            upto,
        ),
        0 <= count_owned(slots, Suit::Red, upto),
        0 <= count_owned(slots, Suit::Blue, upto),
        upto >= 0 ==> count_held(slots, upto) <= upto,
        upto <= 0 ==> count_held(slots, upto) == 0,
    decreases upto,
{
    if upto > 0 {
        lemma_count_split(slots, upto - 1);
    }
}

/// The two scores add up to the number of cards: each card counts for
/// exactly one side, wherever it lies.
pub proof fn lemma_score_counts_every_card(b: BoardModel)
    ensures
        b.score().0 + b.score().1 == b.card_count(),
        b.score().0 >= 0,
        b.score().1 >= 0,
{
    lemma_count_split(b.red_hand, 5);
    lemma_count_split(b.blue_hand, 5);
    lemma_count_split(b.cards, 9);
}

/// Rows of slots that hold cards in the same places hold equally many.
pub proof fn lemma_same_shape_count(
    a: Seq<Option<CardSimple>>,
    b: Seq<Option<CardSimple>>,
    upto: int,
)
    requires
        same_shape(a, b),
        upto <= a.len(),
    ensures
        count_held(a, upto) == count_held(b, upto),
    decreases upto,
{
    if upto > 0 {
        lemma_same_shape_count(a, b, upto - 1);
        assert(a[upto - 1] is Some <==> b[upto - 1] is Some);
    }
}

/// A capture check creates and destroys no card: the number of cards on the
/// board, and so the sum of the two scores, stays what it was.
pub proof fn lemma_check_conserves_cards(b: BoardModel, n: int, combo: bool)
    requires
        b.cards.len() == 9,
        0 <= n < 9,
        b.cards[n] is Some,
    ensures
        ({
            let after = BoardModel { cards: resolved(b.cards, b.rules, n, combo), ..b };
            &&& after.card_count() == b.card_count()
            &&& after.score().0 + after.score().1 == b.score().0 + b.score().1
            &&& after.empty_cells() == b.empty_cells()
        }),
{
    let after = BoardModel { cards: resolved(b.cards, b.rules, n, combo), ..b };
    lemma_resolved_shape(b.cards, b.rules, n, combo);
    lemma_same_shape_count(after.cards, b.cards, 9);
    lemma_score_counts_every_card(after);
    lemma_score_counts_every_card(b);
}

/// Writing to slot `k` changes the counts by what the slot gains or loses.
pub proof fn lemma_count_update(
    slots: Seq<Option<CardSimple>>,
    k: int,
    slot: Option<CardSimple>,
    suit: Suit,
    upto: int,
)
    requires
        0 <= k < slots.len(),
        upto <= slots.len(),
    ensures
        count_held(slots.update(k, slot), upto) == count_held(slots, upto) + (if k < upto {
            (if slot is Some { 1int } else { 0 }) - (if slots[k] is Some { 1int } else { 0 })
        } else {
            0
        }),
        count_owned(slots.update(k, slot), suit, upto) == count_owned(slots, suit, upto) + (if k
            < upto {
            owned(slot, suit) - owned(slots[k], suit)
        } else {
            0
        }),
    decreases upto,
{
    if upto > 0 {
        lemma_count_update(slots, k, slot, suit, upto - 1);
    }
}

impl BoardSimple {
    /// The snapshot can be searched: every card still in a hand can take an
    /// elemental bonus without leaving the machine range of its ranks.
    pub open spec fn wf(&self) -> bool {
        &&& forall|i: int|
            0 <= i < 5 ==> match #[trigger] self.red_hand[i] {
                Some(card) => card.rank_elem.can_rise(),
                None => true,
            }
        &&& forall|i: int|
            0 <= i < 5 ==> match #[trigger] self.blue_hand[i] {
                Some(card) => card.rank_elem.can_rise(),
                None => true,
            }
    }

    /// The snapshot of a live round.
    pub fn new(
        red_hand: &Hand,
        blue_hand: &Hand,
        cards: &[Option<CardEntity>; 9],
        elem: &[Option<ElementEntity>; 9],
        rules: &Rules,
    ) -> (res: BoardSimple)
        requires
            all_wf(red_hand.cards@),
            all_wf(blue_hand.cards@),
            all_wf(cards@),
        ensures
            res@ == (BoardModel {
                red_hand: simples(red_hand.cards@),
                blue_hand: simples(blue_hand.cards@),
                cards: simples(cards@),
                tiles: tile_elements(elem@),
                rules: *rules,
            }),
            res.wf(),
    {
        let red = Self::hand_of(&red_hand.cards);
        let blue = Self::hand_of(&blue_hand.cards);
        let mut board: [Cell; 9] = [Cell { card: None, element: None };9];
        let mut i: usize = 0;
        while i < 9
            invariant
                i <= 9,
                all_wf(cards@),
                forall|k: int|
                    0 <= k < i ==> (#[trigger] board[k]) == (Cell {
                        card: simples(cards@)[k],
                        element: tile_elements(elem@)[k],
                    }),
            decreases 9 - i,
        {
            let card = match cards[i] {
                Some(entity) => {
                    assert(entity.wf());
                    Some(CardSimple::from(&entity))
                },
                None => None,
            };
            let element = match elem[i] {
                Some(tile) => Some(tile.element),
                None => None,
            };
            board[i] = Cell { card, element };
            i += 1;
        }
        let res = BoardSimple { red_hand: red, blue_hand: blue, board, rules: *rules };
        assert(res@.cards =~= simples(cards@));
        assert(res@.tiles =~= tile_elements(elem@));
        assert(res.wf()) by {
            assert forall|k: int| 0 <= k < 5 implies match #[trigger] res.red_hand[k] {
                Some(card) => card.rank_elem.can_rise(),
                None => true,
            } by {
                assert(res.red_hand[k] == simples(red_hand.cards@)[k]);
            }
            assert forall|k: int| 0 <= k < 5 implies match #[trigger] res.blue_hand[k] {
                Some(card) => card.rank_elem.can_rise(),
                None => true,
            } by {
                assert(res.blue_hand[k] == simples(blue_hand.cards@)[k]);
            }
        }
        res
    }

    /// The cards of a live hand as capture resolution sees them.
    fn hand_of(cards: &[Option<CardEntity>; 5]) -> (res: [Option<CardSimple>; 5])
        requires
            all_wf(cards@),
        ensures
            res@ == simples(cards@),
    {
        let mut res: [Option<CardSimple>; 5] = [None;5];
        let mut i: usize = 0;
        while i < 5
            invariant
                i <= 5,
                all_wf(cards@),
                forall|k: int| 0 <= k < i ==> (#[trigger] res[k]) == simples(cards@)[k],
            decreases 5 - i,
        {
            let card = match cards[i] {
                Some(entity) => {
                    assert(entity.wf());
                    Some(CardSimple::from(&entity))
                },
                None => None,
            };
            res[i] = card;
            i += 1;
        }
        assert(res@ =~= simples(cards@));
        res
    }

    /// Puts `card` on the empty cell `n` and applies the modifier of the
    /// cell's elemental tile to it.
    pub fn put_card(&mut self, card: CardSimple, n: usize)
        requires
            n < 9,
            old(self)@.cards[n as int] is None,
            card.element is Some && old(self)@.tiles[n as int] == card.element
                ==> card.rank_elem.can_rise(),
        ensures
            final(self)@ == (BoardModel {
                cards: old(self)@.cards.update(
                    n as int,
                    Some(card.placed_on(old(self)@.tiles[n as int])),
                ),
                ..old(self)@
            }),
    {
        let mut placed = card;
        match (card.element, self.board[n].element) {
            (_, None) => {},
            (Some(c), Some(b)) => {
                if c == b {
                    placed.add_bonus();
                } else {
                    placed.add_malus();
                }
            },
            (None, Some(_)) => placed.add_malus(),
        }
        self.board[n].card = Some(placed);
        assert(placed == card.placed_on(old(self)@.tiles[n as int]));
        assert(self@.cards =~= old(self)@.cards.update(n as int, Some(placed)));
        assert(self@.tiles =~= old(self)@.tiles);
    }

    /// The facing ranks of the neighbours of the card on cell `n`.
    fn ranks_around(&self, n: usize, elemental: bool) -> (res: [Option<u8>; 4])
        requires
            n < 9,
            self@.cards[n as int] is Some,
        ensures
            res@ == neighbor_ranks(self@.cards, n as int, elemental),
    {
        let mask = border_mask(n);
        let suit = self.board[n].card.unwrap().suit;
        let mut res: [Option<u8>; 4] = [None;4];
        let mut i: usize = 0;
        while i < 4
            invariant
                i <= 4,
                n < 9,
                self@.cards[n as int] == Some(self.board[n as int].card.unwrap()),
                suit == self.board[n as int].card.unwrap().suit,
                forall|dir: int|
                    0 <= dir < 4 ==> (#[trigger] mask[dir]) == (match neighbor(n as int, dir) {
                        Some(k) => Some(k as usize),
                        None => None,
                    }),
                forall|dir: int|
                    0 <= dir < i ==> (#[trigger] res[dir]) == neighbor_rank(
                        self@.cards,
                        n as int,
                        dir,
                        elemental,
                    ),
            decreases 4 - i,
        {
            let seen = match mask[i] {
                Some(k) => {
                    assert(neighbor(n as int, i as int) == Some(k as int));
                    assert(k < 9);
                    match self.board[k].card {
                        Some(card) => {
                            if card.suit == suit {
                                None
                            } else if elemental {
                                Some(card.rank_elem.facing_edge(i))
                            } else {
                                Some(card.rank.facing_edge(i))
                            }
                        },
                        None => None,
                    }
                },
                None => None,
            };
            res[i] = seen;
            i += 1;
        }
        assert(res@ =~= neighbor_ranks(self@.cards, n as int, elemental));
        res
    }

    /// For each direction, whether no card lies next to cell `n` there.
    fn gaps_around(&self, n: usize) -> (res: [bool; 4])
        requires
            n < 9,
        ensures
            res@ == nothing_around(self@.cards, n as int),
    {
        let mask = border_mask(n);
        let mut res = [true;4];
        let mut i: usize = 0;
        while i < 4
            invariant
                i <= 4,
                n < 9,
                forall|dir: int|
                    0 <= dir < 4 ==> (#[trigger] mask[dir]) == (match neighbor(n as int, dir) {
                        Some(k) => Some(k as usize),
                        None => None,
                    }),
                forall|dir: int|
                    0 <= dir < i ==> (#[trigger] res[dir]) == nothing_at(self@.cards, n as int, dir),
            decreases 4 - i,
        {
            let gap = match mask[i] {
                Some(k) => {
                    assert(neighbor(n as int, i as int) == Some(k as int));
                    assert(k < 9);
                    self.board[k].card.is_none()
                },
                None => true,
            };
            res[i] = gap;
            i += 1;
        }
        assert(res@ =~= nothing_around(self@.cards, n as int));
        res
    }

    /// Hands the card on cell `k` to the other side.
    fn flip(&mut self, k: usize)
        requires
            k < 9,
            old(self)@.cards[k as int] is Some,
        ensures
            final(self)@ == (BoardModel { cards: flipped(old(self)@.cards, k as int), ..old(self)@ }),
    {
        let mut card = self.board[k].card.unwrap();
        card.flip_suit();
        self.board[k].card = Some(card);
        assert(self@.cards =~= flipped(old(self)@.cards, k as int));
        assert(self@.tiles =~= old(self)@.tiles);
    }

    /// Resolves the captures of the card on cell `n`. With `combo` the Same
    /// and Plus rules take part as far as the rules of the round allow;
    /// without it only the Normal rule does.
    pub fn check(&mut self, n: usize, combo: bool)
        requires
            n < 9,
            old(self)@.cards[n as int] is Some,
        ensures
            final(self)@ == (BoardModel {
                cards: resolved(old(self)@.cards, old(self)@.rules, n as int, combo),
                ..old(self)@
            }),
        decreases (if combo { 1int } else { 0int }),
    {
        let mask = border_mask(n);
        let card = self.board[n].card.unwrap();
        let other = self.ranks_around(n, false);
        let other_elem = self.ranks_around(n, true);
        let gaps = self.gaps_around(n);
        let kinds = captures(
            card.rank.as_slice(),
            card.rank_elem.as_slice(),
            other,
            other_elem,
            gaps,
            &self.rules,
            combo,
        );
        let ghost start = self@;
        let mut i: usize = 0;
        while i < 4
            invariant
                i <= 4,
                n < 9,
                start.cards.len() == 9,
                start.cards[n as int] is Some,
                self@ == (BoardModel { cards: self@.cards, ..start }),
                same_shape(self@.cards, start.cards),
                forall|dir: int|
                    0 <= dir < 4 ==> (#[trigger] mask[dir]) == (match neighbor(n as int, dir) {
                        Some(k) => Some(k as usize),
                        None => None,
                    }),
                forall|dir: int|
                    0 <= dir < 4 ==> (#[trigger] kinds[dir]) == capture_at(
                        start.cards,
                        start.rules,
                        n as int,
                        combo,
                        dir,
                    ),
                resolved_from(start.cards, self@.cards, start.rules, n as int, combo, i as int)
                    == resolved(start.cards, start.rules, n as int, combo),
            decreases 4 - i,
        {
            proof {
                lemma_after_direction_shape(
                    start.cards,
                    self@.cards,
                    start.rules,
                    n as int,
                    combo,
                    i as int,
                );
            }
            match kinds[i] {
                Some(kind) => {
                    proof {
                        lemma_capture_target(start.cards, start.rules, n as int, combo, i as int);
                    }
                    let k = mask[i].unwrap();
                    self.flip(k);
                    match kind {
                        Combo::Same | Combo::Plus => {
                            self.check(k, false);
                        },
                        _ => {},
                    }
                },
                None => {},
            }
            i += 1;
        }
    }
    /// How many cards of a hand each side controls.
    fn tally_hand(hand: &[Option<CardSimple>; 5]) -> (res: (usize, usize))
        ensures
            res.0 == count_owned(hand@, Suit::Red, 5),
            res.1 == count_owned(hand@, Suit::Blue, 5),
    {
        let mut red: usize = 0;
        let mut blue: usize = 0;
        let mut i: usize = 0;
        while i < 5
            invariant
                i <= 5,
                red == count_owned(hand@, Suit::Red, i as int),
                blue == count_owned(hand@, Suit::Blue, i as int),
                red + blue <= i,
            decreases 5 - i,
        {
            match hand[i] {
                Some(card) => match card.suit {
                    Suit::Red => red += 1,
                    Suit::Blue => blue += 1,
                },
                None => {},
            }
            i += 1;
        }
        (red, blue)
    }

    /// The number of cards that Red controls and the number that Blue
    /// controls, over both hands and the board.
    pub fn score(&self) -> (res: (usize, usize))
        ensures
            res.0 == self@.score().0,
            res.1 == self@.score().1,
            res.0 + res.1 == self@.card_count(),
    {
        let in_red = Self::tally_hand(&self.red_hand);
        let in_blue = Self::tally_hand(&self.blue_hand);
        proof {
            lemma_count_split(self.red_hand@, 5);
            lemma_count_split(self.blue_hand@, 5);
        }
        let mut red: usize = in_red.0 + in_blue.0;
        let mut blue: usize = in_red.1 + in_blue.1;
        let ghost base_red = red;
        let ghost base_blue = blue;
        let mut i: usize = 0;
        while i < 9
            invariant
                i <= 9,
                base_red + base_blue <= 10,
                red == base_red + count_owned(self@.cards, Suit::Red, i as int),
                blue == base_blue + count_owned(self@.cards, Suit::Blue, i as int),
                red + blue <= base_red + base_blue + i,
            decreases 9 - i,
        {
            match self.board[i].card {
                Some(card) => match card.suit {
                    Suit::Red => red += 1,
                    Suit::Blue => blue += 1,
                },
                None => {},
            }
            i += 1;
        }
        proof {
            lemma_score_counts_every_card(self@);
        }
        (red, blue)
    }

    /// The number of cells without a card.
    pub fn empty_cells(&self) -> (res: usize)
        ensures
            res == self@.empty_cells(),
            res <= 9,
    {
        let mut held: usize = 0;
        let mut i: usize = 0;
        while i < 9
            invariant
                i <= 9,
                held == count_held(self@.cards, i as int),
                held <= i,
            decreases 9 - i,
        {
            if self.board[i].card.is_some() {
                held += 1;
            }
            i += 1;
        }
        9 - held
    }

    /// The number of cards in a hand.
    pub fn cards_in_hand(hand: &[Option<CardSimple>; 5]) -> (res: usize)
        ensures
            res == count_held(hand@, 5),
            res <= 5,
    {
        let mut held: usize = 0;
        let mut i: usize = 0;
        while i < 5
            invariant
                i <= 5,
                held == count_held(hand@, i as int),
                held <= i,
            decreases 5 - i,
        {
            if hand[i].is_some() {
                held += 1;
            }
            i += 1;
        }
        held
    }
}

} // verus!
