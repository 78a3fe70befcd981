//! The look-ahead of the automated side: a depth-limited search over the
//! placements that the two sides can make in turn.

use vstd::prelude::*;
use crate::cards::Suit;
use crate::snapshot::{count_held, resolved, BoardModel, BoardSimple, CardSimple};

verus! {

/// A placement: the hand slot to take the card from, the cell to put it on,
/// and the number of cards that the search expects Red to control after it.
#[derive(Clone, Copy, Debug, PartialEq, Eq, Structural)]
pub struct Move {
    pub from: usize,
    pub to: usize,
    pub score: usize,
}

impl Move {
    /// The all-zero move. It stands for "nothing to place" and is what a
    /// search result is set to before a search begins.
    pub fn new() -> (res: Move)
        ensures
            res == (Move { from: 0, to: 0, score: 0 }),
    {
        Move { from: 0, to: 0, score: 0 }
    }
}

/// The score nominally given to the only placement left on a board with a
/// single empty cell.
pub const LAST_CELL_SCORE: usize = 5;

/// The snapshot after `turn` has taken the card in hand slot `slot`, put it
/// on the empty cell `cell`, and its captures have been resolved with
/// combination rules allowed.
pub open spec fn after_move(b: BoardModel, turn: Suit, slot: int, cell: int) -> BoardModel {
    let card = b.hand(turn)[slot].unwrap();
    let placed = b.cards.update(cell, Some(card.placed_on(b.tiles[cell])));
    let after = resolved(placed, b.rules, cell, true);
    match turn {
        Suit::Red => BoardModel { red_hand: b.red_hand.update(slot, None), cards: after, ..b },
        Suit::Blue => BoardModel { blue_hand: b.blue_hand.update(slot, None), cards: after, ..b },
    }
}

/// The part of a score that belongs to `side`.
pub open spec fn own(side: Suit, score: (int, int)) -> int {
    match side {
        Suit::Red => score.0,
        Suit::Blue => score.1,
    }
}

/// Candidate `k` of a ply stands for hand slot `k / 9` and cell `k % 9`. It
/// can be played when the slot holds a card and the cell is empty.
pub open spec fn playable(b: BoardModel, turn: Suit, k: int) -> bool {
    b.hand(turn)[k / 9] is Some && b.cards[k % 9] is None
}

/// Whether a value takes the place of the best so far: it does if there is
/// no best yet, or if it gives `side` strictly more cards than the best so
/// far does.
pub open spec fn beats(side: Suit, value: (int, int), best: Option<(int, int)>) -> bool {
    match best {
        Some(kept) => own(side, value) > own(side, kept),
        None => true,
    }
}

/// The score that the search assigns to a snapshot in which `turn` is to
/// move and `depth` plies may still be looked ahead.
///
/// With no depth left, a full board or an empty hand it is the score of the
/// snapshot as it stands. Otherwise it is the value of the best candidate:
/// the candidates are taken hand slot by hand slot and, within a slot, cell
/// by cell; each is valued by the search for the other side one ply
/// shallower; the first candidate is the best to begin with, and a later one
/// takes its place only if it gives `turn` strictly more cards.
pub open spec fn search_value(turn: Suit, b: BoardModel, depth: nat) -> (int, int)
    decreases depth, 46int,
{
    if depth == 0 || b.empty_cells() == 0 || count_held(b.hand(turn), 5) == 0 {
        b.score()
    } else {
        match best_from(turn, b, depth, 0, None) {
            Some(value) => value,
            None => b.score(),
        }
    }
}

/// The best value once candidates `k` to 44 have been compared with `best`,
/// where `None` stands for no candidate seen yet.
pub open spec fn best_from(
    turn: Suit,
    b: BoardModel,
    depth: nat,
    k: int,
    best: Option<(int, int)>,
) -> Option<(int, int)>
    decreases depth, 45 - k,
{
    if k < 0 || k >= 45 || depth == 0 {
        best
    } else if playable(b, turn, k) {
        let value = search_value(turn.other(), after_move(b, turn, k / 9, k % 9), (depth - 1) as nat);
        best_from(turn, b, depth, k + 1, if beats(turn, value, best) { Some(value) } else { best })
    } else {
        best_from(turn, b, depth, k + 1, best)
    }
}

/// The first slot from `from` on that holds a card, or the number of slots
/// if none does.
pub open spec fn first_card(slots: Seq<Option<CardSimple>>, from: int) -> int
    decreases slots.len() - from,
{
    if from < 0 || from >= slots.len() {
        slots.len() as int
    } else if slots[from] is Some {
        from
    } else {
        first_card(slots, from + 1)
    }
}

/// The first slot from `from` on that holds no card, or the number of slots
/// if every one holds a card.
pub open spec fn first_gap(slots: Seq<Option<CardSimple>>, from: int) -> int
    decreases slots.len() - from,
{
    if from < 0 || from >= slots.len() {
        slots.len() as int
    } else if slots[from] is None {
        from
    } else {
        first_gap(slots, from + 1)
    }
}

/// What the placement of Red's card of hand slot `slot` on `cell` is worth:
/// the number of cards that the search gives Red after it, with Blue to
/// move and one ply less to look ahead.
pub open spec fn cell_value(b: BoardModel, slot: int, depth: nat, cell: int) -> int {
    search_value(Suit::Blue, after_move(b, Suit::Red, slot, cell), (depth - 1) as nat).0
}

/// The move that puts Red's card of hand slot `slot` on `cell`, with what
/// the placement is worth as its score.
pub open spec fn move_to(b: BoardModel, slot: int, depth: nat, cell: int) -> Move {
    Move { from: slot as usize, to: cell as usize, score: cell_value(b, slot, depth, cell) as usize }
}

/// The best move for Red with the card of hand slot `slot`, once cells
/// `cell` to 8 have been compared with `best`, where `None` stands for no
/// empty cell seen yet. The first empty cell is the best to begin with, and
/// a later one takes its place only if it is worth strictly more.
pub open spec fn best_move_from(
    b: BoardModel,
    slot: int,
    depth: nat,
    cell: int,
    best: Option<Move>,
) -> Option<Move>
    decreases 9 - cell,
{
    if cell < 0 || cell >= 9 || depth == 0 {
        best
    } else if b.cards[cell] is None {
        let better = match best {
            Some(kept) => cell_value(b, slot, depth, cell) > kept.score,
            None => true,
        };
        best_move_from(
            b,
            slot,
            depth,
            cell + 1,
            if better { Some(move_to(b, slot, depth, cell)) } else { best },
        )
    } else {
        best_move_from(b, slot, depth, cell + 1, best)
    }
}

/// The move that the automated side finds for the card in hand slot `slot`.
///
/// On a board with exactly one empty cell there is nothing to search: the
/// move takes the first card of Red's hand to that cell and carries the
/// nominal score. Otherwise it is the placement of the card of `slot` on the
/// first of the empty cells that are worth most, with that worth as its
/// score. Only on a full board, where nothing can be placed, it is the
/// all-zero move.
pub open spec fn best_move(b: BoardModel, slot: int, depth: nat) -> Move {
    if b.empty_cells() == 1 {
        Move {
            from: first_card(b.red_hand, 0) as usize,
            to: first_gap(b.cards, 0) as usize,
            score: LAST_CELL_SCORE,
        }
    } else {
        match best_move_from(b, slot, depth, 0, None) {
            Some(found) => found,
            None => Move { from: 0, to: 0, score: 0 },
        }
    }
}

/// The value of candidate `k` of a ply: what the search gives the snapshot
/// after the placement, with the other side to move and one ply less.
pub open spec fn candidate_value(turn: Suit, b: BoardModel, depth: nat, k: int) -> (int, int) {
    search_value(turn.other(), after_move(b, turn, k / 9, k % 9), (depth - 1) as nat)
}

/// Candidate `c` is the one that the comparison from candidate `k` on
/// settles on, against the best so far: it can be played, it takes the
/// place of the best so far, no candidate from `k` on gives the side to
/// move more cards, and every candidate before it gives less.
pub open spec fn first_best(
    turn: Suit,
    b: BoardModel,
    depth: nat,
    k: int,
    best: Option<(int, int)>,
    c: int,
) -> bool {
    &&& k <= c < 45
    &&& playable(b, turn, c)
    &&& beats(turn, candidate_value(turn, b, depth, c), best)
    &&& forall|e: int|
        k <= e < 45 && playable(b, turn, e) ==> own(
            turn,
            #[trigger] candidate_value(turn, b, depth, e),
        ) <= own(turn, candidate_value(turn, b, depth, c))
    &&& forall|e: int|
        k <= e < c && playable(b, turn, e) ==> own(
            turn,
            #[trigger] candidate_value(turn, b, depth, e),
        ) < own(turn, candidate_value(turn, b, depth, c))
}

/// The search maximizes: the value that it settles on is that of the first
/// candidate that gives the side to move the most cards, if that candidate
/// takes the place of the best so far; else it is the best so far, and then
/// no candidate takes its place.
pub proof fn lemma_best_from_is_max(
    turn: Suit,
    b: BoardModel,
    depth: nat,
    k: int,
    best: Option<(int, int)>,
)
    requires
        depth > 0,
        0 <= k <= 45,
    ensures
        ({
            let found = best_from(turn, b, depth, k, best);
            ||| found == best && forall|e: int|
                k <= e < 45 && playable(b, turn, e) ==> !beats(
                    turn,
                    #[trigger] candidate_value(turn, b, depth, e),
                    best,
                )
            ||| exists|c: int|
                #[trigger] first_best(turn, b, depth, k, best, c) && found == Some(
                    candidate_value(turn, b, depth, c),
                )
        }),
    decreases 45 - k,
{
    if k < 45 {
        let value = candidate_value(turn, b, depth, k);
        let improved = playable(b, turn, k) && beats(turn, value, best);
        let next = if improved { Some(value) } else { best };
        lemma_best_from_is_max(turn, b, depth, k + 1, next);
        let found = best_from(turn, b, depth, k, best);
        assert(found == best_from(turn, b, depth, k + 1, next));
        if found == next && (forall|e: int|
            k + 1 <= e < 45 && playable(b, turn, e) ==> !beats(
                turn,
                #[trigger] candidate_value(turn, b, depth, e),
                next,
            )) {
            if improved {
                assert(first_best(turn, b, depth, k, best, k));
            }
        } else {
            let c = choose|c: int|
                #[trigger] first_best(turn, b, depth, k + 1, next, c) && found == Some(
                    candidate_value(turn, b, depth, c),
                );
            assert(first_best(turn, b, depth, k, best, c));
        }
    }
}

/// A placement creates and destroys no card: the card leaves the hand and
/// arrives on the board, and the captures only change sides. So the two
/// scores add up to the same number before and after.
pub proof fn lemma_move_conserves_cards(b: BoardModel, turn: Suit, slot: int, cell: int)
    requires
        b.cards.len() == 9,
        b.red_hand.len() == 5,
        b.blue_hand.len() == 5,
        0 <= slot < 5,
        0 <= cell < 9,
        b.hand(turn)[slot] is Some,
        b.cards[cell] is None,
    ensures
        after_move(b, turn, slot, cell).card_count() == b.card_count(),
        after_move(b, turn, slot, cell).score().0 + after_move(b, turn, slot, cell).score().1
            == b.score().0 + b.score().1,
        after_move(b, turn, slot, cell).empty_cells() == b.empty_cells() - 1,
{
    let card = b.hand(turn)[slot].unwrap();
    let placed = b.cards.update(cell, Some(card.placed_on(b.tiles[cell])));
    let after = after_move(b, turn, slot, cell);
    crate::snapshot::lemma_resolved_shape(placed, b.rules, cell, true);
    crate::snapshot::lemma_same_shape_count(after.cards, placed, 9);
    crate::snapshot::lemma_count_update(
        b.cards,
        cell,
        Some(card.placed_on(b.tiles[cell])),
        Suit::Red,
        9,
    );
    crate::snapshot::lemma_count_update(b.hand(turn), slot, None, Suit::Red, 5);
    crate::snapshot::lemma_score_counts_every_card(after);
    crate::snapshot::lemma_score_counts_every_card(b);
}

/// The first card of a row is a card, and no slot before it holds one.
pub proof fn lemma_first_card(slots: Seq<Option<CardSimple>>, from: int)
    requires
        0 <= from <= slots.len(),
    ensures
        from <= first_card(slots, from) <= slots.len(),
        first_card(slots, from) < slots.len() ==> slots[first_card(slots, from)] is Some,
        forall|j: int| from <= j < first_card(slots, from) ==> (#[trigger] slots[j]) is None,
    decreases slots.len() - from,
{
    if from < slots.len() && slots[from] is None {
        lemma_first_card(slots, from + 1);
    }
}

/// The first gap of a row is empty, and every slot before it holds a card.
pub proof fn lemma_first_gap(slots: Seq<Option<CardSimple>>, from: int)
    requires
        0 <= from <= slots.len(),
    ensures
        from <= first_gap(slots, from) <= slots.len(),
        first_gap(slots, from) < slots.len() ==> slots[first_gap(slots, from)] is None,
        forall|j: int| from <= j < first_gap(slots, from) ==> (#[trigger] slots[j]) is Some,
    decreases slots.len() - from,
{
    if from < slots.len() && slots[from] is Some {
        lemma_first_gap(slots, from + 1);
    }
}

/// A row whose first `upto` slots all hold a card holds `upto` cards there,
/// and a row whose first `upto` slots are all empty holds none.
pub proof fn lemma_count_uniform(slots: Seq<Option<CardSimple>>, upto: int)
    requires
        0 <= upto <= slots.len(),
    ensures
        (forall|j: int| 0 <= j < upto ==> (#[trigger] slots[j]) is Some) ==> count_held(slots, upto)
            == upto,
        (forall|j: int| 0 <= j < upto ==> (#[trigger] slots[j]) is None) ==> count_held(slots, upto)
            == 0,
    decreases upto,
{
    if upto > 0 {
        lemma_count_uniform(slots, upto - 1);
    }
}

/// On a board with exactly one empty cell and a card in Red's hand, the
/// move found puts the first card of the hand on that cell, whatever slot
/// and depth the search was asked for.
pub proof fn lemma_last_cell_move(b: BoardModel, slot: int, depth: nat)
    requires
        b.cards.len() == 9,
        b.red_hand.len() == 5,
        b.empty_cells() == 1,
        count_held(b.red_hand, 5) > 0,
    ensures
        ({
            let found = best_move(b, slot, depth);
            &&& found.score == LAST_CELL_SCORE
            &&& found.from < 5
            &&& b.red_hand[found.from as int] is Some
            &&& forall|j: int| 0 <= j < found.from ==> (#[trigger] b.red_hand[j]) is None
            &&& found.to < 9
            &&& b.cards[found.to as int] is None
            &&& forall|j: int| 0 <= j < 9 && j != found.to ==> (#[trigger] b.cards[j]) is Some
        }),
{
    lemma_first_card(b.red_hand, 0);
    lemma_first_gap(b.cards, 0);
    lemma_count_uniform(b.red_hand, 5);
    lemma_count_uniform(b.cards, 9);
    let gap = first_gap(b.cards, 0);
    assert forall|j: int| 0 <= j < 9 && j != gap implies (#[trigger] b.cards[j]) is Some by {
        if b.cards[j] is None {
            lemma_two_gaps(b.cards, gap, j, 9);
        }
    }
}

/// A row with two different empty slots among the first `upto` holds at
/// most `upto - 2` cards there.
pub proof fn lemma_two_gaps(slots: Seq<Option<CardSimple>>, i: int, j: int, upto: int)
    requires
        0 <= i < upto,
        0 <= j < upto,
        i != j,
        upto <= slots.len(),
        slots[i] is None,
        slots[j] is None,
    ensures
        count_held(slots, upto) <= upto - 2,
    decreases upto,
{
    if i < upto - 1 && j < upto - 1 {
        lemma_two_gaps(slots, i, j, upto - 1);
    } else {
        let rest = if i == upto - 1 { j } else { i };
        lemma_one_gap(slots, rest, upto - 1);
    }
}

/// A row with an empty slot among the first `upto` holds at most `upto - 1`
/// cards there.
pub proof fn lemma_one_gap(slots: Seq<Option<CardSimple>>, i: int, upto: int)
    requires
        0 <= i < upto,
        upto <= slots.len(),
        slots[i] is None,
    ensures
        count_held(slots, upto) <= upto - 1,
    decreases upto,
{
    if i < upto - 1 {
        lemma_one_gap(slots, i, upto - 1);
    } else {
        crate::snapshot::lemma_count_split(slots, upto - 1);
    }
}

/// A placement leaves the snapshot its shape: nine cells and two hands of
/// five slots.
pub proof fn lemma_after_move_shape(b: BoardModel, turn: Suit, slot: int, cell: int)
    requires
        b.cards.len() == 9,
        b.red_hand.len() == 5,
        b.blue_hand.len() == 5,
        0 <= slot < 5,
        0 <= cell < 9,
        b.hand(turn)[slot] is Some,
    ensures
        after_move(b, turn, slot, cell).cards.len() == 9,
        after_move(b, turn, slot, cell).red_hand.len() == 5,
        after_move(b, turn, slot, cell).blue_hand.len() == 5,
{
    let card = b.hand(turn)[slot].unwrap();
    let placed = b.cards.update(cell, Some(card.placed_on(b.tiles[cell])));
    crate::snapshot::lemma_resolved_shape(placed, b.rules, cell, true);
}

/// A side that holds a card can play it wherever the board has an empty
/// cell.
pub proof fn lemma_has_candidate(b: BoardModel, turn: Suit)
    requires
        b.cards.len() == 9,
        b.red_hand.len() == 5,
        b.blue_hand.len() == 5,
        b.empty_cells() > 0,
        count_held(b.hand(turn), 5) > 0,
    ensures
        0 <= first_card(b.hand(turn), 0) < 5,
        0 <= first_gap(b.cards, 0) < 9,
        playable(b, turn, first_card(b.hand(turn), 0) * 9 + first_gap(b.cards, 0)),
{
    lemma_first_card(b.hand(turn), 0);
    lemma_first_gap(b.cards, 0);
    lemma_count_uniform(b.hand(turn), 5);
    lemma_count_uniform(b.cards, 9);
    let slot = first_card(b.hand(turn), 0);
    let cell = first_gap(b.cards, 0);
    assert((slot * 9 + cell) / 9 == slot && (slot * 9 + cell) % 9 == cell);
}

/// Where the side to move can place a card at all, the score that the
/// search assigns is the value of one of its placements: of the first among
/// those that give it the most cards.
pub proof fn lemma_search_picks_a_candidate(turn: Suit, b: BoardModel, depth: nat)
    requires
        b.cards.len() == 9,
        b.red_hand.len() == 5,
        b.blue_hand.len() == 5,
        depth > 0,
        b.empty_cells() > 0,
        count_held(b.hand(turn), 5) > 0,
    ensures
        exists|c: int|
            #[trigger] first_best(turn, b, depth, 0, None, c) && search_value(turn, b, depth)
                == candidate_value(turn, b, depth, c),
{
    lemma_best_from_is_max(turn, b, depth, 0, None);
    lemma_has_candidate(b, turn);
    let first = first_card(b.hand(turn), 0) * 9 + first_gap(b.cards, 0);
    assert(beats(turn, candidate_value(turn, b, depth, first), None));
    let found = best_from(turn, b, depth, 0, None);
    let c = choose|c: int|
        #[trigger] first_best(turn, b, depth, 0, None, c) && found == Some(
            candidate_value(turn, b, depth, c),
        );
    assert(first_best(turn, b, depth, 0, None, c) && search_value(turn, b, depth)
        == candidate_value(turn, b, depth, c));
}

/// The score that the search assigns is the score of a snapshot that play
/// can lead to: no side has less than nothing, and the two sides together
/// have as many cards as the snapshot holds.
pub proof fn lemma_search_value_total(turn: Suit, b: BoardModel, depth: nat)
    requires
        b.cards.len() == 9,
        b.red_hand.len() == 5,
        b.blue_hand.len() == 5,
    ensures
        search_value(turn, b, depth).0 >= 0,
        search_value(turn, b, depth).1 >= 0,
        search_value(turn, b, depth).0 + search_value(turn, b, depth).1 == b.card_count(),
        b.card_count() <= 19,
    decreases depth,
{
    crate::snapshot::lemma_score_counts_every_card(b);
    crate::snapshot::lemma_count_split(b.red_hand, 5);
    crate::snapshot::lemma_count_split(b.blue_hand, 5);
    crate::snapshot::lemma_count_split(b.cards, 9);
    if !(depth == 0 || b.empty_cells() == 0 || count_held(b.hand(turn), 5) == 0) {
        lemma_search_picks_a_candidate(turn, b, depth);
        let c = choose|c: int|
            #[trigger] first_best(turn, b, depth, 0, None, c) && search_value(turn, b, depth)
                == candidate_value(turn, b, depth, c);
        let slot = c / 9;
        let cell = c % 9;
        lemma_move_conserves_cards(b, turn, slot, cell);
        lemma_after_move_shape(b, turn, slot, cell);
        lemma_search_value_total(turn.other(), after_move(b, turn, slot, cell), (depth - 1) as nat);
    }
}

/// Cell `c` is the one that the comparison from cell `from` on settles on,
/// against the best move so far: it is empty, it takes the place of the best
/// so far, no empty cell from `from` on is worth more, and every empty cell
/// before it is worth less.
pub open spec fn first_best_cell(
    b: BoardModel,
    slot: int,
    depth: nat,
    from: int,
    best: Option<Move>,
    c: int,
) -> bool {
    &&& from <= c < 9
    &&& b.cards[c] is None
    &&& match best {
        Some(kept) => cell_value(b, slot, depth, c) > kept.score,
        None => true,
    }
    &&& forall|e: int|
        from <= e < 9 && b.cards[e] is None ==> #[trigger] cell_value(b, slot, depth, e)
            <= cell_value(b, slot, depth, c)
    &&& forall|e: int|
        from <= e < c && b.cards[e] is None ==> #[trigger] cell_value(b, slot, depth, e)
            < cell_value(b, slot, depth, c)
}

/// The comparison of the cells maximizes: the move that it settles on puts
/// the card on the first of the empty cells that are worth most, if that
/// cell takes the place of the best move so far; else it is the best so far,
/// and then no empty cell is worth more than it.
pub proof fn lemma_best_move_from_is_max(
    b: BoardModel,
    slot: int,
    depth: nat,
    cell: int,
    best: Option<Move>,
)
    requires
        depth > 0,
        0 <= cell <= 9,
        0 <= slot < 5,
        b.cards.len() == 9,
        forall|e: int|
            0 <= e < 9 && b.cards[e] is None ==> 0 <= #[trigger] cell_value(b, slot, depth, e)
                <= usize::MAX,
    ensures
        ({
            let found = best_move_from(b, slot, depth, cell, best);
            ||| found == best && forall|e: int|
                cell <= e < 9 && b.cards[e] is None ==> best is Some && #[trigger] cell_value(
                    b,
                    slot,
                    depth,
                    e,
                ) <= best.unwrap().score
            ||| exists|c: int|
                #[trigger] first_best_cell(b, slot, depth, cell, best, c) && found == Some(
                    move_to(b, slot, depth, c),
                )
        }),
    decreases 9 - cell,
{
    if cell < 9 {
        let value = cell_value(b, slot, depth, cell);
        let improved = b.cards[cell] is None && (match best {
            Some(kept) => value > kept.score,
            None => true,
        });
        let next = if improved { Some(move_to(b, slot, depth, cell)) } else { best };
        if b.cards[cell] is None {
            assert(0 <= value <= usize::MAX);
            assert(move_to(b, slot, depth, cell).score == value);
        }
        lemma_best_move_from_is_max(b, slot, depth, cell + 1, next);
        let found = best_move_from(b, slot, depth, cell, best);
        assert(found == best_move_from(b, slot, depth, cell + 1, next));
        if exists|c: int|
            #[trigger] first_best_cell(b, slot, depth, cell + 1, next, c) && found == Some(
                move_to(b, slot, depth, c),
            ) {
            let c = choose|c: int|
                #[trigger] first_best_cell(b, slot, depth, cell + 1, next, c) && found == Some(
                    move_to(b, slot, depth, c),
                );
            assert(cell_value(b, slot, depth, c) >= cell_value(b, slot, depth, c));
            if b.cards[cell] is None {
                assert(value < cell_value(b, slot, depth, c));
            }
            assert forall|e: int| cell <= e < 9 && b.cards[e] is None implies #[trigger] cell_value(
                b,
                slot,
                depth,
                e,
            ) <= cell_value(b, slot, depth, c) by {}
            assert forall|e: int| cell <= e < c && b.cards[e] is None implies #[trigger] cell_value(
                b,
                slot,
                depth,
                e,
            ) < cell_value(b, slot, depth, c) by {}
            assert(first_best_cell(b, slot, depth, cell, best, c));
        } else {
            assert(found == next);
            if improved {
                assert forall|e: int| cell <= e < 9 && b.cards[e] is None implies #[trigger] cell_value(
                    b,
                    slot,
                    depth,
                    e,
                ) <= value by {}
                assert(first_best_cell(b, slot, depth, cell, best, cell));
            }
        }
    }
}

/// On a board with more than one empty cell, the move found for a card of
/// Red's hand puts that card on an empty cell: on the first of the empty
/// cells that are worth most to Red, with that worth as its score.
pub proof fn lemma_best_move_is_max(b: BoardModel, slot: int, depth: nat)
    requires
        b.cards.len() == 9,
        b.red_hand.len() == 5,
        b.blue_hand.len() == 5,
        0 <= slot < 5,
        b.red_hand[slot] is Some,
        depth > 0,
        b.empty_cells() >= 2,
    ensures
        exists|c: int|
            {
                &&& #[trigger] first_best_cell(b, slot, depth, 0, None, c)
                &&& best_move(b, slot, depth).from == slot
                &&& best_move(b, slot, depth).to == c
                &&& best_move(b, slot, depth).score == cell_value(b, slot, depth, c)
            },
{
    assert forall|e: int| 0 <= e < 9 && b.cards[e] is None implies 0 <= #[trigger] cell_value(
        b,
        slot,
        depth,
        e,
    ) <= 19 by {
        lemma_after_move_shape(b, Suit::Red, slot, e);
        lemma_search_value_total(
            Suit::Blue,
            after_move(b, Suit::Red, slot, e),
            (depth - 1) as nat,
        );
    }
    lemma_best_move_from_is_max(b, slot, depth, 0, None);
    lemma_first_gap(b.cards, 0);
    lemma_count_uniform(b.cards, 9);
    let gap = first_gap(b.cards, 0);
    assert(0 <= gap < 9 && b.cards[gap] is None);
    assert(cell_value(b, slot, depth, gap) >= 0);
    let found = best_move_from(b, slot, depth, 0, None);
    let c = choose|c: int|
        #[trigger] first_best_cell(b, slot, depth, 0, None, c) && found == Some(
            move_to(b, slot, depth, c),
        );
    assert(first_best_cell(b, slot, depth, 0, None, c));
    assert(best_move(b, slot, depth) == move_to(b, slot, depth, c));
}

/// The snapshot after `turn` has played the card of hand slot `slot` on the
/// empty cell `cell`.
pub fn play(board: &BoardSimple, turn: Suit, slot: usize, cell: usize) -> (res: BoardSimple)
    requires
        board.wf(),
        slot < 5,
        cell < 9,
        board@.hand(turn)[slot as int] is Some,
        board@.cards[cell as int] is None,
    ensures
        res@ == after_move(board@, turn, slot as int, cell as int),
        res.wf(),
{
    let mut new_board = *board;
    let card = match turn {
        Suit::Red => {
            let card = new_board.red_hand[slot].take().unwrap();
            assert(new_board@.red_hand =~= board@.red_hand.update(slot as int, None));
            card
        },
        Suit::Blue => {
            let card = new_board.blue_hand[slot].take().unwrap();
            assert(new_board@.blue_hand =~= board@.blue_hand.update(slot as int, None));
            card
        },
    };
    assert(new_board@.cards =~= board@.cards);
    assert(new_board@.tiles =~= board@.tiles);
    new_board.put_card(card, cell);
    new_board.check(cell, true);
    new_board
}

/// The best value so far as the specification counts it.
pub open spec fn as_value(best: Option<(usize, usize)>) -> Option<(int, int)> {
    match best {
        Some(kept) => Some((kept.0 as int, kept.1 as int)),
        None => None,
    }
}

/// The score that the search assigns to `board` with `turn` to move and
/// `depth` plies to look ahead.
pub fn solve_recur(turn: Suit, board: &BoardSimple, depth: usize) -> (score: (usize, usize))
    requires
        board.wf(),
    ensures
        score.0 == search_value(turn, board@, depth as nat).0,
        score.1 == search_value(turn, board@, depth as nat).1,
    decreases depth,
{
    if depth < 1 {
        return board.score();
    }
    if board.empty_cells() == 0 {
        return board.score();
    }
    let hand = match turn {
        Suit::Blue => board.blue_hand,
        Suit::Red => board.red_hand,
    };
    assert(hand@ == board@.hand(turn));
    if BoardSimple::cards_in_hand(&hand) == 0 {
        return board.score();
    }
    let ghost target = best_from(turn, board@, depth as nat, 0, None);
    let mut best_score: Option<(usize, usize)> = None;
    let mut n: usize = 0;
    while n < 5
        invariant
            n <= 5,
            depth >= 1,
            board.wf(),
            hand@ == board@.hand(turn),
            best_from(turn, board@, depth as nat, n * 9, as_value(best_score)) == target,
        decreases 5 - n,
    {
        let mut m: usize = 0;
        while m < 9
            invariant
                n < 5,
                m <= 9,
                depth >= 1,
                board.wf(),
                hand@ == board@.hand(turn),
                best_from(turn, board@, depth as nat, n * 9 + m, as_value(best_score)) == target,
            decreases 9 - m,
        {
            let ghost k = n * 9 + m;
            assert(k / 9 == n && k % 9 == m);
            if hand[n].is_some() && board.board[m].card.is_none() {
                let new_board = play(board, turn, n, m);
                let score = solve_recur(turn.opponent(), &new_board, depth - 1);
                let better = match best_score {
                    None => true,
                    Some(kept) => match turn {
                        Suit::Red => score.0 > kept.0,
                        Suit::Blue => score.1 > kept.1,
                    },
                };
                assert(better == beats(
                    turn,
                    (score.0 as int, score.1 as int),
                    as_value(best_score),
                ));
                if better {
                    best_score = Some(score);
                }
            }
            m += 1;
        }
        n += 1;
    }
    match best_score {
        Some(score) => score,
        None => board.score(),
    }
}

/// The move that the automated side finds for the card in hand slot `n`,
/// looking `depth` plies ahead.
pub fn solve(n: usize, board: &BoardSimple, depth: usize) -> (found: Move)
    requires
        board.wf(),
        n < 5,
        board@.red_hand[n as int] is Some,
        depth >= 1,
    ensures
        found == best_move(board@, n as int, depth as nat),
{
    if board.empty_cells() == 1 {
        let mut from: usize = 0;
        while from < 5 && board.red_hand[from].is_none()
            invariant
                from <= 5,
                first_card(board@.red_hand, from as int) == first_card(board@.red_hand, 0),
            decreases 5 - from,
        {
            from += 1;
        }
        let mut to: usize = 0;
        while to < 9 && board.board[to].card.is_some()
            invariant
                to <= 9,
                first_gap(board@.cards, to as int) == first_gap(board@.cards, 0),
            decreases 9 - to,
        {
            to += 1;
        }
        return Move { from, to, score: LAST_CELL_SCORE };
    }
    let mut best_move: Option<Move> = None;
    let mut i: usize = 0;
    while i < 9
        invariant
            i <= 9,
            n < 5,
            depth >= 1,
            board.wf(),
            board@.red_hand[n as int] is Some,
            best_move_from(board@, n as int, depth as nat, i as int, best_move) == best_move_from(
                board@,
                n as int,
                depth as nat,
                0,
                None,
            ),
        decreases 9 - i,
    {
        if board.board[i].card.is_none() {
            let new_board = play(board, Suit::Red, n, i);
            let score = solve_recur(Suit::Blue, &new_board, depth - 1);
            let better = match best_move {
                None => true,
                Some(kept) => score.0 > kept.score,
            };
            if better {
                best_move = Some(Move { from: n, to: i, score: score.0 });
            }
        }
        i += 1;
    }
    match best_move {
        Some(found) => found,
        None => Move::new(),
    }
}

} // verus!
