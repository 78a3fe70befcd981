//! Why play can always go on: every step of the round leads from a
//! well-formed round to a well-formed round.

use vstd::prelude::*;
use crate::ai::OpponentModel;
use crate::board::checks::{
    checked_through, lemma_checked_through_same, lemma_unchecked_cells, same_cards, unchecked_cells,
};
use crate::board::model::{count_from, hand_owned, pending, stack_shape, GameModel, Input, State, TurnPhase};
use crate::board::setup::{lemma_count_from_bounds, opened, placed};
use crate::board::turn::{pick_phase, ticked_all};
use crate::cards::Suit;
use crate::entity::{all_wf, CardEntity, CardTick};
use crate::hand::{count_cards, lemma_count_cards_update, HandModel};
use crate::opponent::AiEvent;

verus! {

/// Two rows hold cards in the same slots, from the same hands.
pub open spec fn same_layout(a: Seq<Option<CardEntity>>, b: Seq<Option<CardEntity>>) -> bool {
    a.len() == b.len() && forall|j: int|
        0 <= j < a.len() ==> match (#[trigger] a[j], b[j]) {
            (Some(x), Some(y)) => x.owner == y.owner,
            (None, None) => true,
            _ => false,
        }
}

/// Rows of the same layout hold equally many cards, and equally many from
/// each hand.
pub proof fn lemma_layout_counts(a: Seq<Option<CardEntity>>, b: Seq<Option<CardEntity>>, upto: int)
    requires
        same_layout(a, b),
        upto <= a.len(),
    ensures
        count_cards(a, upto) == count_cards(b, upto),
        count_from(a, Suit::Red, upto) == count_from(b, Suit::Red, upto),
        count_from(a, Suit::Blue, upto) == count_from(b, Suit::Blue, upto),
    decreases upto,
{
    if upto > 0 {
        lemma_layout_counts(a, b, upto - 1);
        assert(a[upto - 1] is Some <==> b[upto - 1] is Some);
    }
}

/// Writing to slot `k` changes the count of the cards from a hand by what
/// the slot gains or loses.
pub proof fn lemma_count_from_update(
    cards: Seq<Option<CardEntity>>,
    k: int,
    slot: Option<CardEntity>,
    side: Suit,
    upto: int,
)
    requires
        0 <= k < cards.len(),
        upto <= cards.len(),
    ensures
        count_from(cards.update(k, slot), side, upto) == count_from(cards, side, upto) + (if k
            < upto {
            (match slot {
                Some(card) => if card.owner == side { 1int } else { 0 },
                None => 0,
            }) - (match cards[k] {
                Some(card) => if card.owner == side { 1int } else { 0 },
                None => 0,
            })
        } else {
            0
        }),
    decreases upto,
{
    if upto > 0 {
        lemma_count_from_update(cards, k, slot, side, upto - 1);
    }
}

/// The automated side stays ready when the cards only change their looks.
pub proof fn lemma_ready_layout(
    ai: OpponentModel,
    red: HandModel,
    field: Seq<Option<CardEntity>>,
    red_after: HandModel,
    field_after: Seq<Option<CardEntity>>,
)
    requires
        ai.ready(red, field),
        red.cards.len() == 5,
        field.len() == 9,
        same_layout(red_after.cards, red.cards),
        same_layout(field_after, field),
        red_after.selected == red.selected,
    ensures
        ai.ready(red_after, field_after),
{
    lemma_layout_counts(red_after.cards, red.cards, 5);
    if ai.actions.len() == 0 {
    } else if ai.actions.len() == 1 && ai.actions[0] is Put {
        assert(red_after.cards[ai.actions[0]->Put_0 as int] is Some <==> red.cards[ai.actions[0]->Put_0 as int] is Some);
        assert(field_after[ai.actions[0]->Put_1 as int] is Some <==> field[ai.actions[0]->Put_1 as int] is Some);
    } else {
        assert forall|j: int| 1 <= j < ai.actions.len() implies (#[trigger] ai.actions[j]) is Check
            && ai.actions[j]->Check_0 < 5 && red_after.cards[ai.actions[j]->Check_0 as int] is Some by {
            let i = ai.actions[j]->Check_0 as int;
            assert(red_after.cards[i] is Some <==> red.cards[i] is Some);
        }
        match ai.maybe_move {
            Some(m) => {
                assert(red_after.cards[m.from as int] is Some <==> red.cards[m.from as int] is Some);
                assert(field_after[m.to as int] is Some <==> field[m.to as int] is Some);
            },
            None => {},
        }
        if ai.thread_status == crate::ai::ThreadStatus::Finished {
            let m = ai.solve_result;
            assert(red_after.cards[m.from as int] is Some <==> red.cards[m.from as int] is Some);
            assert(field_after[m.to as int] is Some <==> field[m.to as int] is Some);
        }
    }
}

/// A tick leaves every card where it is and as well formed as it was; a
/// card of a hand stays with its side.
pub proof fn lemma_ticked_all(cards: Seq<Option<CardEntity>>, ticks: Seq<CardTick>)
    requires
        all_wf(cards),
    ensures
        same_layout(ticked_all(cards, ticks), cards),
        all_wf(ticked_all(cards, ticks)),
        forall|side: Suit| hand_owned(cards, side) ==> hand_owned(ticked_all(cards, ticks), side),
{
    let after = ticked_all(cards, ticks);
    assert forall|j: int| 0 <= j < cards.len() implies match (#[trigger] after[j], cards[j]) {
        (Some(x), Some(y)) => x.owner == y.owner,
        (None, None) => true,
        _ => false,
    } by {}
    assert forall|i: int| 0 <= i < after.len() implies match #[trigger] after[i] {
        Some(card) => card.wf(),
        None => true,
    } by {
        assert(match cards[i] {
            Some(card) => card.wf(),
            None => true,
        });
    }
    assert forall|side: Suit| hand_owned(cards, side) implies hand_owned(after, side) by {
        assert forall|i: int| 0 <= i < after.len() implies match #[trigger] after[i] {
            Some(card) => {
                &&& card.owner == side
                &&& card.controller == side
                &&& card.elemental_effect == crate::entity::ElementalEffect::NoEffect
                &&& card.flip_animation.active ==> card.flip_animation.direction
                    == crate::entity::FlipDirection::Open
            },
            None => true,
        } by {
            assert(match cards[i] {
                Some(card) => card.owner == side,
                None => true,
            });
        }
    }
}

/// The search sees a card wherever the live round has one, and sees it
/// with the side that controls it.
pub proof fn lemma_simples_counts(cards: Seq<Option<CardEntity>>, upto: int)
    requires
        upto <= cards.len(),
    ensures
        crate::snapshot::count_held(crate::entity::simples(cards), upto) == count_cards(cards, upto),
    decreases upto,
{
    if upto > 0 {
        lemma_simples_counts(cards, upto - 1);
    }
}

/// The two scores of a round add up to the number of its cards: every card
/// counts for exactly one side, in a hand or on the board, whichever way it
/// is turned.
pub proof fn lemma_score_counts_every_card(g: GameModel)
    requires
        g.sound(),
    ensures
        g.score().0 + g.score().1 == g.card_count(),
        g.score().0 >= 0,
        g.score().1 >= 0,
{
    crate::snapshot::lemma_score_counts_every_card(g.snapshot());
    lemma_simples_counts(g.cards, 9);
    lemma_simples_counts(g.red_hand.cards, 5);
    lemma_simples_counts(g.blue_hand.cards, 5);
}

/// Once both hands have been dealt, the two scores add up to ten, and every
/// tick keeps it so: the round stays well formed, and no step creates or
/// destroys a card.
pub proof fn lemma_score_is_ten(g: GameModel)
    requires
        g.sound(),
        g.dealt(),
    ensures
        g.score().0 + g.score().1 == 10,
        g.card_count() == 10,
{
    lemma_score_counts_every_card(g);
    lemma_count_from_bounds(g.cards, 9);
}

/// A tick lays no tile, takes none away, and changes the element of none:
/// the tiles of a round stay what they were when it was set up. Only their
/// glow comes and goes.
pub proof fn lemma_step_keeps_tiles(g: GameModel, input: Input)
    requires
        g.wf(),
    ensures
        crate::entity::tile_elements(g.step(input).0.elem) == crate::entity::tile_elements(g.elem),
{
    let after = g.step(input).0;
    assert(after.elem.len() == 9);
    assert(crate::entity::tile_elements(after.elem) =~= crate::entity::tile_elements(g.elem));
}

/// Two rows hold the same cards in the same slots, whatever their
/// animations and whoever controls them.
pub open spec fn same_placed(a: Seq<Option<CardEntity>>, b: Seq<Option<CardEntity>>) -> bool {
    a.len() == b.len() && forall|j: int|
        0 <= j < a.len() ==> (#[trigger] b[j]) is Some ==> a[j] is Some && a[j].unwrap().id
            == b[j].unwrap().id && a[j].unwrap().owner == b[j].unwrap().owner
            && a[j].unwrap().rank == b[j].unwrap().rank && a[j].unwrap().elemental_effect
            == b[j].unwrap().elemental_effect
}

/// A round of checks takes no card off the board and changes none.
pub proof fn lemma_all_checked_placed(g: GameModel)
    requires
        g.sound(),
    ensures
        same_placed(g.all_checked().cards, g.cards),
{
    let due = unchecked_cells(g.cards, 9);
    lemma_unchecked_cells(g.cards, 9);
    lemma_checked_through_same(g.cards, g.rules, due, due.len() as int);
    let after = checked_through(g.cards, g.rules, due, due.len() as int);
    assert(same_cards(after, g.cards));
    assert forall|j: int| 0 <= j < 9 && (#[trigger] g.cards[j]) is Some implies after[j] is Some
        && after[j].unwrap().id == g.cards[j].unwrap().id && after[j].unwrap().owner
        == g.cards[j].unwrap().owner && after[j].unwrap().rank == g.cards[j].unwrap().rank
        && after[j].unwrap().elemental_effect == g.cards[j].unwrap().elemental_effect by {
        assert(match (after[j], g.cards[j]) {
            (Some(x), Some(y)) => x == (CardEntity { flip_animation: x.flip_animation, ..y }),
            (None, None) => true,
            _ => false,
        });
    }
}

/// A tick takes no card off the board: a cell that holds a card keeps it,
/// with its owner, its ranks and its elemental modifier.
pub proof fn lemma_step_keeps_placed(g: GameModel, input: Input)
    requires
        g.wf(),
    ensures
        same_placed(g.step(input).0.cards, g.cards),
{
    let moved = g.animated(input);
    lemma_animated_wf(g, input);
    assert(same_placed(moved.cards, g.cards));
    let after = moved.phase_step(input).0;
    match moved.top() {
        State::Check => {
            lemma_all_checked_placed(moved);
            assert(same_placed(after.cards, moved.cards));
        },
        State::ComboCheck => {
            if moved.flips_done() {
                lemma_all_checked_placed(moved.popped());
            }
            assert(same_placed(after.cards, moved.cards));
        },
        State::BluePlayerTurn(TurnPhase::Place) => {
            assert(same_placed(after.cards, moved.cards));
        },
        State::RedPlayerTurn(_) => {
            let ai = moved.ai;
            let thought = ai.think(
                input.dt,
                moved.red_hand,
                moved.blue_hand,
                moved.cards,
                moved.elem,
                moved.rules,
            );
            assert(ai.ready(moved.red_hand, moved.cards));
            if ai.actions.len() == 0 {
                crate::ai::lemma_queued(moved.red_hand.cards, 0);
                crate::ai::lemma_counted_card(moved.red_hand.cards, 5);
                assert(crate::ai::queued(moved.red_hand.cards, 0).last() is Check);
            } else if ai.actions.len() == 1 && ai.actions[0] is Put {
                assert(moved.cards[ai.actions[0]->Put_1 as int] is None);
            } else if ai.actions.len() > 1 {
                assert(ai.actions[ai.actions.len() - 1] is Check);
            }
            match thought.event {
                Some(AiEvent::Put(to)) => {
                    assert(to < 9 && moved.cards[to as int] is None);
                },
                _ => {},
            }
            assert(same_placed(after.cards, moved.cards));
        },
        _ => {
            assert(after.cards == moved.cards);
        },
    }
    assert forall|j: int| 0 <= j < 9 && (#[trigger] g.cards[j]) is Some implies after.cards[j] is Some
        && after.cards[j].unwrap().id == g.cards[j].unwrap().id && after.cards[j].unwrap().owner
        == g.cards[j].unwrap().owner && after.cards[j].unwrap().rank == g.cards[j].unwrap().rank
        && after.cards[j].unwrap().elemental_effect == g.cards[j].unwrap().elemental_effect by {
        assert(moved.cards[j] is Some);
    }
}

/// The side that is to move in a round with room on the board holds a
/// card.
pub proof fn lemma_mover_holds_card(g: GameModel, side: Suit)
    requires
        g.sound(),
        g.dealt(),
        pending(g.stack) == Some(side),
        g.balanced(),
        count_cards(g.cards, 9) <= 8,
    ensures
        count_cards(g.hand(side).cards, 5) > 0,
{
    lemma_count_from_bounds(g.cards, 9);
}

/// Moving the animations on keeps the round well formed.
pub proof fn lemma_animated_wf(g: GameModel, input: Input)
    requires
        g.wf(),
    ensures
        g.animated(input).wf(),
        g.animated(input).stack == g.stack,
{
    let after = g.animated(input);
    lemma_ticked_all(g.cards, input.field@);
    lemma_ticked_all(g.red_hand.cards, input.red@);
    lemma_ticked_all(g.blue_hand.cards, input.blue@);
    lemma_layout_counts(after.cards, g.cards, 9);
    lemma_layout_counts(after.red_hand.cards, g.red_hand.cards, 5);
    lemma_layout_counts(after.blue_hand.cards, g.blue_hand.cards, 5);
    assert(hand_owned(g.red_hand.cards, Suit::Red));
    assert(hand_owned(g.blue_hand.cards, Suit::Blue));
    if g.stack.len() >= 1 && g.top() is RedPlayerTurn {
        lemma_ready_layout(g.ai, g.red_hand, g.cards, after.red_hand, after.cards);
    }
    match g.blue_hand.selected {
        Some(i) => {
            assert(after.blue_hand.cards[i as int] is Some <==> g.blue_hand.cards[i as int] is Some);
        },
        None => {},
    }
    match g.red_hand.selected {
        Some(i) => {
            assert(after.red_hand.cards[i as int] is Some <==> g.red_hand.cards[i as int] is Some);
        },
        None => {},
    }
}

/// The deal leads to a well-formed round.
pub proof fn lemma_started_wf(g: GameModel)
    requires
        g.wf(),
        g.top() == State::Start,
    ensures
        g.started().wf(),
{
    let after = g.started();
    if after != g {
        let side = pending(g.stack).unwrap();
        lemma_mover_holds_card(g, side);
        if g.rules.open {
            let shown = opened(g.red_hand.cards);
            assert(same_layout(shown, g.red_hand.cards));
            lemma_layout_counts(shown, g.red_hand.cards, 5);
            assert(all_wf(shown)) by {
                assert forall|i: int| 0 <= i < shown.len() implies match #[trigger] shown[i] {
                    Some(card) => card.wf(),
                    None => true,
                } by {
                    assert(match g.red_hand.cards[i] {
                        Some(card) => card.wf(),
                        None => true,
                    });
                }
            }
            assert(hand_owned(shown, Suit::Red)) by {
                assert forall|i: int| 0 <= i < shown.len() implies match #[trigger] shown[i] {
                    Some(card) => {
                        &&& card.owner == Suit::Red
                        &&& card.controller == Suit::Red
                        &&& card.elemental_effect == crate::entity::ElementalEffect::NoEffect
                        &&& card.flip_animation.active ==> card.flip_animation.direction
                            == crate::entity::FlipDirection::Open
                    },
                    None => true,
                } by {
                    assert(match g.red_hand.cards[i] {
                        Some(card) => card.owner == Suit::Red,
                        None => true,
                    });
                }
            }
            assert(after.stack =~= seq![g.stack[0], g.stack[1], State::Check]);
        } else {
            assert(after.stack =~= seq![g.stack[0], g.stack[1]]);
        }
    }
}

/// Blue's choice of a card leads to a well-formed round.
pub proof fn lemma_blue_pick_wf(g: GameModel, input: Input)
    requires
        g.wf(),
        g.top() == State::BluePlayerTurn(TurnPhase::Pick),
    ensures
        g.blue_pick(input).0.wf(),
{
    let after = g.blue_pick(input).0;
    match g.hover(input) {
        Some(i) => {
            if input.left_pressed {
                let chosen = g.blue_hand.focused_on(i).selecting(i);
                assert(same_layout(chosen.cards, g.blue_hand.cards));
                lemma_layout_counts(chosen.cards, g.blue_hand.cards, 5);
                assert(g.blue_hand.cards[i as int].unwrap().wf());
                assert(after.stack =~= seq![g.stack[0], State::BluePlayerTurn(TurnPhase::Place)]);
            }
        },
        None => {},
    }
}

/// Playing the selected card of the side at its turn on an empty cell leads
/// to a well-formed round.
pub proof fn lemma_placement_wf(g: GameModel, side: Suit, cell: usize)
    requires
        g.sound(),
        stack_shape(g.stack),
        g.stack.len() == 2,
        pending(g.stack) == Some(side),
        g.dealt(),
        g.balanced(),
        g.ai.idle(),
        side == Suit::Blue ==> g.red_hand.selected is None,
        g.hand(side).selected is Some,
        cell < 9,
        g.cards[cell as int] is None,
    ensures
        g.with_placement(side, cell).wf(),
{
    let after = g.with_placement(side, cell);
    let hand = g.hand(side);
    let slot = hand.selected.unwrap() as int;
    let card = hand.cards[slot].unwrap();
    assert(card.wf());
    assert(card.owner == side);
    let put = placed(card, g.elem[cell as int]);
    lemma_count_cards_update(hand.cards, slot, None, 5);
    lemma_count_cards_update(g.cards, cell as int, Some(put), 9);
    lemma_count_from_update(g.cards, cell as int, Some(put), Suit::Red, 9);
    lemma_count_from_update(g.cards, cell as int, Some(put), Suit::Blue, 9);
    assert(after.stack =~= seq![
        g.stack[0],
        State::NextTurn(side.other()),
        State::Check,
        State::WaitingMove,
    ]);
    assert(all_wf(after.cards));
    assert(hand_owned(hand.played().cards, side));
    assert(all_wf(hand.played().cards));
}

/// Blue's placing leads to a well-formed round.
pub proof fn lemma_blue_place_wf(g: GameModel, input: Input)
    requires
        g.wf(),
        g.top() == State::BluePlayerTurn(TurnPhase::Place),
    ensures
        g.blue_place(input).0.wf(),
{
    let after = g.blue_place(input).0;
    if !(input.left_pressed || input.right_pressed) {
    } else if input.right_pressed || input.cell_hover is None || input.cell_hover.unwrap() >= 9 {
        assert(after.stack =~= seq![g.stack[0], State::BluePlayerTurn(TurnPhase::Pick)]);
    } else if g.cards[input.cell_hover.unwrap() as int] is None {
        lemma_placement_wf(g, Suit::Blue, input.cell_hover.unwrap());
    }
}

/// Red's turn leads to a well-formed round, given what thinking
/// guarantees.
pub proof fn lemma_red_turn_wf(g: GameModel, input: Input)
    requires
        g.wf(),
        g.top() is RedPlayerTurn,
        ({
            let thought = g.ai.think(
                input.dt,
                g.red_hand,
                g.blue_hand,
                g.cards,
                g.elem,
                g.rules,
            );
            &&& thought.red_hand.wf()
            &&& match thought.event {
                Some(AiEvent::Put(to)) => {
                    &&& thought.ai.idle()
                    &&& thought.red_hand.selected is Some
                    &&& to < 9
                    &&& g.cards[to as int] is None
                },
                _ => thought.ai.ready(thought.red_hand, g.cards),
            }
        }),
    ensures
        g.red_turn(input).0.wf(),
{
    let thought = g.ai.think(input.dt, g.red_hand, g.blue_hand, g.cards, g.elem, g.rules);
    let after = GameModel { ai: thought.ai, red_hand: thought.red_hand, ..g };
    lemma_think_keeps_hand(g, input);
    lemma_layout_counts(thought.red_hand.cards, g.red_hand.cards, 5);
    match thought.event {
        Some(AiEvent::Put(to)) => {
            lemma_placement_wf(after, Suit::Red, to);
        },
        _ => {},
    }
}

/// Taking the next action leaves the cards of Red's hand where they are
/// and with their side.
pub proof fn lemma_act_keeps_hand(
    ai: OpponentModel,
    red: HandModel,
    blue: HandModel,
    field: Seq<Option<CardEntity>>,
    elem: Seq<Option<crate::entity::ElementEntity>>,
    rules: crate::cards::Rules,
)
    requires
        red.cards.len() == 5,
        hand_owned(red.cards, Suit::Red),
        ai.actions.len() > 0,
        match ai.actions.last() {
            crate::ai::Action::Put(from, to) => from < 5 && red.cards[from as int] is Some
                && red.selected is None,
            _ => true,
        },
    ensures
        same_layout(ai.act(red, blue, field, elem, rules).red_hand.cards, red.cards),
        hand_owned(ai.act(red, blue, field, elem, rules).red_hand.cards, Suit::Red),
        ai.act(red, blue, field, elem, rules).red_hand.side == red.side,
        ai.act(red, blue, field, elem, rules).ai.diffuculty == ai.diffuculty,
        ai.act(red, blue, field, elem, rules).ai.timer == ai.timer || ai.act(
            red,
            blue,
            field,
            elem,
            rules,
        ).ai.timer == crate::ai::TIMEOUT,
{
    let thought = ai.act(red, blue, field, elem, rules);
    assert(thought.red_hand.cards.len() == 5);
    assert forall|i: int| 0 <= i < 5 implies match #[trigger] thought.red_hand.cards[i] {
        Some(card) => {
            &&& card.owner == Suit::Red
            &&& card.controller == Suit::Red
            &&& card.elemental_effect == crate::entity::ElementalEffect::NoEffect
            &&& card.flip_animation.active ==> card.flip_animation.direction
                == crate::entity::FlipDirection::Open
            &&& red.cards[i] is Some
        },
        None => red.cards[i] is None,
    } by {
        assert(match red.cards[i] {
            Some(card) => card.owner == Suit::Red,
            None => true,
        });
    }
    assert forall|j: int| 0 <= j < 5 implies match (#[trigger] thought.red_hand.cards[j], red.cards[j]) {
        (Some(x), Some(y)) => x.owner == y.owner,
        (None, None) => true,
        _ => false,
    } by {
        assert(match red.cards[j] {
            Some(card) => card.owner == Suit::Red,
            None => true,
        });
    }
}

/// Thinking leaves the cards of Red's hand where they are, with their side,
/// and turns none of them over.
pub proof fn lemma_think_keeps_hand(g: GameModel, input: Input)
    requires
        g.sound(),
        g.ai.ready(g.red_hand, g.cards),
    ensures
        ({
            let thought = g.ai.think(
                input.dt,
                g.red_hand,
                g.blue_hand,
                g.cards,
                g.elem,
                g.rules,
            );
            &&& same_layout(thought.red_hand.cards, g.red_hand.cards)
            &&& hand_owned(thought.red_hand.cards, Suit::Red)
            &&& thought.red_hand.side == Suit::Red
            &&& thought.ai.diffuculty == g.ai.diffuculty
            &&& -1 <= thought.ai.timer <= crate::ai::TIMEOUT
        }),
{
    let waited = OpponentModel { timer: crate::ai::cooled(g.ai.timer, input.dt), ..g.ai };
    assert(hand_owned(g.red_hand.cards, Suit::Red));
    if waited.timer >= 0 || g.ai.thread_status == crate::ai::ThreadStatus::Active {
        assert(same_layout(g.red_hand.cards, g.red_hand.cards));
    } else if g.ai.actions.len() == 0 {
        crate::ai::lemma_queued(g.red_hand.cards, 0);
        crate::ai::lemma_counted_card(g.red_hand.cards, 5);
        let planned = OpponentModel {
            maybe_move: None,
            actions: crate::ai::queued(g.red_hand.cards, 0),
            ..waited
        };
        assert(planned.actions.last() is Check);
        lemma_act_keeps_hand(planned, g.red_hand, g.blue_hand, g.cards, g.elem, g.rules);
    } else {
        if g.ai.actions.len() == 1 && g.ai.actions[0] is Put {
        } else if g.ai.actions.len() > 1 {
            assert(g.ai.actions[g.ai.actions.len() - 1] is Check);
        }
        lemma_act_keeps_hand(waited, g.red_hand, g.blue_hand, g.cards, g.elem, g.rules);
    }
}

/// The change of turn leads to a well-formed round.
pub proof fn lemma_turn_passed_wf(g: GameModel, side: Suit)
    requires
        g.wf(),
        g.top() == State::NextTurn(side),
    ensures
        g.replaced_top(pick_phase(side)).wf(),
{
    let after = g.replaced_top(pick_phase(side));
    assert(after.stack =~= seq![g.stack[0], pick_phase(side)]);
    lemma_mover_holds_card(g, side);
}

/// The checks of a round of checks keep the cards where they are.
pub proof fn lemma_all_checked_layout(g: GameModel)
    requires
        g.sound(),
    ensures
        same_layout(g.all_checked().cards, g.cards),
        all_wf(g.all_checked().cards),
        g.all_checked().cards.len() == 9,
{
    let due = unchecked_cells(g.cards, 9);
    lemma_unchecked_cells(g.cards, 9);
    lemma_checked_through_same(g.cards, g.rules, due, due.len() as int);
    let after = checked_through(g.cards, g.rules, due, due.len() as int);
    assert(same_cards(after, g.cards));
    assert forall|j: int| 0 <= j < after.len() implies match (#[trigger] after[j], g.cards[j]) {
        (Some(x), Some(y)) => x.owner == y.owner,
        (None, None) => true,
        _ => false,
    } by {}
}

/// The check leads to a well-formed round.
pub proof fn lemma_check_wf(g: GameModel)
    requires
        g.wf(),
        g.top() == State::Check,
    ensures
        g.check().0.wf(),
{
    let after = g.check().0;
    crate::hand::lemma_count_cards_uniform(g.cards, 9);
    lemma_all_checked_layout(g);
    lemma_layout_counts(g.all_checked().cards, g.cards, 9);
    lemma_layout_counts(after.cards, g.cards, 9);
    assert(g.stack.len() == 3);
    let side = pending(g.stack).unwrap();
    if after.stack.len() == 4 {
        assert(after.stack =~= seq![g.stack[0], g.stack[1], State::Check, State::ComboCheck]);
    } else if after.stack.len() == 2 {
        assert(after.stack =~= seq![g.stack[0], g.stack[1]]);
        lemma_mover_holds_card(after, side);
    } else if after.stack.len() == 1 {
        assert(after.stack =~= seq![g.stack[0]]);
    }
}

/// The combination check leads to a well-formed round.
pub proof fn lemma_combo_check_wf(g: GameModel)
    requires
        g.wf(),
        g.top() == State::ComboCheck,
    ensures
        g.combo_check().0.wf(),
{
    let after = g.combo_check().0;
    if g.flips_done() {
        let ended = g.popped();
        assert(ended.stack =~= seq![g.stack[0], g.stack[1], State::Check]);
        lemma_all_checked_layout(ended);
        lemma_layout_counts(ended.all_checked().cards, g.cards, 9);
    }
}

/// The wait for a placed card leads to a well-formed round.
pub proof fn lemma_move_waited_wf(g: GameModel)
    requires
        g.wf(),
        g.top() == State::WaitingMove,
    ensures
        g.move_waited().wf(),
{
    let after = g.move_waited();
    if after != g {
        assert(after.stack =~= seq![g.stack[0], g.stack[1], State::Check]);
    }
}

/// Thinking keeps the automated side in step with Red's hand and the
/// board: the hand stays well formed; when a card is to be placed, it is
/// selected, its cell is an empty cell of the board, and the automated side
/// rests; after any other step it is ready to think on.
pub proof fn lemma_think_sound(g: GameModel, input: Input)
    requires
        g.sound(),
        g.ai.ready(g.red_hand, g.cards),
    ensures
        ({
            let thought = g.ai.think(
                input.dt,
                g.red_hand,
                g.blue_hand,
                g.cards,
                g.elem,
                g.rules,
            );
            &&& thought.red_hand.wf()
            &&& match thought.event {
                Some(AiEvent::Put(to)) => {
                    &&& thought.ai.idle()
                    &&& thought.red_hand.selected is Some
                    &&& to < 9
                    &&& g.cards[to as int] is None
                },
                _ => thought.ai.ready(thought.red_hand, g.cards),
            }
        }),
{
    let ai = g.ai;
    let red = g.red_hand;
    let waited = OpponentModel { timer: crate::ai::cooled(ai.timer, input.dt), ..ai };
    let thought = ai.think(input.dt, red, g.blue_hand, g.cards, g.elem, g.rules);
    lemma_think_keeps_hand(g, input);
    lemma_layout_counts(thought.red_hand.cards, red.cards, 5);
    if waited.timer >= 0 || ai.thread_status == crate::ai::ThreadStatus::Active {
        assert(thought.ai == waited);
        assert(waited.ready(red, g.cards));
    } else if ai.actions.len() == 0 {
        crate::ai::lemma_queued(red.cards, 0);
        crate::ai::lemma_counted_card(red.cards, 5);
        let planned = OpponentModel {
            maybe_move: None,
            actions: crate::ai::queued(red.cards, 0),
            ..waited
        };
        assert(planned.actions.last() is Check);
        assert(planned.actions.last() == planned.actions[planned.actions.len() - 1]);
        lemma_act_sound(planned, g);
    } else {
        lemma_act_sound(waited, g);
    }
}

/// `lemma_think_sound` for the action taken.
pub proof fn lemma_act_sound(ai: OpponentModel, g: GameModel)
    requires
        g.sound(),
        ai.ready(g.red_hand, g.cards),
        ai.actions.len() > 0,
        ai.timer < 0,
        ai.thread_status != crate::ai::ThreadStatus::Active,
    ensures
        ({
            let thought = ai.act(g.red_hand, g.blue_hand, g.cards, g.elem, g.rules);
            &&& thought.red_hand.wf()
            &&& match thought.event {
                Some(AiEvent::Put(to)) => {
                    &&& thought.ai.idle()
                    &&& thought.red_hand.selected is Some
                    &&& to < 9
                    &&& g.cards[to as int] is None
                },
                _ => thought.ai.ready(thought.red_hand, g.cards),
            }
        }),
{
    let red = g.red_hand;
    let thought = ai.act(red, g.blue_hand, g.cards, g.elem, g.rules);
    let last = ai.actions[ai.actions.len() - 1];
    assert(ai.actions.last() == last);
    match last {
        crate::ai::Action::Check(i) => {
            assert(ai.actions.len() >= 2);
            assert(i < 5 && red.cards[i as int] is Some);
            if ai.thread_status == crate::ai::ThreadStatus::Finished {
                let rest = ai.actions.drop_last();
                assert forall|j: int| 1 <= j < rest.len() implies (#[trigger] rest[j]) is Check
                    && rest[j]->Check_0 < 5 && red.cards[rest[j]->Check_0 as int] is Some by {
                    assert(rest[j] == ai.actions[j]);
                }
                assert(rest[0] == ai.actions[0]);
            }
        },
        crate::ai::Action::Put(from, to) => {
            assert(ai.actions.len() == 1);
            assert(red.cards[from as int].unwrap().wf());
        },
        crate::ai::Action::PutBest => {
            assert(ai.actions.len() == 1);
            let m = ai.maybe_move.unwrap();
            let next = ai.actions.drop_last().push(crate::ai::Action::Put(m.from, m.to));
            assert(next.len() == 1);
            assert(next[0] == crate::ai::Action::Put(m.from, m.to));
        },
    }
}

/// Every tick leads from a round that play can go on from to a round that
/// play can go on from.
pub proof fn lemma_step_wf(g: GameModel, input: Input)
    requires
        g.wf(),
    ensures
        g.step(input).0.wf(),
{
    let moved = g.animated(input);
    lemma_animated_wf(g, input);
    match moved.top() {
        State::WaitingPick => {},
        State::Start => lemma_started_wf(moved),
        State::BluePlayerTurn(TurnPhase::Pick) => lemma_blue_pick_wf(moved, input),
        State::BluePlayerTurn(TurnPhase::Place) => lemma_blue_place_wf(moved, input),
        State::RedPlayerTurn(_) => {
            lemma_think_sound(moved, input);
            lemma_red_turn_wf(moved, input);
        },
        State::NextTurn(side) => lemma_turn_passed_wf(moved, side),
        State::Check => lemma_check_wf(moved),
        State::ComboCheck => lemma_combo_check_wf(moved),
        State::WaitingMove => lemma_move_waited_wf(moved),
        State::Finish => {},
    }
}

/// Once both hands have been dealt, every tick leaves the two scores adding
/// up to ten: the round does not go back to waiting for Blue's choice, and
/// no step creates or destroys a card.
pub proof fn lemma_step_keeps_ten(g: GameModel, input: Input)
    requires
        g.wf(),
        g.top() != State::WaitingPick,
    ensures
        g.score().0 + g.score().1 == 10,
        g.step(input).0.top() != State::WaitingPick,
        g.step(input).0.score().0 + g.step(input).0.score().1 == 10,
{
    lemma_step_wf(g, input);
    lemma_score_is_ten(g);
    let after = g.step(input).0;
    assert(after.stack.len() >= 1);
    let n = after.stack.len();
    if after.stack[n - 1] == State::WaitingPick {
        assert(n == 4);
    }
    lemma_score_is_ten(after);
}

} // verus!
