use std::rc::Rc;
use triple_triad::ai::{Action, Opponent as Ai, ThreadStatus};
use triple_triad::cards::{Card, CardAtlas, Element, Rank, Rules, Suit};
use triple_triad::entity::{
    CardEntity, CardTick, ElementEntity, ElementalEffect, FlipAnimation, FlipDirection, FlipStage,
    MoveAnimation,
};
use triple_triad::hand::Hand;
use triple_triad::opponent::{AiEvent, Opponent};
use triple_triad::search::Move;
use triple_triad::snapshot::{BoardSimple, CardSimple};

fn atlas() -> Rc<CardAtlas> {
    let mut cards = Vec::new();
    for id in 0..110 {
        cards.push(Card {
            id,
            name: format!("card {}", id),
            level: (id / 11 + 1) as u8,
            pow_left: 4,
            pow_right: 2,
            pow_top: if id == 7 { 0 } else { 1 },
            pow_bottom: if id == 7 { 10 } else { 3 },
            element: if id == 7 { Some(Element::Poison) } else { None },
        });
    }
    Rc::new(CardAtlas { cards })
}

fn flip_done() -> CardTick {
    CardTick { deal_finished: false, move_finished: false, flip_finished: true }
}

#[test]
fn a_card_takes_its_ranks_from_the_catalogue() {
    let atlas = atlas();
    let card = CardEntity::new(7, Suit::Blue, Suit::Red, true, &atlas);
    assert_eq!(card.rank, Rank { t: 0, b: 10, l: 4, r: 2 });
    assert_eq!(card.rank_slice(), [0, 2, 10, 4]);
    assert_eq!(
        (card.rank_top(), card.rank_right(), card.rank_bottom(), card.rank_left()),
        (0, 2, 10, 4)
    );
    assert_eq!(card.element(), Some(Element::Poison));
    assert_eq!(card.elemental_effect(), 0);
    assert_eq!(card.rank_slice_elemental(), [0, 2, 10, 4]);
    assert!(card.flipped);
    assert!(card.is_wf());
    assert!(!card.is_unchecked());
    assert!(!card.is_flipping());
    assert!(card.deal_animation_finished());
    assert_eq!(Rank { t: 0, b: 10, l: 4, r: 2 }.as_slice(), [0, 2, 10, 4]);
    assert_eq!(card.rank.facing_edge(0), 10);
    assert_eq!(card.rank.facing_edge(1), 4);
    assert_eq!(card.rank.facing_edge(2), 0);
    assert_eq!(card.rank.facing_edge(3), 2);
}

#[test]
fn bonus_raises_and_malus_lowers_every_rank_with_a_floor_of_zero() {
    let atlas = atlas();
    let mut card = CardEntity::new(7, Suit::Blue, Suit::Blue, false, &atlas);
    card.elemental_effect = ElementalEffect::Bonus;
    assert_eq!(card.elemental_effect(), 1);
    assert_eq!(card.rank_slice_elemental(), [1, 3, 11, 5]);
    assert_eq!(
        (
            card.rank_top_with_elemental(),
            card.rank_right_with_elemental(),
            card.rank_bottom_with_elemental(),
            card.rank_left_with_elemental()
        ),
        (1, 3, 11, 5)
    );
    card.elemental_effect = ElementalEffect::Malus;
    assert_eq!(card.elemental_effect(), -1);
    assert_eq!(card.rank_slice_elemental(), [0, 1, 9, 3]);
    assert_eq!(card.rank_top_with_elemental(), 0);
    let simple = CardSimple::from(&card);
    assert_eq!(simple.rank, Rank { t: 0, b: 10, l: 4, r: 2 });
    assert_eq!(simple.rank_elem, Rank { t: 0, b: 9, l: 3, r: 1 });
    assert_eq!(simple.suit, Suit::Blue);
    assert_eq!(simple.element, Some(Element::Poison));
}

#[test]
fn a_captured_card_changes_sides_at_the_end_of_its_flip() {
    let atlas = atlas();
    let mut card = CardEntity::new(1, Suit::Blue, Suit::Blue, false, &atlas);
    card.flip_vertical(false);
    assert!(card.is_flipping());
    assert!(card.is_wf());
    assert_eq!(card.flip_animation.direction, FlipDirection::Vertical);
    let waiting = CardTick { deal_finished: true, move_finished: true, flip_finished: false };
    card.update(waiting);
    assert_eq!(card.flip_animation.stage, FlipStage::First);
    let mut faces = Vec::new();
    for stage in [FlipStage::Second, FlipStage::Third, FlipStage::Fourth] {
        card.update(flip_done());
        assert_eq!(card.flip_animation.stage, stage);
        assert_eq!(card.controller, Suit::Blue);
        faces.push(card.flipped);
    }
    assert_eq!(faces, vec![true, true, false]);
    card.update(flip_done());
    assert_eq!(card.flip_animation.stage, FlipStage::Waiting);
    assert_eq!(card.controller, Suit::Red);
    assert_eq!(card.owner, Suit::Blue);
    assert!(!card.flip_animation.active);
    assert!(!card.is_flipping());
    // A resting card ignores further reports.
    card.update(flip_done());
    assert_eq!(card.controller, Suit::Red);
}

#[test]
fn a_card_captured_by_a_combination_awaits_its_own_check() {
    let atlas = atlas();
    let mut card = CardEntity::new(1, Suit::Red, Suit::Red, false, &atlas);
    card.flip_horizontal(true);
    assert_eq!(card.flip_animation.direction, FlipDirection::Horizontal);
    for _ in 0..4 {
        card.update(flip_done());
    }
    assert_eq!(card.controller, Suit::Blue);
    assert!(card.is_unchecked());
    assert!(!card.combo_eligible());
    card.mark_checked();
    assert!(!card.is_unchecked());
    assert!(card.combo_eligible());
    card.flip_horizontal(true);
    card.mark_unchecked();
    assert!(card.is_unchecked());
    assert!(card.combo_eligible());
    assert!(!card.is_flipping());
}

#[test]
fn opening_a_card_shows_its_face_and_keeps_its_side() {
    let atlas = atlas();
    let mut card = CardEntity::new(1, Suit::Red, Suit::Red, true, &atlas);
    card.flip_open();
    assert!(card.is_wf());
    card.update(flip_done());
    assert_eq!(card.flip_animation.stage, FlipStage::Second);
    assert!(!card.flipped);
    card.update(flip_done());
    assert_eq!(card.flip_animation.stage, FlipStage::Waiting);
    assert!(!card.flip_animation.active);
    assert_eq!(card.controller, Suit::Red);
}

#[test]
fn the_stages_of_a_flip_report_what_turns() {
    let mut flip = FlipAnimation::new();
    assert_eq!(flip.stage, FlipStage::Waiting);
    flip.stage = FlipStage::First;
    flip.active = true;
    flip.combo = true;
    assert_eq!(flip.update_horizontal(false), (false, false));
    assert_eq!(flip.update_horizontal(true), (false, true));
    assert_eq!(flip.update_vertical(true), (false, false));
    assert_eq!(flip.update_vertical(true), (false, true));
    assert_eq!(flip.update_horizontal(true), (true, false));
    assert_eq!(flip.stage, FlipStage::Finished);
    assert!(!flip.active);
    flip.stage = FlipStage::First;
    assert!(!flip.update_open(false));
    assert!(flip.update_open(true));
    assert!(!flip.update_open(true));
    assert_eq!(flip.stage, FlipStage::Waiting);
}

#[test]
fn movement_and_deal_end_when_reported() {
    let atlas = atlas();
    let mut card = CardEntity::new(1, Suit::Red, Suit::Red, true, &atlas);
    card.start_deal_animation();
    card.start_move_tween();
    assert!(!card.deal_animation_finished());
    card.update(CardTick { deal_finished: true, move_finished: false, flip_finished: true });
    assert!(card.deal_animation_finished());
    assert!(card.move_animation.active);
    card.update(CardTick { deal_finished: false, move_finished: true, flip_finished: false });
    assert!(!card.move_animation.active);
    let mut movement = MoveAnimation::init();
    assert!(!movement.active);
    movement.activate();
    movement.update(false);
    assert!(movement.active);
    movement.update(true);
    assert!(!movement.active);
    assert_eq!(ElementEntity::new(Element::Ice), ElementEntity { element: Element::Ice, active: false });
}

#[test]
fn a_hand_is_dealt_and_played_slot_by_slot() {
    let atlas = atlas();
    let mut hand = Hand::empty(Suit::Blue, &atlas);
    assert_eq!(hand.count(), 0);
    assert!(hand.is_wf());
    hand.add_card(7, 2, true);
    hand.add_card(8, 0, false);
    assert_eq!(hand.count(), 2);
    let dealt = hand.cards[2].unwrap();
    assert_eq!((dealt.id, dealt.owner, dealt.controller), (7, Suit::Blue, Suit::Blue));
    assert!(!dealt.flipped);
    assert!(dealt.deal_animation);
    assert!(hand.cards[0].unwrap().flipped);

    assert_eq!(hand.focus(), None);
    hand.set_focus(2);
    assert_eq!(hand.focus(), Some(2));
    hand.select_focused();
    assert_eq!(hand.selected, Some(2));
    // A hand with a selected card keeps its focus.
    hand.set_focus(0);
    assert_eq!(hand.focus(), Some(2));
    hand.clear_selected();
    hand.set_focus(0);
    assert_eq!(hand.focus(), Some(0));
    hand.select(0);
    assert!(!hand.cards[0].unwrap().flipped);
    let taken = hand.take_selected();
    assert_eq!(taken.id, 8);
    assert!(hand.cards[0].is_none());
    assert_eq!(hand.selected, None);
    assert_eq!(hand.count(), 1);
    hand.reset_foucus();
    assert_eq!(hand.focus(), None);

    // A card that comes back goes into the first free slot.
    hand.select(2);
    hand.add_card_entity(taken);
    assert_eq!(hand.cards[0].unwrap().id, 8);
    assert_eq!(hand.selected, None);
    hand.add_card_entity(taken);
    assert_eq!(hand.cards[1].unwrap().id, 8);
    assert_eq!(hand.count(), 3);
    assert!(hand.is_wf());
}

#[test]
fn a_hand_from_ids_keeps_their_order() {
    let atlas = atlas();
    let hand = Hand::from_ids(Suit::Red, false, &[9, 7, 109], &atlas);
    let ids: Vec<Option<usize>> = hand.cards.iter().map(|c| c.map(|c| c.id)).collect();
    assert_eq!(ids, vec![Some(9), Some(7), Some(109), None, None]);
    assert!(hand.cards.iter().flatten().all(|c| c.flipped && c.deal_animation));
    assert_eq!(hand.side, Suit::Red);
    assert_eq!(hand.selected, None);
}

#[test]
fn the_snapshot_of_a_round_copies_what_the_search_reads() {
    let atlas = atlas();
    let red = Hand::from_ids(Suit::Red, false, &[7, 8], &atlas);
    let blue = Hand::from_ids(Suit::Blue, true, &[1], &atlas);
    let mut field = [None; 9];
    let mut placed = CardEntity::new(7, Suit::Red, Suit::Blue, false, &atlas);
    placed.elemental_effect = ElementalEffect::Bonus;
    field[4] = Some(placed);
    let mut elem = [None; 9];
    elem[4] = Some(ElementEntity::new(Element::Poison));
    elem[5] = Some(ElementEntity::new(Element::Wind));
    let rules = Rules { plus: true, ..Rules::default() };
    let snapshot = BoardSimple::new(&red, &blue, &field, &elem, &rules);
    assert_eq!(snapshot.rules, rules);
    assert_eq!(snapshot.red_hand[0].unwrap().rank, Rank { t: 0, b: 10, l: 4, r: 2 });
    assert_eq!(snapshot.red_hand[0].unwrap().suit, Suit::Red);
    assert!(snapshot.red_hand[2].is_none());
    assert_eq!(snapshot.blue_hand[0].unwrap().suit, Suit::Blue);
    let on_board = snapshot.board[4].card.unwrap();
    assert_eq!(on_board.rank_elem, Rank { t: 1, b: 11, l: 5, r: 3 });
    assert_eq!(on_board.suit, Suit::Red);
    assert_eq!(snapshot.board[4].element, Some(Element::Poison));
    assert_eq!(snapshot.board[5].element, Some(Element::Wind));
    assert!(snapshot.board[5].card.is_none());
    assert_eq!(snapshot.score(), (3, 1));
}

#[test]
fn thinking_works_off_its_queue() {
    let atlas = atlas();
    let mut red = Hand::from_ids(Suit::Red, false, &[1, 2, 3], &atlas);
    red.cards[1] = None;
    let mut blue = Hand::from_ids(Suit::Blue, true, &[4, 5], &atlas);
    let mut field = [None; 9];
    field[0] = Some(CardEntity::new(6, Suit::Blue, Suit::Blue, false, &atlas));
    let elem = [None; 9];
    let rules = Rules::default();
    let mut ai = Ai::new();
    ai.diffuculty(9);
    assert_eq!(ai.diffuculty, 5);
    ai.diffuculty(2);
    assert!(ai.is_ready(&red, &field));

    assert_eq!(ai.think(5, &mut red, &mut blue, &field, &elem, &rules), Some(AiEvent::Focus));
    // The queue is worked off from its end: the lowest slot comes first.
    assert_eq!(ai.actions, vec![Action::PutBest, Action::Check(2), Action::Check(0)]);
    assert_eq!(ai.thread_status, ThreadStatus::Active);
    assert_eq!(red.focus(), Some(0));
    let job = ai.take_job().unwrap();
    assert_eq!((job.slot, job.depth), (0, 2));
    assert!(job.runnable());
    // While the search is under way nothing happens, however long.
    assert_eq!(ai.think(5_000_000, &mut red, &mut blue, &field, &elem, &rules), None);
    ai.finish_search(Move { from: 0, to: 3, score: 4 });
    assert!(ai.is_ready(&red, &field));
    assert_eq!(ai.think(5, &mut red, &mut blue, &field, &elem, &rules), None);
    assert_eq!(ai.maybe_move, Some(Move { from: 0, to: 3, score: 4 }));
    assert_eq!(ai.actions, vec![Action::PutBest, Action::Check(2)]);

    assert_eq!(ai.think(5, &mut red, &mut blue, &field, &elem, &rules), Some(AiEvent::Focus));
    assert_eq!(red.focus(), Some(2));
    assert_eq!(ai.take_job().unwrap().slot, 2);
    // An equal score does not replace the move kept.
    ai.finish_search(Move { from: 2, to: 5, score: 4 });
    assert_eq!(ai.think(1_000_001, &mut red, &mut blue, &field, &elem, &rules), None);
    assert_eq!(ai.maybe_move, Some(Move { from: 0, to: 3, score: 4 }));
    assert_eq!(ai.actions, vec![Action::PutBest]);

    assert_eq!(ai.think(5, &mut red, &mut blue, &field, &elem, &rules), Some(AiEvent::Focus));
    assert_eq!(ai.actions, vec![Action::Put(0, 3)]);
    assert_eq!(red.focus(), Some(0));
    assert_eq!(ai.think(5, &mut red, &mut blue, &field, &elem, &rules), None);
    assert_eq!(ai.think(1_000_000, &mut red, &mut blue, &field, &elem, &rules), Some(AiEvent::Put(3)));
    assert_eq!(red.selected, Some(0));
    assert!(ai.actions.is_empty());
    assert!(ai.is_idle());
    assert_eq!(blue.count(), 2);
}

#[test]
fn a_higher_score_replaces_the_move_kept() {
    let atlas = atlas();
    let mut red = Hand::from_ids(Suit::Red, false, &[1, 2], &atlas);
    let mut blue = Hand::from_ids(Suit::Blue, true, &[4, 5], &atlas);
    let field = [None; 9];
    let elem = [None; 9];
    let rules = Rules::default();
    let mut ai = Ai::new();
    assert_eq!(ai.think(1, &mut red, &mut blue, &field, &elem, &rules), Some(AiEvent::Focus));
    ai.finish_search(Move { from: 0, to: 3, score: 4 });
    assert_eq!(ai.think(1_000_001, &mut red, &mut blue, &field, &elem, &rules), None);
    assert_eq!(ai.think(1, &mut red, &mut blue, &field, &elem, &rules), Some(AiEvent::Focus));
    ai.abandon_search();
    assert_eq!(ai.thread_status, ThreadStatus::Waiting);
    assert_eq!(ai.think(1_000_001, &mut red, &mut blue, &field, &elem, &rules), Some(AiEvent::Focus));
    ai.finish_search(Move { from: 1, to: 8, score: 5 });
    assert_eq!(ai.think(1_000_001, &mut red, &mut blue, &field, &elem, &rules), None);
    assert_eq!(ai.maybe_move, Some(Move { from: 1, to: 8, score: 5 }));
}

#[test]
fn the_last_level_stays_enabled() {
    let mut opponent = Opponent::new();
    assert_eq!(opponent.cards(), [true; 10]);
    assert_eq!(opponent.difficulty(), 1);
    for level in 0..9 {
        opponent.toogle_cards(level);
    }
    let mut expected = [false; 10];
    expected[9] = true;
    assert_eq!(opponent.cards(), expected);
    opponent.toogle_cards(9);
    assert_eq!(opponent.cards(), expected);
    opponent.toogle_cards(4);
    opponent.toogle_cards(9);
    expected[4] = true;
    expected[9] = false;
    assert_eq!(opponent.cards(), expected);
    assert_eq!(opponent.pool(), (44..55).collect::<Vec<usize>>());
    opponent.set_difficulty(7);
    assert_eq!(opponent.difficulty(), 5);
    opponent.set_difficulty(3);
    assert_eq!(opponent.difficulty(), 3);
    opponent.clear();
    assert_eq!(opponent.cards(), [true; 10]);
    assert_eq!(opponent.difficulty(), 1);
    assert_eq!(opponent.pool(), (0..110).collect::<Vec<usize>>());
}

#[test]
fn a_hand_is_drawn_from_the_enabled_levels() {
    let mut opponent = Opponent::new();
    for level in [0usize, 1, 3, 4, 5, 6, 7, 8] {
        opponent.toogle_cards(level);
    }
    let mut seen = [false; 110];
    for _ in 0..400 {
        for id in opponent.new_hand() {
            assert!((22..33).contains(&id) || (99..110).contains(&id));
            seen[id] = true;
        }
    }
    // Every card of the two levels is drawn now and then.
    assert_eq!(seen.iter().filter(|s| **s).count(), 22);
}

#[test]
fn a_search_job_says_whether_it_can_be_run() {
    let atlas = atlas();
    let red = Hand::from_ids(Suit::Red, false, &[7], &atlas);
    let blue = Hand::from_ids(Suit::Blue, true, &[1], &atlas);
    let field = [None; 9];
    let elem = [None; 9];
    let board = BoardSimple::new(&red, &blue, &field, &elem, &Rules::default());
    let job = triple_triad::ai::SearchJob { slot: 0, board, depth: 1 };
    assert!(job.runnable());
    assert_eq!(job.run(), Move { from: 0, to: 0, score: 1 });
    assert!(!triple_triad::ai::SearchJob { slot: 1, ..job }.runnable());
    assert!(!triple_triad::ai::SearchJob { slot: 5, ..job }.runnable());
    assert!(!triple_triad::ai::SearchJob { depth: 0, ..job }.runnable());
    let mut high = job;
    let mut card = high.board.blue_hand[0].unwrap();
    card.rank_elem.l = 255;
    high.board.blue_hand[0] = Some(card);
    assert!(!high.runnable());
}

#[test]
fn a_card_with_a_rank_above_ten_is_not_well_formed() {
    let atlas = atlas();
    let mut card = CardEntity::new(7, Suit::Blue, Suit::Blue, false, &atlas);
    assert!(card.is_wf());
    assert!(card.is_at_home(Suit::Blue));
    assert!(!card.is_at_home(Suit::Red));
    card.rank.r = 11;
    assert!(!card.is_wf());
    card.rank.r = 10;
    card.flip_animation.stage = FlipStage::Second;
    assert!(!card.is_wf());
    card.flip_animation.active = true;
    assert!(card.is_wf());
    assert!(!card.is_at_home(Suit::Blue));
    card.flip_animation.direction = FlipDirection::Open;
    assert!(card.is_at_home(Suit::Blue));
    card.flip_animation.stage = FlipStage::Third;
    assert!(!card.is_wf());
}
