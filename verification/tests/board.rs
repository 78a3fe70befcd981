use std::rc::Rc;
use triple_triad::ai::ThreadStatus;
use triple_triad::board::{Board, CardFlipped, Input, State, TurnPhase};
use triple_triad::capture::Combo;
use triple_triad::cards::{Card, CardAtlas, DuelOutcome, Element, Rules, Suit};
use triple_triad::entity::{CardEntity, CardTick, ElementEntity, ElementalEffect, FlipStage};
use triple_triad::events::{Event, Rule, Sfx};
use triple_triad::hand::Hand;
use triple_triad::search::Move;

fn ranks_of(id: usize) -> (u8, u8, u8, u8) {
    // top, right, bottom, left
    match id {
        0 => (5, 1, 1, 1),
        1 => (1, 1, 3, 1),
        2 => (5, 5, 1, 1),
        3 => (1, 9, 5, 9),
        4 => (1, 1, 1, 5),
        5 => (1, 3, 1, 1),
        _ => (1, 1, 1, 1),
    }
}

fn atlas() -> Rc<CardAtlas> {
    let mut cards = Vec::new();
    for id in 0..110 {
        let (t, r, b, l) = ranks_of(id);
        cards.push(Card {
            id,
            name: format!("card {}", id),
            level: (id / 11 + 1) as u8,
            pow_left: l,
            pow_right: r,
            pow_top: t,
            pow_bottom: b,
            element: if id == 10 { Some(Element::Fire) } else { None },
        });
    }
    Rc::new(CardAtlas { cards })
}

fn quiet(dt: u32) -> Input {
    let done = CardTick { deal_finished: true, move_finished: true, flip_finished: true };
    Input {
        dt,
        left_pressed: false,
        right_pressed: false,
        hand_hover: None,
        cell_hover: None,
        field: [done; 9],
        red: [done; 5],
        blue: [done; 5],
    }
}

fn still(dt: u32) -> Input {
    let idle = CardTick { deal_finished: false, move_finished: false, flip_finished: false };
    Input { field: [idle; 9], red: [idle; 5], blue: [idle; 5], ..quiet(dt) }
}

fn on_board(id: usize, controller: Suit, owner: Suit, atlas: &Rc<CardAtlas>) -> CardEntity {
    CardEntity::new(id, controller, owner, false, atlas)
}

/// One tick as the presentation layer would drive it: a search that was
/// asked for is run and delivered, then the round takes its step.
fn tick(board: &mut Board, input: &Input) -> Option<Event> {
    if let Some(job) = board.take_job() {
        assert!(job.runnable());
        let found = job.run();
        assert!(board.search_finished(Some(found)));
    }
    assert!(board.is_wf());
    let event = board.update(input);
    assert!(board.is_wf());
    event
}

fn top(board: &Board) -> State {
    *board.state_stack.last().unwrap()
}

#[test]
fn a_new_round_waits_for_the_deal() {
    let atlas = atlas();
    let board = Board::empty(&atlas);
    assert_eq!(
        board.state_stack,
        vec![State::Finish, State::RedPlayerTurn(TurnPhase::Pick), State::Start]
    );
    assert_eq!(board.rules, Rules::default());
    assert_eq!(board.calculate_score(), (0, 0));
    assert!(board.playing_field.cards.iter().all(|c| c.is_none()));
    assert!(board.playing_field.elem.iter().all(|e| e.is_none()));
    assert!(board.is_sound());
    // Nothing has been dealt yet, so play cannot go on from here.
    assert!(!board.is_wf());
}

#[test]
fn first_turn_sets_the_opening_stack() {
    let atlas = atlas();
    let mut board = Board::empty(&atlas);
    board.red_hand = Hand::from_ids(Suit::Red, false, &[0, 1, 2, 3, 4], &atlas);
    board.blue_hand = Hand::from_ids(Suit::Blue, true, &[5, 6, 7, 8, 9], &atlas);
    board.first_turn(Suit::Blue);
    assert_eq!(
        board.state_stack,
        vec![State::Finish, State::BluePlayerTurn(TurnPhase::Pick), State::Start]
    );
    assert!(board.is_wf());
    assert_eq!(board.calculate_score(), (5, 5));
    board.first_turn(Suit::Red);
    assert_eq!(
        board.state_stack,
        vec![State::Finish, State::RedPlayerTurn(TurnPhase::Pick), State::Start]
    );
    assert!(board.is_wf());
}

#[test]
fn rules_toggle_one_at_a_time() {
    let atlas = atlas();
    let mut board = Board::empty(&atlas);
    board.toggle_rule(Rule::Wall);
    assert_eq!(board.rules, Rules { same_wall: true, ..Rules::default() });
    board.toggle_rule(Rule::SuddenDeath);
    board.toggle_rule(Rule::Wall);
    assert_eq!(board.rules, Rules { sudden_death: true, ..Rules::default() });
    for rule in Rule::iterator() {
        board.toggle_rule(rule);
    }
    assert_eq!(
        board.rules,
        Rules {
            open: true,
            random: true,
            plus: true,
            same: true,
            same_wall: true,
            elemental: true,
            sudden_death: false,
        }
    );
}

#[test]
fn the_rules_are_listed_in_menu_order() {
    assert_eq!(
        Rule::iterator(),
        [
            Rule::Open,
            Rule::Elemental,
            Rule::Random,
            Rule::Same,
            Rule::Wall,
            Rule::Plus,
            Rule::SuddenDeath
        ]
    );
}

#[test]
fn placing_applies_the_tile_and_resets_the_card() {
    let atlas = atlas();
    let mut board = Board::empty(&atlas);
    board.playing_field.elem[2] = Some(ElementEntity::new(Element::Fire));
    board.playing_field.elem[3] = Some(ElementEntity::new(Element::Ice));
    let fire = on_board(10, Suit::Red, Suit::Blue, &atlas);
    board.put_card(2, fire);
    let placed = board.playing_field.cards[2].unwrap();
    assert_eq!(placed.elemental_effect, ElementalEffect::Bonus);
    assert_eq!(placed.rank_slice_elemental(), [2, 2, 2, 2]);
    assert_eq!(placed.controller, Suit::Blue);
    assert!(placed.is_unchecked());
    assert!(placed.move_animation.active);
    board.put_card(3, fire);
    let other = board.playing_field.cards[3].unwrap();
    assert_eq!(other.elemental_effect, ElementalEffect::Malus);
    assert_eq!(other.rank_slice_elemental(), [0, 0, 0, 0]);
    assert_eq!(other.rank_slice(), [1, 1, 1, 1]);
    let plain = on_board(0, Suit::Red, Suit::Red, &atlas);
    board.put_card(4, plain);
    assert_eq!(board.playing_field.cards[4].unwrap().elemental_effect, ElementalEffect::NoEffect);
    board.put_card(5, plain);
    assert_eq!(board.playing_field.cards[5].unwrap().rank_slice_elemental(), [5, 1, 1, 1]);
    let mut on_fire = board.playing_field.cards[5].unwrap();
    board.playing_field.cards[5] = None;
    board.playing_field.elem[5] = Some(ElementEntity::new(Element::Fire));
    on_fire.elemental_effect = ElementalEffect::NoEffect;
    board.put_card(5, on_fire);
    // A card without an element takes the malus of any tile.
    assert_eq!(board.playing_field.cards[5].unwrap().rank_slice_elemental(), [4, 0, 0, 0]);
}

#[test]
fn check_card_starts_the_flip_and_marks_the_card_checked() {
    let atlas = atlas();
    let mut board = Board::empty(&atlas);
    board.playing_field.cards[1] = Some(on_board(1, Suit::Blue, Suit::Blue, &atlas));
    board.put_card(4, on_board(0, Suit::Red, Suit::Red, &atlas));
    assert_eq!(board.cards_to_check(), vec![4]);
    let flips = board.check_card(4);
    assert_eq!(
        flips,
        [Some(CardFlipped { cell_id: 1, combo: Combo::NoCombo }), None, None, None]
    );
    let captured = board.playing_field.cards[1].unwrap();
    assert_eq!(captured.flip_animation.stage, FlipStage::First);
    assert!(captured.flip_animation.active);
    assert!(!captured.flip_animation.combo);
    // The card changes sides when the flip has run through, not before.
    assert_eq!(captured.controller, Suit::Blue);
    assert!(!board.playing_field.cards[4].unwrap().is_unchecked());
    assert!(board.cards_to_check().is_empty());
    assert!(board.check_cards().is_empty());
}

#[test]
fn check_cards_drops_a_repeated_cell() {
    let atlas = atlas();
    let mut board = Board::empty(&atlas);
    // Two red cards that await their check both beat the blue card between
    // them; it is reported once.
    board.playing_field.cards[1] = Some(on_board(6, Suit::Blue, Suit::Blue, &atlas));
    board.put_card(0, on_board(5, Suit::Red, Suit::Red, &atlas));
    board.put_card(2, on_board(3, Suit::Red, Suit::Red, &atlas));
    let flips = board.check_cards();
    assert_eq!(flips, vec![CardFlipped { cell_id: 1, combo: Combo::NoCombo }]);
}

#[test]
fn red_captures_the_card_above_and_the_score_shifts_by_one() {
    let atlas = atlas();
    let mut board = Board::empty(&atlas);
    board.red_hand = Hand::from_ids(Suit::Red, false, &[0, 0, 0, 0, 0], &atlas);
    board.blue_hand = Hand::from_ids(Suit::Blue, true, &[1, 1, 1, 1], &atlas);
    board.playing_field.cards[1] = Some(on_board(1, Suit::Blue, Suit::Blue, &atlas));
    board.state_stack = vec![State::Finish, State::RedPlayerTurn(TurnPhase::Pick)];
    assert!(board.is_wf());
    assert_eq!(board.calculate_score(), (5, 5));

    let input = quiet(2_000_000);
    let mut events = Vec::new();
    let mut ticks = 0;
    while top(&board) != State::BluePlayerTurn(TurnPhase::Pick) {
        ticks += 1;
        assert!(ticks < 60);
        if let Some(event) = tick(&mut board, &input) {
            events.push(event);
        }
        let score = board.calculate_score();
        assert_eq!(score.0 + score.1, 10);
    }
    let placed = board.playing_field.cards[4].unwrap();
    assert_eq!(placed.id, 0);
    assert_eq!(placed.controller, Suit::Red);
    assert!(board.red_hand.cards[0].is_none());
    let captured = board.playing_field.cards[1].unwrap();
    assert_eq!(captured.controller, Suit::Red);
    assert_eq!(captured.owner, Suit::Blue);
    assert_eq!(captured.flip_animation.stage, FlipStage::Waiting);
    assert_eq!(board.calculate_score(), (6, 4));
    let flips = events.iter().filter(|e| **e == Event::PlaySound(Sfx::Flip)).count();
    assert_eq!(flips, 1);
    // Five searches, the settling on the best move, and the placement each
    // come with the move sound.
    let moves = events.iter().filter(|e| **e == Event::PlaySound(Sfx::Move)).count();
    assert_eq!(moves, 7);
    assert_eq!(events.len(), 8);
    assert_eq!(board.state_stack, vec![State::Finish, State::BluePlayerTurn(TurnPhase::Pick)]);
}

#[test]
fn the_automated_side_pauses_between_its_steps() {
    let atlas = atlas();
    let mut board = Board::empty(&atlas);
    board.red_hand = Hand::from_ids(Suit::Red, false, &[0, 0, 0, 0, 0], &atlas);
    board.blue_hand = Hand::from_ids(Suit::Blue, true, &[1, 1, 1, 1, 1], &atlas);
    board.state_stack = vec![State::Finish, State::RedPlayerTurn(TurnPhase::Pick)];
    assert!(board.is_wf());
    // The first step needs time to pass at all.
    assert_eq!(board.update(&still(0)), None);
    assert!(board.opponent.ai.actions.is_empty());
    assert_eq!(board.update(&still(1)), Some(Event::PlaySound(Sfx::Move)));
    assert_eq!(board.opponent.ai.thread_status, ThreadStatus::Active);
    assert_eq!(board.red_hand.focus(), Some(0));
    let job = board.take_job().unwrap();
    assert_eq!(job.slot, 0);
    assert_eq!(job.depth, 1);
    assert!(board.take_job().is_none());
    assert!(board.search_finished(Some(job.run())));
    // The result waits until the pause of one second is over.
    assert_eq!(board.update(&still(400_000)), None);
    assert_eq!(board.update(&still(600_000)), None);
    assert_eq!(board.opponent.ai.thread_status, ThreadStatus::Finished);
    assert_eq!(board.update(&still(1)), None);
    assert_eq!(board.opponent.ai.thread_status, ThreadStatus::Waiting);
    assert_eq!(board.opponent.ai.maybe_move, Some(Move { from: 0, to: 0, score: 5 }));
    assert!(board.is_wf());
}

#[test]
fn a_result_that_cannot_be_played_is_not_accepted() {
    let atlas = atlas();
    let mut board = Board::empty(&atlas);
    board.red_hand = Hand::from_ids(Suit::Red, false, &[0, 0, 0, 0], &atlas);
    board.blue_hand = Hand::from_ids(Suit::Blue, true, &[1, 1, 1, 1], &atlas);
    board.playing_field.cards[0] = Some(on_board(1, Suit::Blue, Suit::Blue, &atlas));
    board.playing_field.cards[8] = Some(on_board(0, Suit::Red, Suit::Red, &atlas));
    board.state_stack = vec![State::Finish, State::RedPlayerTurn(TurnPhase::Pick)];
    assert!(board.is_wf());
    // Without a search under way nothing is taken.
    assert!(!board.search_finished(Some(Move { from: 0, to: 1, score: 3 })));
    assert_eq!(board.update(&still(1)), Some(Event::PlaySound(Sfx::Move)));
    // Cell 0 is taken, slot 4 is empty, and `None` stands for a search
    // that failed: each has the search started again.
    assert!(!board.search_finished(Some(Move { from: 0, to: 0, score: 3 })));
    assert_eq!(board.opponent.ai.thread_status, ThreadStatus::Waiting);
    assert!(board.is_wf());
    assert_eq!(board.update(&still(1_000_001)), Some(Event::PlaySound(Sfx::Move)));
    assert!(!board.search_finished(Some(Move { from: 4, to: 1, score: 3 })));
    assert_eq!(board.update(&still(1_000_001)), Some(Event::PlaySound(Sfx::Move)));
    assert!(!board.search_finished(None));
    assert_eq!(board.update(&still(1_000_001)), Some(Event::PlaySound(Sfx::Move)));
    assert!(board.search_finished(Some(Move { from: 0, to: 1, score: 3 })));
    assert_eq!(board.opponent.ai.thread_status, ThreadStatus::Finished);
    assert!(board.is_wf());
}

#[test]
fn blue_picks_and_places_a_card() {
    let atlas = atlas();
    let mut board = Board::empty(&atlas);
    board.red_hand = Hand::from_ids(Suit::Red, false, &[0, 0, 0, 0, 0], &atlas);
    board.blue_hand = Hand::from_ids(Suit::Blue, true, &[1, 2, 3, 4, 5], &atlas);
    board.first_turn(Suit::Blue);
    assert!(board.is_wf());
    // The deal has to finish first.
    assert_eq!(tick(&mut board, &still(10)), None);
    assert_eq!(top(&board), State::Start);
    assert_eq!(tick(&mut board, &quiet(10)), None);
    assert_eq!(top(&board), State::BluePlayerTurn(TurnPhase::Pick));
    assert_eq!(board.turn_marker_status(), [false, true]);

    // Moving onto a card plays a sound once.
    let hover = Input { hand_hover: Some(2), ..quiet(10) };
    assert_eq!(tick(&mut board, &hover), Some(Event::PlaySound(Sfx::Move)));
    assert_eq!(board.blue_hand.focus(), Some(2));
    assert_eq!(tick(&mut board, &hover), None);
    // Leaving the hand drops the focus.
    assert_eq!(tick(&mut board, &quiet(10)), None);
    assert_eq!(board.blue_hand.focus(), None);
    // A slot that the hand does not have is no hover.
    let nowhere = Input { hand_hover: Some(7), left_pressed: true, ..quiet(10) };
    assert_eq!(tick(&mut board, &nowhere), None);

    let press = Input { hand_hover: Some(1), left_pressed: true, ..quiet(10) };
    assert_eq!(tick(&mut board, &press), Some(Event::PlaySound(Sfx::Move)));
    assert_eq!(top(&board), State::BluePlayerTurn(TurnPhase::Place));
    assert_eq!(board.blue_hand.selected, Some(1));

    // Nothing happens without a press.
    assert_eq!(tick(&mut board, &Input { cell_hover: Some(3), ..quiet(10) }), None);
    assert_eq!(top(&board), State::BluePlayerTurn(TurnPhase::Place));
    // The secondary button takes the choice back.
    let cancel = Input { cell_hover: Some(3), right_pressed: true, left_pressed: true, ..quiet(10) };
    assert_eq!(tick(&mut board, &cancel), None);
    assert_eq!(top(&board), State::BluePlayerTurn(TurnPhase::Pick));
    assert_eq!(board.blue_hand.selected, None);
    assert!(board.playing_field.cards[3].is_none());

    assert_eq!(tick(&mut board, &press), Some(Event::PlaySound(Sfx::Move)));
    // So does a press away from the board.
    let away = Input { left_pressed: true, ..quiet(10) };
    assert_eq!(tick(&mut board, &away), None);
    assert_eq!(top(&board), State::BluePlayerTurn(TurnPhase::Pick));

    assert_eq!(tick(&mut board, &press), Some(Event::PlaySound(Sfx::Move)));
    let place = Input { cell_hover: Some(3), left_pressed: true, ..quiet(10) };
    assert_eq!(tick(&mut board, &place), Some(Event::PlaySound(Sfx::Move)));
    assert_eq!(
        board.state_stack,
        vec![State::Finish, State::NextTurn(Suit::Red), State::Check, State::WaitingMove]
    );
    assert_eq!(board.playing_field.cards[3].unwrap().id, 2);
    assert!(board.blue_hand.cards[1].is_none());
    assert_eq!(board.blue_hand.selected, None);

    // The card travels, is checked, and the turn passes to Red.
    assert_eq!(tick(&mut board, &still(10)), None);
    assert_eq!(top(&board), State::WaitingMove);
    assert_eq!(tick(&mut board, &quiet(10)), None);
    assert_eq!(top(&board), State::Check);
    assert_eq!(tick(&mut board, &quiet(10)), None);
    assert_eq!(top(&board), State::NextTurn(Suit::Red));
    assert_eq!(tick(&mut board, &quiet(10)), None);
    assert_eq!(top(&board), State::RedPlayerTurn(TurnPhase::Pick));
    assert_eq!(board.turn_marker_status(), [true, false]);
    assert_eq!(board.calculate_score(), (5, 5));
}

#[test]
fn a_press_on_a_taken_cell_places_nothing() {
    let atlas = atlas();
    let mut board = Board::empty(&atlas);
    board.red_hand = Hand::from_ids(Suit::Red, false, &[0, 0, 0, 0], &atlas);
    board.blue_hand = Hand::from_ids(Suit::Blue, true, &[1, 2, 3, 4, 5], &atlas);
    board.playing_field.cards[3] = Some(on_board(0, Suit::Red, Suit::Red, &atlas));
    board.blue_hand.select(0);
    board.state_stack = vec![State::Finish, State::BluePlayerTurn(TurnPhase::Place)];
    assert!(board.is_wf());
    let place = Input { cell_hover: Some(3), left_pressed: true, ..quiet(10) };
    assert_eq!(tick(&mut board, &place), None);
    assert_eq!(top(&board), State::BluePlayerTurn(TurnPhase::Place));
    assert_eq!(board.blue_hand.selected, Some(0));
    assert_eq!(board.playing_field.cards[3].unwrap().id, 0);
}

#[test]
fn same_lights_its_banner_and_the_captured_cards_capture_on() {
    let atlas = atlas();
    let mut board = Board::empty(&atlas);
    board.rules.same = true;
    board.red_hand = Hand::from_ids(Suit::Red, false, &[6, 6], &atlas);
    board.blue_hand = Hand::from_ids(Suit::Blue, true, &[2, 6, 6], &atlas);
    board.playing_field.cards[0] = Some(on_board(5, Suit::Red, Suit::Red, &atlas));
    board.playing_field.cards[1] = Some(on_board(3, Suit::Red, Suit::Red, &atlas));
    board.playing_field.cards[5] = Some(on_board(4, Suit::Red, Suit::Red, &atlas));
    board.playing_field.cards[7] = Some(on_board(6, Suit::Blue, Suit::Blue, &atlas));
    board.playing_field.cards[8] = Some(on_board(6, Suit::Blue, Suit::Blue, &atlas));
    board.blue_hand.select(0);
    board.state_stack = vec![State::Finish, State::BluePlayerTurn(TurnPhase::Place)];
    assert!(board.is_wf());
    assert_eq!(board.calculate_score(), (5, 5));

    let place = Input { cell_hover: Some(4), left_pressed: true, ..quiet(10) };
    assert_eq!(tick(&mut board, &place), Some(Event::PlaySound(Sfx::Move)));
    assert_eq!(tick(&mut board, &quiet(10)), None);
    assert_eq!(top(&board), State::Check);

    assert_eq!(tick(&mut board, &quiet(10)), Some(Event::PlaySound(Sfx::Flip)));
    assert_eq!(top(&board), State::ComboCheck);
    assert!(board.combo_message.active);
    assert_eq!(board.combo_message.combo, Combo::Same);
    assert!(board.playing_field.cards[1].unwrap().flip_animation.combo);
    assert!(board.playing_field.cards[5].unwrap().flip_animation.combo);
    assert_eq!(board.playing_field.cards[0].unwrap().flip_animation.stage, FlipStage::Waiting);

    // The combination check waits until the two cards have turned over.
    for _ in 0..3 {
        assert_eq!(tick(&mut board, &quiet(10)), None);
        assert_eq!(top(&board), State::ComboCheck);
        assert_eq!(board.calculate_score(), (5, 5));
    }
    // With the fourth stage they change sides and are checked in turn: the
    // card on cell 1 beats the card on cell 0 by the Normal rule.
    assert_eq!(tick(&mut board, &quiet(10)), Some(Event::PlaySound(Sfx::Flip)));
    assert_eq!(top(&board), State::Check);
    assert_eq!(board.combo_message.combo, Combo::Combo);
    assert_eq!(board.playing_field.cards[1].unwrap().controller, Suit::Blue);
    assert_eq!(board.playing_field.cards[5].unwrap().controller, Suit::Blue);
    assert_eq!(board.calculate_score(), (3, 7));
    assert_eq!(board.playing_field.cards[0].unwrap().flip_animation.stage, FlipStage::First);
    assert!(!board.playing_field.cards[0].unwrap().flip_animation.combo);

    let mut ticks = 0;
    while top(&board) != State::RedPlayerTurn(TurnPhase::Pick) {
        ticks += 1;
        assert!(ticks < 20);
        assert_eq!(tick(&mut board, &quiet(10)), None);
    }
    assert_eq!(board.playing_field.cards[0].unwrap().controller, Suit::Blue);
    assert_eq!(board.calculate_score(), (2, 8));
}

#[test]
fn the_open_rule_shows_reds_cards_after_the_deal() {
    let atlas = atlas();
    let mut board = Board::empty(&atlas);
    board.rules.open = true;
    board.playing_field.elem[4] = Some(ElementEntity::new(Element::Water));
    board.red_hand = Hand::from_ids(Suit::Red, false, &[0, 0, 0, 0, 0], &atlas);
    board.blue_hand = Hand::from_ids(Suit::Blue, true, &[1, 1, 1, 1, 1], &atlas);
    board.first_turn(Suit::Blue);
    assert!(board.red_hand.cards[0].unwrap().flipped);
    assert!(!board.blue_hand.cards[0].unwrap().flipped);
    assert_eq!(tick(&mut board, &quiet(10)), None);
    assert_eq!(
        board.state_stack,
        vec![State::Finish, State::BluePlayerTurn(TurnPhase::Pick), State::Check]
    );
    assert!(board.playing_field.elem[4].unwrap().active);
    assert_eq!(board.red_hand.cards[0].unwrap().flip_animation.stage, FlipStage::First);
    // The face shows at the end of the first stage; the check ends when the
    // flip has.
    assert_eq!(tick(&mut board, &quiet(10)), None);
    assert!(!board.red_hand.cards[0].unwrap().flipped);
    assert_eq!(top(&board), State::Check);
    assert_eq!(tick(&mut board, &quiet(10)), None);
    assert_eq!(top(&board), State::BluePlayerTurn(TurnPhase::Pick));
    assert_eq!(board.red_hand.cards[0].unwrap().controller, Suit::Red);
}

#[test]
fn the_glow_goes_out_under_a_card_that_has_arrived() {
    let atlas = atlas();
    let mut board = Board::empty(&atlas);
    board.playing_field.elem[3] = Some(ElementEntity { element: Element::Holy, active: true });
    board.playing_field.elem[6] = Some(ElementEntity { element: Element::Wind, active: true });
    board.red_hand = Hand::from_ids(Suit::Red, false, &[0, 0, 0, 0, 0], &atlas);
    board.blue_hand = Hand::from_ids(Suit::Blue, true, &[1, 2, 3, 4, 5], &atlas);
    board.blue_hand.select(0);
    board.state_stack = vec![State::Finish, State::BluePlayerTurn(TurnPhase::Place)];
    let place = Input { cell_hover: Some(3), left_pressed: true, ..quiet(10) };
    assert_eq!(tick(&mut board, &place), Some(Event::PlaySound(Sfx::Move)));
    assert!(board.playing_field.elem[3].unwrap().active);
    assert_eq!(tick(&mut board, &quiet(10)), None);
    assert!(!board.playing_field.elem[3].unwrap().active);
    assert!(board.playing_field.elem[6].unwrap().active);
    assert_eq!(board.playing_field.elem[3].unwrap().element, Element::Holy);
}

#[test]
fn a_full_board_ends_the_round_with_its_result() {
    let atlas = atlas();
    let mut board = Board::empty(&atlas);
    for cell in 0..8 {
        let side = if cell < 4 { Suit::Red } else { Suit::Blue };
        board.playing_field.cards[cell] = Some(on_board(6, side, side, &atlas));
    }
    board.red_hand = Hand::from_ids(Suit::Red, false, &[6], &atlas);
    board.blue_hand = Hand::from_ids(Suit::Blue, true, &[6], &atlas);
    board.blue_hand.select(0);
    board.state_stack = vec![State::Finish, State::BluePlayerTurn(TurnPhase::Place)];
    assert!(board.is_wf());
    let place = Input { cell_hover: Some(8), left_pressed: true, ..quiet(10) };
    assert_eq!(tick(&mut board, &place), Some(Event::PlaySound(Sfx::Move)));
    assert_eq!(tick(&mut board, &quiet(10)), None);
    assert_eq!(tick(&mut board, &quiet(10)), None);
    // The check ends and takes the change of turn with it.
    assert_eq!(board.state_stack, vec![State::Finish]);
    assert_eq!(board.turn_marker_status(), [false, false]);
    assert_eq!(
        tick(&mut board, &quiet(10)),
        Some(Event::GameSummary(DuelOutcome::Draw, false))
    );
    board.rules.sudden_death = true;
    board.playing_field.cards[0] = Some(on_board(6, Suit::Blue, Suit::Red, &atlas));
    assert_eq!(tick(&mut board, &quiet(10)), Some(Event::GameSummary(DuelOutcome::Win, true)));
    assert_eq!(board.calculate_result(), DuelOutcome::Win);
    board.playing_field.cards[0] = Some(on_board(6, Suit::Red, Suit::Red, &atlas));
    board.playing_field.cards[7] = Some(on_board(6, Suit::Red, Suit::Blue, &atlas));
    assert_eq!(tick(&mut board, &quiet(10)), Some(Event::GameSummary(DuelOutcome::Lose, true)));
    assert_eq!(board.state_stack, vec![State::Finish]);
}

#[test]
fn tiles_are_laid_where_the_draws_say() {
    let atlas = atlas();
    let mut board = Board::empty(&atlas);
    board.playing_field.elem[8] = Some(ElementEntity { element: Element::Holy, active: true });
    let mut hits = [false; 9];
    hits[2] = true;
    hits[5] = true;
    board.lay_tiles(0, &hits, &[0, 1, 2, 3, 4, 5, 6, 7, 0]);
    let tiles: Vec<Option<Element>> =
        board.playing_field.elem.iter().map(|t| t.map(|t| t.element)).collect();
    assert_eq!(
        tiles,
        vec![
            Some(Element::Fire),
            None,
            Some(Element::Thunder),
            None,
            None,
            Some(Element::Wind),
            None,
            None,
            Some(Element::Holy)
        ]
    );
    assert!(!board.playing_field.elem[0].unwrap().active);
    assert!(board.playing_field.elem[8].unwrap().active);
    assert_eq!(Element::from_index(1), Element::Ice);
    assert_eq!(Element::from_index(3), Element::Earth);
    assert_eq!(Element::from_index(4), Element::Poison);
    assert_eq!(Element::from_index(6), Element::Water);
}

#[test]
fn drawn_tiles_always_include_one() {
    let atlas = atlas();
    let mut seen = [false; 9];
    let mut most = 0;
    for _ in 0..300 {
        let mut board = Board::empty(&atlas);
        board.populate_elem();
        let count = board.playing_field.elem.iter().filter(|t| t.is_some()).count();
        assert!(count >= 1);
        most = most.max(count);
        for (cell, tile) in board.playing_field.elem.iter().enumerate() {
            if let Some(tile) = tile {
                assert!(!tile.active);
                seen[cell] = true;
            }
        }
    }
    // Every cell gets its tile now and then, and mostly more than one does.
    assert!(seen.iter().all(|s| *s));
    assert!(most >= 2);
}

#[test]
fn clear_draws_tiles_only_under_the_elemental_rule() {
    let atlas = atlas();
    let mut board = Board::empty(&atlas);
    board.red_hand = Hand::from_ids(Suit::Red, false, &[0, 0, 0, 0, 0], &atlas);
    board.playing_field.cards[2] = Some(on_board(1, Suit::Blue, Suit::Blue, &atlas));
    board.playing_field.elem[2] = Some(ElementEntity::new(Element::Fire));
    board.state_stack = vec![State::Finish];
    board.clear();
    assert!(board.playing_field.cards.iter().all(|c| c.is_none()));
    assert!(board.playing_field.elem.iter().all(|e| e.is_none()));
    assert_eq!(board.red_hand.count(), 0);
    assert_eq!(board.red_hand.side, Suit::Red);
    assert_eq!(board.blue_hand.side, Suit::Blue);
    assert_eq!(
        board.state_stack,
        vec![State::Finish, State::RedPlayerTurn(TurnPhase::Pick), State::Start]
    );
    board.rules.elemental = true;
    board.clear();
    assert!(board.playing_field.elem.iter().any(|e| e.is_some()));
    assert!(board.rules.elemental);
}

#[test]
fn sudden_death_returns_every_card_to_the_hand_it_came_from() {
    let atlas = atlas();
    let mut board = Board::empty(&atlas);
    board.playing_field.elem[0] = Some(ElementEntity::new(Element::Fire));
    for cell in 0..9 {
        let owner = if cell % 2 == 0 { Suit::Red } else { Suit::Blue };
        let controller = if cell < 5 { Suit::Red } else { Suit::Blue };
        let mut card = on_board(cell, controller, owner, &atlas);
        card.elemental_effect = ElementalEffect::Malus;
        board.playing_field.cards[cell] = Some(card);
    }
    board.blue_hand = Hand::from_ids(Suit::Blue, true, &[42], &atlas);
    board.blue_hand.set_focus(0);
    board.state_stack = vec![State::Finish];
    assert!(board.is_wf());
    assert_eq!(board.calculate_score(), (5, 5));
    board.deal_sunnden_death();
    assert!(board.playing_field.cards.iter().all(|c| c.is_none()));
    assert!(board.playing_field.elem.iter().all(|e| e.is_none()));
    let red: Vec<usize> = board.red_hand.cards.iter().map(|c| c.unwrap().id).collect();
    let blue: Vec<usize> = board.blue_hand.cards.iter().map(|c| c.unwrap().id).collect();
    assert_eq!(red, vec![0, 2, 4, 6, 8]);
    assert_eq!(blue, vec![42, 1, 3, 5, 7]);
    for card in board.red_hand.cards.iter().flatten() {
        assert_eq!(card.controller, Suit::Red);
        assert_eq!(card.owner, Suit::Red);
        assert_eq!(card.elemental_effect, ElementalEffect::NoEffect);
    }
    for card in board.blue_hand.cards.iter().flatten() {
        assert_eq!(card.controller, Suit::Blue);
        assert_eq!(card.owner, Suit::Blue);
    }
    assert_eq!(board.blue_hand.focus(), None);
    assert_eq!(board.calculate_score(), (5, 5));
    assert_eq!(
        board.state_stack,
        vec![State::Finish, State::Start, State::RedPlayerTurn(TurnPhase::Pick)]
    );
    board.first_turn(Suit::Blue);
    assert!(board.is_wf());
}

#[test]
fn waiting_for_the_pick_holds_the_round() {
    let atlas = atlas();
    let mut board = Board::empty(&atlas);
    board.red_hand = Hand::from_ids(Suit::Red, false, &[0, 0, 0, 0, 0], &atlas);
    board.wait_for_pick();
    assert_eq!(top(&board), State::WaitingPick);
    assert!(board.is_wf());
    assert!(board.red_hand.cards[0].unwrap().deal_animation);
    assert_eq!(board.update(&quiet(10)), None);
    assert_eq!(top(&board), State::WaitingPick);
    // The cards dealt keep moving while the round waits.
    assert!(!board.red_hand.cards[0].unwrap().deal_animation);
    board.next_state();
    assert_eq!(top(&board), State::Start);
}

#[test]
fn the_banner_goes_out_after_a_second() {
    let atlas = atlas();
    let mut board = Board::empty(&atlas);
    board.wait_for_pick();
    board.combo_message.start(Combo::Plus);
    assert!(board.combo_message.active);
    board.update(&quiet(600_000));
    assert!(board.combo_message.active);
    assert_eq!(board.combo_message.timer, 600_000);
    board.update(&quiet(600_000));
    assert!(board.combo_message.active);
    board.update(&quiet(1));
    assert!(!board.combo_message.active);
    assert_eq!(board.combo_message.combo, Combo::Plus);
}

#[test]
fn on_the_last_cell_the_automated_side_plays_its_first_card() {
    let atlas = atlas();
    let mut board = Board::empty(&atlas);
    for cell in [0usize, 1, 2, 3, 4, 5, 7, 8] {
        let side = if cell < 3 || cell == 4 { Suit::Red } else { Suit::Blue };
        board.playing_field.cards[cell] = Some(on_board(6, side, side, &atlas));
    }
    board.red_hand.add_card(0, 3, false);
    board.blue_hand = Hand::from_ids(Suit::Blue, true, &[6], &atlas);
    board.state_stack = vec![State::Finish, State::RedPlayerTurn(TurnPhase::Pick)];
    board.opponent.set_difficulty(5);
    assert!(board.is_wf());

    assert_eq!(tick(&mut board, &quiet(1)), Some(Event::PlaySound(Sfx::Move)));
    let job = board.opponent.ai.job.unwrap();
    assert_eq!(job.run(), Move { from: 3, to: 6, score: 5 });
    let mut summary = None;
    for _ in 0..30 {
        if let Some(Event::GameSummary(outcome, sudden_death)) = tick(&mut board, &quiet(2_000_000)) {
            summary = Some((outcome, sudden_death));
            break;
        }
    }
    // The card with the top rank of 5 beats the card above it.
    assert_eq!(summary, Some((DuelOutcome::Lose, false)));
    assert_eq!(board.playing_field.cards[6].unwrap().id, 0);
    assert_eq!(board.playing_field.cards[3].unwrap().controller, Suit::Red);
    assert_eq!(board.red_hand.count(), 0);
    assert_eq!(board.calculate_score(), (6, 4));
    assert_eq!(board.state_stack, vec![State::Finish]);
}

#[test]
fn init_puts_the_round_back_to_its_beginning() {
    let atlas = atlas();
    let mut board = Board::empty(&atlas);
    board.rules = Rules { plus: true, elemental: true, ..Rules::default() };
    board.red_hand = Hand::from_ids(Suit::Red, false, &[0, 0], &atlas);
    board.playing_field.cards[2] = Some(on_board(1, Suit::Blue, Suit::Blue, &atlas));
    board.playing_field.elem[2] = Some(ElementEntity::new(Element::Fire));
    board.opponent.set_difficulty(3);
    board.opponent.toogle_cards(2);
    board.state_stack = vec![State::Finish];
    board.init();
    assert_eq!(board.rules, Rules::default());
    assert_eq!(board.opponent.difficulty(), 1);
    assert_eq!(board.opponent.cards(), [true; 10]);
    assert_eq!(board.red_hand.count(), 0);
    assert!(board.playing_field.cards.iter().all(|c| c.is_none()));
    assert!(board.playing_field.elem.iter().all(|e| e.is_none()));
    assert_eq!(
        board.state_stack,
        vec![State::Finish, State::RedPlayerTurn(TurnPhase::Pick), State::Start]
    );
}

#[test]
fn a_round_out_of_step_is_recognized() {
    let atlas = atlas();
    let mut board = Board::empty(&atlas);
    board.red_hand = Hand::from_ids(Suit::Red, false, &[0, 0, 0, 0, 0], &atlas);
    board.blue_hand = Hand::from_ids(Suit::Blue, true, &[1, 1, 1, 1, 1], &atlas);
    board.first_turn(Suit::Red);
    assert!(board.is_wf());
    // A stack of phases that no round passes through.
    board.state_stack = vec![State::Finish, State::Check];
    assert!(!board.has_stack_shape());
    assert!(!board.is_wf());
    board.state_stack = vec![State::Start];
    assert!(!board.has_stack_shape());
    board.state_stack = vec![];
    assert!(!board.is_wf());
    // Blue cannot be placing without a selected card.
    board.state_stack = vec![State::Finish, State::BluePlayerTurn(TurnPhase::Place)];
    assert!(board.has_stack_shape());
    assert!(!board.is_wf());
    board.blue_hand.select(2);
    assert!(board.is_wf());
    // A card too many.
    board.playing_field.cards[0] = Some(on_board(1, Suit::Blue, Suit::Blue, &atlas));
    assert!(!board.is_wf());
    board.playing_field.cards[0] = None;
    // A card in the wrong hand.
    let stray = board.red_hand.cards[0];
    board.blue_hand.cards[0] = stray;
    assert!(!board.is_sound());
    assert!(!board.is_wf());
}
