use triple_triad::cards::{Element, Rank, Rules, Suit};
use triple_triad::search::{play, solve, solve_recur, Move};
use triple_triad::snapshot::{BoardSimple, CardSimple, Cell};

fn card(t: u8, r: u8, b: u8, l: u8, suit: Suit) -> CardSimple {
    let rank = Rank { t, b, l, r };
    CardSimple { rank, rank_elem: rank, suit, element: None }
}

fn bare(rules: Rules) -> BoardSimple {
    BoardSimple {
        red_hand: [None; 5],
        blue_hand: [None; 5],
        board: [Cell { card: None, element: None }; 9],
        rules,
    }
}

fn suit_at(board: &BoardSimple, n: usize) -> Suit {
    board.board[n].card.unwrap().suit
}

#[test]
fn bonus_and_malus_change_the_modified_ranks_only() {
    let mut c = card(0, 5, 10, 1, Suit::Red);
    c.add_bonus();
    assert_eq!(c.rank_elem, Rank { t: 1, b: 11, l: 2, r: 6 });
    assert_eq!(c.rank, Rank { t: 0, b: 10, l: 1, r: 5 });
    let mut d = card(0, 5, 10, 1, Suit::Red);
    d.add_malus();
    assert_eq!(d.rank_elem, Rank { t: 0, b: 9, l: 0, r: 4 });
    assert_eq!(d.rank, Rank { t: 0, b: 10, l: 1, r: 5 });
}

#[test]
fn flip_suit_changes_sides_both_ways() {
    let mut c = card(1, 1, 1, 1, Suit::Red);
    c.flip_suit();
    assert_eq!(c.suit, Suit::Blue);
    c.flip_suit();
    assert_eq!(c.suit, Suit::Red);
}

#[test]
fn a_tile_of_the_cards_element_gives_a_bonus() {
    let mut board = bare(Rules::default());
    board.board[3].element = Some(Element::Fire);
    let mut c = card(0, 5, 9, 1, Suit::Blue);
    c.element = Some(Element::Fire);
    board.put_card(c, 3);
    let placed = board.board[3].card.unwrap();
    assert_eq!(placed.rank_elem, Rank { t: 1, b: 10, l: 2, r: 6 });
    assert_eq!(placed.rank, c.rank);
    assert_eq!(board.board[3].element, Some(Element::Fire));
}

#[test]
fn any_other_tile_gives_a_malus_with_a_floor_of_zero() {
    let mut board = bare(Rules::default());
    board.board[3].element = Some(Element::Fire);
    board.board[4].element = Some(Element::Holy);
    let mut ice = card(0, 5, 9, 1, Suit::Blue);
    ice.element = Some(Element::Ice);
    board.put_card(ice, 3);
    assert_eq!(board.board[3].card.unwrap().rank_elem, Rank { t: 0, b: 8, l: 0, r: 4 });
    let plain = card(0, 5, 9, 1, Suit::Red);
    board.put_card(plain, 4);
    assert_eq!(board.board[4].card.unwrap().rank_elem, Rank { t: 0, b: 8, l: 0, r: 4 });
}

#[test]
fn without_a_tile_the_card_is_unchanged() {
    let mut board = bare(Rules::default());
    let mut c = card(0, 5, 9, 1, Suit::Blue);
    c.element = Some(Element::Wind);
    board.put_card(c, 8);
    assert_eq!(board.board[8].card, Some(c));
}

#[test]
fn a_greater_rank_captures_and_an_equal_rank_does_not() {
    let mut board = bare(Rules::default());
    board.board[1].card = Some(card(1, 1, 3, 1, Suit::Blue));
    board.board[3].card = Some(card(1, 5, 1, 1, Suit::Blue));
    board.put_card(card(5, 1, 1, 5, Suit::Red), 4);
    board.check(4, true);
    assert_eq!(suit_at(&board, 1), Suit::Red);
    assert_eq!(suit_at(&board, 3), Suit::Blue);
    assert_eq!(suit_at(&board, 4), Suit::Red);
    assert_eq!(board.score(), (2, 1));
}

#[test]
fn cards_of_the_same_side_are_never_captured() {
    let mut board = bare(Rules { same: true, plus: true, ..Rules::default() });
    board.board[1].card = Some(card(1, 1, 3, 1, Suit::Red));
    board.board[5].card = Some(card(1, 1, 1, 3, Suit::Red));
    board.put_card(card(3, 3, 9, 9, Suit::Red), 4);
    board.check(4, true);
    assert_eq!(board.score(), (3, 0));
}

#[test]
fn normal_compares_the_modified_ranks() {
    let mut board = bare(Rules::default());
    board.board[4].element = Some(Element::Earth);
    board.board[1].card = Some(card(1, 1, 4, 1, Suit::Blue));
    // Base rank 5 beats 4, but the malus of the tile brings it down to 4.
    board.put_card(card(5, 1, 1, 1, Suit::Red), 4);
    board.check(4, true);
    assert_eq!(suit_at(&board, 1), Suit::Blue);
}

#[test]
fn same_captures_with_two_matches_and_not_with_one() {
    let rules = Rules { same: true, ..Rules::default() };
    let mut board = bare(rules);
    board.board[1].card = Some(card(9, 9, 5, 9, Suit::Blue));
    board.board[5].card = Some(card(9, 9, 9, 5, Suit::Blue));
    board.put_card(card(5, 5, 1, 1, Suit::Red), 4);
    board.check(4, true);
    assert_eq!(suit_at(&board, 1), Suit::Red);
    assert_eq!(suit_at(&board, 5), Suit::Red);

    let mut single = bare(rules);
    single.board[1].card = Some(card(9, 9, 5, 9, Suit::Blue));
    single.board[5].card = Some(card(9, 9, 9, 6, Suit::Blue));
    single.put_card(card(5, 5, 1, 1, Suit::Red), 4);
    single.check(4, true);
    assert_eq!(suit_at(&single, 1), Suit::Blue);
    assert_eq!(suit_at(&single, 5), Suit::Blue);
}

#[test]
fn same_is_off_unless_the_rules_have_it() {
    let mut board = bare(Rules::default());
    board.board[1].card = Some(card(9, 9, 5, 9, Suit::Blue));
    board.board[5].card = Some(card(9, 9, 9, 5, Suit::Blue));
    board.put_card(card(5, 5, 1, 1, Suit::Red), 4);
    board.check(4, true);
    assert_eq!(board.score(), (1, 2));
}

#[test]
fn same_reads_base_ranks() {
    let rules = Rules { same: true, ..Rules::default() };
    let mut board = bare(rules);
    board.board[4].element = Some(Element::Fire);
    board.board[1].card = Some(card(9, 9, 5, 9, Suit::Blue));
    board.board[5].card = Some(card(9, 9, 9, 5, Suit::Blue));
    // The malus lowers the modified ranks to 4; the base ranks still match.
    board.put_card(card(5, 5, 1, 1, Suit::Red), 4);
    board.check(4, true);
    assert_eq!(suit_at(&board, 1), Suit::Red);
    assert_eq!(suit_at(&board, 5), Suit::Red);
}

#[test]
fn plus_captures_equal_sums() {
    let rules = Rules { plus: true, ..Rules::default() };
    let mut board = bare(rules);
    board.board[1].card = Some(card(9, 9, 5, 9, Suit::Blue));
    board.board[5].card = Some(card(9, 9, 9, 4, Suit::Blue));
    board.board[7].card = Some(card(9, 9, 9, 9, Suit::Blue));
    board.put_card(card(3, 4, 5, 6, Suit::Red), 4);
    board.check(4, true);
    assert_eq!(suit_at(&board, 1), Suit::Red);
    assert_eq!(suit_at(&board, 5), Suit::Red);
    assert_eq!(suit_at(&board, 7), Suit::Blue);
}

#[test]
fn a_card_captured_by_same_is_checked_with_the_normal_rule() {
    let rules = Rules { same: true, ..Rules::default() };
    let mut board = bare(rules);
    board.board[1].card = Some(card(1, 9, 5, 9, Suit::Blue));
    board.board[5].card = Some(card(1, 1, 1, 5, Suit::Blue));
    board.board[0].card = Some(card(1, 3, 1, 1, Suit::Blue));
    board.board[2].card = Some(card(1, 1, 1, 9, Suit::Blue));
    board.put_card(card(5, 5, 1, 1, Suit::Red), 4);
    board.check(4, true);
    // Cells 1 and 5 fall to Same. Cell 1 then beats cell 0 (9 against 3)
    // but not cell 2 (9 against 9).
    assert_eq!(suit_at(&board, 1), Suit::Red);
    assert_eq!(suit_at(&board, 5), Suit::Red);
    assert_eq!(suit_at(&board, 0), Suit::Red);
    assert_eq!(suit_at(&board, 2), Suit::Blue);
    assert_eq!(board.score(), (4, 1));
}

#[test]
fn a_card_captured_by_same_does_not_capture_by_same() {
    let rules = Rules { same: true, plus: true, ..Rules::default() };
    let mut board = bare(rules);
    board.board[1].card = Some(card(1, 7, 5, 7, Suit::Blue));
    board.board[5].card = Some(card(1, 1, 1, 5, Suit::Blue));
    // Both neighbours of cell 1 match its ranks: Same would capture them if
    // it were allowed in the check that follows.
    board.board[0].card = Some(card(1, 7, 1, 1, Suit::Blue));
    board.board[2].card = Some(card(1, 1, 1, 7, Suit::Blue));
    board.put_card(card(5, 5, 1, 1, Suit::Red), 4);
    board.check(4, true);
    assert_eq!(suit_at(&board, 1), Suit::Red);
    assert_eq!(suit_at(&board, 5), Suit::Red);
    assert_eq!(suit_at(&board, 0), Suit::Blue);
    assert_eq!(suit_at(&board, 2), Suit::Blue);
}

#[test]
fn a_card_captured_by_the_normal_rule_is_not_checked() {
    let mut board = bare(Rules::default());
    board.board[1].card = Some(card(1, 9, 5, 9, Suit::Blue));
    board.board[0].card = Some(card(1, 3, 1, 1, Suit::Blue));
    board.put_card(card(6, 1, 1, 1, Suit::Red), 4);
    board.check(4, true);
    assert_eq!(suit_at(&board, 1), Suit::Red);
    assert_eq!(suit_at(&board, 0), Suit::Blue);
}

#[test]
fn check_without_combo_uses_the_normal_rule_alone() {
    let rules = Rules { same: true, plus: true, ..Rules::default() };
    let mut board = bare(rules);
    board.board[1].card = Some(card(9, 9, 5, 9, Suit::Blue));
    board.board[5].card = Some(card(9, 9, 9, 5, Suit::Blue));
    board.board[7].card = Some(card(0, 9, 9, 9, Suit::Blue));
    board.put_card(card(5, 5, 1, 1, Suit::Red), 4);
    board.check(4, false);
    assert_eq!(suit_at(&board, 1), Suit::Blue);
    assert_eq!(suit_at(&board, 5), Suit::Blue);
    assert_eq!(suit_at(&board, 7), Suit::Red);
}

#[test]
fn the_wall_counts_as_rank_ten_for_same() {
    let rules = Rules { same: true, same_wall: true, ..Rules::default() };
    let mut board = bare(rules);
    board.board[1].card = Some(card(9, 9, 9, 5, Suit::Blue));
    board.put_card(card(10, 5, 1, 1, Suit::Red), 0);
    board.check(0, true);
    assert_eq!(suit_at(&board, 1), Suit::Red);

    let mut plain = bare(Rules { same: true, ..Rules::default() });
    plain.board[1].card = Some(card(9, 9, 9, 5, Suit::Blue));
    plain.put_card(card(10, 5, 1, 1, Suit::Red), 0);
    plain.check(0, true);
    assert_eq!(suit_at(&plain, 1), Suit::Blue);
}

#[test]
fn under_the_wall_variant_an_empty_cell_counts_like_the_edge() {
    // The assumption made here: under the wall variant a direction in which
    // no card lies counts as rank 10, whether the board ends there or the
    // cell there is empty; nothing is ever captured there.
    let rules = Rules { same: true, same_wall: true, ..Rules::default() };
    let mut board = bare(rules);
    board.board[5].card = Some(card(9, 9, 9, 5, Suit::Blue));
    // Cell 1 is empty and faces a rank of 10.
    board.put_card(card(10, 5, 1, 1, Suit::Red), 4);
    board.check(4, true);
    assert_eq!(suit_at(&board, 5), Suit::Red);
    assert!(board.board[1].card.is_none());
}

#[test]
fn under_the_wall_variant_a_card_of_the_same_side_counts_for_nothing() {
    let rules = Rules { same: true, same_wall: true, ..Rules::default() };
    let mut board = bare(rules);
    board.board[1].card = Some(card(1, 1, 1, 1, Suit::Red));
    board.board[5].card = Some(card(9, 9, 9, 5, Suit::Blue));
    // The red card above faces the rank of 10, but it is neither compared
    // nor a wall: the match to the right stays the only one.
    board.put_card(card(10, 5, 1, 1, Suit::Red), 4);
    board.check(4, true);
    assert_eq!(suit_at(&board, 5), Suit::Blue);
    assert_eq!(suit_at(&board, 1), Suit::Red);
    assert_eq!(board.score(), (2, 1));
}

#[test]
fn score_counts_hands_and_board_by_side() {
    let mut board = bare(Rules::default());
    board.red_hand[0] = Some(card(1, 1, 1, 1, Suit::Red));
    board.red_hand[3] = Some(card(1, 1, 1, 1, Suit::Red));
    board.blue_hand[4] = Some(card(1, 1, 1, 1, Suit::Blue));
    board.board[0].card = Some(card(1, 1, 1, 1, Suit::Blue));
    board.board[8].card = Some(card(1, 1, 1, 1, Suit::Red));
    assert_eq!(board.score(), (3, 2));
    assert_eq!(board.empty_cells(), 7);
    assert_eq!(BoardSimple::cards_in_hand(&board.red_hand), 2);
}

#[test]
fn captures_keep_the_sum_of_the_scores() {
    let rules = Rules { same: true, plus: true, ..Rules::default() };
    let mut board = bare(rules);
    for n in [0usize, 1, 2, 3, 5, 6, 7] {
        board.board[n].card = Some(card(5, 5, 5, 5, Suit::Blue));
    }
    board.red_hand[2] = Some(card(5, 5, 8, 8, Suit::Red));
    board.blue_hand[0] = Some(card(1, 1, 1, 1, Suit::Blue));
    let before = board.score();
    let after = play(&board, Suit::Red, 2, 4);
    let score = after.score();
    assert_eq!(before.0 + before.1, 9);
    assert_eq!(score.0 + score.1, 9);
    assert_eq!(after.empty_cells(), 1);
    assert!(after.red_hand[2].is_none());
}

#[test]
fn search_of_depth_zero_is_the_score() {
    let mut board = bare(Rules::default());
    board.red_hand[0] = Some(card(9, 9, 9, 9, Suit::Red));
    board.board[0].card = Some(card(1, 1, 1, 1, Suit::Blue));
    assert_eq!(solve_recur(Suit::Red, &board, 0), (1, 1));
}

#[test]
fn search_with_an_empty_hand_or_a_full_board_is_the_score() {
    let mut board = bare(Rules::default());
    board.blue_hand[0] = Some(card(9, 9, 9, 9, Suit::Blue));
    board.board[0].card = Some(card(1, 1, 1, 1, Suit::Blue));
    assert_eq!(solve_recur(Suit::Red, &board, 3), (0, 2));
    let mut full = bare(Rules::default());
    for n in 0..9 {
        full.board[n].card = Some(card(1, 1, 1, 1, if n < 4 { Suit::Red } else { Suit::Blue }));
    }
    full.red_hand[0] = Some(card(9, 9, 9, 9, Suit::Red));
    assert_eq!(solve_recur(Suit::Red, &full, 3), (5, 5));
}

#[test]
fn search_of_one_ply_finds_the_capture() {
    let mut board = bare(Rules::default());
    board.red_hand[1] = Some(card(5, 1, 1, 1, Suit::Red));
    board.board[1].card = Some(card(1, 1, 3, 1, Suit::Blue));
    // Only below the blue card does the red card capture it.
    assert_eq!(solve_recur(Suit::Red, &board, 1), (2, 0));
    assert_eq!(solve(1, &board, 1), Move { from: 1, to: 4, score: 2 });
}

#[test]
fn search_keeps_the_first_of_equal_candidates() {
    let mut board = bare(Rules::default());
    board.red_hand[0] = Some(card(1, 1, 1, 1, Suit::Red));
    board.red_hand[3] = Some(card(1, 1, 1, 1, Suit::Red));
    board.board[0].card = Some(card(9, 9, 9, 9, Suit::Blue));
    // No placement captures anything: every cell is worth two cards, and
    // the first empty cell is kept.
    assert_eq!(solve(3, &board, 1), Move { from: 3, to: 1, score: 2 });
    assert_eq!(solve(0, &board, 1), Move { from: 0, to: 1, score: 2 });
}

#[test]
fn search_of_two_plies_counts_the_reply() {
    let mut board = bare(Rules::default());
    board.red_hand[0] = Some(card(2, 2, 2, 2, Suit::Red));
    board.blue_hand[0] = Some(card(9, 9, 9, 9, Suit::Blue));
    for n in [0usize, 1, 2, 3, 5, 6] {
        board.board[n].card = Some(card(9, 9, 9, 9, Suit::Blue));
    }
    // Three cells are empty: 4, 7 and 8. Wherever Red puts its card, Blue
    // captures it with its reply. Every placement is worth the same, and
    // the first one is kept.
    assert_eq!(solve_recur(Suit::Red, &board, 2), (0, 8));
    assert_eq!(solve(0, &board, 2), Move { from: 0, to: 4, score: 0 });
    // Blue, moving first at a depth of one, keeps all eight cards.
    assert_eq!(solve_recur(Suit::Blue, &board, 1), (1, 7));
    // Looking one ply ahead only, Red still holds its card.
    assert_eq!(solve_recur(Suit::Red, &board, 1), (1, 7));
}

#[test]
fn the_last_empty_cell_is_taken_without_a_search() {
    let mut board = bare(Rules { same: true, plus: true, ..Rules::default() });
    for n in [0usize, 1, 2, 3, 4, 5, 7, 8] {
        board.board[n].card = Some(card(1, 1, 1, 1, Suit::Blue));
    }
    board.red_hand[2] = Some(card(9, 9, 9, 9, Suit::Red));
    board.red_hand[4] = Some(card(9, 9, 9, 9, Suit::Red));
    assert_eq!(solve(4, &board, 5), Move { from: 2, to: 6, score: 5 });
    assert_eq!(solve(2, &board, 1), Move { from: 2, to: 6, score: 5 });
}

#[test]
fn a_new_move_is_all_zero() {
    assert_eq!(Move::new(), Move { from: 0, to: 0, score: 0 });
}

#[test]
fn a_search_that_loses_every_card_still_returns_a_placement() {
    let mut board = bare(Rules::default());
    board.red_hand[0] = Some(card(1, 1, 1, 1, Suit::Red));
    board.blue_hand[0] = Some(card(9, 9, 9, 9, Suit::Blue));
    // Every placement of Red is answered by a capture. The value is that of
    // the first placement, which is the score of a board that play leads
    // to: both cards are Blue's.
    assert_eq!(solve_recur(Suit::Red, &board, 2), (0, 2));
    assert_eq!(solve(0, &board, 2), Move { from: 0, to: 0, score: 0 });
    // With Red's card in another slot and cell 0 taken, the move names that
    // slot and the first empty cell.
    let mut later = bare(Rules::default());
    later.red_hand[3] = Some(card(1, 1, 1, 1, Suit::Red));
    later.blue_hand[0] = Some(card(9, 9, 9, 9, Suit::Blue));
    later.board[0].card = Some(card(9, 9, 9, 9, Suit::Blue));
    assert_eq!(solve_recur(Suit::Red, &later, 2), (0, 3));
    assert_eq!(solve(3, &later, 2), Move { from: 3, to: 1, score: 0 });
}

#[test]
fn a_later_candidate_needs_strictly_more() {
    let mut board = bare(Rules::default());
    board.red_hand[0] = Some(card(1, 1, 1, 1, Suit::Red));
    board.red_hand[1] = Some(card(5, 1, 1, 1, Suit::Red));
    board.board[1].card = Some(card(1, 1, 3, 1, Suit::Blue));
    // The first card captures nowhere; the second captures from cell 4.
    assert_eq!(solve_recur(Suit::Red, &board, 1), (3, 0));
    assert_eq!(solve(0, &board, 1), Move { from: 0, to: 0, score: 2 });
    assert_eq!(solve(1, &board, 1), Move { from: 1, to: 4, score: 3 });
}

#[test]
fn on_a_full_board_nothing_is_found() {
    let mut full = bare(Rules::default());
    for n in 0..9 {
        full.board[n].card = Some(card(1, 1, 1, 1, Suit::Blue));
    }
    full.red_hand[2] = Some(card(9, 9, 9, 9, Suit::Red));
    assert_eq!(solve(2, &full, 3), Move::new());
}
