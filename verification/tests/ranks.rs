use triple_triad::capture::{captures, Combo};
use triple_triad::cards::Rules;
use triple_triad::ranks::{border_mask, check_normal, check_plus, check_same, check_same_wall};

#[test]
fn same_needs_two_matches() {
    let both = check_same([5, 5, 5, 5], [Some(5), Some(5), None, None]);
    assert_eq!(both, [true, true, false, false]);
    let single = check_same([5, 5, 5, 5], [Some(5), None, None, None]);
    assert_eq!(single, [false, false, false, false]);
}

#[test]
fn same_flips_only_the_equal_directions() {
    let res = check_same([5, 6, 7, 8], [Some(5), Some(6), Some(1), Some(9)]);
    assert_eq!(res, [true, true, false, false]);
    let all = check_same([2, 2, 2, 2], [Some(2), Some(2), Some(2), Some(2)]);
    assert_eq!(all, [true, true, true, true]);
}

#[test]
fn plus_flips_equal_sums_only() {
    let res = check_plus([3, 4, 5, 6], [Some(5), Some(4), Some(1), None]);
    assert_eq!(res, [true, true, false, false]);
}

#[test]
fn plus_needs_two_present_neighbours() {
    assert_eq!(check_plus([3, 4, 5, 6], [Some(5), None, None, None]), [false; 4]);
    assert_eq!(check_plus([3, 4, 5, 6], [None, None, None, None]), [false; 4]);
}

#[test]
fn plus_counts_sums_of_zero() {
    // Two directions that both sum to zero are a pair like any other, and a
    // direction whose sum is unique stays out even when it is zero.
    assert_eq!(check_plus([0, 0, 5, 5], [Some(0), Some(0), None, None]), [true, true, false, false]);
    assert_eq!(
        check_plus([3, 4, 0, 6], [Some(5), Some(4), Some(0), None]),
        [true, true, false, false]
    );
}

#[test]
fn plus_with_two_pairs_and_large_ranks() {
    assert_eq!(
        check_plus([1, 2, 3, 4], [Some(4), Some(3), Some(7), Some(6)]),
        [true, true, true, true]
    );
    assert_eq!(
        check_plus([255, 255, 0, 0], [Some(255), Some(255), Some(254), None]),
        [true, true, false, false]
    );
}

#[test]
fn normal_is_strict() {
    let res = check_normal([5, 5, 5, 5], [Some(4), Some(5), Some(6), None]);
    assert_eq!(res, [true, false, false, false]);
}

#[test]
fn neighbours_of_the_centre_and_a_corner() {
    assert_eq!(border_mask(4), [Some(1), Some(5), Some(7), Some(3)]);
    assert_eq!(border_mask(0), [None, Some(1), Some(3), None]);
    assert_eq!(border_mask(8), [Some(5), None, None, Some(7)]);
}

#[test]
fn neighbours_do_not_wrap_around_rows() {
    assert_eq!(border_mask(2), [None, None, Some(5), Some(1)]);
    assert_eq!(border_mask(3), [Some(0), Some(4), Some(6), None]);
    assert_eq!(border_mask(6), [Some(3), Some(7), None, None]);
}

#[test]
fn wall_counts_every_direction_without_a_card_as_ten() {
    // No card lies above, below or to the left. One real match and one edge
    // of rank 10 beside a direction without a card make the two matches;
    // only the neighbour that is compared is captured.
    let gaps = [true, false, true, true];
    assert_eq!(
        check_same_wall([10, 5, 1, 1], [None, Some(5), None, None], gaps),
        [false, true, false, false]
    );
    // Without a rank of 10 beside such a direction one match stays one.
    assert_eq!(check_same_wall([9, 5, 1, 1], [None, Some(5), None, None], gaps), [false; 4]);
    // The plain rule does not count it.
    assert_eq!(check_same([10, 5, 1, 1], [None, Some(5), None, None]), [false; 4]);
}

#[test]
fn wall_does_not_count_a_neighbour_of_the_same_side() {
    // A card of the same side lies above: it is not compared, and it is no
    // wall either.
    assert_eq!(
        check_same_wall([10, 5, 1, 1], [None, Some(5), None, None], [false, false, true, true]),
        [false; 4]
    );
    assert_eq!(
        check_same_wall([10, 5, 1, 1], [None, Some(5), None, None], [false; 4]),
        [false; 4]
    );
    // The wall below still counts.
    assert_eq!(
        check_same_wall([10, 5, 10, 1], [None, Some(5), None, None], [false, false, true, false]),
        [false, true, false, false]
    );
}

#[test]
fn wall_never_captures_where_no_card_lies() {
    assert_eq!(check_same_wall([10, 10, 10, 10], [None, None, None, None], [true; 4]), [false; 4]);
}

#[test]
fn capture_kinds_are_ranked_same_plus_normal() {
    let all = Rules { plus: true, same: true, ..Rules::default() };
    // Directions 0 and 1 match by Same and by Plus and by Normal on the
    // modified ranks; direction 2 is captured by Normal alone.
    let kinds = captures(
        [5, 5, 1, 1],
        [9, 9, 9, 9],
        [Some(5), Some(5), Some(7), None],
        [Some(5), Some(5), Some(7), None],
        [false, false, false, true],
        &all,
        true,
    );
    assert_eq!(kinds, [Some(Combo::Same), Some(Combo::Same), Some(Combo::NoCombo), None]);
    let plus_only = Rules { plus: true, ..Rules::default() };
    let kinds = captures(
        [5, 5, 1, 1],
        [5, 5, 1, 1],
        [Some(5), Some(5), Some(7), None],
        [Some(5), Some(5), Some(7), None],
        [false, false, false, true],
        &plus_only,
        true,
    );
    assert_eq!(kinds, [Some(Combo::Plus), Some(Combo::Plus), None, None]);
}

#[test]
fn without_combo_only_normal_captures() {
    let all = Rules { plus: true, same: true, same_wall: true, ..Rules::default() };
    let kinds = captures(
        [5, 5, 1, 1],
        [5, 5, 1, 1],
        [Some(5), Some(5), Some(0), None],
        [Some(5), Some(5), Some(0), None],
        [false, false, false, true],
        &all,
        false,
    );
    assert_eq!(kinds, [None, None, Some(Combo::NoCombo), None]);
}

#[test]
fn normal_reads_the_modified_ranks() {
    let kinds = captures(
        [5, 5, 5, 5],
        [4, 6, 5, 5],
        [Some(4), Some(5), None, None],
        [Some(4), Some(5), None, None],
        [false, false, true, true],
        &Rules::default(),
        true,
    );
    assert_eq!(kinds, [None, Some(Combo::NoCombo), None, None]);
}

#[test]
fn captures_hand_the_gaps_to_the_wall_variant() {
    let wall = Rules { same: true, same_wall: true, ..Rules::default() };
    let with_gap = captures(
        [10, 5, 1, 1],
        [10, 5, 1, 1],
        [None, Some(5), None, None],
        [None, Some(5), None, None],
        [true, false, true, true],
        &wall,
        true,
    );
    assert_eq!(with_gap, [None, Some(Combo::Same), None, None]);
    let own_card_above = captures(
        [10, 5, 1, 1],
        [10, 5, 1, 1],
        [None, Some(5), None, None],
        [None, Some(5), None, None],
        [false, false, true, true],
        &wall,
        true,
    );
    assert_eq!(own_card_above, [None; 4]);
}
