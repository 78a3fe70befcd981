//! Which of a card's four neighbours it captures, and by which rule.

use vstd::prelude::*;
use crate::cards::Rules;
use crate::ranks::{
    check_normal, check_plus, check_same, check_same_wall, normal_flips, plus_flips, same_flips,
    same_wall_flips,
};

verus! {

/// The rule behind a capture, or the banner shown for it.
#[derive(Clone, Copy, Debug, PartialEq, Eq, Structural)]
pub enum Combo {
    /// A capture by the Normal rule alone.
    NoCombo,
    Plus,
    Same,
    /// A capture that follows from an earlier Same or Plus capture.
    Combo,
}

/// Whether the Same rule, in the variant that `rules` selects, captures the
/// neighbour in direction `dir`. `combo` says whether combination rules are
/// allowed at all for this check.
pub open spec fn same_applies(
    this: Seq<u8>,
    other: Seq<Option<u8>>,
    missing: Seq<bool>,
    rules: Rules,
    combo: bool,
    dir: int,
) -> bool {
    combo && rules.same && (if rules.same_wall {
        same_wall_flips(this, other, missing, dir)
    } else {
        same_flips(this, other, dir)
    })
}

/// Whether the Plus rule captures the neighbour in direction `dir`.
pub open spec fn plus_applies(
    this: Seq<u8>,
    other: Seq<Option<u8>>,
    rules: Rules,
    combo: bool,
    dir: int,
) -> bool {
    combo && rules.plus && plus_flips(this, other, dir)
}

/// The rule by which the neighbour in direction `dir` is captured, if it is.
///
/// Same and Plus compare base ranks (`this`, `other`); Normal compares the
/// ranks after the elemental modifier (`this_elem`, `other_elem`).
/// `missing` says in which directions no card lies at all, which the wall
/// variant of Same counts as neighbours of rank 10. Where several rules
/// capture the same neighbour, Same is reported before Plus and Plus before
/// Normal.
pub open spec fn capture_kind(
    this: Seq<u8>,
    this_elem: Seq<u8>,
    other: Seq<Option<u8>>,
    other_elem: Seq<Option<u8>>,
    missing: Seq<bool>,
    rules: Rules,
    combo: bool,
    dir: int,
) -> Option<Combo> {
    if same_applies(this, other, missing, rules, combo, dir) {
        Some(Combo::Same)
    } else if plus_applies(this, other, rules, combo, dir) {
        Some(Combo::Plus)
    } else if normal_flips(this_elem, other_elem, dir) {
        Some(Combo::NoCombo)
    } else {
        None
    }
}

/// With combination rules switched off, a neighbour is captured exactly when
/// the Normal rule captures it.
pub proof fn lemma_no_combo_is_normal(
    this: Seq<u8>,
    this_elem: Seq<u8>,
    other: Seq<Option<u8>>,
    other_elem: Seq<Option<u8>>,
    missing: Seq<bool>,
    rules: Rules,
    dir: int,
)
    ensures
        capture_kind(this, this_elem, other, other_elem, missing, rules, false, dir) == (if normal_flips(
            this_elem,
            other_elem,
            dir,
        ) {
            Some(Combo::NoCombo)
        } else {
            None
        }),
{
}

/// The capture in each of the four directions.
pub fn captures(
    this: [u8; 4],
    this_elem: [u8; 4],
    other: [Option<u8>; 4],
    other_elem: [Option<u8>; 4],
    missing: [bool; 4],
    rules: &Rules,
    combo: bool,
) -> (kinds: [Option<Combo>; 4])
    ensures
        forall|dir: int|
            0 <= dir < 4 ==> (#[trigger] kinds[dir]) == capture_kind(
                this@,
                this_elem@,
                other@,
                other_elem@,
                missing@,
                *rules,
                combo,
                dir,
            ),
{
    let same = if rules.same && combo {
        if rules.same_wall {
            check_same_wall(this, other, missing)
        } else {
            check_same(this, other)
        }
    } else {
        [false;4]
    };
    let plus = if rules.plus && combo {
        check_plus(this, other)
    } else {
        [false;4]
    };
    let normal = check_normal(this_elem, other_elem);
    let mut kinds: [Option<Combo>; 4] = [None;4];
    let mut i: usize = 0;
    while i < 4
        invariant
            i <= 4,
            forall|dir: int|
                0 <= dir < 4 ==> (#[trigger] same[dir]) == same_applies(
                    this@,
                    other@,
                    missing@,
                    *rules,
                    combo,
                    dir,
                ),
            forall|dir: int|
                0 <= dir < 4 ==> (#[trigger] plus[dir]) == plus_applies(
                    this@,
                    other@,
                    *rules,
                    combo,
                    dir,
                ),
            forall|dir: int|
                0 <= dir < 4 ==> (#[trigger] normal[dir]) == normal_flips(
                    this_elem@,
                    other_elem@,
                    dir,
                ),
            forall|dir: int|
                0 <= dir < i ==> (#[trigger] kinds[dir]) == capture_kind(
                    this@,
                    this_elem@,
                    other@,
                    other_elem@,
                    missing@,
                    *rules,
                    combo,
                    dir,
                ),
        decreases 4 - i,
    {
        let kind = if same[i] {
            Some(Combo::Same)
        } else if plus[i] {
            Some(Combo::Plus)
        } else if normal[i] {
            Some(Combo::NoCombo)
        } else {
            None
        };
        kinds[i] = kind;
        i += 1;
    }
    kinds
}

} // verus!
