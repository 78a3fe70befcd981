//! Adjacency on the board and the three ways in which a card's ranks are
//! compared with those of its neighbours.
//!
//! Directions are numbered 0 to 3 in the order top, right, bottom, left. A
//! neighbour's rank is `None` where there is nothing to compare with.

use vstd::prelude::*;

verus! {

/// The rank that a direction without a card counts as under the wall variant.
pub const WALL_RANK: u8 = 10;

/// The cell next to cell `n` in direction `dir`, if the board has one there.
/// Rows do not wrap around.
pub open spec fn neighbor(n: int, dir: int) -> Option<int> {
    if dir == 0 {
        if n >= 3 { Some(n - 3) } else { None }
    } else if dir == 1 {
        if n % 3 <= 1 { Some(n + 1) } else { None }
    } else if dir == 2 {
        if n / 3 <= 1 { Some(n + 3) } else { None }
    } else {
        if n % 3 >= 1 { Some(n - 1) } else { None }
    }
}

/// A neighbour of a board cell is a different board cell, and the cell is
/// in turn its neighbour in the opposite direction.
pub proof fn lemma_neighbor_on_board(n: int, dir: int)
    requires
        0 <= n < 9,
        0 <= dir < 4,
        neighbor(n, dir) is Some,
    ensures
        0 <= neighbor(n, dir).unwrap() < 9,
        neighbor(n, dir).unwrap() != n,
        neighbor(neighbor(n, dir).unwrap(), (dir + 2) % 4) == Some(n),
{
}

/// The four neighbours of cell `n`, in the order top, right, bottom, left.
pub fn border_mask(n: usize) -> (mask: [Option<usize>; 4])
    requires
        n < usize::MAX,
    ensures
        forall|dir: int|
            0 <= dir < 4 ==> (#[trigger] mask[dir]) == (match neighbor(n as int, dir) {
                Some(k) => Some(k as usize),
                None => None,
            }),
{
    [
        if n >= 3 { Some(n - 3) } else { None },
        if n % 3 <= 1 { Some(n + 1) } else { None },
        if n / 3 <= 1 { Some(n + 3) } else { None },
        if n % 3 >= 1 { Some(n - 1) } else { None },
    ]
}

/// Under the Normal rule a present neighbour is captured exactly when this
/// card's rank is strictly greater.
pub open spec fn normal_flips(this: Seq<u8>, other: Seq<Option<u8>>, dir: int) -> bool {
    other[dir] is Some && this[dir] > other[dir].unwrap()
}

/// The Normal rule, for each direction.
pub fn check_normal(this: [u8; 4], other: [Option<u8>; 4]) -> (res: [bool; 4])
    ensures
        forall|dir: int| 0 <= dir < 4 ==> (#[trigger] res[dir]) == normal_flips(this@, other@, dir),
{
    let mut res = [false;4];
    let mut i: usize = 0;
    while i < 4
        invariant
            i <= 4,
            forall|dir: int| 0 <= dir < i ==> (#[trigger] res[dir]) == normal_flips(this@, other@, dir),
        decreases 4 - i,
    {
        let flips = match other[i] {
            Some(rank) => this[i] > rank,
            None => false,
        };
        res[i] = flips;
        i += 1;
    }
    res
}

/// This card's rank in direction `dir` equals the neighbour's.
pub open spec fn same_match(this: Seq<u8>, other: Seq<Option<u8>>, dir: int) -> bool {
    other[dir] == Some(this[dir])
}

/// In how many of the four directions the ranks are equal.
pub open spec fn same_count(this: Seq<u8>, other: Seq<Option<u8>>) -> int {
    (if same_match(this, other, 0) { 1int } else { 0 })
        + (if same_match(this, other, 1) { 1int } else { 0 })
        + (if same_match(this, other, 2) { 1int } else { 0 })
        + (if same_match(this, other, 3) { 1int } else { 0 })
}

/// Under the Same rule a neighbour is captured when its rank equals this
/// card's and the ranks are equal in at least two directions.
pub open spec fn same_flips(this: Seq<u8>, other: Seq<Option<u8>>, dir: int) -> bool {
    same_match(this, other, dir) && same_count(this, other) >= 2
}

/// The Same rule, for each direction.
pub fn check_same(this: [u8; 4], other: [Option<u8>; 4]) -> (res: [bool; 4])
    ensures
        forall|dir: int| 0 <= dir < 4 ==> (#[trigger] res[dir]) == same_flips(this@, other@, dir),
{
    let mut hits = [false;4];
    let mut count: usize = 0;
    let mut i: usize = 0;
    while i < 4
        invariant
            i <= 4,
            forall|dir: int| 0 <= dir < i ==> (#[trigger] hits[dir]) == same_match(this@, other@, dir),
            forall|dir: int| i <= dir < 4 ==> !(#[trigger] hits[dir]),
            count == (if hits[0] { 1int } else { 0 }) + (if hits[1] { 1int } else { 0 }) + (if hits[2] {
                1int
            } else {
                0
            }) + (if hits[3] { 1int } else { 0 }),
        decreases 4 - i,
    {
        let hit = match other[i] {
            Some(rank) => this[i] == rank,
            None => false,
        };
        if hit {
            hits[i] = true;
            count += 1;
        }
        i += 1;
    }
    if count < 2 {
        [false;4]
    } else {
        hits
    }
}

/// The neighbour ranks as the wall variant of Same sees them. `missing`
/// says for each direction whether no card lies there at all: beyond the
/// edge of the board, or on an empty cell. Such a direction counts as a
/// neighbour of rank 10. A card that lies there but is not compared, because
/// it belongs to the same side, stays out.
pub open spec fn walled(other: Seq<Option<u8>>, missing: Seq<bool>) -> Seq<Option<u8>> {
    Seq::new(
        4,
        |dir: int|
            match other[dir] {
                Some(rank) => Some(rank),
                None => if missing[dir] {
                    Some(WALL_RANK)
                } else {
                    None
                },
            },
    )
}

/// Under the wall variant of Same a direction without a card counts as a
/// neighbour of rank 10 when the equal ranks are counted, but only a
/// neighbour that is compared is captured.
pub open spec fn same_wall_flips(
    this: Seq<u8>,
    other: Seq<Option<u8>>,
    missing: Seq<bool>,
    dir: int,
) -> bool {
    same_match(this, other, dir) && same_count(this, walled(other, missing)) >= 2
}

/// Where a card lies in every direction, the wall variant of Same is the
/// plain rule: a neighbour of the same side counts for nothing, wall or no
/// wall.
pub proof fn lemma_wall_needs_a_gap(
    this: Seq<u8>,
    other: Seq<Option<u8>>,
    missing: Seq<bool>,
    dir: int,
)
    requires
        other.len() == 4,
        missing.len() == 4,
        forall|d: int| 0 <= d < 4 ==> !(#[trigger] missing[d]),
    ensures
        same_wall_flips(this, other, missing, dir) == same_flips(this, other, dir),
{
    assert(walled(other, missing) =~= other);
}

/// The wall variant of the Same rule, for each direction.
pub fn check_same_wall(this: [u8; 4], other: [Option<u8>; 4], missing: [bool; 4]) -> (res: [bool; 4])
    ensures
        forall|dir: int|
            0 <= dir < 4 ==> (#[trigger] res[dir]) == same_wall_flips(
                this@,
                other@,
                missing@,
                dir,
            ),
{
    let mut with_wall: [Option<u8>; 4] = [None;4];
    let mut i: usize = 0;
    while i < 4
        invariant
            i <= 4,
            forall|dir: int|
                0 <= dir < i ==> (#[trigger] with_wall[dir]) == walled(other@, missing@)[dir],
        decreases 4 - i,
    {
        if let Some(rank) = other[i] {
            with_wall[i] = Some(rank);
        } else if missing[i] {
            with_wall[i] = Some(WALL_RANK);
        } else {
            with_wall[i] = None;
        }
        i += 1;
    }
    assert(with_wall@ =~= walled(other@, missing@));
    let matched = check_same(this, with_wall);
    let mut res = [false;4];
    let mut k: usize = 0;
    while k < 4
        invariant
            k <= 4,
            with_wall@ == walled(other@, missing@),
            forall|dir: int|
                0 <= dir < 4 ==> (#[trigger] matched[dir]) == same_flips(this@, with_wall@, dir),
            forall|dir: int|
                0 <= dir < k ==> (#[trigger] res[dir]) == same_wall_flips(
                    this@,
                    other@,
                    missing@,
                    dir,
                ),
        decreases 4 - k,
    {
        res[k] = matched[k] && other[k].is_some();
        k += 1;
    }
    res
}

/// Directions `i` and `j` are different, both have a neighbour, and this
/// card's rank plus the neighbour's gives the same sum in both.
pub open spec fn plus_pair(this: Seq<u8>, other: Seq<Option<u8>>, i: int, j: int) -> bool {
    i != j && other[i] is Some && other[j] is Some && this[i] + other[i].unwrap() == this[j]
        + other[j].unwrap()
}

/// Under the Plus rule a neighbour is captured when the sum of the two
/// facing ranks is also reached in some other direction.
pub open spec fn plus_flips(this: Seq<u8>, other: Seq<Option<u8>>, dir: int) -> bool {
    plus_pair(this, other, dir, 0) || plus_pair(this, other, dir, 1) || plus_pair(
        this,
        other,
        dir,
        2,
    ) || plus_pair(this, other, dir, 3)
}

fn plus_pair_holds(this: &[u8; 4], other: &[Option<u8>; 4], i: usize, j: usize) -> (res: bool)
    requires
        i < 4,
        j < 4,
    ensures
        res == plus_pair(this@, other@, i as int, j as int),
{
    if i == j {
        return false;
    }
    match (other[i], other[j]) {
        (Some(a), Some(b)) => {
            let left: u16 = this[i] as u16 + a as u16;
            let right: u16 = this[j] as u16 + b as u16;
            left == right
        },
        _ => false,
    }
}

/// The Plus rule, for each direction.
pub fn check_plus(this: [u8; 4], other: [Option<u8>; 4]) -> (res: [bool; 4])
    ensures
        forall|dir: int| 0 <= dir < 4 ==> (#[trigger] res[dir]) == plus_flips(this@, other@, dir),
{
    let mut res = [false;4];
    let mut i: usize = 0;
    while i < 4
        invariant
            i <= 4,
            forall|dir: int| 0 <= dir < i ==> (#[trigger] res[dir]) == plus_flips(this@, other@, dir),
        decreases 4 - i,
    {
        res[i] = plus_pair_holds(&this, &other, i, 0) || plus_pair_holds(&this, &other, i, 1)
            || plus_pair_holds(&this, &other, i, 2) || plus_pair_holds(&this, &other, i, 3);
        i += 1;
    }
    res
}

} // verus!
