//! The library's sources of chance.

use vstd::prelude::*;

verus! {

/// Draws a boolean with `rand::random_ratio`, which answers `true` with
/// probability `numerator / denominator`. It panics on a zero denominator
/// and on a numerator above the denominator, so both are ruled out here;
/// its documentation promises `true` when the two are equal and `false`
/// when the numerator is zero, and nothing else is claimed of the outcome.
#[verifier::external_body]
pub(crate) fn random_ratio(numerator: u32, denominator: u32) -> (hit: bool)
    requires
        0 < denominator,
        numerator <= denominator,
    ensures
        numerator == denominator ==> hit,
        numerator == 0 ==> !hit,
{
    rand::random_ratio(numerator, denominator)
}

/// Draws an index with `rand::random_range` over `0..bound`, which panics on
/// an empty range and otherwise returns a value inside it.
#[verifier::external_body]
pub(crate) fn random_below(bound: usize) -> (pick: usize)
    requires
        0 < bound,
    ensures
        pick < bound,
{
    rand::random_range(0..bound)
}

/// One if the flip came up marked, zero otherwise.
pub open spec fn mark(flip: bool) -> int {
    if flip {
        1
    } else {
        0
    }
}

/// One if the four flips show `total` marks, zero otherwise.
pub open spec fn hit(total: int, a: bool, b: bool, c: bool, d: bool) -> int {
    if mark(a) + mark(b) + mark(c) + mark(d) == total {
        1
    } else {
        0
    }
}

/// In how many of the sixteen ways that four dice can fall they show
/// `total` marks.
pub open spec fn ways(total: int) -> int {
        hit(total, false, false, false, false) + hit(total, false, false, false, true) +
            hit(total, false, false, true, false) + hit(total, false, false, true, true) +
            hit(total, false, true, false, false) + hit(total, false, true, false, true) +
            hit(total, false, true, true, false) + hit(total, false, true, true, true) +
            hit(total, true, false, false, false) + hit(total, true, false, false, true) +
            hit(total, true, false, true, false) + hit(total, true, false, true, true) +
            hit(total, true, true, false, false) + hit(total, true, true, false, true) +
            hit(total, true, true, true, false) + hit(total, true, true, true, true)
}

/// Four dice show no mark or four marks in one way each, one mark or three
/// in four ways each, and two marks in six ways: with fair dice a roll is
/// two on average.
pub proof fn lemma_ways()
    ensures
        ways(0) == 1,
        ways(1) == 4,
        ways(2) == 6,
        ways(3) == 4,
        ways(4) == 1,
        forall|total: int| total < 0 || total > 4 ==> ways(total) == 0,
        0 * ways(0) + 1 * ways(1) + 2 * ways(2) + 3 * ways(3) + 4 * ways(4) == 2 * 16,
{
}

/// The roll that four flips show: the number of marked ones.
pub fn dice_total(flips: [bool; 4]) -> (total: u8)
    ensures
        total as int == mark(flips[0]) + mark(flips[1]) + mark(flips[2]) + mark(flips[3]),
        total <= 4,
{
    let mut total: u8 = 0;
    if flips[0] {
        total += 1;
    }
    if flips[1] {
        total += 1;
    }
    if flips[2] {
        total += 1;
    }
    if flips[3] {
        total += 1;
    }
    total
}

} // verus!
