//! Axis-aligned overlap of two boxes given by their centres.

use vstd::prelude::*;

verus! {

/// Distance between two coordinates.
pub open spec fn gap(a: int, b: int) -> int {
    if a >= b {
        a - b
    } else {
        b - a
    }
}

/// Two boxes overlap when their centres are closer than `reach_x` on the
/// horizontal axis and closer than `reach_y` on the vertical one. The reaches
/// are the halved sums of the boxes' widths and heights.
pub open spec fn boxes_overlap(
    ax: int,
    ay: int,
    bx: int,
    by: int,
    reach_x: int,
    reach_y: int,
) -> bool {
    gap(ax, bx) < reach_x && gap(ay, by) < reach_y
}

/// Distance between two coordinates, wide enough for any pair of `i64`.
pub fn distance(a: i64, b: i64) -> (d: i128)
    ensures
        d == gap(a as int, b as int),
{
    let wide_a: i128 = a as i128;
    let wide_b: i128 = b as i128;
    if wide_a >= wide_b {
        wide_a - wide_b
    } else {
        wide_b - wide_a
    }
}

/// Overlap test of a box centred at `(ax, ay)` with one centred at `(bx, by)`.
pub fn overlaps(ax: i64, ay: i64, bx: i64, by: i64, reach_x: i64, reach_y: i64) -> (hit: bool)
    ensures
        hit == boxes_overlap(
            ax as int,
            ay as int,
            bx as int,
            by as int,
            reach_x as int,
            reach_y as int,
        ),
{
    distance(ax, bx) < reach_x as i128 && distance(ay, by) < reach_y as i128
}

/// The overlap test does not depend on which box is named first.
pub proof fn lemma_overlap_symmetric(
    ax: int,
    ay: int,
    bx: int,
    by: int,
    reach_x: int,
    reach_y: int,
)
    ensures
        boxes_overlap(ax, ay, bx, by, reach_x, reach_y) == boxes_overlap(
            bx,
            by,
            ax,
            ay,
            reach_x,
            reach_y,
        ),
{
}

} // verus!
