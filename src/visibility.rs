use vstd::prelude::*;

use crate::index::WorldPoint;

verus! {

/// Beyond this distance a target is never visible: 1000 world units, in half
/// units.
pub const VISIBILITY_CUTOFF: u64 = 2000;

/// The squared distance between two points.
pub open spec fn dist_sq(a: WorldPoint, b: WorldPoint) -> int {
    (a.x - b.x) * (a.x - b.x) + (a.y - b.y) * (a.y - b.y)
}

/// Whether `target` is visible from `viewer`, given the first point where
/// the ray from the viewer toward the target meets a wall collider, if it
/// meets one: the target must lie within the cutoff, and no hit may lie
/// strictly closer than it. A hit at exactly the target's distance does not
/// occlude.
pub open spec fn visible(viewer: WorldPoint, target: WorldPoint, first_hit: Option<WorldPoint>) -> bool {
    &&& dist_sq(viewer, target) <= VISIBILITY_CUTOFF * VISIBILITY_CUTOFF
    &&& match first_hit {
        None => true,
        Some(hit) => dist_sq(viewer, hit) >= dist_sq(viewer, target),
    }
}

fn abs_diff(a: u64, b: u64) -> (d: u64)
    ensures
        d == a - b || d == b - a,
        d >= 0,
        d * d == (a - b) * (a - b),
{
    let d = if a >= b {
        a - b
    } else {
        b - a
    };
    assert(d * d == (a - b) * (a - b)) by (nonlinear_arith)
        requires
            d == a - b || d == b - a,
    ;
    d
}

proof fn lemma_far_axis(d: int, e: int, c: int)
    requires
        d > c,
        c >= 0,
        e >= 0,
    ensures
        d * d + e * e > c * c,
{
    assert(d * d + e * e > c * c) by (nonlinear_arith)
        requires
            d > c,
            c >= 0,
            e >= 0,
    ;
}

proof fn lemma_near_square(d: int, e: int, c: int)
    requires
        0 <= d <= c,
        0 <= e <= c,
    ensures
        d * d + e * e <= 2 * (c * c),
{
    assert(d * d + e * e <= 2 * (c * c)) by (nonlinear_arith)
        requires
            0 <= d <= c,
            0 <= e <= c,
    ;
}

/// Decides whether `target` is visible from `viewer`; `first_hit` is the
/// first wall-collider hit of the ray from the viewer toward the target.
pub fn is_visible(viewer: WorldPoint, target: WorldPoint, first_hit: Option<WorldPoint>) -> (r: bool)
    ensures
        r == visible(viewer, target, first_hit),
{
    let dx = abs_diff(viewer.x, target.x);
    let dy = abs_diff(viewer.y, target.y);
    if dx > VISIBILITY_CUTOFF || dy > VISIBILITY_CUTOFF {
        proof {
            if dx > VISIBILITY_CUTOFF {
                lemma_far_axis(dx as int, dy as int, VISIBILITY_CUTOFF as int);
            } else {
                lemma_far_axis(dy as int, dx as int, VISIBILITY_CUTOFF as int);
            }
        }
        return false;
    }
    proof {
        lemma_near_square(dx as int, dy as int, VISIBILITY_CUTOFF as int);
    }
    let target_sq = dx * dx + dy * dy;
    if target_sq > VISIBILITY_CUTOFF * VISIBILITY_CUTOFF {
        return false;
    }
    match first_hit {
        None => true,
        Some(hit) => {
            let hx = abs_diff(viewer.x, hit.x);
            let hy = abs_diff(viewer.y, hit.y);
            if hx > VISIBILITY_CUTOFF || hy > VISIBILITY_CUTOFF {
                proof {
                    if hx > VISIBILITY_CUTOFF {
                        lemma_far_axis(hx as int, hy as int, VISIBILITY_CUTOFF as int);
                    } else {
                        lemma_far_axis(hy as int, hx as int, VISIBILITY_CUTOFF as int);
                    }
                }
                true
            } else {
                proof {
                    lemma_near_square(hx as int, hy as int, VISIBILITY_CUTOFF as int);
                }
                let hit_sq = hx * hx + hy * hy;
                hit_sq >= target_sq
            }
        },
    }
}

} // verus!
