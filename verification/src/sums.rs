//! The sums over a module layout and over one frame of module velocities
//! from which the least-squares solution is built.
use vstd::prelude::*;
use crate::module::{ModuleOffset, ModuleVelocity};

verus! {

/// Sum of the x offsets of the first `n` modules.
pub open spec fn sum_x(g: Seq<ModuleOffset>, n: int) -> int
    decreases n,
{
    if n <= 0 {
        0
    } else {
        sum_x(g, n - 1) + g[n - 1].x
    }
}

/// Sum of the y offsets of the first `n` modules.
pub open spec fn sum_y(g: Seq<ModuleOffset>, n: int) -> int
    decreases n,
{
    if n <= 0 {
        0
    } else {
        sum_y(g, n - 1) + g[n - 1].y
    }
}

/// Sum of the squared distances from the centre of the first `n` modules.
pub open spec fn sum_sq(g: Seq<ModuleOffset>, n: int) -> int
    decreases n,
{
    if n <= 0 {
        0
    } else {
        sum_sq(g, n - 1) + (g[n - 1].x * g[n - 1].x + g[n - 1].y * g[n - 1].y)
    }
}

/// Sum of the x velocities of the first `n` modules.
pub open spec fn sum_vx(v: Seq<ModuleVelocity>, n: int) -> int
    decreases n,
{
    if n <= 0 {
        0
    } else {
        sum_vx(v, n - 1) + v[n - 1].vx
    }
}

/// Sum of the y velocities of the first `n` modules.
pub open spec fn sum_vy(v: Seq<ModuleVelocity>, n: int) -> int
    decreases n,
{
    if n <= 0 {
        0
    } else {
        sum_vy(v, n - 1) + v[n - 1].vy
    }
}

/// Sum over the first `n` modules of the cross product of offset and
/// velocity: what the observed velocities contribute to rotation.
pub open spec fn moment(g: Seq<ModuleOffset>, v: Seq<ModuleVelocity>, n: int) -> int
    decreases n,
{
    if n <= 0 {
        0
    } else {
        moment(g, v, n - 1) + (g[n - 1].x * v[n - 1].vy - g[n - 1].y * v[n - 1].vx)
    }
}

/// `n` times the summed squared distance of the first `n` modules from their
/// centroid. It is zero exactly when none of them lies apart from another.
pub open spec fn spread_upto(g: Seq<ModuleOffset>, n: int) -> int {
    n * sum_sq(g, n) - sum_x(g, n) * sum_x(g, n) - sum_y(g, n) * sum_y(g, n)
}

/// The spread of a whole layout.
pub open spec fn spread(g: Seq<ModuleOffset>) -> int {
    spread_upto(g, g.len() as int)
}

/// A product is bounded by the product of the bounds of its factors.
pub proof fn lemma_mul_bound(a: int, b: int, ba: int, bb: int)
    requires
        -ba <= a <= ba,
        -bb <= b <= bb,
    ensures
        -(ba * bb) <= a * b <= ba * bb,
{
    assert(-(ba * bb) <= a * b <= ba * bb) by (nonlinear_arith)
        requires
            -ba <= a <= ba,
            -bb <= b <= bb,
    ;
}

} // verus!
