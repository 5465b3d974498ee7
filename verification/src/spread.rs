//! Why the spread of a layout tells whether it is degenerate: the spread is
//! the sum, over every pair of modules, of their squared distance.
use vstd::prelude::*;
use crate::module::ModuleOffset;
use crate::sums::{spread_upto, sum_sq, sum_x, sum_y};

verus! {

/// Summed squared distance of the first `n` modules from the point `(x, y)`.
pub open spec fn scatter_about(g: Seq<ModuleOffset>, n: int, x: int, y: int) -> int
    decreases n,
{
    if n <= 0 {
        0
    } else {
        scatter_about(g, n - 1, x, y) + ((g[n - 1].x - x) * (g[n - 1].x - x) + (g[n - 1].y - y) * (
        g[n - 1].y - y))
    }
}

/// A square is never negative, and zero only of zero.
pub proof fn lemma_square_sign(d: int)
    ensures
        d * d >= 0,
        d * d == 0 <==> d == 0,
{
    if d >= 1 {
        assert(d * d >= 1) by (nonlinear_arith)
            requires
                d >= 1,
        ;
    } else if d <= -1 {
        assert(d * d >= 1) by (nonlinear_arith)
            requires
                d <= -1,
        ;
    } else {
        assert(d * d == 0) by (nonlinear_arith)
            requires
                d == 0,
        ;
    }
}

/// The squared distance between two points, multiplied out.
pub proof fn lemma_distance_expands(a: int, b: int, x: int, y: int)
    ensures
        (a - x) * (a - x) + (b - y) * (b - y) == (a * a + b * b) - 2 * (x * a) - 2 * (y * b) + (x
            * x + y * y),
{
    assert((a - x) * (a - x) == a * a - 2 * (x * a) + x * x) by (nonlinear_arith);
    assert((b - y) * (b - y) == b * b - 2 * (y * b) + y * y) by (nonlinear_arith);
}

/// The scatter about a point, written out over the sums of the layout.
pub proof fn lemma_scatter_expands(g: Seq<ModuleOffset>, n: int, x: int, y: int)
    requires
        0 <= n <= g.len(),
    ensures
        scatter_about(g, n, x, y) == sum_sq(g, n) - 2 * (x * sum_x(g, n)) - 2 * (y * sum_y(g, n))
            + n * (x * x + y * y),
    decreases n,
{
    let t = x * x + y * y;
    if n > 0 {
        lemma_scatter_expands(g, n - 1, x, y);
        let a = g[n - 1].x as int;
        let b = g[n - 1].y as int;
        let sx = sum_x(g, n - 1);
        let sy = sum_y(g, n - 1);
        lemma_distance_expands(a, b, x, y);
        assert(x * (sx + a) == x * sx + x * a) by (nonlinear_arith);
        assert(y * (sy + b) == y * sy + y * b) by (nonlinear_arith);
        assert(n * t == (n - 1) * t + t) by (nonlinear_arith);
        assert(sum_x(g, n) == sx + a);
        assert(sum_y(g, n) == sy + b);
        assert(sum_sq(g, n) == sum_sq(g, n - 1) + (a * a + b * b));
    } else {
        assert(x * 0 == 0 && y * 0 == 0 && 0 * t == 0) by (nonlinear_arith);
    }
}

/// The scatter about a point is never negative, and zero exactly when each of
/// the modules lies at that point.
pub proof fn lemma_scatter_sign(g: Seq<ModuleOffset>, n: int, x: int, y: int)
    requires
        0 <= n <= g.len(),
    ensures
        scatter_about(g, n, x, y) >= 0,
        scatter_about(g, n, x, y) == 0 <==> forall|i: int|
            0 <= i < n ==> (#[trigger] g[i]).x == x && g[i].y == y,
    decreases n,
{
    if n > 0 {
        lemma_scatter_sign(g, n - 1, x, y);
        lemma_square_sign(g[n - 1].x - x);
        lemma_square_sign(g[n - 1].y - y);
        if scatter_about(g, n, x, y) == 0 {
            assert forall|i: int| 0 <= i < n implies (#[trigger] g[i]).x == x && g[i].y == y by {
                if i == n - 1 {
                    assert(g[n - 1].x - x == 0);
                    assert(g[n - 1].y - y == 0);
                }
            }
        }
        if forall|i: int| 0 <= i < n ==> (#[trigger] g[i]).x == x && g[i].y == y {
            assert(g[n - 1].x == x && g[n - 1].y == y);
            assert(scatter_about(g, n - 1, x, y) == 0);
        }
    }
}

/// What one more point `(x, y)` adds to the spread of `n` points whose sums
/// are `sx`, `sy` and `q`.
pub proof fn lemma_spread_grows(n: int, q: int, sx: int, sy: int, x: int, y: int)
    ensures
        (n + 1) * (q + (x * x + y * y)) - (sx + x) * (sx + x) - (sy + y) * (sy + y) == (n * q - sx
            * sx - sy * sy) + (q - 2 * (x * sx) - 2 * (y * sy) + n * (x * x + y * y)),
{
    let t = x * x + y * y;
    assert((n + 1) * (q + t) == n * q + n * t + q + t) by (nonlinear_arith);
    assert((sx + x) * (sx + x) == sx * sx + 2 * (x * sx) + x * x) by (nonlinear_arith);
    assert((sy + y) * (sy + y) == sy * sy + 2 * (y * sy) + y * y) by (nonlinear_arith);
}

/// One more module adds to the spread its scatter from those before it.
pub proof fn lemma_spread_step(g: Seq<ModuleOffset>, n: int)
    requires
        0 <= n < g.len(),
    ensures
        spread_upto(g, n + 1) == spread_upto(g, n) + scatter_about(
            g,
            n,
            g[n].x as int,
            g[n].y as int,
        ),
{
    let x = g[n].x as int;
    let y = g[n].y as int;
    lemma_scatter_expands(g, n, x, y);
    lemma_spread_grows(n, sum_sq(g, n), sum_x(g, n), sum_y(g, n), x, y);
    assert(sum_sq(g, n + 1) == sum_sq(g, n) + (x * x + y * y));
    assert(sum_x(g, n + 1) == sum_x(g, n) + x);
    assert(sum_y(g, n + 1) == sum_y(g, n) + y);
}

/// The spread is never negative, and zero exactly when every module lies at
/// the place of the first.
pub proof fn lemma_spread_sign(g: Seq<ModuleOffset>, n: int)
    requires
        0 <= n <= g.len(),
    ensures
        spread_upto(g, n) >= 0,
        spread_upto(g, n) == 0 <==> forall|i: int| 0 <= i < n ==> #[trigger] g[i] == g[0],
    decreases n,
{
    if n == 0 {
        assert(sum_sq(g, 0) == 0 && sum_x(g, 0) == 0 && sum_y(g, 0) == 0);
        assert(spread_upto(g, 0) == 0);
    } else {
        let k = n - 1;
        lemma_spread_sign(g, k);
        lemma_spread_step(g, k);
        lemma_scatter_sign(g, k, g[k].x as int, g[k].y as int);
        if spread_upto(g, n) == 0 {
            assert forall|i: int| 0 <= i < n implies #[trigger] g[i] == g[0] by {
                if i == k && k > 0 {
                    assert(g[0].x == g[k].x && g[0].y == g[k].y);
                }
            }
        }
        if forall|i: int| 0 <= i < n ==> #[trigger] g[i] == g[0] {
            assert(g[k] == g[0]);
            assert forall|i: int| 0 <= i < k implies (#[trigger] g[i]).x == g[k].x && g[i].y
                == g[k].y by {
                assert(g[i] == g[0]);
            }
        }
    }
}

} // verus!
