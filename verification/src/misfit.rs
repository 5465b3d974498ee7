//! Why the solution is the best fit: no chassis velocity leaves a smaller
//! summed squared misfit between what it shows at the modules and what was
//! observed there.
use vstd::prelude::*;
use crate::laws::lemma_normal_equations;
use crate::module::{ModuleOffset, ModuleVelocity};
use crate::solver::{degenerate, solution_den, solution_omega, solution_vx, solution_vy};
use crate::spread::lemma_square_sign;
use crate::sums::{moment, sum_sq, sum_vx, sum_vy, sum_x, sum_y};

verus! {

/// `d * d` times the summed squared misfit, over the first `n` modules,
/// between the velocities that a chassis moving with `(p / d, q / d)` and
/// turning with `w / d` shows at the modules and the velocities `v` observed.
pub open spec fn misfit(
    g: Seq<ModuleOffset>,
    v: Seq<ModuleVelocity>,
    n: int,
    p: int,
    q: int,
    w: int,
    d: int,
) -> int
    decreases n,
{
    if n <= 0 {
        0
    } else {
        let ex = p - w * g[n - 1].y - d * v[n - 1].vx;
        let ey = q + w * g[n - 1].x - d * v[n - 1].vy;
        misfit(g, v, n - 1, p, q, w, d) + (ex * ex + ey * ey)
    }
}

/// Summed squared velocity that the motion `(a, b, c)` shows at the first `n`
/// modules.
pub open spec fn shown(g: Seq<ModuleOffset>, n: int, a: int, b: int, c: int) -> int
    decreases n,
{
    if n <= 0 {
        0
    } else {
        let dx = a - c * g[n - 1].y;
        let dy = b + c * g[n - 1].x;
        shown(g, n - 1, a, b, c) + (dx * dx + dy * dy)
    }
}

/// By how much the motion `(p, q, w)` over `d` misses the three normal
/// equations on the first `n` modules, weighted by `a`, `b` and `c`.
pub open spec fn imbalance(
    g: Seq<ModuleOffset>,
    v: Seq<ModuleVelocity>,
    n: int,
    a: int,
    b: int,
    c: int,
    p: int,
    q: int,
    w: int,
    d: int,
) -> int {
    a * (n * p - w * sum_y(g, n) - d * sum_vx(v, n)) + b * (n * q + w * sum_x(g, n) - d * sum_vy(
        v,
        n,
    )) + c * (q * sum_x(g, n) - p * sum_y(g, n) + w * sum_sq(g, n) - d * moment(g, v, n))
}

/// A sum of squares is never negative, and zero only when the motion shows
/// no velocity at any of the modules.
pub proof fn lemma_shown_sign(g: Seq<ModuleOffset>, n: int, a: int, b: int, c: int)
    requires
        0 <= n <= g.len(),
    ensures
        shown(g, n, a, b, c) >= 0,
        shown(g, n, a, b, c) == 0 ==> forall|i: int|
            0 <= i < n ==> a - c * (#[trigger] g[i]).y == 0 && b + c * g[i].x == 0,
    decreases n,
{
    if n > 0 {
        lemma_shown_sign(g, n - 1, a, b, c);
        lemma_square_sign(a - c * g[n - 1].y);
        lemma_square_sign(b + c * g[n - 1].x);
    }
}

/// The square of a sum of two terms, the first a product.
proof fn lemma_square_of_sum(big: int, e: int, d: int, f: int, delta: int)
    requires
        big * e == d * f + delta,
    ensures
        big * big * (e * e) == d * d * (f * f) + 2 * d * (f * delta) + delta * delta,
{
    let x = big * e;
    let y = d * f;
    assert(big * big * (e * e) == x * x) by (nonlinear_arith)
        requires
            x == big * e,
    ;
    assert((y + delta) * (y + delta) == y * y + 2 * (y * delta) + delta * delta)
        by (nonlinear_arith);
    assert(y * y == d * d * (f * f)) by (nonlinear_arith)
        requires
            y == d * f,
    ;
    assert(y * delta == d * (f * delta)) by (nonlinear_arith)
        requires
            y == d * f,
    ;
    assert(2 * (d * (f * delta)) == 2 * d * (f * delta)) by (nonlinear_arith);
}

/// The misfit of one candidate at one module, split into the misfit of
/// another candidate there, a cross term and the square of their difference.
proof fn lemma_misfit_term(
    x: int,
    y: int,
    bx: int,
    by: int,
    p: int,
    q: int,
    w: int,
    d: int,
    p2: int,
    q2: int,
    w2: int,
    d2: int,
)
    ensures
        ({
            let ex = p - w * y - d * bx;
            let ey = q + w * x - d * by;
            let fx = p2 - w2 * y - d2 * bx;
            let fy = q2 + w2 * x - d2 * by;
            let a = d2 * p - d * p2;
            let b = d2 * q - d * q2;
            let c = d2 * w - d * w2;
            let dx = a - c * y;
            let dy = b + c * x;
            d2 * d2 * (ex * ex + ey * ey) == d * d * (fx * fx + fy * fy) + 2 * d * (a * fx + b * fy
                + c * (x * fy - y * fx)) + (dx * dx + dy * dy)
        }),
{
    let wy = w * y;
    let wx = w * x;
    let w2y = w2 * y;
    let w2x = w2 * x;
    let ex = p - wy - d * bx;
    let ey = q + wx - d * by;
    let fx = p2 - w2y - d2 * bx;
    let fy = q2 + w2x - d2 * by;
    let a = d2 * p - d * p2;
    let b = d2 * q - d * q2;
    let c = d2 * w - d * w2;
    let cy = c * y;
    let cx = c * x;
    let dx = a - cy;
    let dy = b + cx;
    assert(cy == d2 * wy - d * w2y) by (nonlinear_arith)
        requires
            cy == (d2 * w - d * w2) * y,
            wy == w * y,
            w2y == w2 * y,
    ;
    assert(cx == d2 * wx - d * w2x) by (nonlinear_arith)
        requires
            cx == (d2 * w - d * w2) * x,
            wx == w * x,
            w2x == w2 * x,
    ;
    let dbx = d * bx;
    let dby = d * by;
    let d2bx = d2 * bx;
    let d2by = d2 * by;
    assert(d2 * dbx == d * d2bx) by (nonlinear_arith)
        requires
            dbx == d * bx,
            d2bx == d2 * bx,
    ;
    assert(d2 * dby == d * d2by) by (nonlinear_arith)
        requires
            dby == d * by,
            d2by == d2 * by,
    ;
    assert(d2 * (p - wy - dbx) == d2 * p - d2 * wy - d2 * dbx) by (nonlinear_arith);
    assert(d * (p2 - w2y - d2bx) == d * p2 - d * w2y - d * d2bx) by (nonlinear_arith);
    assert(d2 * (q + wx - dby) == d2 * q + d2 * wx - d2 * dby) by (nonlinear_arith);
    assert(d * (q2 + w2x - d2by) == d * q2 + d * w2x - d * d2by) by (nonlinear_arith);
    assert(d2 * ex == d * fx + dx);
    assert(d2 * ey == d * fy + dy);
    lemma_square_of_sum(d2, ex, d, fx, dx);
    lemma_square_of_sum(d2, ey, d, fy, dy);
    let exx = ex * ex;
    let eyy = ey * ey;
    let fxx = fx * fx;
    let fyy = fy * fy;
    let fxdx = fx * dx;
    let fydy = fy * dy;
    assert(d2 * d2 * (exx + eyy) == d2 * d2 * exx + d2 * d2 * eyy) by (nonlinear_arith);
    assert(d * d * (fxx + fyy) == d * d * fxx + d * d * fyy) by (nonlinear_arith);
    assert(2 * d * (fxdx + fydy) == 2 * d * fxdx + 2 * d * fydy) by (nonlinear_arith);
    let xfy = x * fy;
    let yfx = y * fx;
    assert(fx * (a - cy) == a * fx - c * yfx) by (nonlinear_arith)
        requires
            cy == c * y,
            yfx == y * fx,
    ;
    assert(fy * (b + cx) == b * fy + c * xfy) by (nonlinear_arith)
        requires
            cx == c * x,
            xfy == x * fy,
    ;
    assert(c * (xfy - yfx) == c * xfy - c * yfx) by (nonlinear_arith);
    assert(fxdx + fydy == a * fx + b * fy + c * (xfy - yfx));
}

/// What one more module adds to the imbalance.
proof fn lemma_imbalance_term(
    n: int,
    sx: int,
    sy: int,
    ss: int,
    sbx: int,
    sby: int,
    m: int,
    x: int,
    y: int,
    bx: int,
    by: int,
    a: int,
    b: int,
    c: int,
    p: int,
    q: int,
    w: int,
    d: int,
)
    ensures
        ({
            let fx = p - w * y - d * bx;
            let fy = q + w * x - d * by;
            a * ((n + 1) * p - w * (sy + y) - d * (sbx + bx)) + b * ((n + 1) * q + w * (sx + x) - d
                * (sby + by)) + c * (q * (sx + x) - p * (sy + y) + w * (ss + (x * x + y * y)) - d
                * (m + (x * by - y * bx))) == (a * (n * p - w * sy - d * sbx) + b * (n * q + w * sx
                - d * sby) + c * (q * sx - p * sy + w * ss - d * m)) + (a * fx + b * fy + c * (x
                * fy - y * fx))
        }),
{
    let fx = p - w * y - d * bx;
    let fy = q + w * x - d * by;
    let n1 = n * p - w * sy - d * sbx;
    let n2 = n * q + w * sx - d * sby;
    let n3 = q * sx - p * sy + w * ss - d * m;
    assert((n + 1) * p == n * p + p) by (nonlinear_arith);
    assert((n + 1) * q == n * q + q) by (nonlinear_arith);
    assert(w * (sy + y) == w * sy + w * y) by (nonlinear_arith);
    assert(w * (sx + x) == w * sx + w * x) by (nonlinear_arith);
    assert(d * (sbx + bx) == d * sbx + d * bx) by (nonlinear_arith);
    assert(d * (sby + by) == d * sby + d * by) by (nonlinear_arith);
    assert(q * (sx + x) == q * sx + q * x) by (nonlinear_arith);
    assert(p * (sy + y) == p * sy + p * y) by (nonlinear_arith);
    let xx = x * x;
    let yy = y * y;
    let xby = x * by;
    let ybx = y * bx;
    assert(w * (ss + (xx + yy)) == w * ss + w * xx + w * yy) by (nonlinear_arith);
    assert(d * (m + (xby - ybx)) == d * m + d * xby - d * ybx) by (nonlinear_arith);
    let wy = w * y;
    let wx = w * x;
    let dbx = d * bx;
    let dby = d * by;
    assert(x * (q + wx - dby) == q * x + w * xx - d * xby) by (nonlinear_arith)
        requires
            wx == w * x,
            dby == d * by,
            xx == x * x,
            xby == x * by,
    ;
    assert(y * (p - wy - dbx) == p * y - w * yy - d * ybx) by (nonlinear_arith)
        requires
            wy == w * y,
            dbx == d * bx,
            yy == y * y,
            ybx == y * bx,
    ;
    let t3 = x * fy - y * fx;
    assert(a * (n1 + fx) == a * n1 + a * fx) by (nonlinear_arith);
    assert(b * (n2 + fy) == b * n2 + b * fy) by (nonlinear_arith);
    assert(c * (n3 + t3) == c * n3 + c * t3) by (nonlinear_arith);
    assert((n + 1) * p - w * (sy + y) - d * (sbx + bx) == n1 + fx);
    assert((n + 1) * q + w * (sx + x) - d * (sby + by) == n2 + fy);
    assert(q * (sx + x) - p * (sy + y) + w * (ss + (x * x + y * y)) - d * (m + (x * by - y * bx))
        == n3 + t3);
}

/// The misfit of any candidate, split into the misfit of another candidate,
/// that candidate's imbalance and the square of their difference.
pub proof fn lemma_misfit_splits(
    g: Seq<ModuleOffset>,
    v: Seq<ModuleVelocity>,
    n: int,
    p: int,
    q: int,
    w: int,
    d: int,
    p2: int,
    q2: int,
    w2: int,
    d2: int,
)
    requires
        0 <= n <= g.len(),
        g.len() == v.len(),
    ensures
        ({
            let a = d2 * p - d * p2;
            let b = d2 * q - d * q2;
            let c = d2 * w - d * w2;
            d2 * d2 * misfit(g, v, n, p, q, w, d) == d * d * misfit(g, v, n, p2, q2, w2, d2) + 2 * d
                * imbalance(g, v, n, a, b, c, p2, q2, w2, d2) + shown(g, n, a, b, c)
        }),
    decreases n,
{
    let a = d2 * p - d * p2;
    let b = d2 * q - d * q2;
    let c = d2 * w - d * w2;
    if n > 0 {
        let k = n - 1;
        lemma_misfit_splits(g, v, k, p, q, w, d, p2, q2, w2, d2);
        let x = g[k].x as int;
        let y = g[k].y as int;
        let bx = v[k].vx as int;
        let by = v[k].vy as int;
        lemma_misfit_term(x, y, bx, by, p, q, w, d, p2, q2, w2, d2);
        lemma_imbalance_term(
            k,
            sum_x(g, k),
            sum_y(g, k),
            sum_sq(g, k),
            sum_vx(v, k),
            sum_vy(v, k),
            moment(g, v, k),
            x,
            y,
            bx,
            by,
            a,
            b,
            c,
            p2,
            q2,
            w2,
            d2,
        );
        let ex = p - w * y - d * bx;
        let ey = q + w * x - d * by;
        let fx = p2 - w2 * y - d2 * bx;
        let fy = q2 + w2 * x - d2 * by;
        let te = ex * ex + ey * ey;
        let tf = fx * fx + fy * fy;
        let tk = a * fx + b * fy + c * (x * fy - y * fx);
        let me = misfit(g, v, k, p, q, w, d);
        let mf = misfit(g, v, k, p2, q2, w2, d2);
        let ik = imbalance(g, v, k, a, b, c, p2, q2, w2, d2);
        assert(misfit(g, v, n, p, q, w, d) == me + te);
        assert(misfit(g, v, n, p2, q2, w2, d2) == mf + tf);
        assert(imbalance(g, v, n, a, b, c, p2, q2, w2, d2) == ik + tk);
        assert(d2 * d2 * (me + te) == d2 * d2 * me + d2 * d2 * te) by (nonlinear_arith);
        assert(d * d * (mf + tf) == d * d * mf + d * d * tf) by (nonlinear_arith);
        assert(2 * d * (ik + tk) == 2 * d * ik + 2 * d * tk) by (nonlinear_arith);
    } else {
        let i0 = imbalance(g, v, 0, a, b, c, p2, q2, w2, d2);
        assert(0 * p2 == 0 && 0 * q2 == 0 && w2 * 0 == 0 && d2 * 0 == 0 && q2 * 0 == 0 && p2 * 0
            == 0 && a * 0 == 0 && b * 0 == 0 && c * 0 == 0) by (nonlinear_arith);
        assert(i0 == 0);
        assert(d2 * d2 * 0 == 0 && d * d * 0 == 0 && 2 * d * 0 == 0) by (nonlinear_arith);
    }
}

/// The solution meets the normal equations, so its imbalance is zero
/// whatever the weights.
pub proof fn lemma_solution_is_balanced(
    g: Seq<ModuleOffset>,
    v: Seq<ModuleVelocity>,
    a: int,
    b: int,
    c: int,
)
    requires
        g.len() == v.len(),
    ensures
        imbalance(
            g,
            v,
            g.len() as int,
            a,
            b,
            c,
            solution_vx(g, v),
            solution_vy(g, v),
            solution_omega(g, v),
            solution_den(g),
        ) == 0,
{
    let n = g.len() as int;
    let p2 = solution_vx(g, v);
    let q2 = solution_vy(g, v);
    let w2 = solution_omega(g, v);
    let d2 = solution_den(g);
    lemma_normal_equations(
        n,
        sum_x(g, n),
        sum_y(g, n),
        sum_sq(g, n),
        sum_vx(v, n),
        sum_vy(v, n),
        moment(g, v, n),
    );
    let sx = sum_x(g, n);
    let sy = sum_y(g, n);
    let ss = sum_sq(g, n);
    let bx = sum_vx(v, n);
    let by = sum_vy(v, n);
    let m = moment(g, v, n);
    assert(w2 * sy == sy * w2 && w2 * sx == sx * w2 && w2 * ss == ss * w2) by (nonlinear_arith);
    assert(d2 * bx == bx * d2 && d2 * by == by * d2 && d2 * m == m * d2) by (nonlinear_arith);
    assert(q2 * sx == sx * q2 && p2 * sy == sy * p2) by (nonlinear_arith);
    assert(n * p2 - w2 * sy - d2 * bx == 0);
    assert(n * q2 + w2 * sx - d2 * by == 0);
    assert(q2 * sx - p2 * sy + w2 * ss - d2 * m == 0);
    assert(a * 0 == 0 && b * 0 == 0 && c * 0 == 0) by (nonlinear_arith);
}

/// Best fit: whatever chassis velocity `(p / d, q / d)` and turn rate `w / d`
/// one proposes, the summed squared misfit of the solution is no larger than
/// that of the proposal. Both sides are the two misfits brought to the common
/// denominator `d * d` times the squared denominator of the solution.
pub proof fn law_solution_is_best_fit(
    g: Seq<ModuleOffset>,
    v: Seq<ModuleVelocity>,
    p: int,
    q: int,
    w: int,
    d: int,
)
    requires
        g.len() == v.len(),
    ensures
        d * d * misfit(
            g,
            v,
            g.len() as int,
            solution_vx(g, v),
            solution_vy(g, v),
            solution_omega(g, v),
            solution_den(g),
        ) <= solution_den(g) * solution_den(g) * misfit(g, v, g.len() as int, p, q, w, d),
{
    let n = g.len() as int;
    let p2 = solution_vx(g, v);
    let q2 = solution_vy(g, v);
    let w2 = solution_omega(g, v);
    let d2 = solution_den(g);
    let a = d2 * p - d * p2;
    let b = d2 * q - d * q2;
    let c = d2 * w - d * w2;
    lemma_misfit_splits(g, v, n, p, q, w, d, p2, q2, w2, d2);
    lemma_shown_sign(g, n, a, b, c);
    lemma_solution_is_balanced(g, v, a, b, c);
    assert(2 * d * 0 == 0) by (nonlinear_arith);
}

/// Only the solution fits best: for a layout that is not degenerate, a
/// proposal whose summed squared misfit is that of the solution is the
/// solution, fraction for fraction.
pub proof fn law_best_fit_is_unique(
    g: Seq<ModuleOffset>,
    v: Seq<ModuleVelocity>,
    p: int,
    q: int,
    w: int,
    d: int,
)
    requires
        g.len() == v.len(),
        !degenerate(g),
        d * d * misfit(
            g,
            v,
            g.len() as int,
            solution_vx(g, v),
            solution_vy(g, v),
            solution_omega(g, v),
            solution_den(g),
        ) == solution_den(g) * solution_den(g) * misfit(g, v, g.len() as int, p, q, w, d),
    ensures
        d * solution_vx(g, v) == p * solution_den(g),
        d * solution_vy(g, v) == q * solution_den(g),
        d * solution_omega(g, v) == w * solution_den(g),
{
    let n = g.len() as int;
    let p2 = solution_vx(g, v);
    let q2 = solution_vy(g, v);
    let w2 = solution_omega(g, v);
    let d2 = solution_den(g);
    let a = d2 * p - d * p2;
    let b = d2 * q - d * q2;
    let c = d2 * w - d * w2;
    lemma_misfit_splits(g, v, n, p, q, w, d, p2, q2, w2, d2);
    lemma_shown_sign(g, n, a, b, c);
    lemma_solution_is_balanced(g, v, a, b, c);
    assert(2 * d * 0 == 0) by (nonlinear_arith);
    assert(shown(g, n, a, b, c) == 0);
    let j = choose|j: int| 0 <= j < g.len() && #[trigger] g[j] != g[0];
    let x0 = g[0].x as int;
    let y0 = g[0].y as int;
    let xj = g[j].x as int;
    let yj = g[j].y as int;
    assert(a - c * g[0].y == 0 && b + c * g[0].x == 0);
    assert(a - c * g[j].y == 0 && b + c * g[j].x == 0);
    assert(c == 0) by (nonlinear_arith)
        requires
            c * y0 == c * yj,
            c * x0 == c * xj,
            x0 != xj || y0 != yj,
    ;
    assert(0 * y0 == 0 && 0 * x0 == 0) by (nonlinear_arith);
    assert(a == 0 && b == 0);
    assert(d * p2 == p * d2 && d * q2 == q * d2 && d * w2 == w * d2) by (nonlinear_arith)
        requires
            d2 * p - d * p2 == 0,
            d2 * q - d * q2 == 0,
            d2 * w - d * w2 == 0,
    ;
}

} // verus!
