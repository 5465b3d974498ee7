//! What holds of the heading filter and of the solver whatever their inputs.
use vstd::prelude::*;
use crate::angle::{distance, same_direction, HALF_TURN, QUARTER_TURN};
use crate::optimizer::{adjust, ModuleState};
use crate::solver::{solution_den, solution_omega, solution_vx, solution_vy, turn_numerator};
use crate::module::{ModuleOffset, ModuleVelocity};
use crate::sums::{moment, spread, sum_sq, sum_vx, sum_vy, sum_x, sum_y};

verus! {

/// Whether speed `s1` along heading `h1` and speed `s2` along heading `h2`
/// are one and the same motion of the contact point: the same direction and
/// speed, or opposite directions and opposite speeds.
pub open spec fn same_motion(h1: int, s1: int, h2: int, s2: int) -> bool {
    (same_direction(h2, h1) && s2 == s1) || (same_direction(h2, h1 + HALF_TURN) && s2 == -s1)
}

/// The heading that a filter started at `start` reports for the `n`-th of the
/// observations `seen`; for `n` zero, `start` itself.
pub open spec fn reported_heading(start: int, seen: Seq<ModuleState>, n: int) -> int
    decreases n,
{
    if n <= 0 {
        start
    } else {
        adjust(reported_heading(start, seen, n - 1), seen[n - 1]).0
    }
}

/// What the filter reports is the motion it observed: reversing the wheel
/// together with its speed changes nothing on the ground.
pub proof fn law_adjusted_motion_is_observed_motion(last: int, observed: ModuleState)
    ensures
        same_motion(
            observed.heading as int,
            observed.speed as int,
            adjust(last, observed).0,
            adjust(last, observed).1,
        ),
{
}

/// The filter never reports a heading more than a quarter turn away from the
/// one it reported before.
pub proof fn law_adjusted_heading_is_near(last: int, observed: ModuleState)
    ensures
        distance(last, adjust(last, observed).0) <= QUARTER_TURN,
{
}

/// Over any run of observations, each reported heading lies within a quarter
/// turn of the one reported just before it.
pub proof fn law_successive_headings_are_near(start: int, seen: Seq<ModuleState>, n: int)
    requires
        1 <= n <= seen.len(),
    ensures
        distance(reported_heading(start, seen, n - 1), reported_heading(start, seen, n))
            <= QUARTER_TURN,
{
    law_adjusted_heading_is_near(reported_heading(start, seen, n - 1), seen[n - 1]);
}

/// Whether the module velocities `v` are those that a chassis moving with
/// velocity `(p / d, q / d)` and turning with rate `w / d` shows at the
/// offsets `g`.
pub open spec fn shows_motion(
    g: Seq<ModuleOffset>,
    v: Seq<ModuleVelocity>,
    p: int,
    q: int,
    w: int,
    d: int,
) -> bool {
    &&& g.len() == v.len()
    &&& forall|i: int|
        0 <= i < g.len() ==> d * (#[trigger] v[i]).vx == p - w * g[i].y && d * v[i].vy == q + w
            * g[i].x
}

/// The sums of module velocities that show a rigid motion, over the sums of
/// the layout.
pub proof fn lemma_sums_of_motion(
    g: Seq<ModuleOffset>,
    v: Seq<ModuleVelocity>,
    n: int,
    p: int,
    q: int,
    w: int,
    d: int,
)
    requires
        shows_motion(g, v, p, q, w, d),
        0 <= n <= g.len(),
    ensures
        d * sum_vx(v, n) == n * p - w * sum_y(g, n),
        d * sum_vy(v, n) == n * q + w * sum_x(g, n),
        d * moment(g, v, n) == q * sum_x(g, n) - p * sum_y(g, n) + w * sum_sq(g, n),
    decreases n,
{
    if n > 0 {
        lemma_sums_of_motion(g, v, n - 1, p, q, w, d);
        let x = g[n - 1].x as int;
        let y = g[n - 1].y as int;
        let vx = v[n - 1].vx as int;
        let vy = v[n - 1].vy as int;
        let bx = sum_vx(v, n - 1);
        let by = sum_vy(v, n - 1);
        let m = moment(g, v, n - 1);
        let sx = sum_x(g, n - 1);
        let sy = sum_y(g, n - 1);
        let ss = sum_sq(g, n - 1);
        assert(d * v[n - 1].vx == p - w * y && d * v[n - 1].vy == q + w * x);
        assert(d * (bx + vx) == d * bx + d * vx) by (nonlinear_arith);
        assert(d * (by + vy) == d * by + d * vy) by (nonlinear_arith);
        assert(n * p == (n - 1) * p + p) by (nonlinear_arith);
        assert(n * q == (n - 1) * q + q) by (nonlinear_arith);
        assert(w * (sy + y) == w * sy + w * y) by (nonlinear_arith);
        assert(w * (sx + x) == w * sx + w * x) by (nonlinear_arith);
        assert(d * (m + (x * vy - y * vx)) == d * m + x * (d * vy) - y * (d * vx))
            by (nonlinear_arith);
        assert(x * (d * vy) - y * (d * vx) == q * x - p * y + w * (x * x + y * y))
            by (nonlinear_arith)
            requires
                d * vx == p - w * y,
                d * vy == q + w * x,
        ;
        assert(q * (sx + x) == q * sx + q * x) by (nonlinear_arith);
        assert(p * (sy + y) == p * sy + p * y) by (nonlinear_arith);
        assert(w * (ss + (x * x + y * y)) == w * ss + w * (x * x + y * y)) by (nonlinear_arith);
    } else {
        assert(d * 0 == 0 && 0 * p == 0 && 0 * q == 0 && w * 0 == 0 && q * 0 == 0 && p * 0 == 0)
            by (nonlinear_arith);
    }
}

/// The solution formulas recover `(p, q, w)` over `d` from sums that a rigid
/// motion produces.
pub proof fn lemma_solution_of_motion(
    n: int,
    sx: int,
    sy: int,
    ss: int,
    bx: int,
    by: int,
    m: int,
    p: int,
    q: int,
    w: int,
    d: int,
)
    requires
        d * bx == n * p - w * sy,
        d * by == n * q + w * sx,
        d * m == q * sx - p * sy + w * ss,
    ensures
        ({
            let sp = n * ss - sx * sx - sy * sy;
            let t = n * m + sy * bx - sx * by;
            &&& d * t == w * sp
            &&& d * (bx * sp + t * sy) == p * (n * sp)
            &&& d * (by * sp - t * sx) == q * (n * sp)
            &&& d * (n * t) == w * (n * sp)
        }),
{
    let sp = n * ss - sx * sx - sy * sy;
    let t = n * m + sy * bx - sx * by;
    let dbx = d * bx;
    let dby = d * by;
    let dm = d * m;
    let nm = n * m;
    let sybx = sy * bx;
    let sxby = sx * by;
    assert(d * nm == n * dm) by (nonlinear_arith)
        requires
            nm == n * m,
            dm == d * m,
    ;
    assert(d * sybx == sy * dbx) by (nonlinear_arith)
        requires
            sybx == sy * bx,
            dbx == d * bx,
    ;
    assert(d * sxby == sx * dby) by (nonlinear_arith)
        requires
            sxby == sx * by,
            dby == d * by,
    ;
    assert(d * (nm + sybx - sxby) == d * nm + d * sybx - d * sxby) by (nonlinear_arith);
    let nsx = n * sx;
    let nsy = n * sy;
    let nss = n * ss;
    let sxx = sx * sx;
    let syy = sy * sy;
    let qsx = q * sx;
    let psy = p * sy;
    let wss = w * ss;
    assert(n * (qsx - psy + wss) == n * qsx - n * psy + n * wss) by (nonlinear_arith);
    assert(n * qsx == q * nsx) by (nonlinear_arith)
        requires
            qsx == q * sx,
            nsx == n * sx,
    ;
    assert(n * psy == p * nsy) by (nonlinear_arith)
        requires
            psy == p * sy,
            nsy == n * sy,
    ;
    assert(n * wss == w * nss) by (nonlinear_arith)
        requires
            wss == w * ss,
            nss == n * ss,
    ;
    assert(n * dm == q * nsx - p * nsy + w * nss);
    assert(sy * dbx == p * nsy - w * syy) by (nonlinear_arith)
        requires
            dbx == n * p - w * sy,
            nsy == n * sy,
            syy == sy * sy,
    ;
    assert(sx * dby == q * nsx + w * sxx) by (nonlinear_arith)
        requires
            dby == n * q + w * sx,
            nsx == n * sx,
            sxx == sx * sx,
    ;
    assert(w * (nss - sxx - syy) == w * nss - w * sxx - w * syy) by (nonlinear_arith);
    assert(d * t == w * sp);
    let dt = d * t;
    assert(d * (bx * sp + t * sy) == dbx * sp + dt * sy) by (nonlinear_arith)
        requires
            dbx == d * bx,
            dt == d * t,
    ;
    assert(dbx * sp + dt * sy == p * (n * sp)) by (nonlinear_arith)
        requires
            dbx == n * p - w * sy,
            dt == w * sp,
    ;
    assert(d * (by * sp - t * sx) == dby * sp - dt * sx) by (nonlinear_arith)
        requires
            dby == d * by,
            dt == d * t,
    ;
    assert(dby * sp - dt * sx == q * (n * sp)) by (nonlinear_arith)
        requires
            dby == n * q + w * sx,
            dt == w * sp,
    ;
    assert(d * (n * t) == n * dt) by (nonlinear_arith)
        requires
            dt == d * t,
    ;
    assert(n * dt == w * (n * sp)) by (nonlinear_arith)
        requires
            dt == w * sp,
    ;
}

/// Round trip: when the module velocities are exactly those of a chassis that
/// moves with `(p / d, q / d)` and turns with `w / d`, the least-squares
/// solution is that motion, fraction for fraction.
pub proof fn law_solution_recovers_motion(
    g: Seq<ModuleOffset>,
    v: Seq<ModuleVelocity>,
    p: int,
    q: int,
    w: int,
    d: int,
)
    requires
        shows_motion(g, v, p, q, w, d),
    ensures
        d * solution_vx(g, v) == p * solution_den(g),
        d * solution_vy(g, v) == q * solution_den(g),
        d * solution_omega(g, v) == w * solution_den(g),
{
    let n = g.len() as int;
    lemma_sums_of_motion(g, v, n, p, q, w, d);
    lemma_solution_of_motion(
        n,
        sum_x(g, n),
        sum_y(g, n),
        sum_sq(g, n),
        sum_vx(v, n),
        sum_vy(v, n),
        moment(g, v, n),
        p,
        q,
        w,
        d,
    );
}

/// The solution formulas satisfy the three normal equations of the
/// least-squares problem, each multiplied through by the denominator.
pub proof fn lemma_normal_equations(n: int, sx: int, sy: int, ss: int, bx: int, by: int, m: int)
    ensures
        ({
            let sp = n * ss - sx * sx - sy * sy;
            let t = n * m + sy * bx - sx * by;
            &&& n * (bx * sp + t * sy) - sy * (n * t) == bx * (n * sp)
            &&& n * (by * sp - t * sx) + sx * (n * t) == by * (n * sp)
            &&& sx * (by * sp - t * sx) - sy * (bx * sp + t * sy) + ss * (n * t) == m * (n * sp)
        }),
{
    let sp = n * ss - sx * sx - sy * sy;
    let t = n * m + sy * bx - sx * by;
    let bxsp = bx * sp;
    let bysp = by * sp;
    let tsy = t * sy;
    let tsx = t * sx;
    let nt = n * t;
    let nsp = n * sp;
    assert(n * (bxsp + tsy) == n * bxsp + n * tsy) by (nonlinear_arith);
    assert(n * (bysp - tsx) == n * bysp - n * tsx) by (nonlinear_arith);
    assert(n * tsy == sy * nt) by (nonlinear_arith)
        requires
            tsy == t * sy,
            nt == n * t,
    ;
    assert(n * tsx == sx * nt) by (nonlinear_arith)
        requires
            tsx == t * sx,
            nt == n * t,
    ;
    assert(n * bxsp == bx * nsp) by (nonlinear_arith)
        requires
            bxsp == bx * sp,
            nsp == n * sp,
    ;
    assert(n * bysp == by * nsp) by (nonlinear_arith)
        requires
            bysp == by * sp,
            nsp == n * sp,
    ;
    let sybx = sy * bx;
    let sxby = sx * by;
    let sxx = sx * sx;
    let syy = sy * sy;
    let nss = n * ss;
    let nm = n * m;
    assert(sy * (bxsp + tsy) == sy * bxsp + sy * tsy) by (nonlinear_arith);
    assert(sx * (bysp - tsx) == sx * bysp - sx * tsx) by (nonlinear_arith);
    assert(sy * bxsp == sp * sybx) by (nonlinear_arith)
        requires
            bxsp == bx * sp,
            sybx == sy * bx,
    ;
    assert(sx * bysp == sp * sxby) by (nonlinear_arith)
        requires
            bysp == by * sp,
            sxby == sx * by,
    ;
    assert(sy * tsy == t * syy) by (nonlinear_arith)
        requires
            tsy == t * sy,
            syy == sy * sy,
    ;
    assert(sx * tsx == t * sxx) by (nonlinear_arith)
        requires
            tsx == t * sx,
            sxx == sx * sx,
    ;
    assert(ss * nt == t * nss) by (nonlinear_arith)
        requires
            nt == n * t,
            nss == n * ss,
    ;
    assert(t * (nss - sxx - syy) == t * nss - t * sxx - t * syy) by (nonlinear_arith);
    assert(sp * (sxby - sybx + t) == sp * sxby - sp * sybx + t * sp) by (nonlinear_arith);
    assert(sp * nm == m * nsp) by (nonlinear_arith)
        requires
            nm == n * m,
            nsp == n * sp,
    ;
    assert(sxby - sybx + t == nm);
}

/// Least squares: the solution satisfies the normal equations of the system
/// that equates, for every module, the velocity of the chassis at the
/// module's offset with the velocity observed there.
pub proof fn law_solution_meets_normal_equations(g: Seq<ModuleOffset>, v: Seq<ModuleVelocity>)
    requires
        g.len() == v.len(),
    ensures
        ({
            let n = g.len() as int;
            &&& n * solution_vx(g, v) - sum_y(g, n) * solution_omega(g, v) == sum_vx(v, n)
                * solution_den(g)
            &&& n * solution_vy(g, v) + sum_x(g, n) * solution_omega(g, v) == sum_vy(v, n)
                * solution_den(g)
            &&& sum_x(g, n) * solution_vy(g, v) - sum_y(g, n) * solution_vx(g, v) + sum_sq(g, n)
                * solution_omega(g, v) == moment(g, v, n) * solution_den(g)
        }),
{
    let n = g.len() as int;
    lemma_normal_equations(
        n,
        sum_x(g, n),
        sum_y(g, n),
        sum_sq(g, n),
        sum_vx(v, n),
        sum_vy(v, n),
        moment(g, v, n),
    );
}

/// For a layout whose offsets sum to zero, the linear part of the solution
/// is the plain mean of the module velocities.
pub proof fn law_centred_layout_gives_mean(g: Seq<ModuleOffset>, v: Seq<ModuleVelocity>)
    requires
        g.len() == v.len(),
        sum_x(g, g.len() as int) == 0,
        sum_y(g, g.len() as int) == 0,
    ensures
        g.len() * solution_vx(g, v) == sum_vx(v, v.len() as int) * solution_den(g),
        g.len() * solution_vy(g, v) == sum_vy(v, v.len() as int) * solution_den(g),
{
    let n = g.len() as int;
    let t = turn_numerator(g, v);
    let sp = spread(g);
    let bxsp = sum_vx(v, n) * sp;
    let bysp = sum_vy(v, n) * sp;
    let nsp = n * sp;
    assert(t * 0 == 0) by (nonlinear_arith);
    assert(n * bxsp == sum_vx(v, n) * nsp) by (nonlinear_arith)
        requires
            bxsp == sum_vx(v, n) * sp,
            nsp == n * sp,
    ;
    assert(n * bysp == sum_vy(v, n) * nsp) by (nonlinear_arith)
        requires
            bysp == sum_vy(v, n) * sp,
            nsp == n * sp,
    ;
}

/// The four corners of a square of half-width `a` about the centre of
/// rotation, counter-clockwise.
pub open spec fn square_layout(a: i32) -> Seq<ModuleOffset> {
    seq![
        ModuleOffset { x: a, y: a },
        ModuleOffset { x: (-a) as i32, y: a },
        ModuleOffset { x: (-a) as i32, y: (-a) as i32 },
        ModuleOffset { x: a, y: (-a) as i32 },
    ]
}

/// With the modules at the corners of a centred square, the linear part of
/// the solution is the plain mean of the four module velocities.
pub proof fn law_square_layout_gives_mean(a: i32, v: Seq<ModuleVelocity>)
    requires
        a > i32::MIN,
        v.len() == 4,
    ensures
        4 * solution_vx(square_layout(a), v) == sum_vx(v, 4) * solution_den(square_layout(a)),
        4 * solution_vy(square_layout(a), v) == sum_vy(v, 4) * solution_den(square_layout(a)),
{
    let g = square_layout(a);
    assert(g.len() == 4);
    reveal_with_fuel(sum_x, 5);
    reveal_with_fuel(sum_y, 5);
    assert(sum_x(g, 4) == 0);
    assert(sum_y(g, 4) == 0);
    law_centred_layout_gives_mean(g, v);
}

} // verus!
