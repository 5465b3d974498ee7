//! The least-squares solver: from the velocities observed at the modules to
//! the one chassis velocity that explains them best.
//!
//! A rigid body that moves with velocity `(vx, vy)` and turns with rate `w`
//! shows the velocity `(vx - w * y, vy + w * x)` at the offset `(x, y)`. With
//! two or more modules that is more equations than unknowns; the solver
//! returns the solution of the normal equations, exactly.
use vstd::prelude::*;
use crate::module::{ModuleOffset, ModuleVelocity};
use crate::spread::lemma_spread_sign;
use crate::sums::{lemma_mul_bound, moment, spread, sum_sq, sum_vx, sum_vy, sum_x, sum_y};

verus! {

/// The largest number of modules a solver takes. With more, the exact
/// numerators no longer fit in 128 bits.
pub const MAX_MODULES: usize = 1024;

/// The layout cannot support a least-squares solve: fewer than two modules,
/// or all of them at one point.
#[derive(Clone, Copy, Debug, PartialEq, Eq, Structural)]
pub struct DegenerateGeometryError;

/// A chassis velocity as three fractions over one positive denominator:
/// `vx_num / den` and `vy_num / den` in micrometres per second, and
/// `omega_num / den` in radians per second, counter-clockwise.
#[derive(Clone, Copy, Debug, PartialEq, Eq, Structural)]
pub struct ChassisVelocity {
    pub vx_num: i128,
    pub vy_num: i128,
    pub omega_num: i128,
    pub den: i128,
}

/// A linear velocity as two fractions over one positive denominator, in
/// micrometres per second.
#[derive(Clone, Copy, Debug, PartialEq, Eq, Structural)]
pub struct LinearVelocity {
    pub vx_num: i128,
    pub vy_num: i128,
    pub den: i128,
}

/// Whether a layout leaves the chassis velocity undetermined: fewer than two
/// modules, or every module at the place of the first.
pub open spec fn degenerate(g: Seq<ModuleOffset>) -> bool {
    g.len() < 2 || forall|i: int| 0 <= i < g.len() ==> #[trigger] g[i] == g[0]
}

/// Numerator of the turn rate, over the spread of the layout.
pub open spec fn turn_numerator(g: Seq<ModuleOffset>, v: Seq<ModuleVelocity>) -> int {
    let n = g.len() as int;
    n * moment(g, v, n) + sum_y(g, n) * sum_vx(v, n) - sum_x(g, n) * sum_vy(v, n)
}

/// The common denominator of a solution: the module count times the spread.
pub open spec fn solution_den(g: Seq<ModuleOffset>) -> int {
    g.len() * spread(g)
}

/// Numerator of the least-squares turn rate over `solution_den`.
pub open spec fn solution_omega(g: Seq<ModuleOffset>, v: Seq<ModuleVelocity>) -> int {
    g.len() * turn_numerator(g, v)
}

/// Numerator of the least-squares x velocity over `solution_den`.
pub open spec fn solution_vx(g: Seq<ModuleOffset>, v: Seq<ModuleVelocity>) -> int {
    let n = g.len() as int;
    sum_vx(v, n) * spread(g) + turn_numerator(g, v) * sum_y(g, n)
}

/// Numerator of the least-squares y velocity over `solution_den`.
pub open spec fn solution_vy(g: Seq<ModuleOffset>, v: Seq<ModuleVelocity>) -> int {
    let n = g.len() as int;
    sum_vy(v, n) * spread(g) - turn_numerator(g, v) * sum_x(g, n)
}

/// The solver for one fixed layout. The sums that depend on the layout alone
/// are taken once, when the solver is made.
#[derive(Debug)]
pub struct SwerveKinematicsSolver {
    offsets: Vec<ModuleOffset>,
    sum_x: i128,
    sum_y: i128,
    spread: i128,
}

impl SwerveKinematicsSolver {
    /// The layout the solver was made for, in the order given.
    pub closed spec fn geometry(&self) -> Seq<ModuleOffset> {
        self.offsets@
    }

    /// The stored sums are those of the layout, and the layout determines a
    /// solution.
    #[verifier::type_invariant]
    pub closed spec fn wf(self) -> bool {
        let n = self.offsets@.len() as int;
        &&& 2 <= n <= MAX_MODULES
        &&& self.sum_x == sum_x(self.offsets@, n)
        &&& self.sum_y == sum_y(self.offsets@, n)
        &&& self.spread == spread(self.offsets@)
        &&& -(n * 0x8000_0000) <= self.sum_x <= n * 0x8000_0000
        &&& -(n * 0x8000_0000) <= self.sum_y <= n * 0x8000_0000
        &&& 0 < self.spread <= 0x8_0000_0000_0000_0000_0000
    }

    /// Makes the solver for the layout `offsets`, whose order the module
    /// velocities of every later call follow. A layout with fewer than two
    /// modules, or with all modules at one point, is refused.
    pub fn new(offsets: Vec<ModuleOffset>) -> (r: Result<Self, DegenerateGeometryError>)
        requires
            offsets@.len() <= MAX_MODULES,
        ensures
            r is Err <==> degenerate(offsets@),
            r matches Ok(solver) ==> solver.geometry() == offsets@,
    {
        let n: usize = offsets.len();
        let mut sx: i128 = 0;
        let mut sy: i128 = 0;
        let mut q: i128 = 0;
        let mut i: usize = 0;
        while i < n
            invariant
                i <= n,
                n == offsets@.len(),
                n <= 1024,
                sx == sum_x(offsets@, i as int),
                sy == sum_y(offsets@, i as int),
                q == sum_sq(offsets@, i as int),
                -(i * 0x8000_0000) <= sx <= i * 0x8000_0000,
                -(i * 0x8000_0000) <= sy <= i * 0x8000_0000,
                0 <= q <= i * 0x8000_0000_0000_0000,
            decreases n - i,
        {
            let x: i128 = offsets[i].x as i128;
            let y: i128 = offsets[i].y as i128;
            proof {
                lemma_mul_bound(x as int, x as int, 0x8000_0000, 0x8000_0000);
                lemma_mul_bound(y as int, y as int, 0x8000_0000, 0x8000_0000);
                assert(x * x >= 0 && y * y >= 0) by (nonlinear_arith);
            }
            sx = sx + x;
            sy = sy + y;
            q = q + (x * x + y * y);
            i = i + 1;
        }
        let count: i128 = n as i128;
        proof {
            lemma_mul_bound(count as int, q as int, 1024, 0x2_0000_0000_0000_0000_00);
            lemma_mul_bound(sx as int, sx as int, 0x200_0000_0000, 0x200_0000_0000);
            lemma_mul_bound(sy as int, sy as int, 0x200_0000_0000, 0x200_0000_0000);
            assert(sx * sx >= 0 && sy * sy >= 0) by (nonlinear_arith);
            lemma_spread_sign(offsets@, n as int);
        }
        let d: i128 = count * q - sx * sx - sy * sy;
        if d == 0 {
            Err(DegenerateGeometryError)
        } else {
            Ok(SwerveKinematicsSolver { offsets, sum_x: sx, sum_y: sy, spread: d })
        }
    }

    /// Number of modules in the layout.
    pub fn module_count(&self) -> (n: usize)
        ensures
            n == self.geometry().len(),
            2 <= n <= MAX_MODULES,
    {
        proof {
            use_type_invariant(self);
        }
        self.offsets.len()
    }

    /// The least-squares chassis velocity for the module velocities `states`,
    /// which stand in the order of the layout.
    pub fn to_chassis_speeds(&self, states: &Vec<ModuleVelocity>) -> (r: ChassisVelocity)
        requires
            states@.len() == self.geometry().len(),
        ensures
            r.den == solution_den(self.geometry()),
            r.den > 0,
            r.vx_num == solution_vx(self.geometry(), states@),
            r.vy_num == solution_vy(self.geometry(), states@),
            r.omega_num == solution_omega(self.geometry(), states@),
    {
        proof {
            use_type_invariant(self);
        }
        let n: usize = self.offsets.len();
        let mut bx: i128 = 0;
        let mut by: i128 = 0;
        let mut m: i128 = 0;
        let mut i: usize = 0;
        while i < n
            invariant
                i <= n,
                n == self.offsets@.len(),
                n == states@.len(),
                n <= 1024,
                bx == sum_vx(states@, i as int),
                by == sum_vy(states@, i as int),
                m == moment(self.offsets@, states@, i as int),
                -(i * 0x8000_0000) <= bx <= i * 0x8000_0000,
                -(i * 0x8000_0000) <= by <= i * 0x8000_0000,
                -(i * 0x8000_0000_0000_0000) <= m <= i * 0x8000_0000_0000_0000,
            decreases n - i,
        {
            let x: i128 = self.offsets[i].x as i128;
            let y: i128 = self.offsets[i].y as i128;
            let vx: i128 = states[i].vx as i128;
            let vy: i128 = states[i].vy as i128;
            proof {
                lemma_mul_bound(x as int, vy as int, 0x8000_0000, 0x8000_0000);
                lemma_mul_bound(y as int, vx as int, 0x8000_0000, 0x8000_0000);
            }
            bx = bx + vx;
            by = by + vy;
            m = m + (x * vy - y * vx);
            i = i + 1;
        }
        let count: i128 = n as i128;
        let sx: i128 = self.sum_x;
        let sy: i128 = self.sum_y;
        let d: i128 = self.spread;
        proof {
            lemma_mul_bound(count as int, m as int, 1024, 0x2_0000_0000_0000_0000_00);
            lemma_mul_bound(sy as int, bx as int, 0x200_0000_0000, 0x200_0000_0000);
            lemma_mul_bound(sx as int, by as int, 0x200_0000_0000, 0x200_0000_0000);
        }
        let w: i128 = count * m + sy * bx - sx * by;
        proof {
            lemma_mul_bound(bx as int, d as int, 0x200_0000_0000, 0x8_0000_0000_0000_0000_0000);
            lemma_mul_bound(by as int, d as int, 0x200_0000_0000, 0x8_0000_0000_0000_0000_0000);
            lemma_mul_bound(w as int, sy as int, 0x10_0000_0000_0000_0000_0000, 0x200_0000_0000);
            lemma_mul_bound(w as int, sx as int, 0x10_0000_0000_0000_0000_0000, 0x200_0000_0000);
            lemma_mul_bound(count as int, w as int, 1024, 0x10_0000_0000_0000_0000_0000);
            lemma_mul_bound(count as int, d as int, 1024, 0x8_0000_0000_0000_0000_0000);
            assert(count * d > 0) by (nonlinear_arith)
                requires
                    count >= 2,
                    d > 0,
            ;
        }
        ChassisVelocity {
            vx_num: bx * d + w * sy,
            vy_num: by * d - w * sx,
            omega_num: count * w,
            den: count * d,
        }
    }

    /// The plain mean of the module velocities. It is the chassis velocity
    /// only for a layout whose offsets sum to zero, such as a rectangle
    /// centred on the centre of rotation; for any other layout use
    /// `to_chassis_speeds`.
    pub fn mean_velocity(&self, states: &Vec<ModuleVelocity>) -> (r: LinearVelocity)
        requires
            states@.len() == self.geometry().len(),
        ensures
            r.den == self.geometry().len(),
            r.den > 0,
            r.vx_num == sum_vx(states@, states@.len() as int),
            r.vy_num == sum_vy(states@, states@.len() as int),
    {
        proof {
            use_type_invariant(self);
        }
        let n: usize = states.len();
        let mut bx: i128 = 0;
        let mut by: i128 = 0;
        let mut i: usize = 0;
        while i < n
            invariant
                i <= n,
                n == states@.len(),
                n <= 1024,
                bx == sum_vx(states@, i as int),
                by == sum_vy(states@, i as int),
                -(i * 0x8000_0000) <= bx <= i * 0x8000_0000,
                -(i * 0x8000_0000) <= by <= i * 0x8000_0000,
            decreases n - i,
        {
            bx = bx + states[i].vx as i128;
            by = by + states[i].vy as i128;
            i = i + 1;
        }
        LinearVelocity { vx_num: bx, vy_num: by, den: n as i128 }
    }
}

} // verus!
