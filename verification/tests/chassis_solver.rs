use swerve_kinematics::solver::{
    ChassisVelocity, DegenerateGeometryError, LinearVelocity, SwerveKinematicsSolver, MAX_MODULES,
};
use swerve_kinematics::module::{ModuleOffset, ModuleVelocity};

const HALF_WIDTH: i32 = 278_000;

fn square(a: i32) -> Vec<ModuleOffset> {
    vec![
        ModuleOffset { x: a, y: a },
        ModuleOffset { x: -a, y: a },
        ModuleOffset { x: -a, y: -a },
        ModuleOffset { x: a, y: -a },
    ]
}

fn solver_for(offsets: Vec<ModuleOffset>) -> SwerveKinematicsSolver {
    match SwerveKinematicsSolver::new(offsets) {
        Ok(solver) => solver,
        Err(_) => panic!("layout refused"),
    }
}

fn project(speed: f64, degrees: f64) -> ModuleVelocity {
    let radians = degrees.to_radians();
    ModuleVelocity {
        vx: (speed * radians.cos() * 1e6).round() as i32,
        vy: (speed * radians.sin() * 1e6).round() as i32,
    }
}

/// The velocities that a chassis moving with `(vx, vy)` and turning with
/// `omega` radians per second shows at `offsets`.
fn synthesize(offsets: &[ModuleOffset], vx: i32, vy: i32, omega: i32) -> Vec<ModuleVelocity> {
    offsets
        .iter()
        .map(|o| ModuleVelocity { vx: vx - omega * o.y, vy: vy + omega * o.x })
        .collect()
}

#[test]
fn too_few_modules_are_refused() {
    assert_eq!(SwerveKinematicsSolver::new(vec![]).err(), Some(DegenerateGeometryError));
    assert_eq!(
        SwerveKinematicsSolver::new(vec![ModuleOffset { x: 5, y: -7 }]).err(),
        Some(DegenerateGeometryError)
    );
}

#[test]
fn coincident_modules_are_degenerate() {
    let p = ModuleOffset { x: 120, y: -45 };
    assert!(SwerveKinematicsSolver::new(vec![p, p]).is_err());
    assert!(SwerveKinematicsSolver::new(vec![p, p, p, p]).is_err());
    let far = ModuleOffset { x: i32::MIN, y: i32::MAX };
    assert!(SwerveKinematicsSolver::new(vec![far; MAX_MODULES]).is_err());
}

#[test]
fn two_distinct_modules_suffice() {
    let solver = solver_for(vec![ModuleOffset { x: 0, y: 0 }, ModuleOffset { x: 1, y: 0 }]);
    assert_eq!(solver.module_count(), 2);
    let collinear = solver_for(vec![
        ModuleOffset { x: -3, y: 0 },
        ModuleOffset { x: 0, y: 0 },
        ModuleOffset { x: 3, y: 0 },
    ]);
    assert_eq!(collinear.module_count(), 3);
}

#[test]
fn square_chassis_straight_ahead() {
    let solver = solver_for(square(HALF_WIDTH));
    let states = vec![project(2.0, 0.0); 4];
    let out = solver.to_chassis_speeds(&states);
    assert!(out.den > 0);
    assert_eq!(out.vx_num, 2_000_000 * out.den);
    assert_eq!(out.vy_num, 0);
    assert_eq!(out.omega_num, 0);
    let mean = solver.mean_velocity(&states);
    assert_eq!(mean, LinearVelocity { vx_num: 8_000_000, vy_num: 0, den: 4 });
}

#[test]
fn square_chassis_alternating_cancels() {
    let solver = solver_for(square(HALF_WIDTH));
    let states =
        vec![project(2.0, 0.0), project(2.0, 180.0), project(2.0, 0.0), project(2.0, 180.0)];
    let out = solver.to_chassis_speeds(&states);
    assert!(out.den > 0);
    assert_eq!(out.vx_num, 0);
    assert_eq!(out.vy_num, 0);
    let mean = solver.mean_velocity(&states);
    assert_eq!(mean, LinearVelocity { vx_num: 0, vy_num: 0, den: 4 });
}

#[test]
fn square_chassis_opposed_sides_turn() {
    // Forward on the side with positive y, backward on the other.
    let solver = solver_for(square(HALF_WIDTH));
    let states =
        vec![project(2.0, 0.0), project(2.0, 0.0), project(2.0, 180.0), project(2.0, 180.0)];
    let out = solver.to_chassis_speeds(&states);
    assert_eq!(out.vx_num, 0);
    assert_eq!(out.vy_num, 0);
    assert!(out.omega_num < 0);
    assert_eq!(out.omega_num * 2 * HALF_WIDTH as i128, -2_000_000 * out.den);
}

#[test]
fn pure_spin_has_turn_rate_only() {
    let offsets = square(HALF_WIDTH);
    let states = synthesize(&offsets, 0, 0, 3);
    let out = solver_for(offsets).to_chassis_speeds(&states);
    assert_eq!(out.vx_num, 0);
    assert_eq!(out.vy_num, 0);
    assert_eq!(out.omega_num, 3 * out.den);
}

#[test]
fn exact_formula_on_a_small_layout() {
    // Two modules at (0, 0) and (2, 0): sums 2, 0, 4; spread 2 * 4 - 4 = 4.
    let solver = solver_for(vec![ModuleOffset { x: 0, y: 0 }, ModuleOffset { x: 2, y: 0 }]);
    // Velocities (1, 0) and (1, 6): sums 2 and 6, moment 2 * 6 = 12.
    let states = vec![ModuleVelocity { vx: 1, vy: 0 }, ModuleVelocity { vx: 1, vy: 6 }];
    let out = solver.to_chassis_speeds(&states);
    // Turn numerator 2 * 12 + 0 * 2 - 2 * 6 = 12.
    assert_eq!(out, ChassisVelocity { vx_num: 8, vy_num: 0, omega_num: 24, den: 8 });
}

#[test]
fn rigid_motion_is_recovered() {
    let layouts = vec![
        square(HALF_WIDTH),
        vec![
            ModuleOffset { x: 300_000, y: 200_000 },
            ModuleOffset { x: -250_000, y: 210_000 },
            ModuleOffset { x: -100_000, y: -400_000 },
            ModuleOffset { x: 50_000, y: -10_000 },
        ],
        vec![ModuleOffset { x: 10, y: 20 }, ModuleOffset { x: 30, y: -40 }],
    ];
    let targets = [(1_000_000, -500_000, 2), (0, 0, -3), (-2_500_000, 750_000, 0), (7, 11, 1)];
    for offsets in layouts {
        let solver = solver_for(offsets.clone());
        for (vx, vy, omega) in targets {
            let states = synthesize(&offsets, vx, vy, omega);
            let out = solver.to_chassis_speeds(&states);
            assert!(out.den > 0);
            assert_eq!(out.vx_num, vx as i128 * out.den);
            assert_eq!(out.vy_num, vy as i128 * out.den);
            assert_eq!(out.omega_num, omega as i128 * out.den);
        }
    }
}

#[test]
fn centred_square_gives_the_mean() {
    let solver = solver_for(square(HALF_WIDTH));
    let states = vec![
        ModuleVelocity { vx: 1_200_000, vy: -300_000 },
        ModuleVelocity { vx: -450_000, vy: 2_000_001 },
        ModuleVelocity { vx: 17, vy: 0 },
        ModuleVelocity { vx: 3_999_999, vy: -1 },
    ];
    let full = solver.to_chassis_speeds(&states);
    let mean = solver.mean_velocity(&states);
    assert_eq!(mean.den, 4);
    assert_eq!(mean.vx_num, 1_200_000 - 450_000 + 17 + 3_999_999);
    assert_eq!(mean.vy_num, -300_000 + 2_000_001 - 1);
    assert_eq!(full.vx_num * mean.den, mean.vx_num * full.den);
    assert_eq!(full.vy_num * mean.den, mean.vy_num * full.den);
}

#[test]
fn off_centre_layout_differs_from_mean() {
    let offsets = vec![ModuleOffset { x: 0, y: 0 }, ModuleOffset { x: 0, y: 2 }];
    let states = synthesize(&offsets, 10, 0, 1);
    let solver = solver_for(offsets);
    let full = solver.to_chassis_speeds(&states);
    let mean = solver.mean_velocity(&states);
    assert_eq!(full.vx_num, 10 * full.den);
    assert_eq!(mean, LinearVelocity { vx_num: 18, vy_num: 0, den: 2 });
}

#[test]
fn extreme_values_fit() {
    let mut offsets = vec![ModuleOffset { x: i32::MIN, y: i32::MIN }; MAX_MODULES / 2];
    offsets.extend(vec![ModuleOffset { x: i32::MAX, y: i32::MAX }; MAX_MODULES / 2]);
    let solver = solver_for(offsets);
    assert_eq!(solver.module_count(), MAX_MODULES);
    let states = vec![ModuleVelocity { vx: i32::MIN, vy: i32::MAX }; MAX_MODULES];
    let out = solver.to_chassis_speeds(&states);
    assert!(out.den > 0);
    let mean = solver.mean_velocity(&states);
    assert_eq!(mean.vx_num, i32::MIN as i128 * MAX_MODULES as i128);
    assert_eq!(mean.vy_num, i32::MAX as i128 * MAX_MODULES as i128);
}

/// `d * d` times the summed squared difference between what the motion
/// `(p, q, w)` over `d` shows at the modules and what was observed.
fn misfit(offsets: &[ModuleOffset], states: &[ModuleVelocity], p: i128, q: i128, w: i128, d: i128) -> i128 {
    offsets
        .iter()
        .zip(states)
        .map(|(o, s)| {
            let ex = p - w * o.y as i128 - d * s.vx as i128;
            let ey = q + w * o.x as i128 - d * s.vy as i128;
            ex * ex + ey * ey
        })
        .sum()
}

#[test]
fn solution_is_best_fit() {
    let offsets = vec![
        ModuleOffset { x: 3, y: 2 },
        ModuleOffset { x: -4, y: 1 },
        ModuleOffset { x: -2, y: -5 },
        ModuleOffset { x: 6, y: -3 },
    ];
    let states = vec![
        ModuleVelocity { vx: 7, vy: -2 },
        ModuleVelocity { vx: -1, vy: 9 },
        ModuleVelocity { vx: 12, vy: 4 },
        ModuleVelocity { vx: 0, vy: -8 },
    ];
    let out = solver_for(offsets.clone()).to_chassis_speeds(&states);
    let best = misfit(&offsets, &states, out.vx_num, out.vy_num, out.omega_num, out.den);
    assert!(best > 0);
    let candidates = [
        (out.vx_num + 1, out.vy_num, out.omega_num, out.den),
        (out.vx_num, out.vy_num - 1, out.omega_num, out.den),
        (out.vx_num, out.vy_num, out.omega_num + 1, out.den),
        (out.vx_num - 1, out.vy_num + 1, out.omega_num - 1, out.den),
        (0, 0, 0, 1),
        (9, 1, 0, 2),
        (-5, 7, 3, 4),
        (18, 3, -1, 4),
    ];
    for (p, q, w, d) in candidates {
        let other = misfit(&offsets, &states, p, q, w, d);
        assert!(d * d * best < out.den * out.den * other, "{:?}", (p, q, w, d));
    }
    // The same motion over another denominator fits equally well.
    let doubled = misfit(&offsets, &states, 2 * out.vx_num, 2 * out.vy_num, 2 * out.omega_num, 2 * out.den);
    assert_eq!(4 * out.den * out.den * best, out.den * out.den * doubled);
}
