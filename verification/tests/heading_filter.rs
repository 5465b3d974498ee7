use swerve_kinematics::angle::{
    angular_delta, angular_distance, normalize, opposite, FULL_TURN, HALF_TURN, QUARTER_TURN,
};
use swerve_kinematics::optimizer::{ModuleHeadingOptimizer, ModuleState};

const DEG: i64 = 1_000_000;

fn motion(state: ModuleState) -> (f64, f64) {
    let radians = (state.heading as f64 / DEG as f64).to_radians();
    let speed = state.speed as f64;
    (speed * radians.cos(), speed * radians.sin())
}

#[test]
fn normalize_maps_into_half_open_range() {
    assert_eq!(normalize(0), 0);
    assert_eq!(normalize(180 * DEG), 180 * DEG);
    assert_eq!(normalize(-180 * DEG), 180 * DEG);
    assert_eq!(normalize(180 * DEG + 1), -180 * DEG + 1);
    assert_eq!(normalize(540 * DEG), 180 * DEG);
    assert_eq!(normalize(-90 * DEG), -90 * DEG);
    assert_eq!(normalize(725 * DEG), 5 * DEG);
    assert_eq!(normalize(-725 * DEG), -5 * DEG);
    assert_eq!(normalize(FULL_TURN), 0);
}

#[test]
fn normalize_takes_extreme_values() {
    let top = normalize(i64::MAX);
    let bottom = normalize(i64::MIN);
    assert!(-HALF_TURN < top && top <= HALF_TURN);
    assert!(-HALF_TURN < bottom && bottom <= HALF_TURN);
    assert_eq!((i64::MAX as i128 - top as i128) % FULL_TURN as i128, 0);
    assert_eq!((i64::MIN as i128 - bottom as i128) % FULL_TURN as i128, 0);
}

#[test]
fn delta_goes_the_short_way_round() {
    assert_eq!(angular_delta(10 * DEG, 30 * DEG), 20 * DEG);
    assert_eq!(angular_delta(30 * DEG, 10 * DEG), -20 * DEG);
    assert_eq!(angular_delta(350 * DEG, 10 * DEG), 20 * DEG);
    assert_eq!(angular_delta(10 * DEG, 350 * DEG), -20 * DEG);
    assert_eq!(angular_delta(0, 180 * DEG), 180 * DEG);
    assert_eq!(angular_delta(180 * DEG, 0), 180 * DEG);
    assert_eq!(angular_delta(i64::MIN, i64::MAX), 109_551_615);
}

#[test]
fn distance_is_symmetric_and_bounded() {
    assert_eq!(angular_distance(10 * DEG, 350 * DEG), 20 * DEG);
    assert_eq!(angular_distance(350 * DEG, 10 * DEG), 20 * DEG);
    assert_eq!(angular_distance(0, 180 * DEG), 180 * DEG);
    assert_eq!(angular_distance(-720 * DEG, 90 * DEG), 90 * DEG);
}

#[test]
fn opposite_adds_half_a_turn() {
    assert_eq!(opposite(0), 180 * DEG);
    assert_eq!(opposite(180 * DEG), 0);
    assert_eq!(opposite(90 * DEG), -90 * DEG);
    assert_eq!(opposite(270 * DEG), 90 * DEG);
    assert_eq!(opposite(-45 * DEG), 135 * DEG);
}

#[test]
fn new_filter_starts_at_zero() {
    assert_eq!(ModuleHeadingOptimizer::new().last_commanded_heading(), 0);
    assert_eq!(ModuleHeadingOptimizer::with_heading(42 * DEG).last_commanded_heading(), 42 * DEG);
}

#[test]
fn quarter_turn_is_kept_and_more_is_reversed() {
    let mut filter = ModuleHeadingOptimizer::new();

    // 89.999 degrees from the last commanded heading: kept.
    let first = filter.optimize(ModuleState { speed: 2_000_000, heading: 89_999_000 });
    assert_eq!(first, ModuleState { speed: 2_000_000, heading: 89_999_000 });
    assert_eq!(filter.last_commanded_heading(), 89_999_000);

    // Exactly 90 degrees further: still kept.
    let second = filter.optimize(ModuleState { speed: 2_000_000, heading: 179_999_000 });
    assert_eq!(second, ModuleState { speed: 2_000_000, heading: 179_999_000 });
    assert_eq!(filter.last_commanded_heading(), 179_999_000);

    // 90.001 degrees further: reversed.
    let third = filter.optimize(ModuleState { speed: 2_000_000, heading: 270_000_000 });
    assert_eq!(third, ModuleState { speed: -2_000_000, heading: 90_000_000 });
    assert_eq!(filter.last_commanded_heading(), 90_000_000);
}

#[test]
fn quarter_turn_clockwise_is_kept_and_more_is_reversed() {
    let mut filter = ModuleHeadingOptimizer::with_heading(10 * DEG);
    let kept = filter.optimize(ModuleState { speed: -7, heading: -80 * DEG });
    assert_eq!(kept, ModuleState { speed: -7, heading: -80 * DEG });

    let mut filter = ModuleHeadingOptimizer::with_heading(10 * DEG);
    let reversed = filter.optimize(ModuleState { speed: -7, heading: -80 * DEG - 1 });
    assert_eq!(reversed, ModuleState { speed: 7, heading: 100 * DEG - 1 });
}

#[test]
fn kept_heading_is_not_normalized() {
    let mut filter = ModuleHeadingOptimizer::with_heading(5 * DEG);
    let kept = filter.optimize(ModuleState { speed: 3, heading: 725 * DEG });
    assert_eq!(kept, ModuleState { speed: 3, heading: 725 * DEG });
    assert_eq!(filter.last_commanded_heading(), 725 * DEG);
    let next = filter.optimize(ModuleState { speed: 3, heading: 184 * DEG });
    assert_eq!(next, ModuleState { speed: -3, heading: 4 * DEG });
}

#[test]
fn half_turn_away_is_reversed() {
    let mut filter = ModuleHeadingOptimizer::new();
    let out = filter.optimize(ModuleState { speed: 1_500_000, heading: 180 * DEG });
    assert_eq!(out, ModuleState { speed: -1_500_000, heading: 0 });
    let out = filter.optimize(ModuleState { speed: 1_500_000, heading: 0 });
    assert_eq!(out, ModuleState { speed: 1_500_000, heading: 0 });
}

#[test]
fn reversal_keeps_the_motion() {
    let observations = [
        (0i64, 135 * DEG, 2_000_000i64),
        (0, -135 * DEG, 2_000_000),
        (0, 90 * DEG + 1, -3_250_000),
        (45 * DEG, 300 * DEG, 1_000_000),
        (170 * DEG, -170 * DEG, 4_000_000),
        (-1_000 * DEG, 12_345_678, 987_654),
        (33 * DEG, 213 * DEG, -1),
    ];
    for (last, heading, speed) in observations {
        let mut filter = ModuleHeadingOptimizer::with_heading(last);
        let seen = ModuleState { speed, heading };
        let out = filter.optimize(seen);
        let (ex, ey) = motion(seen);
        let (ax, ay) = motion(out);
        assert!((ex - ax).abs() < 1e-3, "x differs for {:?}", seen);
        assert!((ey - ay).abs() < 1e-3, "y differs for {:?}", seen);
        assert_eq!(out.speed.abs(), speed.abs());
    }
}

#[test]
fn successive_headings_stay_within_a_quarter_turn() {
    let headings = [
        0i64,
        179 * DEG,
        -179 * DEG,
        91 * DEG,
        -91 * DEG,
        360 * DEG,
        450 * DEG,
        -3_600 * DEG + 95 * DEG,
        i64::MAX,
        i64::MIN,
        90 * DEG,
        270 * DEG,
        45 * DEG,
        225 * DEG + 1,
    ];
    let mut filter = ModuleHeadingOptimizer::new();
    let mut previous = filter.last_commanded_heading();
    for heading in headings {
        let out = filter.optimize(ModuleState { speed: 1_000, heading });
        assert!(angular_distance(previous, out.heading) <= QUARTER_TURN);
        assert_eq!(filter.last_commanded_heading(), out.heading);
        previous = out.heading;
    }
}

#[test]
fn filters_are_independent() {
    let mut left = ModuleHeadingOptimizer::new();
    let mut right = ModuleHeadingOptimizer::new();
    left.optimize(ModuleState { speed: 1, heading: 80 * DEG });
    let out = right.optimize(ModuleState { speed: 1, heading: 160 * DEG });
    assert_eq!(out, ModuleState { speed: -1, heading: -20 * DEG });
    let out = left.optimize(ModuleState { speed: 1, heading: 160 * DEG });
    assert_eq!(out, ModuleState { speed: 1, heading: 160 * DEG });
}
