//! Tests of the field evaluator: exact values, additivity, purity, and
//! monotone falloff with the Manhattan-style distance.

use metaballs::ball::MetaBall;
use metaballs::field::intensity;

fn ball_at(x: i64, y: i64) -> MetaBall {
    MetaBall { x, y, vx: 0, vy: 0, r: 10000 }
}

#[test]
fn intensity_at_ball_center() {
    // One ball at (0, 0), queried at pixel (0, 0): both distances are zero,
    // so the field is 1 + 20000 / 1 = 20001 units.
    let balls = vec![ball_at(0, 0)];
    assert_eq!(intensity(&balls, 0, 0), 20001000);
}

#[test]
fn intensity_of_coincident_balls_is_additive() {
    // Two balls at the same position: their contributions add up, they are
    // not deduplicated, so the shared pixel sees 1 + 2 * 20000 units.
    let balls = vec![ball_at(0, 0), ball_at(0, 0)];
    assert_eq!(intensity(&balls, 0, 0), 40001000);
}

#[test]
fn intensity_with_no_balls_is_one_unit() {
    let balls: Vec<MetaBall> = Vec::new();
    assert_eq!(intensity(&balls, 123, 45), 1000);
}

#[test]
fn intensity_exact_value_off_center() {
    // Ball at (200, 200), pixel (0, 0): distance 400 pixels = 400000 milli,
    // contribution 20000000000 / 401000 = 49875 milli, plus the base unit.
    let balls = vec![ball_at(200000, 200000)];
    assert_eq!(intensity(&balls, 0, 0), 50875);
}

#[test]
fn intensity_is_pure() {
    let balls = vec![ball_at(123456, 654321), ball_at(-1700, 399000)];
    let first = intensity(&balls, 37, 251);
    let second = intensity(&balls, 37, 251);
    assert_eq!(first, second);
}

#[test]
fn intensity_decreases_with_distance_along_a_row() {
    let balls = vec![ball_at(200000, 200000)];
    let mut previous = intensity(&balls, 200, 200);
    for px in 201..240u32 {
        let current = intensity(&balls, px, 200);
        assert!(current < previous);
        previous = current;
    }
}

#[test]
fn intensity_decreases_with_distance_along_a_column() {
    let balls = vec![ball_at(200000, 200000)];
    let mut previous = intensity(&balls, 200, 200);
    for py in 201..240u32 {
        let current = intensity(&balls, 200, py);
        assert!(current < previous);
        previous = current;
    }
}

#[test]
fn intensity_maximal_at_center_of_single_ball() {
    let balls = vec![ball_at(200000, 200000)];
    let at_center = intensity(&balls, 200, 200);
    for p in [(0u32, 0u32), (200, 0), (0, 200), (399, 399), (199, 200), (200, 201)] {
        assert!(intensity(&balls, p.0, p.1) <= at_center);
    }
}
