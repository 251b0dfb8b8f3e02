//! The field evaluator: the per-pixel scalar intensity that shades a frame.
//!
//! Per ball the distance to a pixel is not Euclidean: it is the sum of the
//! horizontal and the vertical distance to the ball's center (a separable,
//! Manhattan-style profile). The intensity starts at one unit and each ball
//! adds `20000 / (distance + 1)` units; the `+ 1` floors the denominator so
//! the field stays finite at a ball's exact center. In milli-units the
//! numerator is `20000 * SCALE * SCALE` and the floor is `SCALE`.

use vstd::arithmetic::div_mod::{
    lemma_div_is_ordered, lemma_div_is_ordered_by_denominator, lemma_div_multiples_vanish,
    lemma_div_pos_is_pos, lemma_fundamental_div_mod, lemma_mod_bound,
};
use vstd::prelude::*;

use crate::ball::{MetaBall, SCALE};

verus! {

/// Numerator of one ball's contribution, in milli-units times milli-pixels:
/// 20000 units scaled by SCALE twice, calibrated for a 400 by 400 canvas.
pub const FIELD_NUMER: u64 = 20_000_000_000;

/// Largest contribution one ball can make, in milli-units: the numerator over
/// the denominator floor `SCALE`.
pub const MAX_TERM: u64 = 20_000_000;

/// Most balls the evaluator accepts; keeps the summed intensity inside `u64`.
pub const MAX_BALLS: usize = 1_000_000_000;

/// Largest coordinate magnitude, in milli-pixels, that the evaluator accepts:
/// far beyond any canvas, small enough that distances stay inside `i64`.
pub const MAX_POS: i64 = 5_000_000_000_000_000;

/// Absolute difference of two mathematical integers.
pub open spec fn abs_diff(a: int, b: int) -> int {
    if a >= b {
        a - b
    } else {
        b - a
    }
}

/// A ball position the field evaluator accepts.
pub open spec fn pos_in_range(b: MetaBall) -> bool {
    &&& -MAX_POS <= b.x <= MAX_POS
    &&& -MAX_POS <= b.y <= MAX_POS
}

/// Manhattan-style distance, in milli-pixels, from a ball's center to the
/// pixel at column `px`, row `py`.
pub open spec fn manhattan(b: MetaBall, px: int, py: int) -> int {
    abs_diff(b.x as int, px * SCALE) + abs_diff(b.y as int, py * SCALE)
}

/// One ball's contribution to the field at a pixel, in milli-units.
pub open spec fn ball_term(b: MetaBall, px: int, py: int) -> int {
    (FIELD_NUMER as int) / (manhattan(b, px, py) + SCALE)
}

/// The field intensity at a pixel, in milli-units: one unit plus every ball's
/// contribution. Contributions are summed per ball, never deduplicated.
pub open spec fn intensity_spec(balls: Seq<MetaBall>, px: int, py: int) -> int
    decreases balls.len(),
{
    if balls.len() == 0 {
        SCALE as int
    } else {
        intensity_spec(balls.drop_last(), px, py) + ball_term(balls.last(), px, py)
    }
}

/// One ball's contribution is between 0 and `MAX_TERM` milli-units.
pub proof fn lemma_term_bounds(b: MetaBall, px: int, py: int)
    ensures
        0 <= ball_term(b, px, py) <= MAX_TERM,
{
    let den = manhattan(b, px, py) + SCALE;
    lemma_div_pos_is_pos(FIELD_NUMER as int, den);
    lemma_div_is_ordered_by_denominator(FIELD_NUMER as int, SCALE as int, den);
    assert(FIELD_NUMER as int / SCALE as int == MAX_TERM);
}

/// Evaluates the field at pixel (`px`, `py`), in milli-units.
///
/// The result is a pure function of the ball states and the pixel alone: two
/// calls on equal arguments return equal values.
pub fn intensity(balls: &Vec<MetaBall>, px: u32, py: u32) -> (m: u64)
    requires
        balls@.len() <= MAX_BALLS,
        forall|i: int| 0 <= i < balls@.len() ==> pos_in_range(#[trigger] balls@[i]),
    ensures
        m == intensity_spec(balls@, px as int, py as int),
{
    let mut m: u64 = SCALE as u64;
    let n: usize = balls.len();
    let mut k: usize = 0;
    proof {
        assert(balls@.take(0) =~= Seq::<MetaBall>::empty());
    }
    while k < n
        invariant
            n == balls@.len() <= MAX_BALLS,
            forall|i: int| 0 <= i < n ==> pos_in_range(#[trigger] balls@[i]),
            k <= n,
            m == intensity_spec(balls@.take(k as int), px as int, py as int),
            m <= SCALE + k * MAX_TERM,
        decreases n - k,
    {
        let b: MetaBall = balls[k];
        let t: u64 = term_at(b, px, py);
        proof {
            assert(balls@.take(k as int + 1).drop_last() =~= balls@.take(k as int));
            assert(balls@.take(k as int + 1).last() == balls@[k as int]);
            lemma_term_bounds(b, px as int, py as int);
        }
        m = m + t;
        k = k + 1;
    }
    proof {
        assert(balls@.take(n as int) =~= balls@);
    }
    m
}

/// One ball's contribution at a pixel, in milli-units.
fn term_at(b: MetaBall, px: u32, py: u32) -> (t: u64)
    requires
        pos_in_range(b),
    ensures
        t == ball_term(b, px as int, py as int),
{
    let xs: i64 = (px as i64) * SCALE;
    let ys: i64 = (py as i64) * SCALE;
    let dx: i64 = if b.x >= xs {
        b.x - xs
    } else {
        xs - b.x
    };
    let dy: i64 = if b.y >= ys {
        b.y - ys
    } else {
        ys - b.y
    };
    let den: i64 = dx + dy + SCALE;
    FIELD_NUMER / (den as u64)
}

/// With a single ball the field intensity decreases monotonically as the
/// Manhattan-style distance from the ball's center grows: a pixel at least as
/// close as another sees at least as much intensity.
pub proof fn lemma_intensity_monotone(b: MetaBall, x1: int, y1: int, x2: int, y2: int)
    requires
        manhattan(b, x1, y1) <= manhattan(b, x2, y2),
    ensures
        intensity_spec(seq![b], x1, y1) >= intensity_spec(seq![b], x2, y2),
{
    assert(seq![b].drop_last() =~= Seq::<MetaBall>::empty());
    assert(intensity_spec(Seq::<MetaBall>::empty(), x1, y1) == SCALE as int);
    assert(intensity_spec(Seq::<MetaBall>::empty(), x2, y2) == SCALE as int);
    assert(intensity_spec(seq![b], x1, y1) == SCALE + ball_term(b, x1, y1));
    assert(intensity_spec(seq![b], x2, y2) == SCALE + ball_term(b, x2, y2));
    lemma_div_is_ordered_by_denominator(
        FIELD_NUMER as int,
        manhattan(b, x1, y1) + SCALE,
        manhattan(b, x2, y2) + SCALE,
    );
}

/// Largest Manhattan-style distance, in milli-pixels, over which the falloff
/// is known to be strictly decreasing: ten times a stock canvas side, and
/// five times the largest distance a stock canvas can realize.
pub const STRICT_FALLOFF_RANGE: i64 = 4_000_000;

/// Strictly closer means strictly brighter: with a single ball, a pixel at
/// least one whole pixel closer in the Manhattan-style metric sees strictly
/// more intensity, as long as the farther distance stays within
/// `STRICT_FALLOFF_RANGE` — so over a whole canvas the falloff never
/// plateaus.
pub proof fn lemma_intensity_strictly_decreases(
    b: MetaBall,
    x1: int,
    y1: int,
    x2: int,
    y2: int,
)
    requires
        manhattan(b, x1, y1) + SCALE <= manhattan(b, x2, y2) <= STRICT_FALLOFF_RANGE,
    ensures
        intensity_spec(seq![b], x1, y1) > intensity_spec(seq![b], x2, y2),
{
    let n = FIELD_NUMER as int;
    let near = manhattan(b, x1, y1) + SCALE;
    let far = manhattan(b, x2, y2) + SCALE;
    lemma_fundamental_div_mod(n, far);
    lemma_mod_bound(n, far);
    let q = n / far;
    assert(far * q <= n < (q + 1) * far) by (nonlinear_arith)
        requires
            n == far * q + (n % far),
            0 <= n % far < far,
    ;
    assert(q >= 4998) by (nonlinear_arith)
        requires
            n < (q + 1) * far,
            SCALE < far <= STRICT_FALLOFF_RANGE + SCALE,
            n == 20000000000,
    ;
    assert(near * (q + 1) <= n) by (nonlinear_arith)
        requires
            far * q <= n,
            near + SCALE <= far <= STRICT_FALLOFF_RANGE + SCALE,
            SCALE <= near,
            q >= 4998,
            SCALE == 1000,
            n == 20000000000,
    ;
    lemma_div_multiples_vanish(q + 1, near);
    lemma_div_is_ordered(near * (q + 1), n, near);
    assert(seq![b].drop_last() =~= Seq::<MetaBall>::empty());
    assert(intensity_spec(Seq::<MetaBall>::empty(), x1, y1) == SCALE as int);
    assert(intensity_spec(Seq::<MetaBall>::empty(), x2, y2) == SCALE as int);
    assert(intensity_spec(seq![b], x1, y1) == SCALE + ball_term(b, x1, y1));
    assert(intensity_spec(seq![b], x2, y2) == SCALE + ball_term(b, x2, y2));
}

/// With a single ball centered exactly on a pixel, the field intensity is
/// maximal there: no pixel sees more than the center pixel does.
pub proof fn lemma_intensity_maximal_at_center(b: MetaBall, px: int, py: int, qx: int, qy: int)
    requires
        b.x == px * SCALE,
        b.y == py * SCALE,
    ensures
        intensity_spec(seq![b], px, py) >= intensity_spec(seq![b], qx, qy),
{
    lemma_intensity_monotone(b, px, py, qx, qy);
}

} // verus!
