//! The frame renderer: turns the current ball states into an ordered list of
//! draw primitives — one circle outline per ball, then, for every pixel in
//! raster order, a full-canvas rectangle fill whose alpha is that pixel's
//! field intensity wrapped modulo 255 units.
//!
//! Per frame the renderer first precomputes, for every ball, a horizontal and
//! a vertical distance profile (one entry per column and per row), and then
//! combines the two profiles per pixel, exactly as the field evaluator does.

use vstd::prelude::*;

use crate::ball::{MetaBall, SCALE};
use crate::field::{
    abs_diff, ball_term, intensity_spec, lemma_term_bounds, manhattan, pos_in_range, FIELD_NUMER,
    MAX_BALLS, MAX_POS, MAX_TERM,
};

verus! {

/// Alpha of the shading fill, in milli-units: 255 units.
pub const ALPHA_WRAP: u64 = 255000;

/// A draw primitive handed to the window shell; coordinates in milli-pixels.
#[derive(Clone, Copy, PartialEq, Eq, Structural, Debug)]
pub enum DrawCmd {
    /// Stroke the outline of the circle centered at (`x`, `y`) of radius `r`.
    CircleOutline { x: i64, y: i64, r: i64 },
    /// Fill the rectangle with origin (`x`, `y`) and size `w` by `h` with
    /// black at alpha `alpha`, in milli-units.
    RectFill { x: i64, y: i64, w: i64, h: i64, alpha: u64 },
}

/// The alpha value of the shading fill at one pixel: the raw field intensity
/// wrapped modulo 255 units.
pub open spec fn alpha_spec(balls: Seq<MetaBall>, px: int, py: int) -> int {
    intensity_spec(balls, px, py) % (ALPHA_WRAP as int)
}

/// The outline command the renderer issues for one ball.
pub open spec fn outline_cmd(b: MetaBall) -> DrawCmd {
    DrawCmd::CircleOutline { x: b.x, y: b.y, r: b.r }
}

/// The shading command the renderer issues for one pixel: a full-canvas
/// rectangle fill colored black at that pixel's wrapped field intensity.
pub open spec fn rect_cmd(balls: Seq<MetaBall>, w: u32, h: u32, px: int, py: int) -> DrawCmd {
    DrawCmd::RectFill {
        x: 0,
        y: 0,
        w: (w as int * SCALE) as i64,
        h: (h as int * SCALE) as i64,
        alpha: alpha_spec(balls, px, py) as u64,
    }
}

/// Index of the shading command of pixel (`px`, `py`) in a frame over `n`
/// balls on a canvas `w` pixels wide: outlines first, then raster order.
pub open spec fn pixel_index(n: int, w: int, px: int, py: int) -> int {
    n + py * w + px
}

/// A complete frame for the given ball states and canvas: one outline per
/// ball, then one shading fill per pixel in raster order.
pub open spec fn frame_ok(balls: Seq<MetaBall>, w: u32, h: u32, cmds: Seq<DrawCmd>) -> bool {
    &&& cmds.len() == balls.len() + w as int * h as int
    &&& forall|i: int| 0 <= i < balls.len() ==> cmds[i] == outline_cmd(#[trigger] balls[i])
    &&& forall|px: int, py: int|
        0 <= px < w && 0 <= py < h ==> cmds[#[trigger] pixel_index(
            balls.len() as int,
            w as int,
            px,
            py,
        )] == rect_cmd(balls, w, h, px, py)
}

/// The shading commands of all pixels strictly before (`px`, `py`) in raster
/// order are in place.
spec fn pixels_done(
    balls: Seq<MetaBall>,
    w: u32,
    h: u32,
    cmds: Seq<DrawCmd>,
    px: int,
    py: int,
) -> bool {
    forall|qx: int, qy: int|
        0 <= qx < w && 0 <= qy < h && (qy < py || (qy == py && qx < px))
            ==> cmds[#[trigger] pixel_index(balls.len() as int, w as int, qx, qy)] == rect_cmd(
            balls,
            w,
            h,
            qx,
            qy,
        )
}

/// A raster index earlier in the scan lies strictly below the current one and
/// never before the outline prefix.
proof fn lemma_raster_index_bounds(n: int, w: int, px: int, py: int, qx: int, qy: int)
    by (nonlinear_arith)
    requires
        n >= 0,
        w >= 1,
        0 <= qx < w,
        0 <= px,
        0 <= qy,
        0 <= py,
        qy < py || (qy == py && qx < px),
    ensures
        n <= pixel_index(n, w, qx, qy) < n + py * w + px,
{
}

/// The distance profile of one coordinate: entry `j` is the absolute
/// difference, in milli-pixels, between `c` and the `j`-th pixel line.
fn profile(c: i64, len: u32) -> (v: Vec<u64>)
    requires
        -MAX_POS <= c <= MAX_POS,
    ensures
        v@.len() == len,
        forall|j: int| 0 <= j < len ==> #[trigger] v@[j] == abs_diff(c as int, j * SCALE),
{
    let mut v: Vec<u64> = Vec::new();
    let mut j: u32 = 0;
    while j < len
        invariant
            -MAX_POS <= c <= MAX_POS,
            j <= len,
            v@.len() == j,
            forall|i: int| 0 <= i < j ==> #[trigger] v@[i] == abs_diff(c as int, i * SCALE),
        decreases len - j,
    {
        let s: i64 = (j as i64) * SCALE;
        let d: i64 = if c >= s {
            c - s
        } else {
            s - c
        };
        v.push(d as u64);
        j = j + 1;
    }
    v
}

/// Renders one frame: an outline for every ball, then, for every pixel in
/// raster order, one full-canvas rectangle fill shaded by the field at that
/// pixel.
pub fn render(balls: &Vec<MetaBall>, w: u32, h: u32) -> (cmds: Vec<DrawCmd>)
    requires
        balls@.len() <= MAX_BALLS,
        forall|i: int| 0 <= i < balls@.len() ==> pos_in_range(#[trigger] balls@[i]),
    ensures
        frame_ok(balls@, w, h, cmds@),
{
    let n: usize = balls.len();
    let ws: i64 = (w as i64) * SCALE;
    let hs: i64 = (h as i64) * SCALE;
    let mut cmds: Vec<DrawCmd> = Vec::new();
    let mut profiles: Vec<(Vec<u64>, Vec<u64>)> = Vec::new();
    let mut k: usize = 0;
    while k < n
        invariant
            n == balls@.len() <= MAX_BALLS,
            forall|i: int| 0 <= i < n ==> pos_in_range(#[trigger] balls@[i]),
            k <= n,
            cmds@.len() == k,
            profiles@.len() == k,
            forall|i: int| 0 <= i < k ==> cmds@[i] == outline_cmd(#[trigger] balls@[i]),
            forall|i: int|
                0 <= i < k ==> (#[trigger] profiles@[i]).0@.len() == w && profiles@[i].1@.len()
                    == h,
            forall|i: int, j: int|
                0 <= i < k && 0 <= j < w ==> #[trigger] profiles@[i].0@[j] == abs_diff(
                    balls@[i].x as int,
                    j * SCALE,
                ),
            forall|i: int, j: int|
                0 <= i < k && 0 <= j < h ==> #[trigger] profiles@[i].1@[j] == abs_diff(
                    balls@[i].y as int,
                    j * SCALE,
                ),
        decreases n - k,
    {
        let b: MetaBall = balls[k];
        let bx: Vec<u64> = profile(b.x, w);
        let by: Vec<u64> = profile(b.y, h);
        profiles.push((bx, by));
        cmds.push(DrawCmd::CircleOutline { x: b.x, y: b.y, r: b.r });
        k = k + 1;
    }
    let mut py: u32 = 0;
    while py < h
        invariant
            n == balls@.len() <= MAX_BALLS,
            forall|i: int| 0 <= i < n ==> pos_in_range(#[trigger] balls@[i]),
            ws == w as int * SCALE,
            hs == h as int * SCALE,
            py <= h,
            profiles@.len() == n,
            forall|i: int|
                0 <= i < n ==> (#[trigger] profiles@[i]).0@.len() == w && profiles@[i].1@.len()
                    == h,
            forall|i: int, j: int|
                0 <= i < n && 0 <= j < w ==> #[trigger] profiles@[i].0@[j] == abs_diff(
                    balls@[i].x as int,
                    j * SCALE,
                ),
            forall|i: int, j: int|
                0 <= i < n && 0 <= j < h ==> #[trigger] profiles@[i].1@[j] == abs_diff(
                    balls@[i].y as int,
                    j * SCALE,
                ),
            cmds@.len() == n + py * w as int,
            forall|i: int| 0 <= i < n ==> cmds@[i] == outline_cmd(#[trigger] balls@[i]),
            pixels_done(balls@, w, h, cmds@, 0, py as int),
        decreases h - py,
    {
        let mut px: u32 = 0;
        while px < w
            invariant
                n == balls@.len() <= MAX_BALLS,
                forall|i: int| 0 <= i < n ==> pos_in_range(#[trigger] balls@[i]),
                ws == w as int * SCALE,
                hs == h as int * SCALE,
                py < h,
                px <= w,
                profiles@.len() == n,
                forall|i: int|
                    0 <= i < n ==> (#[trigger] profiles@[i]).0@.len() == w && profiles@[i].1@.len()
                        == h,
                forall|i: int, j: int|
                    0 <= i < n && 0 <= j < w ==> #[trigger] profiles@[i].0@[j] == abs_diff(
                        balls@[i].x as int,
                        j * SCALE,
                    ),
                forall|i: int, j: int|
                    0 <= i < n && 0 <= j < h ==> #[trigger] profiles@[i].1@[j] == abs_diff(
                        balls@[i].y as int,
                        j * SCALE,
                    ),
                cmds@.len() == n + py * w as int + px,
                forall|i: int| 0 <= i < n ==> cmds@[i] == outline_cmd(#[trigger] balls@[i]),
                pixels_done(balls@, w, h, cmds@, px as int, py as int),
            decreases w - px,
        {
            let mut m: u64 = SCALE as u64;
            let mut i: usize = 0;
            proof {
                assert(balls@.take(0) =~= Seq::<MetaBall>::empty());
            }
            while i < n
                invariant
                    n == balls@.len() <= MAX_BALLS,
                    forall|q: int| 0 <= q < n ==> pos_in_range(#[trigger] balls@[q]),
                    px < w,
                    py < h,
                    i <= n,
                    profiles@.len() == n,
                    forall|q: int|
                        0 <= q < n ==> (#[trigger] profiles@[q]).0@.len() == w
                            && profiles@[q].1@.len() == h,
                    forall|q: int, j: int|
                        0 <= q < n && 0 <= j < w ==> #[trigger] profiles@[q].0@[j] == abs_diff(
                            balls@[q].x as int,
                            j * SCALE,
                        ),
                    forall|q: int, j: int|
                        0 <= q < n && 0 <= j < h ==> #[trigger] profiles@[q].1@[j] == abs_diff(
                            balls@[q].y as int,
                            j * SCALE,
                        ),
                    m == intensity_spec(balls@.take(i as int), px as int, py as int),
                    m <= SCALE + i * MAX_TERM,
                decreases n - i,
            {
                let bxv: u64 = profiles[i].0[px as usize];
                let byv: u64 = profiles[i].1[py as usize];
                let t: u64 = FIELD_NUMER / (bxv + byv + SCALE as u64);
                proof {
                    assert(bxv + byv + SCALE == manhattan(balls@[i as int], px as int, py as int)
                        + SCALE);
                    assert(t == ball_term(balls@[i as int], px as int, py as int));
                    assert(balls@.take(i as int + 1).drop_last() =~= balls@.take(i as int));
                    assert(balls@.take(i as int + 1).last() == balls@[i as int]);
                    lemma_term_bounds(balls@[i as int], px as int, py as int);
                }
                m = m + t;
                i = i + 1;
            }
            proof {
                assert(balls@.take(n as int) =~= balls@);
            }
            let alpha: u64 = m % ALPHA_WRAP;
            let ghost old_cmds = cmds@;
            cmds.push(DrawCmd::RectFill { x: 0, y: 0, w: ws, h: hs, alpha });
            proof {
                assert(cmds@[pixel_index(n as int, w as int, px as int, py as int)] == rect_cmd(
                    balls@,
                    w,
                    h,
                    px as int,
                    py as int,
                ));
                assert forall|qx: int, qy: int|
                    0 <= qx < w && 0 <= qy < h && (qy < py || (qy == py && qx < px
                        + 1)) implies cmds@[#[trigger] pixel_index(n as int, w as int, qx, qy)]
                    == rect_cmd(balls@, w, h, qx, qy) by {
                    if qy < py || (qy == py && qx < px) {
                        lemma_raster_index_bounds(
                            n as int,
                            w as int,
                            px as int,
                            py as int,
                            qx,
                            qy,
                        );
                        assert(old_cmds[pixel_index(n as int, w as int, qx, qy)] == rect_cmd(
                            balls@,
                            w,
                            h,
                            qx,
                            qy,
                        ));
                    }
                }
            }
            px = px + 1;
        }
        proof {
            assert(py as int * (w as int) + w as int == (py as int + 1) * (w as int))
                by (nonlinear_arith);
        }
        py = py + 1;
    }
    proof {
        assert(h as int * w as int == w as int * h as int) by (nonlinear_arith);
    }
    cmds
}

} // verus!
