//! The physics stepper: once per tick each ball reflects its velocity off the
//! canvas edges and then moves by the (possibly reflected) velocity.
//!
//! The boundary policy is a soft bounce: the edge test happens before the
//! position update, so a ball may overshoot an edge by up to one tick's
//! velocity before it turns around, and no clamping is applied.

use vstd::prelude::*;

use crate::ball::{axis_wf, MetaBall, SCALE};

verus! {

/// The velocity component a ball carries after the edge test on one axis:
/// negated when the current position lies outside `[0, bound]`, kept otherwise.
pub open spec fn reflect_vel(p: int, v: int, bound: int) -> int {
    if p < 0 || p > bound {
        -v
    } else {
        v
    }
}

/// One physics tick of a single ball, as a relation between the ball before
/// (`pre`) and after (`post`) on a `w` by `h` canvas: per axis, the velocity
/// is reflected first and the position then moves by the stored-back velocity.
pub open spec fn ball_stepped(pre: MetaBall, post: MetaBall, w: u32, h: u32) -> bool {
    &&& post.vx == reflect_vel(pre.x as int, pre.vx as int, w as int * SCALE)
    &&& post.vy == reflect_vel(pre.y as int, pre.vy as int, h as int * SCALE)
    &&& post.x == pre.x + post.vx
    &&& post.y == pre.y + post.vy
    &&& post.r == pre.r
}

/// One physics tick of every ball in the collection, elementwise.
pub open spec fn balls_stepped(pre: Seq<MetaBall>, post: Seq<MetaBall>, w: u32, h: u32) -> bool {
    &&& post.len() == pre.len()
    &&& forall|i: int| 0 <= i < pre.len() ==> ball_stepped(pre[i], #[trigger] post[i], w, h)
}

/// Advances one ball by one tick. Reflection happens before the move, the
/// reflected velocity is stored back, and well-formedness is preserved.
pub fn step_ball(b: &mut MetaBall, w: u32, h: u32)
    requires
        old(b).wf(w, h),
    ensures
        ball_stepped(*old(b), *final(b), w, h),
        final(b).wf(w, h),
{
    let bound_x: i64 = (w as i64) * SCALE;
    let bound_y: i64 = (h as i64) * SCALE;
    proof {
        crate::ball::lemma_axis_position_bounded(b.x as int, b.vx as int, bound_x as int);
        crate::ball::lemma_axis_position_bounded(b.y as int, b.vy as int, bound_y as int);
    }
    let vx: i64 = if b.x < 0 || b.x > bound_x {
        -b.vx
    } else {
        b.vx
    };
    let vy: i64 = if b.y < 0 || b.y > bound_y {
        -b.vy
    } else {
        b.vy
    };
    b.x = b.x + vx;
    b.y = b.y + vy;
    b.vx = vx;
    b.vy = vy;
}

/// Advances every ball by one tick, independently.
pub fn step(balls: &mut Vec<MetaBall>, w: u32, h: u32)
    requires
        forall|i: int| 0 <= i < old(balls)@.len() ==> (#[trigger] old(balls)@[i]).wf(w, h),
    ensures
        balls_stepped(old(balls)@, final(balls)@, w, h),
        forall|i: int| 0 <= i < final(balls)@.len() ==> (#[trigger] final(balls)@[i]).wf(w, h),
{
    let n: usize = balls.len();
    let mut k: usize = 0;
    while k < n
        invariant
            n == balls@.len() == old(balls)@.len(),
            k <= n,
            forall|i: int| 0 <= i < n ==> (#[trigger] old(balls)@[i]).wf(w, h),
            forall|i: int| k <= i < n ==> balls@[i] == old(balls)@[i],
            forall|i: int| 0 <= i < k ==> ball_stepped(old(balls)@[i], #[trigger] balls@[i], w, h),
            forall|i: int| 0 <= i < k ==> (#[trigger] balls@[i]).wf(w, h),
        decreases n - k,
    {
        let mut b: MetaBall = balls[k];
        step_ball(&mut b, w, h);
        balls.set(k, b);
        k = k + 1;
    }
}

/// Absolute value of a mathematical integer.
pub open spec fn abs(v: int) -> int {
    if v >= 0 {
        v
    } else {
        -v
    }
}

/// The magnitude of a velocity component never grows across a physics step:
/// reflection only flips its sign. In particular a velocity bounded by one
/// pixel per tick stays bounded by one pixel per tick, forever.
pub proof fn lemma_velocity_never_grows(pre: MetaBall, post: MetaBall, w: u32, h: u32)
    requires
        ball_stepped(pre, post, w, h),
    ensures
        abs(post.vx as int) == abs(pre.vx as int),
        abs(post.vy as int) == abs(pre.vy as int),
        pre.vel_bounded() ==> post.vel_bounded(),
{
}

/// For all balls and all ticks: a collection whose velocity components are
/// bounded by one pixel per tick keeps that bound through every step.
pub proof fn lemma_all_velocities_stay_bounded(
    pre: Seq<MetaBall>,
    post: Seq<MetaBall>,
    w: u32,
    h: u32,
)
    requires
        balls_stepped(pre, post, w, h),
        forall|i: int| 0 <= i < pre.len() ==> (#[trigger] pre[i]).vel_bounded(),
    ensures
        forall|i: int| 0 <= i < post.len() ==> (#[trigger] post[i]).vel_bounded(),
{
    assert forall|i: int| 0 <= i < post.len() implies (#[trigger] post[i]).vel_bounded() by {
        lemma_velocity_never_grows(pre[i], post[i], w, h);
    }
}

/// Reflection at the left edge: a ball past `x < 0` leaves the step with its
/// horizontal velocity exactly negated, so its sign has flipped.
pub proof fn lemma_reflection_left(pre: MetaBall, post: MetaBall, w: u32, h: u32)
    requires
        ball_stepped(pre, post, w, h),
        pre.x < 0,
    ensures
        post.vx == -(pre.vx as int),
{
}

} // verus!
