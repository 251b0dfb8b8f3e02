//! The simulation state and the shell-facing surface: creating the world,
//! advancing it on a timer tick, painting a frame, and routing raw inputs.
//!
//! The surrounding window shell owns the timer and the keyboard and performs
//! every side effect; the core only says what each input means. Frame
//! staleness is an explicit dirty flag: a tick marks the frame stale, a paint
//! recomputes it from the current ball states and marks it fresh.

use vstd::prelude::*;

use crate::ball::{MetaBall, METABALL_RADIUS, SCALE};
use crate::field::{pos_in_range, MAX_BALLS};
use crate::physics::{balls_stepped, step};
use crate::render::{frame_ok, render, DrawCmd};
use crate::sampling::sample_range;

verus! {

/// Canvas width, in pixels, of the stock configuration.
pub const CANVAS_WIDTH: u32 = 400;

/// Canvas height, in pixels, of the stock configuration.
pub const CANVAS_HEIGHT: u32 = 400;

/// Ball count of the stock configuration.
pub const METABALL_COUNT: usize = 2;

/// An input the shell routes into the core: one timer tick, or one raw
/// keyboard character.
#[derive(Clone, Copy, PartialEq, Eq, Structural, Debug)]
pub enum Input {
    Tick,
    Key(char),
}

/// What the shell should do after an input: keep running, or shut down.
#[derive(Clone, Copy, PartialEq, Eq, Structural, Debug)]
pub enum Action {
    Continue,
    Quit,
}

/// A ball that is well-formed for some canvas sits where the field evaluator
/// accepts it: within one pixel of the canvas, hence far inside the range cap.
pub proof fn lemma_wf_pos_in_range(b: MetaBall, w: u32, h: u32)
    requires
        b.wf(w, h),
    ensures
        pos_in_range(b),
{
    crate::ball::lemma_axis_position_bounded(b.x as int, b.vx as int, w as int * SCALE);
    crate::ball::lemma_axis_position_bounded(b.y as int, b.vy as int, h as int * SCALE);
}

/// How a freshly created ball looks: the stock radius, a center at least half
/// a radius away from every edge, and whole-pixel velocity components drawn
/// from `-1..1` — so each component starts at -1 or 0 pixels per tick.
pub open spec fn ball_init_ok(b: MetaBall, width: u32, height: u32) -> bool {
    &&& b.r == METABALL_RADIUS
    &&& METABALL_RADIUS / 2 <= b.x < width as int * SCALE - METABALL_RADIUS / 2
    &&& METABALL_RADIUS / 2 <= b.y < height as int * SCALE - METABALL_RADIUS / 2
    &&& (b.vx == -SCALE || b.vx == 0)
    &&& (b.vy == -SCALE || b.vy == 0)
}

/// The whole simulation state: the balls, the canvas size, and the dirty flag
/// that records whether the last painted frame is stale.
pub struct World {
    pub balls: Vec<MetaBall>,
    pub width: u32,
    pub height: u32,
    pub dirty: bool,
}

impl World {
    /// Every ball is well-formed for this world's canvas, and the collection
    /// is small enough for the field evaluator.
    pub open spec fn wf(self) -> bool {
        &&& self.balls@.len() <= MAX_BALLS
        &&& forall|i: int|
            0 <= i < self.balls@.len() ==> (#[trigger] self.balls@[i]).wf(
                self.width,
                self.height,
            )
    }

    /// Creates the world with `count` balls at random positions, each kept
    /// half a radius away from the edges, with random whole-pixel velocity
    /// components drawn from `-1..1`. The first frame is stale by
    /// construction, so the first paint request recomputes it.
    pub fn new(count: usize, width: u32, height: u32) -> (world: World)
        requires
            count <= MAX_BALLS,
            METABALL_RADIUS < width as int * SCALE,
            METABALL_RADIUS < height as int * SCALE,
        ensures
            world.wf(),
            world.width == width,
            world.height == height,
            world.dirty,
            world.balls@.len() == count,
            forall|i: int| 0 <= i < count ==> ball_init_ok(#[trigger] world.balls@[i], width, height),
    {
        let half: i64 = 5000;
        let mut balls: Vec<MetaBall> = Vec::new();
        let mut k: usize = 0;
        while k < count
            invariant
                METABALL_RADIUS < width as int * SCALE,
                METABALL_RADIUS < height as int * SCALE,
                half == METABALL_RADIUS / 2,
                k <= count,
                balls@.len() == k,
                forall|i: int| 0 <= i < k ==> ball_init_ok(#[trigger] balls@[i], width, height),
                forall|i: int| 0 <= i < k ==> (#[trigger] balls@[i]).wf(width, height),
            decreases count - k,
        {
            let x: i64 = sample_range(half, (width as i64) * SCALE - half);
            let y: i64 = sample_range(half, (height as i64) * SCALE - half);
            let vx: i64 = sample_range(-1, 1) * SCALE;
            let vy: i64 = sample_range(-1, 1) * SCALE;
            balls.push(MetaBall { x, y, vx, vy, r: METABALL_RADIUS });
            k = k + 1;
        }
        World { balls, width, height, dirty: true }
    }

    /// One timer tick: advances every ball one physics step and marks the
    /// painted frame stale.
    pub fn tick(&mut self)
        requires
            old(self).wf(),
        ensures
            final(self).wf(),
            final(self).width == old(self).width,
            final(self).height == old(self).height,
            balls_stepped(
                old(self).balls@,
                final(self).balls@,
                old(self).width,
                old(self).height,
            ),
            final(self).dirty,
    {
        let w: u32 = self.width;
        let h: u32 = self.height;
        step(&mut self.balls, w, h);
        self.dirty = true;
    }

    /// Whether the last painted frame is stale and must be recomputed.
    pub fn needs_paint(&self) -> (d: bool)
        ensures
            d == self.dirty,
    {
        self.dirty
    }

    /// Recomputes the frame from the current ball states and marks it fresh.
    pub fn paint(&mut self) -> (cmds: Vec<DrawCmd>)
        requires
            old(self).wf(),
        ensures
            final(self).wf(),
            final(self).balls == old(self).balls,
            final(self).width == old(self).width,
            final(self).height == old(self).height,
            !final(self).dirty,
            frame_ok(old(self).balls@, old(self).width, old(self).height, cmds@),
    {
        proof {
            assert forall|i: int| 0 <= i < self.balls@.len() implies pos_in_range(
                #[trigger] self.balls@[i],
            ) by {
                lemma_wf_pos_in_range(self.balls@[i], self.width, self.height);
            }
        }
        let cmds: Vec<DrawCmd> = render(&self.balls, self.width, self.height);
        self.dirty = false;
        cmds
    }

    /// Routes one shell input. A tick advances the simulation and leaves the
    /// frame stale; the character 'q' asks the shell to shut down; every
    /// other key changes nothing. The core itself never terminates anything.
    pub fn update(&mut self, input: Input) -> (a: Action)
        requires
            old(self).wf(),
        ensures
            final(self).wf(),
            match input {
                Input::Tick => {
                    &&& balls_stepped(
                        old(self).balls@,
                        final(self).balls@,
                        old(self).width,
                        old(self).height,
                    )
                    &&& final(self).width == old(self).width
                    &&& final(self).height == old(self).height
                    &&& final(self).dirty
                    &&& a == Action::Continue
                },
                Input::Key(c) => {
                    &&& *final(self) == *old(self)
                    &&& a == (if c == 'q' {
                        Action::Quit
                    } else {
                        Action::Continue
                    })
                },
            },
    {
        match input {
            Input::Tick => {
                self.tick();
                Action::Continue
            },
            Input::Key(c) => {
                if c == 'q' {
                    Action::Quit
                } else {
                    Action::Continue
                }
            },
        }
    }
}

} // verus!
