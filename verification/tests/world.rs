//! Tests of the world: random creation bounds, tick and paint bookkeeping,
//! and input routing.

use metaballs::render::DrawCmd;
use metaballs::world::{Action, Input, World, CANVAS_HEIGHT, CANVAS_WIDTH, METABALL_COUNT};

#[test]
fn new_world_has_stock_balls_inside_the_canvas() {
    let world = World::new(METABALL_COUNT, CANVAS_WIDTH, CANVAS_HEIGHT);
    assert_eq!(world.balls.len(), 2);
    for b in &world.balls {
        assert_eq!(b.r, 10000);
        // Centers stay half a radius away from every edge.
        assert!(5000 <= b.x && b.x < 395000);
        assert!(5000 <= b.y && b.y < 395000);
        // Whole-pixel velocities drawn from -1..1: only -1 or 0 per axis.
        assert!(b.vx == -1000 || b.vx == 0);
        assert!(b.vy == -1000 || b.vy == 0);
    }
    assert!(world.needs_paint());
}

#[test]
fn tick_marks_the_frame_stale_and_paint_clears_it() {
    let mut world = World::new(METABALL_COUNT, CANVAS_WIDTH, CANVAS_HEIGHT);
    let cmds = world.paint();
    assert_eq!(cmds.len(), 2 + 400 * 400);
    assert!(!world.needs_paint());
    assert_eq!(world.update(Input::Tick), Action::Continue);
    assert!(world.needs_paint());
    world.paint();
    assert!(!world.needs_paint());
}

#[test]
fn tick_moves_balls_by_their_velocity() {
    let mut world = World::new(METABALL_COUNT, CANVAS_WIDTH, CANVAS_HEIGHT);
    let before: Vec<_> = world.balls.clone();
    world.tick();
    for (pre, post) in before.iter().zip(world.balls.iter()) {
        // Freshly created balls sit inside the canvas, so no reflection yet.
        assert_eq!(post.vx, pre.vx);
        assert_eq!(post.vy, pre.vy);
        assert_eq!(post.x, pre.x + pre.vx);
        assert_eq!(post.y, pre.y + pre.vy);
        assert_eq!(post.r, pre.r);
    }
}

#[test]
fn quit_key_requests_shutdown_and_changes_nothing() {
    let mut world = World::new(METABALL_COUNT, CANVAS_WIDTH, CANVAS_HEIGHT);
    let before: Vec<_> = world.balls.clone();
    assert_eq!(world.update(Input::Key('q')), Action::Quit);
    assert_eq!(world.balls, before);
    assert_eq!(world.update(Input::Key('a')), Action::Continue);
    assert_eq!(world.update(Input::Key('Q')), Action::Continue);
    assert_eq!(world.balls, before);
}

#[test]
fn painted_frame_opens_with_the_ball_outlines() {
    let mut world = World::new(METABALL_COUNT, CANVAS_WIDTH, CANVAS_HEIGHT);
    let balls = world.balls.clone();
    let cmds = world.paint();
    for (i, b) in balls.iter().enumerate() {
        assert_eq!(cmds[i], DrawCmd::CircleOutline { x: b.x, y: b.y, r: b.r });
    }
}
