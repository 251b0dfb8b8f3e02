//! Tests of the frame renderer: command order, shapes, and exact alphas.

use metaballs::ball::MetaBall;
use metaballs::render::{render, DrawCmd};

fn ball_at(x: i64, y: i64) -> MetaBall {
    MetaBall { x, y, vx: 0, vy: 0, r: 10000 }
}

#[test]
fn outline_command_for_centered_ball() {
    // Canvas 400 by 400, one ball at (200, 200) with radius 10: the frame
    // opens with that ball's outline command.
    let balls = vec![ball_at(200000, 200000)];
    let cmds = render(&balls, 400, 400);
    assert_eq!(
        cmds[0],
        DrawCmd::CircleOutline { x: 200000, y: 200000, r: 10000 }
    );
}

#[test]
fn frame_has_one_outline_per_ball_then_one_fill_per_pixel() {
    let balls = vec![ball_at(100000, 100000), ball_at(300000, 250000)];
    let cmds = render(&balls, 400, 400);
    assert_eq!(cmds.len(), 2 + 400 * 400);
    assert!(matches!(cmds[0], DrawCmd::CircleOutline { .. }));
    assert!(matches!(cmds[1], DrawCmd::CircleOutline { .. }));
    for cmd in &cmds[2..] {
        match cmd {
            DrawCmd::RectFill { x, y, w, h, .. } => {
                // Every shading fill covers the full canvas from the origin.
                assert_eq!((*x, *y, *w, *h), (0, 0, 400000, 400000));
            }
            _ => panic!("expected a rectangle fill"),
        }
    }
}

#[test]
fn fill_alphas_are_the_wrapped_intensities() {
    let balls = vec![ball_at(200000, 200000)];
    let cmds = render(&balls, 400, 400);
    // Pixel (0, 0): intensity 1000 + 20000000000 / 401000 = 50875 milli,
    // below the wrap, so the alpha is the intensity itself.
    match cmds[1] {
        DrawCmd::RectFill { alpha, .. } => assert_eq!(alpha, 50875),
        _ => panic!("expected a rectangle fill"),
    }
    // Pixel (200, 200), the ball's center: intensity 20001000 milli wraps
    // modulo 255000 to 111000.
    match cmds[1 + 200 * 400 + 200] {
        DrawCmd::RectFill { alpha, .. } => assert_eq!(alpha, 111000),
        _ => panic!("expected a rectangle fill"),
    }
}

#[test]
fn small_canvas_raster_order() {
    // On a 3 by 2 canvas the fills come row by row; with no balls every
    // pixel's intensity is the base unit and the alpha is 1000 everywhere.
    let balls: Vec<MetaBall> = Vec::new();
    let cmds = render(&balls, 3, 2);
    assert_eq!(cmds.len(), 6);
    for cmd in &cmds {
        match cmd {
            DrawCmd::RectFill { x, y, w, h, alpha } => {
                assert_eq!((*x, *y, *w, *h, *alpha), (0, 0, 3000, 2000, 1000));
            }
            _ => panic!("expected a rectangle fill"),
        }
    }
}
