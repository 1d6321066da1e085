use doggowarp::color::Color;
use doggowarp::image::Image;
use doggowarp::pos::Pos;
use doggowarp::shade::shade;
use doggowarp::warp::{render_frame, Pipeline};

fn two_by_two() -> Image {
    let data = vec![
        255, 0, 0, 255, //
        0, 255, 0, 255, //
        0, 0, 255, 255, //
        255, 255, 0, 255,
    ];
    Image::new(2, 2, data)
}

#[test]
fn color_write_bytes_floors_and_clamps() {
    // -5.000 clamps to 0, 300.000 to 255; 128.999 floors to 128.
    let mut buf = vec![9u8; 8];
    Color::new(-5_000, 300_000, 128_999).write_bytes(&mut buf, 4);
    assert_eq!(buf, vec![9, 9, 9, 9, 0, 255, 128, 9]);
}

#[test]
fn color_add_and_scale() {
    let c = Color::new(100_000, 200_000, 300_000).add(Color::new(55_000, -1_000, 5_000));
    let c = c.scale(100);
    assert_eq!((c.red, c.green, c.blue), (15_500, 19_900, 30_500));
}

#[test]
fn shade_with_zero_velocity_is_plain_sample() {
    // The identity at rest: for every pixel and any cursor, zero velocity
    // shades to exactly the clamped sample, in thousandths.
    let img = two_by_two();
    let zero = Pos::new(0, 0);
    for (px, py, want) in [
        (0i64, 0i64, (255_000i64, 0i64, 0i64)),
        (1000, 0, (0, 255_000, 0)),
        (0, 1000, (0, 0, 255_000)),
        (1000, 1000, (255_000, 255_000, 0)),
    ] {
        for cursor in [Pos::new(0, 0), Pos::new(500, 500), Pos::new(400_000, -90_000)] {
            let c = shade(&img, Pos::new(px, py), cursor, zero);
            assert_eq!((c.red, c.green, c.blue), want);
        }
    }
}

#[test]
fn shade_with_motion_drags_the_sample() {
    // A large velocity at the cursor displaces sampling: the shaded pixel
    // no longer equals the plain sample, so motion visibly warps.
    let img = two_by_two();
    let p = Pos::new(0, 0);
    let c = shade(&img, p, p, Pos::new(-1_000_000, 0));
    assert_ne!((c.red, c.green, c.blue), (255_000, 0, 0));
}

#[test]
fn render_frame_at_rest_copies_the_image() {
    let img = two_by_two();
    let mut frame = vec![0u8; 16];
    // Alpha bytes pre-set by the caller; the renderer must not touch them.
    for i in 0..4 {
        frame[4 * i + 3] = 255;
    }
    render_frame(&img, Pos::new(0, 0), Pos::new(0, 0), &mut frame);
    assert_eq!(frame, img.data);
}

#[test]
fn pipeline_two_quiet_frames_render_the_plain_image() {
    // Cursor resting at the origin over two frames a second apart: zero
    // velocity, so pixel (0, 0) renders exactly (255, 0, 0).
    let img = two_by_two();
    let mut p = Pipeline::new(img);
    let mut frame = vec![0u8; 16];
    for i in 0..4 {
        frame[4 * i + 3] = 255;
    }
    p.render_at(1000, 1000, &mut frame);
    p.render_at(1000, 2000, &mut frame);
    assert_eq!(&frame[0..4], &[255, 0, 0, 255]);
    assert_eq!(frame, p.img.data);
}

#[test]
fn pipeline_mousemove_only_moves_the_cursor() {
    let mut p = Pipeline::new(two_by_two());
    p.mousemove(Pos::new(700, 300));
    assert_eq!(p.cursor, Pos::new(700, 300));
    assert_eq!(p.last, Pos::new(0, 0));
    assert_eq!(p.velocity.t, Pos::new(0, 0));
}

#[test]
fn pipeline_update_derives_damped_smoothed_velocity() {
    // One unit of motion over one second: raw velocity 0.2 units/s, and
    // the filter keeps 0.4 of it on the first step: 0.080 units.
    let mut p = Pipeline::new(two_by_two());
    p.mousemove(Pos::new(1000, 0));
    let (location, velocity) = p.update(1000);
    assert_eq!(location, Pos::new(1000, 0));
    assert_eq!(velocity, Pos::new(80, 0));
    assert_eq!(p.last, Pos::new(1000, 0));
}

#[test]
fn pipeline_update_survives_zero_frame_time() {
    // Two triggers on one timestamp: the frame time is taken as one
    // millisecond, so the velocity stays finite (and here is capped).
    let mut p = Pipeline::new(two_by_two());
    p.mousemove(Pos::new(1_000_000_000, 0));
    let (_, velocity) = p.update(0);
    assert_eq!(velocity.x, 600_000_000);
    assert_eq!(velocity.y, 0);
}

#[test]
fn pipeline_counts_frames_per_second() {
    let img = two_by_two();
    let mut p = Pipeline::new(img);
    p.fps = doggowarp::timing::Fps::new_at(0);
    let mut frame = vec![0u8; 16];
    assert_eq!(p.render_at(16, 500, &mut frame), None);
    assert_eq!(p.render_at(16, 990, &mut frame), None);
    assert_eq!(p.render_at(16, 1000, &mut frame), Some(2));
    assert_eq!(p.render_at(16, 1010, &mut frame), None);
}
