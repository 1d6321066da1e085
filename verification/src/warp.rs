use vstd::prelude::*;
use crate::color::channel_byte;
use crate::image::Image;
use crate::pos::{tdiv, tdiv_exec, Pos, COORD};
use crate::shade::{shade, shade_channel, OFF_BLUE, OFF_GREEN, OFF_RED};
use crate::smooth::{blend1, Smooth};
use crate::timing::{inc_count, millis_between, now_millis, Fps};

verus! {

/// The fixed gain, in thousandths, applied to the raw cursor displacement
/// rate: the effect follows a fifth of the pointer speed.
pub const GAIN: i64 = 200;

/// The frame time a render step reckons with, in milliseconds: at least
/// one — two triggers on the same timestamp would otherwise divide by
/// zero — and capped so the arithmetic stays in fixed-point range.
pub open spec fn eff_delta(delta_ms: u64) -> int {
    if delta_ms == 0 {
        1
    } else if delta_ms > 1_000_000 {
        1_000_000
    } else {
        delta_ms as int
    }
}

/// One component of the raw velocity: the cursor displacement times the
/// gain, per second of frame time, capped into the long-lived coordinate
/// bound so one wild frame cannot push the filter out of range.
pub open spec fn raw_vel(d: int, delta_ms: u64) -> int {
    let v = tdiv(d * (GAIN as int), eff_delta(delta_ms));
    if v > COORD as int {
        COORD as int
    } else if v < -(COORD as int) {
        -(COORD as int)
    } else {
        v
    }
}

/// The output position of pixel `idx` of a row-major frame, in
/// fixed-point coordinates.
pub open spec fn pixel_pos(img: Image, idx: int) -> (int, int) {
    ((idx % (img.width as int)) * 1000, (idx / (img.width as int)) * 1000)
}

/// Pixel `i` of `frame` holds the shaded colour of its output position
/// for cursor `l` and velocity `v`, floored and clamped to bytes, and its
/// alpha byte holds whatever `init` held there.
pub open spec fn pixel_shaded(
    img: Image,
    frame: Seq<u8>,
    init: Seq<u8>,
    l: Pos,
    v: Pos,
    i: int,
) -> bool {
    let (px, py) = pixel_pos(img, i);
    let p = Pos { x: px as i64, y: py as i64 };
    &&& frame[4 * i] == channel_byte(shade_channel(img, p, l, v, OFF_RED as int, 0))
    &&& frame[4 * i + 1] == channel_byte(shade_channel(img, p, l, v, OFF_GREEN as int, 1))
    &&& frame[4 * i + 2] == channel_byte(shade_channel(img, p, l, v, OFF_BLUE as int, 2))
    &&& frame[4 * i + 3] == init[4 * i + 3]
}

/// Every pixel below `n` of `frame` is shaded for cursor `l` and velocity
/// `v`, with the alpha bytes as `init` had them.
pub open spec fn frame_shaded(
    img: Image,
    frame: Seq<u8>,
    init: Seq<u8>,
    l: Pos,
    v: Pos,
    n: int,
) -> bool {
    forall|i: int| 0 <= i < n ==> #[trigger] pixel_shaded(img, frame, init, l, v, i)
}

/// The warp effect's whole per-frame state: the source image, the cursor
/// now and at the previous frame, the velocity filter and the frame-rate
/// counter.
pub struct Pipeline {
    pub img: Image,
    pub cursor: Pos,
    pub last: Pos,
    pub velocity: Smooth,
    pub fps: Fps,
}

impl Pipeline {
    /// A usable pipeline: a well-formed image and every coordinate of the
    /// long-lived state within the fixed-point bound.
    pub open spec fn wf(self) -> bool {
        &&& self.img.wf()
        &&& self.cursor.bounded()
        &&& self.last.bounded()
        &&& self.velocity.t.bounded()
    }

    /// A pipeline at rest over an image: cursor at the origin, no motion.
    pub fn new(img: Image) -> (w: Pipeline)
        requires
            img.wf(),
        ensures
            w.wf(),
            w.img == img,
            w.cursor == (Pos { x: 0, y: 0 }),
            w.last == (Pos { x: 0, y: 0 }),
            w.velocity.t == (Pos { x: 0, y: 0 }),
            w.fps.count == 0,
    {
        Pipeline {
            img,
            cursor: Pos { x: 0, y: 0 },
            last: Pos { x: 0, y: 0 },
            velocity: Smooth::new(Pos { x: 0, y: 0 }),
            fps: Fps::new(),
        }
    }

    /// A pointer-move event: replace the cursor position and nothing
    /// else; the consequences wait for the next render trigger.
    pub fn mousemove(&mut self, pos: Pos)
        requires
            old(self).wf(),
            pos.bounded(),
        ensures
            final(self).wf(),
            final(self).cursor == pos,
            final(self).img == old(self).img,
            final(self).last == old(self).last,
            final(self).velocity == old(self).velocity,
            final(self).fps == old(self).fps,
    {
        self.cursor = pos;
    }

    /// The per-frame state step: derive the raw velocity from the cursor
    /// displacement since the previous frame and the frame time, smooth
    /// it, and remember the cursor for the next frame. Returns the cursor
    /// snapshot and the smoothed velocity the frame renders with.
    pub fn update(&mut self, delta_ms: u64) -> (lv: (Pos, Pos))
        requires
            old(self).wf(),
        ensures
            final(self).wf(),
            final(self).img == old(self).img,
            final(self).fps == old(self).fps,
            final(self).cursor == old(self).cursor,
            final(self).last == old(self).cursor,
            lv.0 == old(self).cursor,
            lv.1.x == blend1(
                old(self).velocity.t.x as int,
                raw_vel(old(self).cursor.x - old(self).last.x, delta_ms),
            ),
            lv.1.y == blend1(
                old(self).velocity.t.y as int,
                raw_vel(old(self).cursor.y - old(self).last.y, delta_ms),
            ),
            final(self).velocity.t == lv.1,
    {
        let location = self.cursor;
        let dt: i64 = if delta_ms == 0 {
            1
        } else if delta_ms > 1_000_000 {
            1_000_000
        } else {
            delta_ms as i64
        };
        let rx = raw_vel_exec(location.x - self.last.x, dt);
        let ry = raw_vel_exec(location.y - self.last.y, dt);
        assert(dt == eff_delta(delta_ms));
        let velocity = self.velocity.update(Pos { x: rx, y: ry });
        self.last = location;
        (location, velocity)
    }

    /// A render trigger with explicit clock readings: step the state by
    /// the frame time, shade every pixel of the frame with the cursor and
    /// velocity snapshot — pixels independent of one another, alpha bytes
    /// untouched — and count the frame, reporting the rate once a second.
    pub fn render_at(&mut self, delta_ms: u64, now_ms: u64, frame: &mut Vec<u8>) -> (fps: Option<
        usize,
    >)
        requires
            old(self).wf(),
            old(frame)@.len() == old(self).img.width * old(self).img.height * 4,
        ensures
            final(self).wf(),
            final(self).img == old(self).img,
            final(self).cursor == old(self).cursor,
            final(self).last == old(self).cursor,
            final(self).velocity.t.x == blend1(
                old(self).velocity.t.x as int,
                raw_vel(old(self).cursor.x - old(self).last.x, delta_ms),
            ),
            final(self).velocity.t.y == blend1(
                old(self).velocity.t.y as int,
                raw_vel(old(self).cursor.y - old(self).last.y, delta_ms),
            ),
            final(frame)@.len() == old(frame)@.len(),
            frame_shaded(
                old(self).img,
                final(frame)@,
                old(frame)@,
                old(self).cursor,
                final(self).velocity.t,
                old(self).img.width * old(self).img.height,
            ),
            millis_between(old(self).fps.last, now_ms) < 1000 ==> fps is None
                && final(self).fps.count == inc_count(old(self).fps.count),
            millis_between(old(self).fps.last, now_ms) >= 1000 ==> fps == Some(old(self).fps.count)
                && final(self).fps.count == 0,
    {
        let (location, velocity) = self.update(delta_ms);
        render_frame(&self.img, location, velocity, frame);
        self.fps.tick_at(now_ms)
    }

    /// A render trigger against the wall clock: as `render_at`, with the
    /// frame counted at whatever the clock read — either the frame was
    /// counted inside the window, or the completed window's count came
    /// back and the counter reset.
    pub fn render(&mut self, delta_ms: u64, frame: &mut Vec<u8>) -> (fps: Option<usize>)
        requires
            old(self).wf(),
            old(frame)@.len() == old(self).img.width * old(self).img.height * 4,
        ensures
            final(self).wf(),
            final(self).img == old(self).img,
            final(self).cursor == old(self).cursor,
            final(self).last == old(self).cursor,
            final(self).velocity.t.x == blend1(
                old(self).velocity.t.x as int,
                raw_vel(old(self).cursor.x - old(self).last.x, delta_ms),
            ),
            final(self).velocity.t.y == blend1(
                old(self).velocity.t.y as int,
                raw_vel(old(self).cursor.y - old(self).last.y, delta_ms),
            ),
            final(frame)@.len() == old(frame)@.len(),
            frame_shaded(
                old(self).img,
                final(frame)@,
                old(frame)@,
                old(self).cursor,
                final(self).velocity.t,
                old(self).img.width * old(self).img.height,
            ),
            fps is None ==> final(self).fps.count == inc_count(old(self).fps.count),
            fps is Some ==> fps == Some(old(self).fps.count) && final(self).fps.count == 0,
    {
        let now = now_millis();
        self.render_at(delta_ms, now, frame)
    }
}

/// One component of the raw velocity, over machine integers.
fn raw_vel_exec(d: i64, dt: i64) -> (r: i64)
    requires
        -2 * (COORD as int) <= d <= 2 * (COORD as int),
        1 <= dt <= 1_000_000,
    ensures
        forall|delta_ms: u64| eff_delta(delta_ms) == dt ==> r == raw_vel(d as int, delta_ms),
        -COORD <= r <= COORD,
{
    let v = tdiv_exec(d * GAIN, dt);
    if v > COORD {
        COORD
    } else if v < -COORD {
        -COORD
    } else {
        v
    }
}

/// Shade every pixel of the frame, row-major: write each pixel's three
/// floored, clamped channel bytes and leave its alpha byte alone.
pub fn render_frame(img: &Image, l: Pos, v: Pos, frame: &mut Vec<u8>)
    requires
        img.wf(),
        l.bounded(),
        v.bounded(),
        old(frame)@.len() == img.width * img.height * 4,
    ensures
        final(frame)@.len() == old(frame)@.len(),
        frame_shaded(*img, final(frame)@, old(frame)@, l, v, img.width * img.height),
{
    let w = img.width;
    let h = img.height;
    assert(w * h * 4 < 0x1_0000_0000 && 1 * 1 <= w * h) by (nonlinear_arith)
        requires
            1 <= w <= 16_384,
            1 <= h <= 16_384,
    ;
    let n = w * h;
    let mut idx: usize = 0;
    while idx < n
        invariant
            img.wf(),
            l.bounded(),
            v.bounded(),
            w == img.width,
            n == w * (img.height as int),
            n * 4 < 0x1_0000_0000,
            idx <= n,
            frame@.len() == old(frame)@.len(),
            old(frame)@.len() == n * 4,
            frame_shaded(*img, frame@, old(frame)@, l, v, idx as int),
            forall|i: int| 4 * idx <= i < n * 4 ==> frame@[i] == old(frame)@[i],
        decreases n - idx,
    {
        proof {
            lemma_row_col(idx as int, w as int, img.height as int);
        }
        let px = idx % w;
        let py = idx / w;
        let p = Pos { x: (px as i64) * 1000, y: (py as i64) * 1000 };
        let c = shade(img, p, l, v);
        let ghost pre = frame@;
        c.write_bytes(frame, 4 * idx);
        proof {
            assert forall|i: int|
                0 <= i <= idx as int implies #[trigger] pixel_shaded(
                *img,
                frame@,
                old(frame)@,
                l,
                v,
                i,
            ) by {
                if i == idx as int {
                    assert(frame@[4 * i + 3] == pre[4 * i + 3]);
                    assert(pre[4 * i + 3] == old(frame)@[4 * i + 3]);
                } else {
                    assert(pixel_shaded(*img, pre, old(frame)@, l, v, i));
                    assert(frame@[4 * i] == pre[4 * i]);
                    assert(frame@[4 * i + 1] == pre[4 * i + 1]);
                    assert(frame@[4 * i + 2] == pre[4 * i + 2]);
                    assert(frame@[4 * i + 3] == pre[4 * i + 3]);
                }
            }
        }
        idx = idx + 1;
    }
}

/// A row-major index below `w * h` has its column below `w` and its row
/// below `h`.
proof fn lemma_row_col(idx: int, w: int, h: int)
    requires
        1 <= w,
        1 <= h,
        0 <= idx < w * h,
    ensures
        0 <= idx % w < w,
        0 <= idx / w < h,
{
    assert(0 <= idx % w < w && 0 <= idx / w < h) by (nonlinear_arith)
        requires
            1 <= w,
            1 <= h,
            0 <= idx < w * h,
    ;
}

} // verus!
