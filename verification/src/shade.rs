use vstd::prelude::*;
use crate::color::{channel_byte, Color};
use crate::image::Image;
use crate::pos::{scale1, tdiv, tdiv_exec, Pos};

verus! {

/// The radius, in pixels, beyond which the cursor has no effect.
pub const RADIUS: i64 = 190;

/// The radial falloff of the effect at output position `p` for cursor
/// `l`, in thousandths: one at the cursor, zero at `RADIUS` pixels and
/// beyond, linear in the distance between.
pub open spec fn falloff(l: Pos, p: Pos) -> int {
    let m = 1000 - tdiv(l.dist_spec(p), RADIUS as int);
    if m < 0 {
        0
    } else {
        m
    }
}

/// The factor, in thousandths, by which the smoothed velocity is turned
/// into a sampling displacement: the squared falloff — squaring sharpens
/// the radial boundary — times one and a half, negated so the
/// displacement points against the motion.
pub open spec fn warp_factor(l: Pos, p: Pos) -> int {
    let m = falloff(l, p);
    -tdiv(m * m * 1500, 1_000_000)
}

/// The sum of the first `n` of the ten per-step samples of one colour
/// channel, in thousandths: step `j` samples the image at the output
/// position displaced by `(dx, dy)` scaled by `5 j + off` thousandths.
pub open spec fn shade_sum(img: Image, p: Pos, dx: int, dy: int, off: int, ch: int, n: nat) -> int
    decreases n,
{
    if n == 0 {
        0
    } else {
        let k = 5 * (n - 1) + off;
        shade_sum(img, p, dx, dy, off, ch, (n - 1) as nat) + (img.byte_at(
            p.x + scale1(dx, k),
            p.y + scale1(dy, k),
            ch,
        ) as int) * 1000
    }
}

/// One output colour channel, in thousandths: the ten per-step samples of
/// the channel averaged (scaled by a tenth), with the displacement the
/// warp factor makes of the smoothed velocity.
pub open spec fn shade_channel(img: Image, p: Pos, l: Pos, v: Pos, off: int, ch: int) -> int {
    let f = warp_factor(l, p);
    tdiv(shade_sum(img, p, scale1(v.x as int, f), scale1(v.y as int, f), off, ch, 10) * 100, 1000)
}

/// The per-channel sampling offsets, in thousandths: slightly different
/// per colour channel, which smears a moving image into a
/// chromatic-aberration-like streak.
pub const OFF_RED: i64 = 175;

pub const OFF_GREEN: i64 = 200;

pub const OFF_BLUE: i64 = 225;

/// The warp shader: the colour of output position `p` for cursor `l` and
/// smoothed velocity `v` — ten samples of the source image along a short
/// displaced streak, averaged, each channel read at its own offset.
pub fn shade(img: &Image, p: Pos, l: Pos, v: Pos) -> (c: Color)
    requires
        img.wf(),
        p.bounded(),
        l.bounded(),
        v.bounded(),
    ensures
        c.red == shade_channel(*img, p, l, v, OFF_RED as int, 0),
        c.green == shade_channel(*img, p, l, v, OFF_GREEN as int, 1),
        c.blue == shade_channel(*img, p, l, v, OFF_BLUE as int, 2),
{
    let d = l.dist(p);
    proof {
        crate::pos::lemma_tdiv_bound(d as int, RADIUS as int, 6_000_000_000);
    }
    let m_raw = 1000 - tdiv_exec(d, RADIUS);
    let m: i64 = if m_raw < 0 {
        0
    } else {
        m_raw
    };
    assert(m == falloff(l, p));
    assert(0 <= m * m <= 1_000_000 && 0 <= m * m * 1500 <= 1_500_000_000) by (nonlinear_arith)
        requires
            0 <= m <= 1000,
    ;
    let f = -tdiv_exec(m * m * 1500, 1_000_000);
    proof {
        crate::pos::lemma_tdiv_bound(m as int * m as int * 1500, 1_000_000, 1_500_000_000);
    }
    assert(f == warp_factor(l, p));
    let disp = v.scale(f);
    let ghost dx = scale1(v.x as int, f as int);
    let ghost dy = scale1(v.y as int, f as int);
    let mut c = Color::zero();
    let mut j: usize = 0;
    while j < 10
        invariant
            img.wf(),
            p.bounded(),
            disp.in_mag(),
            disp.x == dx,
            disp.y == dy,
            j <= 10,
            0 <= c.red <= 255_000 * j,
            0 <= c.green <= 255_000 * j,
            0 <= c.blue <= 255_000 * j,
            c.red == shade_sum(*img, p, dx, dy, OFF_RED as int, 0, j as nat),
            c.green == shade_sum(*img, p, dx, dy, OFF_GREEN as int, 1, j as nat),
            c.blue == shade_sum(*img, p, dx, dy, OFF_BLUE as int, 2, j as nat),
        decreases 10 - j,
    {
        let s = (j as i64) * 5;
        let sr = img.sample(p.add(disp.scale(s + OFF_RED)));
        let sg = img.sample(p.add(disp.scale(s + OFF_GREEN)));
        let sb = img.sample(p.add(disp.scale(s + OFF_BLUE)));
        c = c.add(Color::new(sr.red(), sg.green(), sb.blue()));
        j = j + 1;
    }
    c.scale(100)
}

/// The law the effect rests on at rest: with zero velocity the
/// displacement vanishes, all ten samples coincide, and a shaded channel
/// is exactly the plain clamped sample of the image at the output
/// position — both in thousandths and after the floor to an output byte.
pub proof fn lemma_shade_identity_at_zero_velocity(img: Image, p: Pos, l: Pos, z: Pos, off: int, ch: int)
    requires
        img.wf(),
        z.x == 0,
        z.y == 0,
        0 <= ch < 4,
    ensures
        shade_channel(img, p, l, z, off, ch) == (img.byte_at(p.x as int, p.y as int, ch) as int)
            * 1000,
        channel_byte(shade_channel(img, p, l, z, off, ch)) == img.byte_at(
            p.x as int,
            p.y as int,
            ch,
        ),
{
    let f = warp_factor(l, p);
    assert(scale1(0, f) == 0);
    lemma_shade_sum_const(img, p, off, ch, 10);
    let b = img.byte_at(p.x as int, p.y as int, ch) as int;
    assert(shade_sum(img, p, 0, 0, off, ch, 10) == 10 * b * 1000);
    assert(tdiv(10 * b * 1000 * 100, 1000) == b * 1000 && (b * 1000) / 1000 == b)
        by (nonlinear_arith)
        requires
            0 <= b <= 255,
    ;
}

/// With no displacement every step samples the output position itself,
/// so the sum of `n` samples is `n` times the one sample.
proof fn lemma_shade_sum_const(img: Image, p: Pos, off: int, ch: int, n: nat)
    ensures
        shade_sum(img, p, 0, 0, off, ch, n) == n * (img.byte_at(p.x as int, p.y as int, ch) as int)
            * 1000,
    decreases n,
{
    let b = img.byte_at(p.x as int, p.y as int, ch) as int;
    if n == 0 {
        assert(0nat * b * 1000 == 0) by (nonlinear_arith);
    } else {
        lemma_shade_sum_const(img, p, off, ch, (n - 1) as nat);
        let k = 5 * (n - 1) + off;
        assert(scale1(0, k) == 0);
        assert((n - 1) * b * 1000 + b * 1000 == n * b * 1000) by (nonlinear_arith);
    }
}

} // verus!
