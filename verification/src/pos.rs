use vstd::prelude::*;

verus! {

/// Number of fixed-point steps per coordinate unit: a coordinate is an
/// `i64` counted in thousandths of a logical pixel.
pub const SCALE: i64 = 1000;

/// Largest magnitude an operand of the fixed-point operations may have:
/// two operands of this size multiply without overflowing an `i64`, and
/// the sum of two squares of this size fits a `u64`.
pub const MAG: i64 = 3_000_000_000;

/// Bound on long-lived coordinates (cursor positions, velocities): half of
/// `MAG`, so sums and differences of two such values stay within `MAG`.
pub const COORD: i64 = 1_500_000_000;

/// Division that rounds toward zero, for a positive divisor: the rounding
/// the fixed-point operations use.
pub open spec fn tdiv(a: int, b: int) -> int {
    if a >= 0 {
        a / b
    } else {
        -((-a) / b)
    }
}

/// Scaling one fixed-point value by another: the product, brought back to
/// thousandths, rounded toward zero.
pub open spec fn scale1(a: int, f: int) -> int {
    tdiv(a * f, SCALE as int)
}

/// Truncating division never grows past the divided bound: a dividend
/// within `m` gives a quotient within `m / b`.
pub proof fn lemma_tdiv_bound(a: int, b: int, m: int)
    requires
        b >= 1,
        0 <= m,
        -m <= a <= m,
    ensures
        -(m / b) <= tdiv(a, b) <= m / b,
{
    if a >= 0 {
        vstd::arithmetic::div_mod::lemma_div_is_ordered(a, m, b);
        vstd::arithmetic::div_mod::lemma_div_pos_is_pos(a, b);
        vstd::arithmetic::div_mod::lemma_div_pos_is_pos(m, b);
    } else {
        vstd::arithmetic::div_mod::lemma_div_is_ordered(-a, m, b);
        vstd::arithmetic::div_mod::lemma_div_pos_is_pos(-a, b);
        vstd::arithmetic::div_mod::lemma_div_pos_is_pos(m, b);
    }
}

/// Division that rounds toward zero, for any nonzero divisor.
pub open spec fn tdiv_signed(a: int, b: int) -> int {
    if b > 0 {
        tdiv(a, b)
    } else {
        tdiv(-a, -b)
    }
}

/// `r` is the integer square root of `n`.
pub open spec fn is_sqrt(n: int, r: int) -> bool {
    0 <= r && r * r <= n && n < (r + 1) * (r + 1)
}

/// The integer square root: the floor of the real square root.
pub open spec fn sqrt_floor(n: int) -> int {
    choose|r: int| is_sqrt(n, r)
}

/// The integer square root is unique: any witness equals `sqrt_floor`.
pub proof fn lemma_sqrt_unique(n: int, r: int)
    requires
        is_sqrt(n, r),
    ensures
        r == sqrt_floor(n),
{
    let s = choose|s: int| is_sqrt(n, s);
    assert(is_sqrt(n, s));
    if r < s {
        assert((r + 1) * (r + 1) <= s * s) by (nonlinear_arith)
            requires
                0 <= r,
                r < s,
        ;
        assert(false);
    }
    if s < r {
        assert((s + 1) * (s + 1) <= r * r) by (nonlinear_arith)
            requires
                0 <= s,
                s < r,
        ;
        assert(false);
    }
}

/// Integer square root by bisection.
pub fn isqrt(n: u64) -> (r: u64)
    ensures
        is_sqrt(n as int, r as int),
        r == sqrt_floor(n as int),
{
    let mut lo: u64 = 0;
    let mut hi: u64 = 0x1_0000_0000;
    assert((0x1_0000_0000 as int) * (0x1_0000_0000 as int) > u64::MAX as int) by (nonlinear_arith);
    while hi - lo > 1
        invariant
            lo < hi <= 0x1_0000_0000,
            (lo as int) * (lo as int) <= n as int,
            (n as int) < (hi as int) * (hi as int),
        decreases hi - lo,
    {
        let mid = lo + (hi - lo) / 2;
        assert((mid as int) * (mid as int) <= (0xffff_ffff as int) * (0xffff_ffff as int))
            by (nonlinear_arith)
            requires
                0 <= mid <= 0xffff_ffff,
        ;
        if mid * mid <= n {
            lo = mid;
        } else {
            hi = mid;
        }
    }
    proof {
        lemma_sqrt_unique(n as int, lo as int);
    }
    lo
}

/// Division rounding toward zero, over machine integers.
pub(crate) fn tdiv_exec(a: i64, b: i64) -> (r: i64)
    requires
        b > 0,
        a > i64::MIN,
    ensures
        r == tdiv(a as int, b as int),
{
    if a >= 0 {
        let q: u64 = (a as u64) / (b as u64);
        q as i64
    } else {
        let q: u64 = ((-a) as u64) / (b as u64);
        -(q as i64)
    }
}

/// Multiply two fixed-point values: `a * f / SCALE`, rounded toward zero.
pub(crate) fn mul_fixed(a: i64, f: i64) -> (r: i64)
    requires
        -MAG <= a <= MAG,
        -MAG <= f <= MAG,
    ensures
        r == tdiv(a * f, SCALE as int),
{
    assert(-(MAG as int) * (MAG as int) <= (a as int) * (f as int) <= (MAG as int) * (MAG as int))
        by (nonlinear_arith)
        requires
            -MAG <= a <= MAG,
            -MAG <= f <= MAG,
    ;
    let p = a * f;
    tdiv_exec(p, 1000)
}

/// A 2D point or vector in fixed-point coordinates (thousandths of a unit).
#[derive(Clone, Copy, PartialEq, Eq, Structural, Debug)]
pub struct Pos {
    pub x: i64,
    pub y: i64,
}

impl Pos {
    /// Both components within the operand bound of the fixed-point operations.
    pub open spec fn in_mag(self) -> bool {
        -MAG <= self.x <= MAG && -MAG <= self.y <= MAG
    }

    /// Both components within the bound kept by long-lived state.
    pub open spec fn bounded(self) -> bool {
        -COORD <= self.x <= COORD && -COORD <= self.y <= COORD
    }

    pub fn new(x: i64, y: i64) -> (p: Pos)
        ensures
            p.x == x,
            p.y == y,
    {
        Pos { x, y }
    }

    /// Componentwise vector addition.
    pub fn add(self, r: Pos) -> (s: Pos)
        requires
            self.in_mag(),
            r.in_mag(),
        ensures
            s.x == self.x + r.x,
            s.y == self.y + r.y,
    {
        Pos { x: self.x + r.x, y: self.y + r.y }
    }

    /// Componentwise vector subtraction.
    pub fn sub(self, r: Pos) -> (s: Pos)
        requires
            self.in_mag(),
            r.in_mag(),
        ensures
            s.x == self.x - r.x,
            s.y == self.y - r.y,
    {
        Pos { x: self.x - r.x, y: self.y - r.y }
    }

    /// Scale by a fixed-point factor `f` (thousandths): each component
    /// becomes `c * f / SCALE`, rounded toward zero. A factor of at most
    /// one keeps the operand bound; one of at most two keeps it for
    /// operands within the long-lived bound.
    pub fn scale(self, f: i64) -> (s: Pos)
        requires
            self.in_mag(),
            -MAG <= f <= MAG,
        ensures
            s.x == scale1(self.x as int, f as int),
            s.y == scale1(self.y as int, f as int),
            -1000 <= f <= 1000 ==> s.in_mag(),
            -2000 <= f <= 2000 && self.bounded() ==> s.in_mag(),
    {
        proof {
            if -1000 <= f <= 1000 {
                assert(-(MAG as int) * 1000 <= self.x * f <= (MAG as int) * 1000 && -(MAG as int)
                    * 1000 <= self.y * f <= (MAG as int) * 1000) by (nonlinear_arith)
                    requires
                        -MAG <= self.x <= MAG,
                        -MAG <= self.y <= MAG,
                        -1000 <= f <= 1000,
                ;
                lemma_tdiv_bound(self.x * f, 1000, (MAG as int) * 1000);
                lemma_tdiv_bound(self.y * f, 1000, (MAG as int) * 1000);
            }
            if -2000 <= f <= 2000 && self.bounded() {
                assert(-(COORD as int) * 2000 <= self.x * f <= (COORD as int) * 2000 && -(
                COORD as int) * 2000 <= self.y * f <= (COORD as int) * 2000) by (nonlinear_arith)
                    requires
                        -COORD <= self.x <= COORD,
                        -COORD <= self.y <= COORD,
                        -2000 <= f <= 2000,
                ;
                lemma_tdiv_bound(self.x * f, 1000, (COORD as int) * 2000);
                lemma_tdiv_bound(self.y * f, 1000, (COORD as int) * 2000);
            }
        }
        Pos { x: mul_fixed(self.x, f), y: mul_fixed(self.y, f) }
    }

    /// Divide by a nonzero fixed-point factor `f` (thousandths): each
    /// component becomes `c * SCALE / f`, rounded toward zero.
    pub fn div(self, f: i64) -> (s: Pos)
        requires
            self.in_mag(),
            f != 0,
            -MAG <= f <= MAG,
        ensures
            s.x == tdiv_signed(self.x * (SCALE as int), f as int),
            s.y == tdiv_signed(self.y * (SCALE as int), f as int),
    {
        let nx = self.x * 1000;
        let ny = self.y * 1000;
        if f > 0 {
            Pos { x: tdiv_exec(nx, f), y: tdiv_exec(ny, f) }
        } else {
            Pos { x: tdiv_exec(-nx, -f), y: tdiv_exec(-ny, -f) }
        }
    }

    /// The squared Euclidean length, in mathematical integers.
    pub open spec fn len_sq(self) -> int {
        self.x * self.x + self.y * self.y
    }

    /// Euclidean length: the integer square root of the sum of squares,
    /// so exact wherever the length is a whole number of fixed-point steps.
    pub fn len(self) -> (r: i64)
        requires
            self.in_mag(),
        ensures
            0 <= r <= 2 * (MAG as int),
            r == sqrt_floor(self.len_sq()),
    {
        let ax: i64 = if self.x >= 0 {
            self.x
        } else {
            -self.x
        };
        let ay: i64 = if self.y >= 0 {
            self.y
        } else {
            -self.y
        };
        assert((ax as int) * (ax as int) == self.len_sq() - (self.y as int) * (self.y as int)
            && (ay as int) * (ay as int) == (self.y as int) * (self.y as int)) by (nonlinear_arith)
            requires
                ax == if self.x >= 0 { self.x as int } else { -(self.x as int) },
                ay == if self.y >= 0 { self.y as int } else { -(self.y as int) },
        ;
        assert((ax as int) * (ax as int) <= (MAG as int) * (MAG as int) && (ay as int) * (
        ay as int) <= (MAG as int) * (MAG as int)) by (nonlinear_arith)
            requires
                0 <= ax <= MAG,
                0 <= ay <= MAG,
        ;
        let sq: u64 = (ax as u64) * (ax as u64) + (ay as u64) * (ay as u64);
        let r = isqrt(sq);
        proof {
            if r as int > MAG as int + MAG as int {
                assert((r as int) * (r as int) > (sq as int)) by (nonlinear_arith)
                    requires
                        r as int > MAG as int + MAG as int,
                        sq as int <= (MAG as int) * (MAG as int) + (MAG as int) * (MAG as int),
                        MAG == 3_000_000_000i64,
                ;
                assert(false);
            }
        }
        r as i64
    }

    /// The distance between two points, as `len` of their difference.
    pub open spec fn dist_spec(self, r: Pos) -> int {
        sqrt_floor((self.x - r.x) * (self.x - r.x) + (self.y - r.y) * (self.y - r.y))
    }

    /// Euclidean distance to another point.
    pub fn dist(self, r: Pos) -> (d: i64)
        requires
            self.bounded(),
            r.bounded(),
        ensures
            0 <= d <= 2 * (MAG as int),
            d == self.dist_spec(r),
    {
        self.sub(r).len()
    }
}

/// Distance of a point to itself is zero.
pub proof fn lemma_dist_self_zero(a: Pos)
    ensures
        a.dist_spec(a) == 0,
{
    assert(is_sqrt(0, 0));
    lemma_sqrt_unique(0, 0);
}

/// Distance is symmetric.
pub proof fn lemma_dist_symmetric(a: Pos, b: Pos)
    ensures
        a.dist_spec(b) == b.dist_spec(a),
{
    assert((a.x - b.x) * (a.x - b.x) + (a.y - b.y) * (a.y - b.y) == (b.x - a.x) * (b.x - a.x) + (
    b.y - a.y) * (b.y - a.y)) by (nonlinear_arith);
}

/// Adding a vector and subtracting it again is the identity: the addition
/// and subtraction contracts compose without any rounding.
pub proof fn lemma_add_sub_cancel(a: Pos, b: Pos)
    ensures
        (a.x + b.x) - b.x == a.x,
        (a.y + b.y) - b.y == a.y,
{
}

/// Rounding toward zero is odd in the dividend.
proof fn lemma_tdiv_odd(a: int, b: int)
    requires
        b >= 1,
    ensures
        tdiv(-a, b) == -tdiv(a, b),
{
}

/// Scaling by a factor of at least one unit and dividing by it again
/// lands within one fixed-point step of where it started: the component
/// `scale` then `div` give differs from the original by at most one
/// thousandth of a unit.
pub proof fn lemma_scale_div_roundtrip(a: int, f: int)
    requires
        f >= 1000 || f <= -1000,
    ensures
        a - 1 <= tdiv_signed(scale1(a, f) * 1000, f) <= a + 1,
{
    if f >= 1000 {
        if a >= 0 {
            lemma_roundtrip_nonneg(a, f);
        } else {
            lemma_roundtrip_nonneg(-a, f);
            assert((-a) * f == -(a * f)) by (nonlinear_arith);
            lemma_tdiv_odd(a * f, 1000);
            lemma_tdiv_odd(tdiv((-a) * f, 1000) * 1000, f);
        }
    } else {
        let g = -f;
        assert(a * f == (-a) * (-f)) by (nonlinear_arith);
        if a <= 0 {
            lemma_roundtrip_nonneg(-a, g);
        } else {
            lemma_roundtrip_nonneg(a, g);
            assert(a * (-f) == -((-a) * (-f))) by (nonlinear_arith);
            lemma_tdiv_odd(a * g, 1000);
            lemma_tdiv_odd(tdiv(a * g, 1000) * 1000, g);
        }
    }
}

/// The round trip for a nonnegative component and a positive factor:
/// scaling drops less than one thousandth of a unit times the factor, so
/// dividing again recovers the component or the step just below it.
proof fn lemma_roundtrip_nonneg(a: int, f: int)
    requires
        0 <= a,
        f >= 1000,
    ensures
        a - 1 <= tdiv(tdiv(a * f, 1000) * 1000, f) <= a,
{
    let p = a * f;
    assert(0 <= a * f) by (nonlinear_arith)
        requires
            0 <= a,
            0 < f,
    ;
    let q = p / 1000;
    vstd::arithmetic::div_mod::lemma_fundamental_div_mod(p, 1000);
    vstd::arithmetic::div_mod::lemma_div_pos_is_pos(p, 1000);
    let z = q * 1000;
    assert(z == p - p % 1000);
    assert(p - 999 <= z <= p);
    assert(0 <= z);
    vstd::arithmetic::div_mod::lemma_div_is_ordered(z, p, f);
    assert(a * f == f * a) by (nonlinear_arith);
    vstd::arithmetic::div_mod::lemma_div_multiples_vanish(a, f);
    assert(p / f == a);
    assert((a - 1) * f <= z) by (nonlinear_arith)
        requires
            z >= a * f - 999,
            f >= 1000,
    ;
    vstd::arithmetic::div_mod::lemma_div_is_ordered((a - 1) * f, z, f);
    assert((a - 1) * f == f * (a - 1)) by (nonlinear_arith);
    vstd::arithmetic::div_mod::lemma_div_multiples_vanish(a - 1, f);
    assert(((a - 1) * f) / f == a - 1);
    assert(tdiv(p, 1000) == q);
    assert(tdiv(z, f) == z / f);
}

} // verus!
