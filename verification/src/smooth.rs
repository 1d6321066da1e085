use vstd::prelude::*;
use crate::pos::{tdiv, tdiv_exec, Pos, COORD};

verus! {

/// One smoothing step for one component: keep 0.6 of the gap from the new
/// sample back to the old state, rounded toward zero — a blend of weight
/// 0.6 on history and 0.4 on the new sample.
pub open spec fn blend1(prev: int, inp: int) -> int {
    inp + tdiv((prev - inp) * 600, 1000)
}

/// The state after feeding the same sample `inp` to the filter `n` times,
/// starting from `prev`.
pub open spec fn blend_iter(prev: int, inp: int, n: nat) -> int
    decreases n,
{
    if n == 0 {
        prev
    } else {
        blend1(blend_iter(prev, inp, (n - 1) as nat), inp)
    }
}

/// 0.6 of a gap, rounded toward zero, keeps the gap's sign and is strictly
/// smaller in magnitude than the gap.
pub proof fn lemma_gap_shrinks(d: int)
    ensures
        d > 0 ==> 0 <= tdiv(d * 600, 1000) < d,
        d < 0 ==> d < tdiv(d * 600, 1000) <= 0,
        d == 0 ==> tdiv(d * 600, 1000) == 0,
{
    if d > 0 {
        assert(0 <= (d * 600) / 1000 < d) by (nonlinear_arith)
            requires
                d > 0,
        ;
    } else if d < 0 {
        assert(0 <= ((-(d * 600)) / 1000) < -d) by (nonlinear_arith)
            requires
                d < 0,
        ;
    } else {
        assert(tdiv(0int * 600, 1000) == 0);
    }
}

/// A smoothing step lands between the old state and the new sample, and —
/// unless it is there already — strictly nearer the sample: the filter is
/// a contraction toward a constant input and never overshoots. A state
/// already at the sample stays there exactly.
pub proof fn lemma_blend_between(prev: int, inp: int)
    ensures
        prev >= inp ==> inp <= blend1(prev, inp) <= prev,
        prev <= inp ==> prev <= blend1(prev, inp) <= inp,
        prev != inp ==> (if blend1(prev, inp) >= inp {
            blend1(prev, inp) - inp
        } else {
            inp - blend1(prev, inp)
        }) < (if prev >= inp {
            prev - inp
        } else {
            inp - prev
        }),
        prev == inp ==> blend1(prev, inp) == inp,
{
    lemma_gap_shrinks(prev - inp);
}

/// Feeding a constant sample converges: the gap to the sample shrinks by
/// at least one fixed-point step per call, so after `n` calls it is at
/// most the original gap less `n`, and zero once `n` reaches the gap.
pub proof fn lemma_blend_iter_converges(prev: int, inp: int, n: nat)
    ensures
        blend_iter(prev, inp, n) >= inp ==> blend_iter(prev, inp, n) - inp
            <= vstd::math::max(
            (if prev >= inp {
                prev - inp
            } else {
                inp - prev
            }) - n,
            0,
        ),
        blend_iter(prev, inp, n) < inp ==> inp - blend_iter(prev, inp, n) <= vstd::math::max(
            (if prev >= inp {
                prev - inp
            } else {
                inp - prev
            }) - n,
            0,
        ),
    decreases n,
{
    if n > 0 {
        lemma_blend_iter_converges(prev, inp, (n - 1) as nat);
        lemma_blend_between(blend_iter(prev, inp, (n - 1) as nat), inp);
    }
}

/// Feeding a constant sample at least as many times as the starting gap
/// has fixed-point steps lands the state exactly on the sample.
pub proof fn lemma_blend_iter_reaches(prev: int, inp: int, n: nat)
    requires
        n >= (if prev >= inp {
            prev - inp
        } else {
            inp - prev
        }),
    ensures
        blend_iter(prev, inp, n) == inp,
{
    lemma_blend_iter_converges(prev, inp, n);
}

/// A one-pole low-pass filter over 2D vectors, with fixed coefficients:
/// weight 0.6 on history, 0.4 on each new sample.
pub struct Smooth {
    pub t: Pos,
}

impl Smooth {
    pub fn new(t: Pos) -> (s: Smooth)
        ensures
            s.t == t,
    {
        Smooth { t }
    }

    /// Blend the new sample into the state and return the smoothed value.
    pub fn update(&mut self, t: Pos) -> (r: Pos)
        requires
            old(self).t.bounded(),
            t.bounded(),
        ensures
            r.x == blend1(old(self).t.x as int, t.x as int),
            r.y == blend1(old(self).t.y as int, t.y as int),
            final(self).t == r,
            final(self).t.bounded(),
    {
        proof {
            lemma_blend_between(self.t.x as int, t.x as int);
            lemma_blend_between(self.t.y as int, t.y as int);
        }
        let nx = blend_exec(self.t.x, t.x);
        let ny = blend_exec(self.t.y, t.y);
        let r = Pos { x: nx, y: ny };
        self.t = r;
        r
    }
}

impl Default for Smooth {
    /// A filter at rest: no motion yet.
    fn default() -> (s: Self)
        ensures
            s.t == (Pos { x: 0, y: 0 }),
    {
        Self::new(Pos { x: 0, y: 0 })
    }
}

/// One smoothing step over machine integers.
fn blend_exec(prev: i64, inp: i64) -> (r: i64)
    requires
        -COORD <= prev <= COORD,
        -COORD <= inp <= COORD,
    ensures
        r == blend1(prev as int, inp as int),
        (if prev >= inp {
            inp <= r <= prev
        } else {
            prev <= r <= inp
        }),
{
    proof {
        lemma_blend_between(prev as int, inp as int);
        lemma_gap_shrinks(prev as int - inp as int);
    }
    let d = prev - inp;
    let kept = tdiv_exec(d * 600, 1000);
    inp + kept
}

} // verus!
