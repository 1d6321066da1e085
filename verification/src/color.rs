use vstd::prelude::*;
use vstd::pervasive::VecAdditionalExecFns;
use crate::pos::{tdiv, MAG, SCALE};

verus! {

/// The byte a fixed-point colour channel becomes on output: floored to
/// whole units and clamped into the byte range.
pub open spec fn channel_byte(v: int) -> u8 {
    if v < 0 {
        0u8
    } else if v / (SCALE as int) > 255 {
        255u8
    } else {
        (v / (SCALE as int)) as u8
    }
}

/// Floor a fixed-point channel to a clamped byte.
fn byte_of(v: i64) -> (b: u8)
    ensures
        b == channel_byte(v as int),
{
    if v < 0 {
        0
    } else {
        let q: u64 = (v as u64) / 1000;
        if q > 255 {
            255
        } else {
            q as u8
        }
    }
}

/// An RGB accumulator in fixed-point thousandths. Channels may leave the
/// byte range while blending; they are clamped only when written out.
#[derive(Clone, Copy, PartialEq, Eq, Structural, Debug)]
pub struct Color {
    pub red: i64,
    pub green: i64,
    pub blue: i64,
}

impl Color {
    /// All channels within the operand bound of the fixed-point operations.
    pub open spec fn in_mag(self) -> bool {
        -MAG <= self.red <= MAG && -MAG <= self.green <= MAG && -MAG <= self.blue <= MAG
    }

    pub fn new(red: i64, green: i64, blue: i64) -> (c: Color)
        ensures
            c.red == red,
            c.green == green,
            c.blue == blue,
    {
        Color { red, green, blue }
    }

    /// The black accumulator blending starts from.
    pub fn zero() -> (c: Color)
        ensures
            c.red == 0,
            c.green == 0,
            c.blue == 0,
    {
        Color { red: 0, green: 0, blue: 0 }
    }

    /// Additive blending, channel by channel.
    pub fn add(self, r: Color) -> (s: Color)
        requires
            self.in_mag(),
            r.in_mag(),
        ensures
            s.red == self.red + r.red,
            s.green == self.green + r.green,
            s.blue == self.blue + r.blue,
    {
        Color { red: self.red + r.red, green: self.green + r.green, blue: self.blue + r.blue }
    }

    /// Scale every channel by a fixed-point factor `f` (thousandths),
    /// rounding toward zero.
    pub fn scale(self, f: i64) -> (s: Color)
        requires
            self.in_mag(),
            -MAG <= f <= MAG,
        ensures
            s.red == tdiv(self.red * f, SCALE as int),
            s.green == tdiv(self.green * f, SCALE as int),
            s.blue == tdiv(self.blue * f, SCALE as int),
    {
        Color {
            red: crate::pos::mul_fixed(self.red, f),
            green: crate::pos::mul_fixed(self.green, f),
            blue: crate::pos::mul_fixed(self.blue, f),
        }
    }

    /// The colour as output bytes: each channel floored to whole units
    /// and clamped into the byte range.
    pub fn to_bytes(self) -> (b: (u8, u8, u8))
        ensures
            b.0 == channel_byte(self.red as int),
            b.1 == channel_byte(self.green as int),
            b.2 == channel_byte(self.blue as int),
    {
        (byte_of(self.red), byte_of(self.green), byte_of(self.blue))
    }

    /// Write the colour into a pixel slot: three floored, clamped channel
    /// bytes at `idx`; every other byte of the buffer (the alpha byte
    /// among them) is untouched.
    pub fn write_bytes(self, frame: &mut Vec<u8>, idx: usize)
        requires
            idx + 3 <= old(frame)@.len(),
        ensures
            final(frame)@.len() == old(frame)@.len(),
            final(frame)@[idx as int] == channel_byte(self.red as int),
            final(frame)@[idx + 1] == channel_byte(self.green as int),
            final(frame)@[idx + 2] == channel_byte(self.blue as int),
            forall|i: int|
                0 <= i < old(frame)@.len() && i != idx && i != idx + 1 && i != idx + 2
                    ==> final(frame)@[i] == old(frame)@[i],
    {
        let n = frame.len();
        assert(idx + 3 <= n);
        frame.set(idx, byte_of(self.red));
        frame.set(idx + 1, byte_of(self.green));
        frame.set(idx + 2, byte_of(self.blue));
    }
}

} // verus!
