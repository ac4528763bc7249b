use vstd::prelude::*;
use crate::ratio::Ratio;

verus! {

/// One RGB pixel: red, green and blue channels.
#[derive(Clone, Copy, Debug, PartialEq, Eq, Structural)]
pub struct LED(pub u8, pub u8, pub u8);

/// `c * num / den`, truncated toward zero and saturated at 255.
pub open spec fn scale_channel(c: u8, num: int, den: int) -> u8 {
    let v = c as int * num / den;
    if v > 255 { 255u8 } else { v as u8 }
}

/// Channel addition that saturates at 255.
pub open spec fn add_channel(a: u8, b: u8) -> u8 {
    if a as int + b as int > 255 { 255u8 } else { (a + b) as u8 }
}

/// `a * (1 - t) + b * t` with `t = p / den`, `0 <= p <= den`, truncated.
pub open spec fn lerp_channel(a: u8, b: u8, p: int, den: int) -> u8 {
    ((a as int * (den - p) + b as int * p) / den) as u8
}

/// The interpolation weight `t` clamped to `[0, 1]`, as a numerator over `t.den`.
pub open spec fn clamped_weight(t: Ratio) -> int {
    if t.num > t.den { t.den as int } else { t.num as int }
}

pub open spec fn black() -> LED {
    LED(0, 0, 0)
}

pub open spec fn led_of(c: (u8, u8, u8)) -> LED {
    LED(c.0, c.1, c.2)
}

/// Every channel scaled by `num / den`.
pub open spec fn scale_led(l: LED, num: int, den: int) -> LED {
    LED(scale_channel(l.0, num, den), scale_channel(l.1, num, den), scale_channel(l.2, num, den))
}

pub open spec fn add_led(a: LED, b: LED) -> LED {
    LED(add_channel(a.0, b.0), add_channel(a.1, b.1), add_channel(a.2, b.2))
}

pub open spec fn lerp_led(a: LED, b: LED, t: Ratio) -> LED {
    let p = clamped_weight(t);
    LED(
        lerp_channel(a.0, b.0, p, t.den as int),
        lerp_channel(a.1, b.1, p, t.den as int),
        lerp_channel(a.2, b.2, p, t.den as int),
    )
}

/// Scales one channel by `num / den` (wide enough for any factor the library builds).
fn scale_u8(c: u8, num: u128, den: u128) -> (r: u8)
    requires
        den > 0,
        num < 0x1_0000_0000_0000_0000_0000_0000,
    ensures
        r == scale_channel(c, num as int, den as int),
{
    assert(c as u128 * num < 0x1_0000_0000_0000_0000_0000_0000_0000) by (nonlinear_arith)
        requires c < 256, num < 0x1_0000_0000_0000_0000_0000_0000;
    let v = c as u128 * num / den;
    if v > 255 { 255 } else { v as u8 }
}

fn add_u8(a: u8, b: u8) -> (r: u8)
    ensures
        r == add_channel(a, b),
{
    let s = a as u16 + b as u16;
    if s > 255 { 255 } else { s as u8 }
}

fn lerp_u8(a: u8, b: u8, p: u32, den: u32) -> (r: u8)
    requires
        den > 0,
        p <= den,
    ensures
        r == lerp_channel(a, b, p as int, den as int),
{
    let q: u32 = den - p;
    assert(a as int * q <= 255 * 0xffff_ffff && b as int * p <= 255 * 0xffff_ffff)
        by (nonlinear_arith)
        requires a < 256, b < 256, q <= 0xffff_ffff, p <= 0xffff_ffff;
    let wa = a as u64 * q as u64;
    let wb = b as u64 * p as u64;
    assert(wa + wb <= 255 * den) by (nonlinear_arith)
        requires wa == a as int * (den - p), wb == b as int * p, a < 256, b < 256, p <= den;
    let v = (wa + wb) / den as u64;
    assert(v <= 255) by (nonlinear_arith)
        requires v == (wa + wb) / den as int, wa + wb <= 255 * den, den > 0;
    v as u8
}

impl LED {
    pub fn from_color(color: (u8, u8, u8)) -> (r: LED)
        ensures
            r == led_of(color),
    {
        LED(color.0, color.1, color.2)
    }

    pub fn get_color(&self) -> (r: (u8, u8, u8))
        ensures
            r == (self.0, self.1, self.2),
    {
        (self.0, self.1, self.2)
    }

    /// Every channel multiplied by `fac`, truncated toward zero; a factor
    /// above one saturates at 255 rather than wrapping.
    pub fn scale(&self, fac: Ratio) -> (r: LED)
        requires
            fac.valid(),
        ensures
            r == scale_led(*self, fac.num as int, fac.den as int),
    {
        self.scale_by(fac.num as u128, fac.den as u128)
    }

    pub(crate) fn scale_by(&self, num: u128, den: u128) -> (r: LED)
        requires
            den > 0,
            num < 0x1_0000_0000_0000_0000_0000_0000,
        ensures
            r == scale_led(*self, num as int, den as int),
    {
        LED(scale_u8(self.0, num, den), scale_u8(self.1, num, den), scale_u8(self.2, num, den))
    }

    /// Moves every channel toward `led2` by the weight `t`, clamped to `[0, 1]`.
    pub fn lerp(&self, led2: &LED, t: Ratio) -> (r: LED)
        requires
            t.valid(),
        ensures
            r == lerp_led(*self, *led2, t),
    {
        let p = if t.num > t.den { t.den } else { t.num };
        LED(
            lerp_u8(self.0, led2.0, p, t.den),
            lerp_u8(self.1, led2.1, p, t.den),
            lerp_u8(self.2, led2.2, p, t.den),
        )
    }

    /// Channel-wise addition, saturating at 255.
    pub fn add(&self, other: &Self) -> (r: Self)
        ensures
            r == add_led(*self, *other),
    {
        LED(add_u8(self.0, other.0), add_u8(self.1, other.1), add_u8(self.2, other.2))
    }
}

impl Default for LED {
    fn default() -> (r: Self)
        ensures
            r == black(),
    {
        LED(0, 0, 0)
    }
}

/// Linear interpolation between two pixels: weight 0 gives `led1`, 1 gives `led2`.
pub fn lerp_leds(led1: &LED, led2: &LED, t: Ratio) -> (r: LED)
    requires
        t.valid(),
    ensures
        r == lerp_led(*led1, *led2, t),
{
    led1.lerp(led2, t)
}

} // verus!
