use vstd::prelude::*;

verus! {

/// A non-negative fraction `num / den`, used for scale factors,
/// interpolation weights and frame rates (frames per second).
#[derive(Clone, Copy, Debug, PartialEq, Eq, Structural)]
pub struct Ratio {
    pub num: u32,
    pub den: u32,
}

impl Ratio {
    /// A fraction is meaningful when its denominator is not zero.
    pub open spec fn valid(self) -> bool {
        self.den > 0
    }

    /// A frame rate must be strictly positive.
    pub open spec fn is_rate(self) -> bool {
        self.num > 0 && self.den > 0
    }

    pub fn new(num: u32, den: u32) -> (r: Ratio)
        ensures
            r.num == num,
            r.den == den,
    {
        Ratio { num, den }
    }

    /// The whole number `n`, as a fraction.
    pub fn whole(n: u32) -> (r: Ratio)
        ensures
            r.num == n,
            r.den == 1,
    {
        Ratio { num: n, den: 1 }
    }
}

} // verus!
