//! Pixels, frames and sequences as a strip driven bit by bit from a GPIO pin
//! sees them: every frame is refined into the string of data bits sent on the
//! wire.

use vstd::prelude::*;
use vstd::string::StringExecFns;
use crate::ratio::Ratio;
use crate::stripe::grb_bit;

verus! {

/// One pixel of the bit-driven strip.
#[derive(Clone, Copy, Debug, PartialEq, Eq, Structural)]
pub struct LED {
    pub r: u8,
    pub g: u8,
    pub b: u8,
}

impl LED {
    pub fn new(r: u8, g: u8, b: u8) -> (res: Self)
        ensures
            res == (LED { r, g, b }),
    {
        LED { r, g, b }
    }
}

impl Default for LED {
    fn default() -> (res: Self)
        ensures
            res == (LED { r: 0, g: 0, b: 0 }),
    {
        LED { r: 0, g: 0, b: 0 }
    }
}

/// The pixels of the strip in physical order.
pub struct Frame(pub Vec<LED>);

/// The data bits of a list of pixels, `'1'` or `'0'`: 24 per pixel, green,
/// red and blue, most significant bit first.
pub open spec fn bit_string(f: Seq<LED>) -> Seq<char> {
    Seq::new(
        24 * f.len(),
        |k: int|
            if grb_bit((f[k / 24].r, f[k / 24].g, f[k / 24].b), k % 24) {
                '1'
            } else {
                '0'
            },
    )
}

/// Bit `k` (0 = most significant) of `c`.
fn bit_of(c: u8, k: u8) -> (r: bool)
    requires
        k < 8,
    ensures
        r == crate::stripe::channel_bit(c, k as int),
{
    let s: u8 = 7 - k;
    (c >> s) & 1u8 == 1u8
}

/// The bits of a frame as they are sent on the wire.
pub struct RefinedFrame(pub String);

/// A sequence whose frames are refined to their bits.
pub struct RefinedSequenz {
    pub frames: Vec<String>,
    pub framerate: Ratio,
}

impl Frame {
    pub fn refine(self) -> (r: RefinedFrame)
        ensures
            r.0@ == bit_string(self.0@),
    {
        let mut rf = String::new();
        let mut i: usize = 0;
        while i < self.0.len()
            invariant
                i <= self.0@.len(),
                rf@ == bit_string(self.0@).subrange(0, 24 * i),
            decreases self.0@.len() - i,
        {
            let led = self.0[i];
            let mut m: u8 = 0;
            while m < 24
                invariant
                    i < self.0@.len(),
                    led == self.0@[i as int],
                    m <= 24,
                    rf@ == bit_string(self.0@).subrange(0, 24 * i + m),
                decreases 24 - m,
            {
                let one = if m < 8 {
                    bit_of(led.g, m)
                } else if m < 16 {
                    bit_of(led.r, m - 8)
                } else {
                    bit_of(led.b, m - 16)
                };
                let ghost before = rf@;
                if one {
                    rf.append("1");
                    proof {
                        reveal_strlit("1");
                        assert(rf@ =~= before.push('1'));
                    }
                } else {
                    rf.append("0");
                    proof {
                        reveal_strlit("0");
                        assert(rf@ =~= before.push('0'));
                    }
                }
                proof {
                    let k = 24 * i + m;
                    assert(k / 24 == i && k % 24 == m) by {
                        vstd::arithmetic::div_mod::lemma_fundamental_div_mod_converse(
                            k,
                            24,
                            i as int,
                            m as int,
                        );
                    }
                    assert(one == grb_bit((led.r, led.g, led.b), m as int));
                    assert(bit_string(self.0@)[k] == if one { '1' } else { '0' });
                    assert(rf@ == before.push(if one { '1' } else { '0' }));
                    assert(rf@ =~= bit_string(self.0@).subrange(0, k + 1));
                }
                m += 1;
            }
            i += 1;
        }
        assert(rf@ =~= bit_string(self.0@));
        RefinedFrame(rf)
    }
}

/// Frames of the bit-driven strip with their rate.
pub struct Sequenz {
    pub frames: Vec<Frame>,
    pub framerate: Ratio,
}

impl Sequenz {
    pub fn new(frames: Vec<Frame>, framerate: Ratio) -> (r: Self)
        ensures
            r.frames == frames,
            r.framerate == framerate,
    {
        Sequenz { frames, framerate }
    }

    /// Every frame refined to its bits, in order, at the same rate.
    pub fn refine(self) -> (r: RefinedSequenz)
        ensures
            r.framerate == self.framerate,
            r.frames@.len() == self.frames@.len(),
            forall|i: int|
                0 <= i < self.frames@.len() ==> #[trigger] r.frames@[i]@ == bit_string(
                    self.frames@[i].0@,
                ),
    {
        let Sequenz { frames, framerate } = self;
        let ghost orig = frames@;
        let mut rest = frames;
        let mut out: Vec<String> = Vec::new();
        let ghost taken: int = 0;
        while rest.len() > 0
            invariant
                out@.len() + rest@.len() == orig.len(),
                rest@ == orig.subrange(out@.len() as int, orig.len() as int),
                forall|k: int|
                    0 <= k < out@.len() ==> #[trigger] out@[k]@ == bit_string(orig[k].0@),
            decreases rest@.len(),
        {
            let f = rest.remove(0);
            out.push(f.refine().0);
            assert(rest@ =~= orig.subrange(out@.len() as int, orig.len() as int));
        }
        RefinedSequenz { frames: out, framerate }
    }
}

} // verus!
