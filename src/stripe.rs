use vstd::prelude::*;
use crate::error::LedError;
use crate::frame::Frame;
use crate::led::{LED, black, led_of};
use crate::ratio::Ratio;
use crate::sequence::Sequence;
use crate::sequence_generator::{
    SequenzGenerator,
    custom_frames,
    dot_frames,
    red_alert_frames,
    solid_frame,
};

verus! {

/// Bit `k` (0 = most significant) of a colour channel.
pub open spec fn channel_bit(c: u8, k: int) -> bool {
    (c >> ((7 - k) as u8)) & 1u8 == 1u8
}

/// Bit `m` of the 24 bits a pixel is sent as on the bus: green, red, blue,
/// each most significant bit first.
pub open spec fn grb_bit(c: (u8, u8, u8), m: int) -> bool {
    if m < 8 {
        channel_bit(c.1, m)
    } else if m < 16 {
        channel_bit(c.0, m - 8)
    } else {
        channel_bit(c.2, m - 16)
    }
}

/// The SPI byte pair that shapes one data bit on the wire: byte `half` of it.
pub open spec fn spi_byte(one: bool, half: int) -> u8 {
    if one {
        if half == 0 { 0b1111_1111u8 } else { 0b1000_0000u8 }
    } else {
        if half == 0 { 0b1111_1000u8 } else { 0b0000_0000u8 }
    }
}

/// The SPI bytes of a list of pixels: 48 per pixel, two per data bit.
pub open spec fn spi_encoding(data: Seq<(u8, u8, u8)>) -> Seq<u8> {
    Seq::new(
        48 * data.len(),
        |k: int| spi_byte(grb_bit(data[k / 48], (k % 48) / 2), k % 2),
    )
}

/// The colour of each pixel of a frame.
pub open spec fn colors_of(f: Seq<LED>) -> Seq<(u8, u8, u8)> {
    Seq::new(f.len(), |i: int| (f[i].0, f[i].1, f[i].2))
}

/// Relies on `ws2818_rgb_led_spi_driver::encoding::encode_rgb_slice`: each
/// pixel becomes 48 SPI bytes, two per bit of green, red and blue in that
/// order, most significant bit first; a one bit is `[0xFF, 0x80]`, a zero
/// bit `[0xF8, 0x00]`.
#[verifier::external_body]
fn encode_rgb_slice(data: &Vec<(u8, u8, u8)>) -> (r: Vec<u8>)
    ensures
        r@ == spi_encoding(data@),
{
    ws2818_rgb_led_spi_driver::encoding::encode_rgb_slice(data.as_slice())
}

/// Pixel `i` of a bar that fills `fraction` of `n` pixels.
pub open spec fn strength_pixel(i: int, n: nat, fraction: Ratio, color: (u8, u8, u8)) -> LED {
    if i * fraction.den < n * fraction.num { led_of(color) } else { black() }
}

/// One strip of addressable pixels: its length, fixed when it is set up.
pub struct Stripe {
    number_of_leds: usize,
}

impl Stripe {
    pub closed spec fn leds(&self) -> nat {
        self.number_of_leds as nat
    }

    /// A strip of `number_of_leds` pixels; a strip without pixels is refused.
    pub fn new(number_of_leds: usize) -> (r: Result<Self, LedError>)
        ensures
            number_of_leds == 0 <==> r == Err::<Self, LedError>(LedError::NoPixels),
            r matches Ok(s) ==> s.leds() == number_of_leds && s.leds() > 0,
    {
        if number_of_leds == 0 {
            return Err(LedError::NoPixels);
        }
        Ok(Stripe { number_of_leds })
    }

    pub fn get_number_of_leds(&self) -> (r: usize)
        ensures
            r == self.leds(),
    {
        self.number_of_leds
    }

    pub fn create_static(&self, color: (u8, u8, u8)) -> (r: Sequence)
        ensures
            r.wf(),
            r@ == seq![solid_frame(self.leds(), color)],
            r.rate() == (Ratio { num: 1, den: 1 }),
    {
        SequenzGenerator::create_static(self.number_of_leds, color)
    }

    pub fn create_blink(&self, color: (u8, u8, u8), frequenz: Ratio) -> (r: Sequence)
        requires
            frequenz.is_rate(),
        ensures
            r.wf(),
            r@ == seq![solid_frame(self.leds(), color), solid_frame(self.leds(), (0u8, 0u8, 0u8))],
            r.rate() == frequenz,
    {
        SequenzGenerator::create_blink(self.number_of_leds, color, frequenz)
    }

    pub fn create_dot(
        &self,
        color: (u8, u8, u8),
        frequenz: Ratio,
        blur_trail: usize,
        blur_head: usize,
    ) -> (r: Sequence)
        requires
            self.leds() > 0,
            frequenz.is_rate(),
        ensures
            r.wf(),
            r@ == dot_frames(self.leds(), color, blur_trail as nat, blur_head as nat),
            r.rate() == frequenz,
    {
        SequenzGenerator::create_dot(self.number_of_leds, color, frequenz, blur_trail, blur_head)
    }

    pub fn custom(&self) -> (r: Sequence)
        requires
            self.leds() > 0,
        ensures
            r.wf(),
            r@ == custom_frames(self.leds()),
            r.rate() == (Ratio { num: 30, den: 1 }),
    {
        SequenzGenerator::custom(self.number_of_leds)
    }

    pub fn red_alert(&self) -> (r: Sequence)
        requires
            self.leds() > 0,
        ensures
            r.wf(),
            r@ == red_alert_frames(self.leds()),
            r.rate() == (Ratio { num: 30, den: 1 }),
    {
        SequenzGenerator::red_alert(self.number_of_leds)
    }

    /// A bar of `color` over the first `fraction` of the strip, black after it:
    /// pixel `i` is lit when `i < leds * fraction`.
    pub fn strength(&self, fraction: Ratio, color: (u8, u8, u8)) -> (r: Frame)
        requires
            fraction.valid(),
        ensures
            r@ == Seq::new(self.leds(), |i: int| strength_pixel(i, self.leds(), fraction, color)),
    {
        let n = self.number_of_leds;
        let mut v: Vec<LED> = Vec::new();
        let mut i: usize = 0;
        while i < n
            invariant
                n == self.leds(),
                i <= n,
                v@ == Seq::new(i as nat, |k: int| strength_pixel(k, n as nat, fraction, color)),
            decreases n - i,
        {
            assert(i as int * fraction.den as int <= 0xffff_ffff_ffff_ffff * 0xffff_ffff
                && n as int * fraction.num as int <= 0xffff_ffff_ffff_ffff * 0xffff_ffff)
                by (nonlinear_arith)
                requires
                    i <= 0xffff_ffff_ffff_ffff,
                    n <= 0xffff_ffff_ffff_ffff,
                    fraction.den <= 0xffff_ffff,
                    fraction.num <= 0xffff_ffff,
            ;
            let lit = (i as u128) * (fraction.den as u128) < (n as u128) * (fraction.num as u128);
            v.push(if lit { LED::from_color(color) } else { LED(0, 0, 0) });
            i += 1;
            assert(v@ =~= Seq::new(i as nat, |k: int| strength_pixel(k, n as nat, fraction, color)));
        }
        Frame(v)
    }

    /// The all-black frame that clears the strip.
    pub fn reset_frame(&self) -> (r: Frame)
        ensures
            r@ == Seq::new(self.leds(), |i: int| black()),
    {
        let mut v: Vec<LED> = Vec::new();
        let mut i: usize = 0;
        while i < self.number_of_leds
            invariant
                i <= self.leds(),
                v@ == Seq::new(i as nat, |k: int| black()),
            decreases self.leds() - i,
        {
            v.push(LED(0, 0, 0));
            i += 1;
            assert(v@ =~= Seq::new(i as nat, |k: int| black()));
        }
        Frame(v)
    }

    /// The bytes that show `frame` when sent over the SPI bus.
    pub fn encode_frame(frame: &Frame) -> (r: Vec<u8>)
        ensures
            r@ == spi_encoding(colors_of(frame@)),
    {
        let mut data: Vec<(u8, u8, u8)> = Vec::new();
        let mut i: usize = 0;
        while i < frame.0.len()
            invariant
                i <= frame@.len(),
                data@ == colors_of(frame@).subrange(0, i as int),
            decreases frame@.len() - i,
        {
            data.push(frame.0[i].get_color());
            i += 1;
            assert(data@ =~= colors_of(frame@).subrange(0, i as int));
        }
        assert(data@ =~= colors_of(frame@));
        encode_rgb_slice(&data)
    }
}

/// How long one frame stays on the strip at `rate`, in microseconds, truncated.
pub fn frame_period_micros(rate: Ratio) -> (r: u64)
    requires
        rate.is_rate(),
    ensures
        r == rate.den as int * 1_000_000 / rate.num as int,
{
    rate.den as u64 * 1_000_000 / rate.num as u64
}

/// What the playback loop does next.
#[derive(Clone, Copy, Debug, PartialEq, Eq, Structural)]
pub enum PlaybackAction {
    /// Write frame `i` of the sequence to the bus, then wait one frame period.
    Show(usize),
    /// Leave the loop.
    Stop,
}

/// The frame after `i` in a loop over `count` frames.
pub open spec fn next_frame(i: nat, count: nat) -> nat {
    if i + 1 < count { i + 1 } else { 0 }
}

/// The decisions of the playback loop over one sequence. The loop shows a
/// frame, waits one frame period, then reads the shared repeat flag: once the
/// flag is clear it stops; while it is set the frames follow in order and the
/// sequence starts over after its last frame.
pub struct Playback {
    frame_count: usize,
    current: usize,
}

impl Playback {
    pub closed spec fn count(&self) -> nat {
        self.frame_count as nat
    }

    /// The frame shown last.
    pub closed spec fn shown(&self) -> nat {
        self.current as nat
    }

    pub open spec fn wf(&self) -> bool {
        self.shown() < self.count()
    }

    /// Playback of `frame_count` frames starts with the first one.
    pub fn start(frame_count: usize) -> (r: (Playback, PlaybackAction))
        requires
            frame_count >= 1,
        ensures
            r.0.wf(),
            r.0.count() == frame_count,
            r.0.shown() == 0,
            r.1 == PlaybackAction::Show(0),
    {
        (Playback { frame_count, current: 0 }, PlaybackAction::Show(0))
    }

    /// Called once the frame shown last has had its period; `running` is the
    /// repeat flag as read then.
    pub fn frame_done(&mut self, running: bool) -> (r: PlaybackAction)
        requires
            old(self).wf(),
        ensures
            final(self).wf(),
            final(self).count() == old(self).count(),
            !running ==> r == PlaybackAction::Stop && final(self).shown() == old(self).shown(),
            running ==> final(self).shown() == next_frame(old(self).shown(), old(self).count())
                && r == PlaybackAction::Show(final(self).shown() as usize),
    {
        if !running {
            return PlaybackAction::Stop;
        }
        self.current = if self.current + 1 < self.frame_count { self.current + 1 } else { 0 };
        PlaybackAction::Show(self.current)
    }
}

} // verus!
