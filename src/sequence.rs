use vstd::prelude::*;
use crate::error::LedError;
use crate::frame::{Frame, frame_sum, rotate_left_seq, rotate_right_seq, scale_frame};
use crate::led::LED;
use crate::ratio::Ratio;

verus! {

/// An animation: a non-empty list of frames shown at `framerate` frames per second.
#[derive(Debug)]
pub struct Sequence {
    frames: Vec<Frame>,
    framerate: Ratio,
}

/// The pixels of each frame.
pub open spec fn frames_view(v: Seq<Frame>) -> Seq<Seq<LED>> {
    Seq::new(v.len(), |i: int| v[i]@)
}

/// `a >= b` as rates.
pub open spec fn rate_ge(a: Ratio, b: Ratio) -> bool {
    a.num as int * b.den as int >= b.num as int * a.den as int
}

/// The larger of two rates (the first one when they are equal).
pub open spec fn max_rate(a: Ratio, b: Ratio) -> Ratio {
    if rate_ge(a, b) { a } else { b }
}

/// The number of frames that keep the duration `len / old` at the rate `new`:
/// `len * new / old`, rounded to the nearest integer, halves upward.
pub open spec fn resampled_len(len: nat, old: Ratio, new: Ratio) -> nat {
    let x = len as int * new.num as int * old.den as int;
    let y = new.den as int * old.num as int;
    (if 2 * (x % y) >= y { x / y + 1 } else { x / y }) as nat
}

/// The source frame shown at output frame `i`: the last one that started
/// at or before time `i / new`, clamped to the last frame.
pub open spec fn source_index(i: int, len: nat, old: Ratio, new: Ratio) -> int {
    let s = i * new.den * old.num / (new.num as int * old.den as int);
    if s > len - 1 { len - 1 } else { s }
}

/// Nearest-previous-sample resampling of `f` from rate `old` to rate `new`.
pub open spec fn resample(f: Seq<Seq<LED>>, old: Ratio, new: Ratio) -> Seq<Seq<LED>> {
    Seq::new(
        resampled_len(f.len(), old, new),
        |i: int| f[source_index(i, f.len(), old, new)],
    )
}

pub open spec fn frame_or_empty(f: Seq<Seq<LED>>, i: int) -> Seq<LED> {
    if 0 <= i < f.len() { f[i] } else { Seq::empty() }
}

/// Frame-wise sum; the shorter list counts as padded with empty frames.
pub open spec fn frames_sum(a: Seq<Seq<LED>>, b: Seq<Seq<LED>>) -> Seq<Seq<LED>> {
    let n = if a.len() >= b.len() { a.len() } else { b.len() };
    Seq::new(n, |i: int| frame_sum(frame_or_empty(a, i), frame_or_empty(b, i)))
}

/// `f` played `n` times in a row.
pub open spec fn repeat_frames(f: Seq<Seq<LED>>, n: nat) -> Seq<Seq<LED>> {
    Seq::new(f.len() * n, |i: int| f[i % (f.len() as int)])
}

/// Distance from the start of the envelope period of frame `i`: it climbs
/// from 0 to `steps` and falls back over `2 * steps` frames.
pub open spec fn pulse_step(i: int, steps: int) -> int {
    let phase = i % (2 * steps);
    if phase <= steps { phase } else { 2 * steps - phase }
}

/// Numerator and denominator of the envelope factor
/// `1 + (low - 1) * step / steps`, exact.
pub open spec fn pulse_num(step: int, steps: int, low: Ratio) -> int {
    low.den as int * (steps - step) + low.num as int * step
}

pub open spec fn pulse_den(steps: int, low: Ratio) -> int {
    low.den as int * steps
}

/// The envelope applied to every frame of `f`.
pub open spec fn pulse_frames(f: Seq<Seq<LED>>, steps: int, low: Ratio) -> Seq<Seq<LED>> {
    Seq::new(
        f.len(),
        |i: int|
            scale_frame(
                f[i],
                pulse_num(pulse_step(i, steps), steps, low),
                pulse_den(steps, low),
            ),
    )
}

/// The slowest rate at which a pulse is drawn.
pub open spec fn smooth_rate() -> Ratio {
    Ratio { num: 30, den: 1 }
}

/// The frames that `pulse` modulates: `f` itself at 30 frames per second or
/// more, else `f` resampled to 30.
pub open spec fn pulse_base(f: Seq<Seq<LED>>, rate: Ratio) -> Seq<Seq<LED>> {
    if rate_ge(rate, smooth_rate()) { f } else { resample(f, rate, smooth_rate()) }
}

pub open spec fn pulse_rate(rate: Ratio) -> Ratio {
    if rate_ge(rate, smooth_rate()) { rate } else { smooth_rate() }
}

proof fn lemma_mul_u32(a: u32, b: u32)
    ensures
        0 <= a as int * b as int <= 0xffff_ffff * 0xffff_ffff,
{
    assert(0 <= a as int * b as int <= 0xffff_ffff * 0xffff_ffff) by (nonlinear_arith)
        requires a <= 0xffff_ffff, b <= 0xffff_ffff;
}

/// The output of rounding: `|2 * resampled_len * y - 2 * x| <= y`.
pub proof fn lemma_resampled_len_rounds(len: nat, old: Ratio, new: Ratio)
    requires
        old.is_rate(),
        new.is_rate(),
    ensures
        ({
            let x = len as int * new.num as int * old.den as int;
            let y = new.den as int * old.num as int;
            let l = resampled_len(len, old, new);
            -y <= 2 * (l * y) - 2 * x <= y
        }),
{
    let x = len as int * new.num as int * old.den as int;
    let y = new.den as int * old.num as int;
    assert(y > 0) by (nonlinear_arith)
        requires y == new.den as int * old.num as int, new.den > 0, old.num > 0;
    vstd::arithmetic::div_mod::lemma_fundamental_div_mod(x, y);
    let q = x / y;
    let m = x % y;
    assert(x == y * q + m);
    vstd::arithmetic::div_mod::lemma_mod_bound(x, y);
    if 2 * m >= y {
        assert(2 * ((q + 1) * y) - 2 * x == 2 * y - 2 * m) by (nonlinear_arith)
            requires x == y * q + m;
    } else {
        assert(2 * (q * y) - 2 * x == -2 * m) by (nonlinear_arith)
            requires x == y * q + m;
    }
}

/// Resampling to a rate at least as high never shortens the list.
pub proof fn lemma_upsample_len(len: nat, old: Ratio, new: Ratio)
    requires
        old.is_rate(),
        new.is_rate(),
        rate_ge(new, old),
    ensures
        resampled_len(len, old, new) >= len,
{
    let x = len as int * new.num as int * old.den as int;
    let y = new.den as int * old.num as int;
    assert(y > 0) by (nonlinear_arith)
        requires y == new.den as int * old.num as int, new.den > 0, old.num > 0;
    assert(x >= len * y) by (nonlinear_arith)
        requires
            x == len as int * new.num as int * old.den as int,
            y == new.den as int * old.num as int,
            new.num as int * old.den as int >= old.num as int * new.den as int;
    vstd::arithmetic::div_mod::lemma_div_is_ordered(len * y, x, y);
    vstd::arithmetic::div_mod::lemma_div_multiples_vanish(len as int, y);
    assert(len * y == y * len);
}

/// Resampling to the very same rate changes nothing.
pub proof fn lemma_resample_same_rate(f: Seq<Seq<LED>>, r: Ratio)
    requires
        r.is_rate(),
    ensures
        resample(f, r, r) == f,
{
    let len = f.len();
    let y = r.den as int * r.num as int;
    assert(y > 0) by (nonlinear_arith)
        requires y == r.den as int * r.num as int, r.den > 0, r.num > 0;
    assert(len as int * r.num as int * r.den as int == len * y) by (nonlinear_arith)
        requires y == r.den as int * r.num as int;
    vstd::arithmetic::div_mod::lemma_div_multiples_vanish(len as int, y);
    vstd::arithmetic::div_mod::lemma_mod_multiples_basic(len as int, y);
    assert(resampled_len(len, r, r) == len);
    assert forall|i: int| 0 <= i < len implies #[trigger] source_index(i, len, r, r) == i by {
        assert(i * r.den * r.num == i * (r.num as int * r.den as int)) by (nonlinear_arith);
        assert(r.num as int * r.den as int > 0) by (nonlinear_arith)
            requires r.den > 0, r.num > 0;
        vstd::arithmetic::div_mod::lemma_div_multiples_vanish(i, r.num as int * r.den as int);
    }
    assert(resample(f, r, r) =~= f);
}

/// A sequence resampled to another rate and back keeps its duration up to
/// the rounding of each resampling: with `L` frames before and `L2` after,
/// `|L2 - L| / rate <= 1 / (2 * other) + 1 / (2 * rate)`.
pub proof fn lemma_resample_round_trip_duration(len: nat, rate: Ratio, other: Ratio)
    requires
        rate.is_rate(),
        other.is_rate(),
    ensures
        ({
            let l2 = resampled_len(resampled_len(len, rate, other), other, rate);
            let d = 2 * (l2 - len) * rate.den as int * other.num as int;
            let bound = other.den as int * rate.num as int + rate.den as int * other.num as int;
            -bound <= d <= bound
        }),
{
    let l1 = resampled_len(len, rate, other);
    let l2 = resampled_len(l1, other, rate);
    lemma_resampled_len_rounds(len, rate, other);
    lemma_resampled_len_rounds(l1, other, rate);
    let y1 = other.den as int * rate.num as int;
    let y2 = rate.den as int * other.num as int;
    assert(l1 as int * rate.num as int * other.den as int == l1 * y1) by (nonlinear_arith)
        requires y1 == other.den as int * rate.num as int;
    assert(len as int * other.num as int * rate.den as int == len * y2) by (nonlinear_arith)
        requires y2 == rate.den as int * other.num as int;
    assert(2 * (l2 - len) * rate.den as int * other.num as int == 2 * (l2 * y2) - 2 * (len * y2))
        by (nonlinear_arith)
        requires y2 == rate.den as int * other.num as int;
}

/// Rotating left and then right by the same amount restores the frames.
pub proof fn lemma_rotate_round_trip(f: Seq<Seq<LED>>, n: nat)
    requires
        f.len() > 0,
    ensures
        rotate_right_seq(rotate_left_seq(f, n), n) == f,
{
    let len = f.len() as int;
    let m = (n as int) % len;
    assert forall|i: int| 0 <= i < len implies #[trigger] rotate_right_seq(
        rotate_left_seq(f, n),
        n,
    )[i] == f[i] by {
        let j = (i + len - m) % len;
        vstd::arithmetic::div_mod::lemma_mod_bound(n as int, len);
        vstd::arithmetic::div_mod::lemma_mod_bound(i + len - m, len);
        assert((j + (n as int)) % len == i) by {
            let q = (n as int) / len;
            vstd::arithmetic::div_mod::lemma_fundamental_div_mod(n as int, len);
            vstd::arithmetic::div_mod::lemma_add_mod_noop(i + len - m, n as int, len);
            vstd::arithmetic::div_mod::lemma_add_mod_noop(j, n as int, len);
            vstd::arithmetic::div_mod::lemma_small_mod(j as nat, len as nat);
            assert(i + len - m + n == len * (q + 1) + i) by (nonlinear_arith)
                requires n == len * q + m;
            vstd::arithmetic::div_mod::lemma_mod_multiples_vanish(q + 1, i, len);
            vstd::arithmetic::div_mod::lemma_small_mod(i as nat, len as nat);
        }
    }
    assert(rotate_right_seq(rotate_left_seq(f, n), n) =~= f);
}

/// Appends a copy of frame `k` of `v` to `out`.
fn copy_frame_at(v: &Vec<Frame>, k: usize, out: &mut Vec<Frame>)
    requires
        k < v@.len(),
    ensures
        final(out)@.len() == old(out)@.len() + 1,
        frames_view(final(out)@) == frames_view(old(out)@).push(v@[k as int]@),
{
    out.push(v[k].clone());
    assert(frames_view(final(out)@) =~= frames_view(old(out)@).push(v@[k as int]@));
}

impl View for Sequence {
    type V = Seq<Seq<LED>>;

    closed spec fn view(&self) -> Seq<Seq<LED>> {
        frames_view(self.frames@)
    }
}

impl Sequence {
    pub closed spec fn rate(&self) -> Ratio {
        self.framerate
    }

    /// At least one frame, and a positive rate.
    pub open spec fn wf(&self) -> bool {
        0 < self@.len() <= usize::MAX && self.rate().is_rate()
    }

    pub fn new(frames: Vec<Frame>, framerate: Ratio) -> (r: Result<Self, LedError>)
        ensures
            frames@.len() == 0 ==> r == Err::<Self, LedError>(LedError::NoFrames),
            frames@.len() > 0 && !framerate.is_rate() ==> r == Err::<Self, LedError>(
                LedError::InvalidFramerate,
            ),
            frames@.len() > 0 && framerate.is_rate() ==> r is Ok,
            r matches Ok(s) ==> s.wf() && s@ == frames_view(frames@) && s.rate() == framerate,
    {
        if frames.len() == 0 {
            return Err(LedError::NoFrames);
        }
        if framerate.num == 0 || framerate.den == 0 {
            return Err(LedError::InvalidFramerate);
        }
        Ok(Sequence { frames, framerate })
    }

    pub fn get_framerate(&self) -> (r: Ratio)
        ensures
            r == self.rate(),
    {
        self.framerate
    }

    pub fn get_frames(&self) -> (r: &Vec<Frame>)
        ensures
            frames_view(r@) == self@,
    {
        &self.frames
    }

    pub fn len(&self) -> (r: usize)
        ensures
            r == self@.len(),
    {
        self.frames.len()
    }

    /// The frames in reverse order: the animation played backwards.
    pub fn reverse(&self) -> (r: Sequence)
        requires
            self.wf(),
        ensures
            r.wf(),
            r@ == self@.reverse(),
            r.rate() == self.rate(),
    {
        let len = self.frames.len();
        let mut v: Vec<Frame> = Vec::new();
        let mut i: usize = 0;
        while i < len
            invariant
                len == self@.len(),
                i <= len,
                v@.len() == i,
                frames_view(v@) == Seq::new(i as nat, |k: int| self@[len - 1 - k]),
            decreases len - i,
        {
            copy_frame_at(&self.frames, len - 1 - i, &mut v);
            i += 1;
            assert(frames_view(v@) =~= Seq::new(i as nat, |k: int| self@[len - 1 - k]));
        }
        assert(frames_view(v@) =~= self@.reverse());
        Sequence { frames: v, framerate: self.framerate }
    }

    /// Resamples to `new_framerate`, keeping the duration: nearest previous
    /// frame, never a blend. A sequence is never empty, so the new rate must
    /// leave at least one frame.
    pub fn change_framerate(&self, new_framerate: Ratio) -> (r: Self)
        requires
            self.wf(),
            new_framerate.is_rate(),
            1 <= resampled_len(self@.len(), self.rate(), new_framerate) <= usize::MAX,
        ensures
            r.wf(),
            r@ == resample(self@, self.rate(), new_framerate),
            r.rate() == new_framerate,
    {
        let len = self.frames.len();
        let old = self.framerate;
        let new = new_framerate;
        assert(len as int * new.num as int * old.den as int <= 0xffff_ffff_ffff_ffff * 0xffff_ffff
            * 0xffff_ffff) by (nonlinear_arith)
            requires len <= 0xffff_ffff_ffff_ffff, new.num <= 0xffff_ffff, old.den <= 0xffff_ffff;
        assert(len as int * new.num as int <= 0xffff_ffff_ffff_ffff * 0xffff_ffff)
            by (nonlinear_arith)
            requires len <= 0xffff_ffff_ffff_ffff, new.num <= 0xffff_ffff;
        let x: u128 = len as u128 * new.num as u128 * old.den as u128;
        assert(new.den as int * old.num as int > 0) by (nonlinear_arith)
            requires new.den > 0, old.num > 0;
        proof {
            lemma_mul_u32(new.den, old.num);
            lemma_mul_u32(new.num, old.den);
        }
        assert(new.num as int * old.den as int > 0) by (nonlinear_arith)
            requires new.num > 0, old.den > 0;
        let y: u128 = new.den as u128 * old.num as u128;
        let d: u128 = new.num as u128 * old.den as u128;
        let q = x / y;
        let m = x % y;
        proof {
            vstd::arithmetic::div_mod::lemma_fundamental_div_mod(x as int, y as int);
            vstd::arithmetic::div_mod::lemma_mod_bound(x as int, y as int);
            if 2 * m >= y {
                assert(q < x) by (nonlinear_arith)
                    requires x == y * q + m, y >= 1, m >= 1, q >= 0;
            }
        }
        let new_len_wide: u128 = if 2 * m >= y { q + 1 } else { q };
        let new_len = new_len_wide as usize;
        let mut v: Vec<Frame> = Vec::new();
        let mut i: usize = 0;
        while i < new_len
            invariant
                len == self@.len(),
                len > 0,
                self.wf(),
                old == self.rate(),
                new.is_rate(),
                y == new.den as int * old.num as int,
                y <= 0xffff_ffff * 0xffff_ffff,
                d == new.num as int * old.den as int,
                d > 0,
                new_len == resampled_len(len as nat, old, new),
                i <= new_len,
                v@.len() == i,
                frames_view(v@) == Seq::new(
                    i as nat,
                    |k: int| self@[source_index(k, len as nat, old, new)],
                ),
            decreases new_len - i,
        {
            assert(i as int * y <= 0xffff_ffff_ffff_ffff * (0xffff_ffff * 0xffff_ffff))
                by (nonlinear_arith)
                requires i <= 0xffff_ffff_ffff_ffff, 0 <= y <= 0xffff_ffff * 0xffff_ffff;
            let s = i as u128 * y / d;
            assert(s as int == i as int * new.den as int * old.num as int / (d as int)) by {
                assert(i as int * y == i as int * new.den as int * old.num as int)
                    by (nonlinear_arith)
                    requires y == new.den as int * old.num as int;
            }
            let k: usize = if s > (len - 1) as u128 { len - 1 } else { s as usize };
            copy_frame_at(&self.frames, k, &mut v);
            i += 1;
            assert(frames_view(v@) =~= Seq::new(
                i as nat,
                |k: int| self@[source_index(k, len as nat, old, new)],
            ));
        }
        assert(frames_view(v@) =~= resample(self@, old, new));
        Sequence { frames: v, framerate: new }
    }

    /// The faster of the two rates, as it is computed.
    fn faster(a: Ratio, b: Ratio) -> (r: Ratio)
        ensures
            r == max_rate(a, b),
    {
        proof {
            lemma_mul_u32(a.num, b.den);
            lemma_mul_u32(b.num, a.den);
        }
        if a.num as u64 * b.den as u64 >= b.num as u64 * a.den as u64 {
            a
        } else {
            b
        }
    }

    /// Overlays two sequences: both are resampled to the faster rate, the
    /// shorter is padded with empty frames, and frames are summed pixel by pixel.
    pub fn add(&self, other: &Self) -> (r: Self)
        requires
            self.wf(),
            other.wf(),
            resampled_len(self@.len(), self.rate(), max_rate(self.rate(), other.rate()))
                <= usize::MAX,
            resampled_len(other@.len(), other.rate(), max_rate(self.rate(), other.rate()))
                <= usize::MAX,
        ensures
            r.wf(),
            r.rate() == max_rate(self.rate(), other.rate()),
            r@ == frames_sum(
                resample(self@, self.rate(), r.rate()),
                resample(other@, other.rate(), r.rate()),
            ),
    {
        let framerate = Self::faster(self.framerate, other.framerate);
        proof {
            lemma_upsample_len(self@.len(), self.rate(), framerate);
            lemma_upsample_len(other@.len(), other.rate(), framerate);
        }
        let first_seq = self.change_framerate(framerate);
        let second_seq = other.change_framerate(framerate);
        let n1 = first_seq.frames.len();
        let n2 = second_seq.frames.len();
        let new_len = if n1 >= n2 { n1 } else { n2 };
        let empty = Frame(Vec::new());
        let mut v: Vec<Frame> = Vec::new();
        let mut i: usize = 0;
        while i < new_len
            invariant
                n1 == first_seq@.len(),
                n2 == second_seq@.len(),
                first_seq@ == frames_view(first_seq.frames@),
                second_seq@ == frames_view(second_seq.frames@),
                empty@ == Seq::<LED>::empty(),
                new_len == frames_sum(first_seq@, second_seq@).len(),
                i <= new_len,
                v@.len() == i,
                frames_view(v@) == frames_sum(first_seq@, second_seq@).subrange(0, i as int),
            decreases new_len - i,
        {
            let f1 = if i < n1 { &first_seq.frames[i] } else { &empty };
            let f2 = if i < n2 { &second_seq.frames[i] } else { &empty };
            v.push(f1.add(f2));
            i += 1;
            assert(frames_view(v@) =~= frames_sum(first_seq@, second_seq@).subrange(0, i as int));
        }
        assert(frames_view(v@) =~= frames_sum(first_seq@, second_seq@));
        Sequence { frames: v, framerate }
    }

    /// `other` played after `self`, both at the faster of their rates.
    pub fn concat(&self, other: &Self) -> (r: Self)
        requires
            self.wf(),
            other.wf(),
            resampled_len(self@.len(), self.rate(), max_rate(self.rate(), other.rate()))
                + resampled_len(other@.len(), other.rate(), max_rate(self.rate(), other.rate()))
                <= usize::MAX,
        ensures
            r.wf(),
            r.rate() == max_rate(self.rate(), other.rate()),
            r@ == resample(self@, self.rate(), r.rate()) + resample(
                other@,
                other.rate(),
                r.rate(),
            ),
    {
        let framerate = Self::faster(self.framerate, other.framerate);
        proof {
            lemma_upsample_len(self@.len(), self.rate(), framerate);
            lemma_upsample_len(other@.len(), other.rate(), framerate);
        }
        let first_seq = self.change_framerate(framerate);
        let second_seq = other.change_framerate(framerate);
        let mut frames = first_seq.frames;
        let mut rest = second_seq.frames;
        let ghost a = frames@;
        let ghost b = rest@;
        frames.append(&mut rest);
        assert(frames_view(frames@) =~= frames_view(a) + frames_view(b));
        Sequence { frames, framerate }
    }

    /// The frame list rotated to the left by `mid` places, modulo its length.
    pub fn shl(&self, mid: usize) -> (r: Self)
        requires
            self.wf(),
        ensures
            r.wf(),
            r@ == rotate_left_seq(self@, mid as nat),
            r.rate() == self.rate(),
    {
        let len = self.frames.len();
        let m = mid % len;
        let frames = rotated_frames(&self.frames, m);
        proof {
            let l = len as int;
            assert forall|i: int| 0 <= i < l implies #[trigger] ((i + m) % l) == (i + mid) % l by {
                vstd::arithmetic::div_mod::lemma_add_mod_noop(i, mid as int, l);
                vstd::arithmetic::div_mod::lemma_mod_twice(mid as int, l);
                vstd::arithmetic::div_mod::lemma_add_mod_noop(i, m as int, l);
            }
            assert(frames_view(frames@) =~= rotate_left_seq(self@, mid as nat));
        }
        Sequence { frames, framerate: self.framerate }
    }

    /// The frame list rotated to the right by `mid` places, modulo its length.
    pub fn shr(&self, mid: usize) -> (r: Self)
        requires
            self.wf(),
        ensures
            r.wf(),
            r@ == rotate_right_seq(self@, mid as nat),
            r.rate() == self.rate(),
    {
        let len = self.frames.len();
        let m = mid % len;
        let c = if m == 0 { 0 } else { len - m };
        proof {
            crate::frame::lemma_rotate_right_as_left(self@, mid as nat);
            if m != 0 {
                vstd::arithmetic::div_mod::lemma_small_mod((len - m) as nat, len as nat);
            } else {
                vstd::arithmetic::div_mod::lemma_mod_self_0(len as int);
            }
        }
        Sequence { frames: rotated_frames(&self.frames, c), framerate: self.framerate }
    }

    /// The frame list played `num` times in a row, at the same rate.
    pub fn repeat(&self, num: usize) -> (r: Self)
        requires
            self.wf(),
            num >= 1,
            self@.len() * num <= usize::MAX,
        ensures
            r.wf(),
            r@ == repeat_frames(self@, num as nat),
            r.rate() == self.rate(),
    {
        let len = self.frames.len();
        let total = len * num;
        assert(total >= len) by (nonlinear_arith)
            requires total == len * num, num >= 1;
        let mut v: Vec<Frame> = Vec::new();
        let mut i: usize = 0;
        while i < total
            invariant
                len == self@.len(),
                len > 0,
                total == len * num,
                i <= total,
                v@.len() == i,
                frames_view(v@) == Seq::new(i as nat, |k: int| self@[k % (len as int)]),
            decreases total - i,
        {
            copy_frame_at(&self.frames, i % len, &mut v);
            i += 1;
            assert(frames_view(v@) =~= Seq::new(i as nat, |k: int| self@[k % (len as int)]));
        }
        assert(frames_view(v@) =~= repeat_frames(self@, num as nat));
        Sequence { frames: v, framerate: self.framerate }
    }

    /// Brightness envelope: over every `2 * steps` frames the factor falls
    /// linearly from 1 to `lows` and climbs back. A sequence slower than 30
    /// frames per second is first resampled to 30.
    pub fn pulse(&self, steps: usize, lows: Ratio) -> (r: Self)
        requires
            self.wf(),
            steps >= 1,
            lows.valid(),
            !rate_ge(self.rate(), smooth_rate()) ==> resampled_len(
                self@.len(),
                self.rate(),
                smooth_rate(),
            ) <= usize::MAX,
        ensures
            r.wf(),
            r@ == pulse_frames(pulse_base(self@, self.rate()), steps as int, lows),
            r.rate() == pulse_rate(self.rate()),
    {
        if self.framerate.num as u64 >= 30 * self.framerate.den as u64 {
            let frames = pulse_all(&self.frames, steps, lows);
            Sequence { frames, framerate: self.framerate }
        } else {
            let smooth = Ratio { num: 30, den: 1 };
            proof {
                lemma_upsample_len(self@.len(), self.rate(), smooth);
            }
            let seq = self.change_framerate(smooth);
            let frames = pulse_all(&seq.frames, steps, lows);
            Sequence { frames, framerate: smooth }
        }
    }
}

/// `v` rotated to the left by `m < len` places.
fn rotated_frames(v: &Vec<Frame>, m: usize) -> (r: Vec<Frame>)
    requires
        m < v@.len(),
    ensures
        frames_view(r@) == rotate_left_seq(frames_view(v@), m as nat),
{
    let len = v.len();
    let mut r: Vec<Frame> = Vec::new();
    let mut i: usize = 0;
    while i < len
        invariant
            len == v@.len(),
            m < len,
            i <= len,
            r@.len() == i,
            frames_view(r@) == Seq::new(i as nat, |k: int| v@[(k + m) % (len as int)]@),
        decreases len - i,
    {
        let k = if i < len - m { i + m } else { i - (len - m) };
        assert(k == (i + m) % (len as int)) by {
            if i < len - m {
                vstd::arithmetic::div_mod::lemma_small_mod(k as nat, len as nat);
            } else {
                vstd::arithmetic::div_mod::lemma_mod_sub_multiples_vanish((i + m) as int, len as int);
                vstd::arithmetic::div_mod::lemma_small_mod(k as nat, len as nat);
            }
        }
        copy_frame_at(v, k, &mut r);
        i += 1;
        assert(frames_view(r@) =~= Seq::new(i as nat, |k: int| v@[(k + m) % (len as int)]@));
    }
    assert(frames_view(r@) =~= rotate_left_seq(frames_view(v@), m as nat));
    r
}

/// Every frame of `v` scaled by the pulse envelope.
fn pulse_all(v: &Vec<Frame>, steps: usize, lows: Ratio) -> (r: Vec<Frame>)
    requires
        steps >= 1,
        lows.valid(),
    ensures
        frames_view(r@) == pulse_frames(frames_view(v@), steps as int, lows),
{
    let len = v.len();
    let period: u128 = 2 * steps as u128;
    let ld = lows.den as u128;
    let ln = lows.num as u128;
    let mut r: Vec<Frame> = Vec::new();
    let mut i: usize = 0;
    while i < len
        invariant
            len == v@.len(),
            steps >= 1,
            lows.valid(),
            period == 2 * steps,
            ld == lows.den,
            ln == lows.num,
            i <= len,
            r@.len() == i,
            frames_view(r@) == pulse_frames(frames_view(v@), steps as int, lows).subrange(
                0,
                i as int,
            ),
        decreases len - i,
    {
        let phase = i as u128 % period;
        let step: u128 = if phase <= steps as u128 { phase } else { period - phase };
        assert(step <= steps) by {
            vstd::arithmetic::div_mod::lemma_mod_bound(i as int, period as int);
        }
        let rest: u128 = steps as u128 - step;
        assert(ld * rest + ln * step <= 0xffff_ffff * (steps as int)) by (nonlinear_arith)
            requires ld <= 0xffff_ffff, ln <= 0xffff_ffff, rest + step == steps, rest >= 0, step >= 0;
        assert(0xffff_ffff * (steps as int) < 0x1_0000_0000_0000_0000_0000_0000) by (nonlinear_arith)
            requires steps <= 0xffff_ffff_ffff_ffff;
        assert(ld * (steps as int) > 0 && ld * (steps as int) <= 0xffff_ffff * (steps as int))
            by (nonlinear_arith)
            requires ld >= 1, ld <= 0xffff_ffff, steps >= 1;
        let num: u128 = ld * rest + ln * step;
        let den: u128 = ld * steps as u128;
        let f = v[i].scale_by(num, den);
        r.push(f);
        i += 1;
        assert(frames_view(r@) =~= pulse_frames(frames_view(v@), steps as int, lows).subrange(
            0,
            i as int,
        ));
    }
    assert(frames_view(r@) =~= pulse_frames(frames_view(v@), steps as int, lows));
    r
}

} // verus!
