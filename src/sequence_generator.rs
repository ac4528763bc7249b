use vstd::prelude::*;
use vstd::pervasive::unreached;
use crate::error::LedError;
use crate::frame::{Frame, frame_sum, rotate_left_seq, rotate_right_seq};
use crate::led::{LED, black, led_of};
use crate::ratio::Ratio;
use crate::sequence::{
    Sequence,
    frames_sum,
    frames_view,
    lemma_resample_same_rate,
    max_rate,
    pulse_frames,
    repeat_frames,
    resample,
    resampled_len,
};

verus! {

/// Builders of the standard animations.
pub struct SequenzGenerator;

/// `n` pixels of one colour.
pub open spec fn solid_frame(n: nat, color: (u8, u8, u8)) -> Seq<LED> {
    Seq::new(n, |p: int| led_of(color))
}

/// A blur pixel `j` places from the dot, for a blur of length `blur`:
/// each channel divided by `blur + 1` first, then multiplied by `blur + 1 - j`.
pub open spec fn blur_led(color: (u8, u8, u8), blur: int, j: int) -> LED {
    LED(
        (color.0 as int / (blur + 1) * (blur + 1 - j)) as u8,
        (color.1 as int / (blur + 1) * (blur + 1 - j)) as u8,
        (color.2 as int / (blur + 1) * (blur + 1 - j)) as u8,
    )
}

/// The largest `j` in `1..=k` whose pixel `(i - j) mod n` is `p`, if any.
pub open spec fn last_behind(i: int, p: int, n: int, k: int) -> Option<int>
    decreases k,
{
    if k <= 0 {
        None
    } else if (i - k) % n == p {
        Some(k)
    } else {
        last_behind(i, p, n, k - 1)
    }
}

/// The largest `j` in `1..=k` whose pixel `(i + j) mod n` is `p`, if any.
pub open spec fn last_ahead(i: int, p: int, n: int, k: int) -> Option<int>
    decreases k,
{
    if k <= 0 {
        None
    } else if (i + k) % n == p {
        Some(k)
    } else {
        last_ahead(i, p, n, k - 1)
    }
}

/// Pixel `p` of the dot frame whose dot stands at `i`, once the first `k`
/// pixels of a trail of length `trail` are drawn. The trail is written after
/// the dot, nearest pixel first, so where it wraps onto itself the farthest
/// offset wins.
pub open spec fn trail_pixel(
    n: int,
    color: (u8, u8, u8),
    i: int,
    p: int,
    trail: int,
    k: int,
) -> LED {
    match last_behind(i, p, n, k) {
        Some(j) => blur_led(color, trail, j),
        None => if p == i { led_of(color) } else { black() },
    }
}

/// Pixel `p` of the dot frame whose dot stands at `i`: the leading blur,
/// written last, wins over the trail and the dot.
pub open spec fn dot_pixel(
    n: int,
    color: (u8, u8, u8),
    i: int,
    p: int,
    trail: int,
    head: int,
) -> LED {
    match last_ahead(i, p, n, head) {
        Some(j) => blur_led(color, head, j),
        None => trail_pixel(n, color, i, p, trail, trail),
    }
}

/// The frames of a travelling dot: frame `i` has the dot at pixel `i`.
pub open spec fn dot_frames(n: nat, color: (u8, u8, u8), trail: nat, head: nat) -> Seq<
    Seq<LED>,
> {
    Seq::new(
        n,
        |i: int| Seq::new(n, |p: int| dot_pixel(n as int, color, i, p, trail as int, head as int)),
    )
}

/// The six dots of the `custom` animation, shifted and reversed, summed.
pub open spec fn custom_frames(n: nat) -> Seq<Seq<LED>> {
    let green = dot_frames(n, (0, 255, 0), 10, 10);
    let red = rotate_right_seq(dot_frames(n, (255, 0, 0), 10, 10), 50);
    let blue = rotate_right_seq(dot_frames(n, (0, 0, 255), 10, 10), 100);
    let yellow = dot_frames(n, (255, 255, 0), 10, 10).reverse();
    let magenta = rotate_right_seq(dot_frames(n, (255, 0, 255), 10, 10), 50).reverse();
    let cyan = rotate_right_seq(dot_frames(n, (0, 255, 255), 10, 10), 100).reverse();
    frames_sum(
        frames_sum(frames_sum(frames_sum(frames_sum(green, red), blue), yellow), magenta),
        cyan,
    )
}

/// The still pattern of `red_alert`: a blurred red dot, moved 15 places, laid
/// over copies of itself turned 30, 60, 90 and 120 places to the right.
pub open spec fn alert_frame(n: nat) -> Seq<LED> {
    let f = rotate_left_seq(dot_frames(n, (255, 0, 0), 13, 13), 15)[0];
    frame_sum(
        frame_sum(
            frame_sum(frame_sum(f, rotate_right_seq(f, 30)), rotate_right_seq(f, 60)),
            rotate_right_seq(f, 90),
        ),
        rotate_right_seq(f, 120),
    )
}

/// The `red_alert` animation: the still pattern held for 150 seconds and
/// drawn at 30 frames per second under a pulse of 30 steps down to a fifth.
pub open spec fn red_alert_frames(n: nat) -> Seq<Seq<LED>> {
    pulse_frames(
        resample(
            repeat_frames(seq![alert_frame(n)], 150),
            Ratio { num: 1, den: 1 },
            Ratio { num: 30, den: 1 },
        ),
        30,
        Ratio { num: 1, den: 5 },
    )
}

/// A frame of `n` pixels of one colour.
fn solid(n: usize, color: (u8, u8, u8)) -> (r: Frame)
    ensures
        r@ == solid_frame(n as nat, color),
{
    let mut v: Vec<LED> = Vec::new();
    let mut i: usize = 0;
    while i < n
        invariant
            i <= n,
            v@ == solid_frame(i as nat, color),
        decreases n - i,
    {
        v.push(LED::from_color(color));
        i += 1;
        assert(v@ =~= solid_frame(i as nat, color));
    }
    Frame(v)
}

/// One channel of a blur pixel.
fn blur_channel(c: u8, blur: usize, j: usize) -> (r: u8)
    requires
        1 <= j <= blur,
    ensures
        r == (c as int / (blur + 1) * (blur + 1 - j)) as u8,
        r as int == c as int / (blur + 1) * (blur + 1 - j),
{
    let dev: u128 = blur as u128 + 1;
    let mul: u128 = dev - j as u128;
    let part = c as u128 / dev;
    assert(part * mul <= c) by (nonlinear_arith)
        requires
            part == c as int / dev as int,
            dev >= 1,
            1 <= mul <= dev,
    {
        vstd::arithmetic::div_mod::lemma_fundamental_div_mod(c as int, dev as int);
        vstd::arithmetic::div_mod::lemma_mod_bound(c as int, dev as int);
        assert(part * mul <= part * dev) by (nonlinear_arith)
            requires part >= 0, mul <= dev;
    }
    (part * mul) as u8
}

fn blur_pixel(color: (u8, u8, u8), blur: usize, j: usize) -> (r: LED)
    requires
        1 <= j <= blur,
    ensures
        r == blur_led(color, blur as int, j as int),
{
    LED(blur_channel(color.0, blur, j), blur_channel(color.1, blur, j), blur_channel(color.2, blur, j))
}

/// The frame of a travelling dot at pixel `i`.
fn dot_frame(n: usize, color: (u8, u8, u8), i: usize, trail: usize, head: usize) -> (r: Frame)
    requires
        i < n,
    ensures
        r@ == Seq::new(
            n as nat,
            |p: int| dot_pixel(n as int, color, i as int, p, trail as int, head as int),
        ),
{
    let mut v: Vec<LED> = Vec::new();
    let mut k: usize = 0;
    while k < n
        invariant
            k <= n,
            v@ == Seq::new(k as nat, |p: int| black()),
        decreases n - k,
    {
        v.push(LED(0, 0, 0));
        k += 1;
        assert(v@ =~= Seq::new(k as nat, |p: int| black()));
    }
    v.set(i, LED::from_color(color));
    let ghost ni = n as int;
    let ghost ii = i as int;
    assert(v@ =~= Seq::new(n as nat, |p: int| trail_pixel(ni, color, ii, p, trail as int, 0)));
    let mut j: usize = 0;
    while j < trail
        invariant
            i < n,
            ni == n,
            ii == i,
            j <= trail,
            v@ == Seq::new(n as nat, |p: int| trail_pixel(ni, color, ii, p, trail as int, j as int)),
        decreases trail - j,
    {
        j += 1;
        let jm = j % n;
        let idx = if jm <= i { i - jm } else { n - (jm - i) };
        assert(idx == (ii - j) % ni) by {
            vstd::arithmetic::div_mod::lemma_fundamental_div_mod(j as int, ni);
            let q = (j as int) / ni;
            if jm <= i {
                assert(ii - j == ni * (-q) + (ii - jm)) by (nonlinear_arith)
                    requires j == ni * q + jm;
                vstd::arithmetic::div_mod::lemma_mod_multiples_vanish(-q, ii - jm, ni);
                vstd::arithmetic::div_mod::lemma_small_mod((ii - jm) as nat, ni as nat);
            } else {
                assert(ii - j == ni * (-q - 1) + (ni - (jm - ii))) by (nonlinear_arith)
                    requires j == ni * q + jm;
                vstd::arithmetic::div_mod::lemma_mod_multiples_vanish(-q - 1, ni - (jm - ii), ni);
                vstd::arithmetic::div_mod::lemma_small_mod((ni - (jm - ii)) as nat, ni as nat);
            }
        }
        let ghost prev = v@;
        v.set(idx, blur_pixel(color, trail, j));
        assert forall|p: int| 0 <= p < ni implies v@[p] == trail_pixel(ni, color, ii, p, trail as int, j as int)
            by {
            assert(last_behind(ii, p, ni, j as int) == if (ii - j) % ni == p {
                Some(j as int)
            } else {
                last_behind(ii, p, ni, j - 1)
            });
            if p != idx {
                assert(prev[p] == trail_pixel(ni, color, ii, p, trail as int, j - 1));
            }
        }
        assert(v@ =~= Seq::new(n as nat, |p: int| trail_pixel(ni, color, ii, p, trail as int, j as int)));
    }
    assert(v@ =~= Seq::new(n as nat, |p: int| dot_pixel(ni, color, ii, p, trail as int, 0)));
    let mut j: usize = 0;
    while j < head
        invariant
            i < n,
            ni == n,
            ii == i,
            j <= head,
            v@ == Seq::new(
                n as nat,
                |p: int|
                    match last_ahead(ii, p, ni, j as int) {
                        Some(k) => blur_led(color, head as int, k),
                        None => trail_pixel(ni, color, ii, p, trail as int, trail as int),
                    },
            ),
        decreases head - j,
    {
        j += 1;
        let jm = j % n;
        let idx = if jm < n - i { i + jm } else { jm - (n - i) };
        assert(idx == (ii + j) % ni) by {
            vstd::arithmetic::div_mod::lemma_fundamental_div_mod(j as int, ni);
            let q = (j as int) / ni;
            if jm < n - i {
                assert(ii + j == ni * q + (ii + jm)) by (nonlinear_arith)
                    requires j == ni * q + jm;
                vstd::arithmetic::div_mod::lemma_mod_multiples_vanish(q, ii + jm, ni);
                vstd::arithmetic::div_mod::lemma_small_mod((ii + jm) as nat, ni as nat);
            } else {
                assert(ii + j == ni * (q + 1) + (jm - (ni - ii))) by (nonlinear_arith)
                    requires j == ni * q + jm;
                vstd::arithmetic::div_mod::lemma_mod_multiples_vanish(q + 1, jm - (ni - ii), ni);
                vstd::arithmetic::div_mod::lemma_small_mod((jm - (ni - ii)) as nat, ni as nat);
            }
        }
        v.set(idx, blur_pixel(color, head, j));
        assert(v@ =~= Seq::new(
            n as nat,
            |p: int|
                match last_ahead(ii, p, ni, j as int) {
                    Some(k) => blur_led(color, head as int, k),
                    None => trail_pixel(ni, color, ii, p, trail as int, trail as int),
                },
        ));
    }
    assert(v@ =~= Seq::new(
        n as nat,
        |p: int| dot_pixel(ni, color, ii, p, trail as int, head as int),
    ));
    Frame(v)
}

/// A checked sequence from frames and a rate already known to be valid.
fn sequence_of(frames: Vec<Frame>, framerate: Ratio) -> (r: Sequence)
    requires
        frames@.len() > 0,
        framerate.is_rate(),
    ensures
        r.wf(),
        r@ == frames_view(frames@),
        r.rate() == framerate,
{
    match Sequence::new(frames, framerate) {
        Ok(s) => s,
        Err(_) => unreached(),
    }
}

/// The sum of two sequences that share one rate.
fn add_same_rate(a: &Sequence, b: &Sequence) -> (r: Sequence)
    requires
        a.wf(),
        b.wf(),
        a.rate() == b.rate(),
    ensures
        r.wf(),
        r.rate() == a.rate(),
        r@ == frames_sum(a@, b@),
{
    proof {
        lemma_resample_same_rate(a@, a.rate());
        lemma_resample_same_rate(b@, b.rate());
        assert(max_rate(a.rate(), b.rate()) == a.rate());
        assert(resampled_len(a@.len(), a.rate(), a.rate()) == a@.len());
        assert(resampled_len(b@.len(), b.rate(), b.rate()) == b@.len());
    }
    a.add(b)
}

impl SequenzGenerator {
    /// One frame of `num_of_leds` pixels in `color`, at one frame per second.
    pub fn create_static(num_of_leds: usize, color: (u8, u8, u8)) -> (r: Sequence)
        ensures
            r.wf(),
            r@ == seq![solid_frame(num_of_leds as nat, color)],
            r.rate() == (Ratio { num: 1, den: 1 }),
    {
        let on = solid(num_of_leds, color);
        let frames = vec![on];
        let r = sequence_of(frames, Ratio::whole(1));
        assert(r@ =~= seq![solid_frame(num_of_leds as nat, color)]);
        r
    }

    /// Two frames, all on and all off, at `frequenz` frames per second.
    pub fn create_blink(num_of_leds: usize, color: (u8, u8, u8), frequenz: Ratio) -> (r: Sequence)
        requires
            frequenz.is_rate(),
        ensures
            r.wf(),
            r@ == seq![
                solid_frame(num_of_leds as nat, color),
                solid_frame(num_of_leds as nat, (0u8, 0u8, 0u8)),
            ],
            r.rate() == frequenz,
    {
        let on = solid(num_of_leds, color);
        let off = solid(num_of_leds, (0, 0, 0));
        let frames = vec![on, off];
        let r = sequence_of(frames, frequenz);
        assert(r@ =~= seq![
            solid_frame(num_of_leds as nat, color),
            solid_frame(num_of_leds as nat, (0u8, 0u8, 0u8)),
        ]);
        r
    }

    /// A dot travelling one pixel per frame, with a fading trail of
    /// `blur_trail` pixels behind it and `blur_head` pixels ahead of it,
    /// wrapping around the strip.
    pub fn create_dot(
        num_of_leds: usize,
        color: (u8, u8, u8),
        frequenz: Ratio,
        blur_trail: usize,
        blur_head: usize,
    ) -> (r: Sequence)
        requires
            num_of_leds >= 1,
            frequenz.is_rate(),
        ensures
            r.wf(),
            r@ == dot_frames(num_of_leds as nat, color, blur_trail as nat, blur_head as nat),
            r.rate() == frequenz,
    {
        let n = num_of_leds;
        let ghost want = dot_frames(n as nat, color, blur_trail as nat, blur_head as nat);
        let mut v: Vec<Frame> = Vec::new();
        let mut i: usize = 0;
        while i < n
            invariant
                i <= n,
                v@.len() == i,
                frames_view(v@) == want.subrange(0, i as int),
                want == dot_frames(n as nat, color, blur_trail as nat, blur_head as nat),
            decreases n - i,
        {
            v.push(dot_frame(n, color, i, blur_trail, blur_head));
            i += 1;
            assert(frames_view(v@) =~= want.subrange(0, i as int));
        }
        assert(frames_view(v@) =~= want);
        sequence_of(v, frequenz)
    }

    /// Six coloured dots, shifted in time and some played backwards, overlaid.
    pub fn custom(num_of_leds: usize) -> (r: Sequence)
        requires
            num_of_leds >= 1,
        ensures
            r.wf(),
            r@ == custom_frames(num_of_leds as nat),
            r.rate() == (Ratio { num: 30, den: 1 }),
    {
        let n = num_of_leds;
        let freq = Ratio::whole(30);
        let length: usize = 10;
        let green = SequenzGenerator::create_dot(n, (0, 255, 0), freq, length, length);
        let red = SequenzGenerator::create_dot(n, (255, 0, 0), freq, length, length).shr(50);
        let blue = SequenzGenerator::create_dot(n, (0, 0, 255), freq, length, length).shr(100);
        let yellow = SequenzGenerator::create_dot(n, (255, 255, 0), freq, length, length).reverse();
        let magenta = SequenzGenerator::create_dot(n, (255, 0, 255), freq, length, length).shr(
            50,
        ).reverse();
        let cyan = SequenzGenerator::create_dot(n, (0, 255, 255), freq, length, length).shr(
            100,
        ).reverse();
        let s = add_same_rate(&green, &red);
        let s = add_same_rate(&s, &blue);
        let s = add_same_rate(&s, &yellow);
        let s = add_same_rate(&s, &magenta);
        add_same_rate(&s, &cyan)
    }

    /// A still pattern of red dots, held and breathing slowly.
    pub fn red_alert(num_of_leds: usize) -> (r: Sequence)
        requires
            num_of_leds >= 1,
        ensures
            r.wf(),
            r@ == red_alert_frames(num_of_leds as nat),
            r.rate() == (Ratio { num: 30, den: 1 }),
    {
        let length: usize = 13;
        let seq = SequenzGenerator::create_dot(
            num_of_leds,
            (255, 0, 0),
            Ratio::whole(20),
            length,
            length,
        ).shl(15);
        let f1 = &seq.get_frames()[0];
        assert(f1@ == seq@[0]);
        let n = f1.add(&turned(f1, 30));
        let n = n.add(&turned(f1, 60));
        let n = n.add(&turned(f1, 90));
        let n = n.add(&turned(f1, 120));
        let s1 = sequence_of(vec![n], Ratio::whole(1));
        assert(s1@ =~= seq![alert_frame(num_of_leds as nat)]);
        let s = s1.repeat(150);
        assert(resampled_len(150, Ratio { num: 1, den: 1 }, Ratio { num: 30, den: 1 }) == 4500);
        s.pulse(30, Ratio::new(1, 5))
    }

    /// `frame` turned one more place to the right in each of `num_of_leds`
    /// frames; an empty frame cannot be turned.
    pub fn create_scrolling_frame(num_of_leds: usize, frame: &Frame, framerate: Ratio) -> (r:
        Result<Sequence, LedError>)
        ensures
            frame@.len() == 0 && num_of_leds > 0 ==> r == Err::<Sequence, LedError>(
                LedError::EmptyFrame,
            ),
            num_of_leds == 0 ==> r == Err::<Sequence, LedError>(LedError::NoFrames),
            frame@.len() > 0 && num_of_leds > 0 && !framerate.is_rate() ==> r == Err::<
                Sequence,
                LedError,
            >(LedError::InvalidFramerate),
            frame@.len() > 0 && num_of_leds > 0 && framerate.is_rate() ==> r is Ok,
            r matches Ok(s) ==> s.wf() && s.rate() == framerate && s@ == Seq::new(
                num_of_leds as nat,
                |i: int| rotate_right_seq(frame@, i as nat),
            ),
    {
        if num_of_leds > 0 && frame.len() == 0 {
            return Err(LedError::EmptyFrame);
        }
        let mut v: Vec<Frame> = Vec::new();
        let mut i: usize = 0;
        while i < num_of_leds
            invariant
                num_of_leds > 0 ==> frame@.len() > 0,
                i <= num_of_leds,
                v@.len() == i,
                frames_view(v@) == Seq::new(i as nat, |k: int| rotate_right_seq(frame@, k as nat)),
            decreases num_of_leds - i,
        {
            let t = turned(frame, i);
            let ghost prev = v@;
            v.push(t);
            assert(v@ == prev.push(t));
            assert(frames_view(v@)[i as int] == rotate_right_seq(frame@, i as nat));
            assert(frames_view(v@).subrange(0, i as int) =~= frames_view(prev));
            assert forall|k: int| 0 <= k < i + 1 implies #[trigger] frames_view(v@)[k]
                == rotate_right_seq(frame@, k as nat) by {
                if k < i {
                    assert(frames_view(v@)[k] == frames_view(prev)[k]);
                }
            }
            i += 1;
            assert(frames_view(v@) =~= Seq::new(
                i as nat,
                |k: int| rotate_right_seq(frame@, k as nat),
            ));
        }
        Sequence::new(v, framerate)
    }
}

/// `f` turned `mid` places to the right, for a frame known not to be empty.
fn turned(f: &Frame, mid: usize) -> (r: Frame)
    requires
        f@.len() > 0,
    ensures
        r@ == rotate_right_seq(f@, mid as nat),
{
    match f.shr(mid) {
        Ok(t) => t,
        Err(_) => unreached(),
    }
}

} // verus!
