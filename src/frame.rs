use vstd::prelude::*;
use crate::error::LedError;
use crate::led::{LED, add_led, black, scale_led};
use crate::ratio::Ratio;

verus! {

/// The colours of the whole strip at one instant, in physical order.
#[derive(Debug)]
pub struct Frame(pub Vec<LED>);

impl View for Frame {
    type V = Seq<LED>;

    open spec fn view(&self) -> Seq<LED> {
        self.0@
    }
}

/// The pixel at `i`, or black past the end of the frame.
pub open spec fn pixel_or_black(f: Seq<LED>, i: int) -> LED {
    if 0 <= i < f.len() { f[i] } else { black() }
}

/// Pixel-wise sum of two frames; the shorter one counts as padded with black.
pub open spec fn frame_sum(a: Seq<LED>, b: Seq<LED>) -> Seq<LED> {
    let n = if a.len() >= b.len() { a.len() } else { b.len() };
    Seq::new(n, |i: int| add_led(pixel_or_black(a, i), pixel_or_black(b, i)))
}

/// The sum of two frames is as long as the longer one, and each of its
/// channels is the sum of the two channels, capped at 255.
pub proof fn lemma_frame_sum_len_and_cap(a: Seq<LED>, b: Seq<LED>)
    ensures
        frame_sum(a, b).len() == if a.len() >= b.len() { a.len() } else { b.len() },
        forall|i: int|
            0 <= i < frame_sum(a, b).len() ==> {
                let s = #[trigger] frame_sum(a, b)[i];
                let x = pixel_or_black(a, i);
                let y = pixel_or_black(b, i);
                &&& s.0 <= 255 && s.1 <= 255 && s.2 <= 255
                &&& s.0 as int == vstd::math::min(x.0 as int + y.0 as int, 255)
                &&& s.1 as int == vstd::math::min(x.1 as int + y.1 as int, 255)
                &&& s.2 as int == vstd::math::min(x.2 as int + y.2 as int, 255)
            },
{
}

/// `s` rotated to the left by `n` places: element `i` is the old element `i + n`.
pub open spec fn rotate_left_seq<A>(s: Seq<A>, n: nat) -> Seq<A> {
    Seq::new(s.len(), |i: int| s[(i + (n as int)) % (s.len() as int)])
}

/// `s` rotated to the right by `n` places: element `i + n` is the old element `i`.
pub open spec fn rotate_right_seq<A>(s: Seq<A>, n: nat) -> Seq<A> {
    Seq::new(s.len(), |i: int| s[(i + s.len() - (n as int) % (s.len() as int)) % (s.len() as int)])
}

/// Every pixel scaled by `num / den`.
pub open spec fn scale_frame(f: Seq<LED>, num: int, den: int) -> Seq<LED> {
    Seq::new(f.len(), |i: int| scale_led(f[i], num, den))
}

/// The elements of `v` rotated to the left by `m < len` places.
fn rotated_left<A: Copy>(v: &Vec<A>, m: usize) -> (r: Vec<A>)
    requires
        m < v@.len(),
    ensures
        r@ == rotate_left_seq(v@, m as nat),
{
    let len = v.len();
    let mut r: Vec<A> = Vec::new();
    let mut i: usize = 0;
    while i < len
        invariant
            len == v@.len(),
            m < len,
            i <= len,
            r@.len() == i,
            forall|k: int| 0 <= k < i ==> r@[k] == v@[(k + m) % (len as int)],
        decreases len - i,
    {
        let k = if i < len - m { i + m } else { i - (len - m) };
        assert(k == (i + m) % (len as int)) by {
            if i < len - m {
                vstd::arithmetic::div_mod::lemma_small_mod(k as nat, len as nat);
            } else {
                vstd::arithmetic::div_mod::lemma_mod_sub_multiples_vanish((i + m) as int, len as int);
                vstd::arithmetic::div_mod::lemma_small_mod(k as nat, len as nat);
            }
        }
        r.push(v[k]);
        i += 1;
    }
    assert(r@ =~= rotate_left_seq(v@, m as nat));
    r
}

/// Rotating right by `n` is rotating left by the complement of `n mod len`.
pub proof fn lemma_rotate_right_as_left<A>(s: Seq<A>, n: nat)
    requires
        s.len() > 0,
    ensures
        rotate_right_seq(s, n) == rotate_left_seq(
            s,
            ((s.len() - (n as int) % (s.len() as int)) % (s.len() as int)) as nat,
        ),
{
    let len = s.len() as int;
    let m = (n as int) % len;
    let c = (len - m) % len;
    assert forall|i: int| 0 <= i < len implies #[trigger] ((i + len - m) % len) == (i + c) % len by {
        if m == 0 {
            vstd::arithmetic::div_mod::lemma_mod_self_0(len);
            vstd::arithmetic::div_mod::lemma_mod_add_multiples_vanish(i, len);
        } else {
            vstd::arithmetic::div_mod::lemma_small_mod((len - m) as nat, len as nat);
        }
    }
    assert(rotate_right_seq(s, n) =~= rotate_left_seq(s, c as nat));
}

impl Frame {
    pub fn len(&self) -> (r: usize)
        ensures
            r == self@.len(),
    {
        self.0.len()
    }

    pub fn get(&self, index: usize) -> (r: Option<&LED>)
        ensures
            index < self@.len() ==> r == Some(&self@[index as int]),
            index >= self@.len() ==> r is None,
    {
        if index < self.0.len() {
            Some(&self.0[index])
        } else {
            None
        }
    }

    /// Pixel-wise saturating sum; the result is as long as the longer frame.
    pub fn add(&self, other: &Self) -> (r: Self)
        ensures
            r@ == frame_sum(self@, other@),
    {
        let max = if self.0.len() >= other.0.len() { self.0.len() } else { other.0.len() };
        let mut v: Vec<LED> = Vec::new();
        let mut i: usize = 0;
        while i < max
            invariant
                max == frame_sum(self@, other@).len(),
                i <= max,
                v@.len() == i,
                forall|k: int| 0 <= k < i ==> v@[k] == frame_sum(self@, other@)[k],
            decreases max - i,
        {
            let l1 = if i < self.0.len() { self.0[i] } else { LED(0, 0, 0) };
            let l2 = if i < other.0.len() { other.0[i] } else { LED(0, 0, 0) };
            v.push(l1.add(&l2));
            i += 1;
        }
        assert(v@ =~= frame_sum(self@, other@));
        Frame(v)
    }

    /// Rotates the pixels to the left by `mid` places, taken modulo the length.
    pub fn shl(&self, mid: usize) -> (r: Result<Self, LedError>)
        ensures
            self@.len() == 0 ==> r == Err::<Self, LedError>(LedError::EmptyFrame),
            self@.len() > 0 ==> (r matches Ok(f) && f@ == rotate_left_seq(self@, mid as nat)),
    {
        let len = self.0.len();
        if len == 0 {
            return Err(LedError::EmptyFrame);
        }
        let v = rotated_left(&self.0, mid % len);
        proof {
            let l = len as int;
            let mm = (mid as int) % l;
            assert forall|i: int| 0 <= i < l implies #[trigger] ((i + mm) % l) == (i + mid) % l by {
                vstd::arithmetic::div_mod::lemma_add_mod_noop(i, mid as int, l);
                vstd::arithmetic::div_mod::lemma_mod_twice(mid as int, l);
                vstd::arithmetic::div_mod::lemma_add_mod_noop(i, mm, l);
            }
            assert(v@ =~= rotate_left_seq(self@, mid as nat));
        }
        Ok(Frame(v))
    }

    /// Rotates the pixels to the right by `mid` places, taken modulo the length.
    pub fn shr(&self, mid: usize) -> (r: Result<Self, LedError>)
        ensures
            self@.len() == 0 ==> r == Err::<Self, LedError>(LedError::EmptyFrame),
            self@.len() > 0 ==> (r matches Ok(f) && f@ == rotate_right_seq(self@, mid as nat)),
    {
        let len = self.0.len();
        if len == 0 {
            return Err(LedError::EmptyFrame);
        }
        let m = mid % len;
        let c = if m == 0 { 0 } else { len - m };
        proof {
            lemma_rotate_right_as_left(self@, mid as nat);
            if m != 0 {
                vstd::arithmetic::div_mod::lemma_small_mod((len - m) as nat, len as nat);
            } else {
                vstd::arithmetic::div_mod::lemma_mod_self_0(len as int);
            }
        }
        Ok(Frame(rotated_left(&self.0, c)))
    }

    /// The pixels in reverse order.
    pub fn reverse(&self) -> (r: Self)
        ensures
            r@ == self@.reverse(),
    {
        let len = self.0.len();
        let mut v: Vec<LED> = Vec::new();
        let mut i: usize = 0;
        while i < len
            invariant
                len == self@.len(),
                i <= len,
                v@.len() == i,
                forall|k: int| 0 <= k < i ==> v@[k] == self@[len - 1 - k],
            decreases len - i,
        {
            v.push(self.0[len - 1 - i]);
            i += 1;
        }
        assert(v@ =~= self@.reverse());
        Frame(v)
    }

    /// Every pixel scaled by `fac`.
    pub fn scale(&self, fac: Ratio) -> (r: Self)
        requires
            fac.valid(),
        ensures
            r@ == scale_frame(self@, fac.num as int, fac.den as int),
    {
        self.scale_by(fac.num as u128, fac.den as u128)
    }

    pub(crate) fn scale_by(&self, num: u128, den: u128) -> (r: Self)
        requires
            den > 0,
            num < 0x1_0000_0000_0000_0000_0000_0000,
        ensures
            r@ == scale_frame(self@, num as int, den as int),
    {
        let len = self.0.len();
        let mut v: Vec<LED> = Vec::new();
        let mut i: usize = 0;
        while i < len
            invariant
                len == self@.len(),
                den > 0,
                num < 0x1_0000_0000_0000_0000_0000_0000,
                i <= len,
                v@.len() == i,
                forall|k: int| 0 <= k < i ==> v@[k] == scale_led(self@[k], num as int, den as int),
            decreases len - i,
        {
            v.push(self.0[i].scale_by(num, den));
            i += 1;
        }
        assert(v@ =~= scale_frame(self@, num as int, den as int));
        Frame(v)
    }
}

impl Clone for Frame {
    fn clone(&self) -> (r: Self)
        ensures
            r@ == self@,
    {
        let mut v: Vec<LED> = Vec::new();
        let mut i: usize = 0;
        while i < self.0.len()
            invariant
                i <= self@.len(),
                v@ == self@.subrange(0, i as int),
            decreases self@.len() - i,
        {
            v.push(self.0[i]);
            i += 1;
            assert(v@ =~= self@.subrange(0, i as int));
        }
        assert(v@ =~= self@);
        Frame(v)
    }
}

} // verus!
