use vstd::prelude::*;

verus! {

/// The number a binary-coded decimal byte stands for: tens in the high
/// nibble, units in the low one.
pub open spec fn bcd_value(b: u8) -> int {
    (b as int / 16) * 10 + b as int % 16
}

/// The binary-coded decimal form of `d`, before it is cut to a byte.
pub open spec fn bcd_of(d: int) -> int {
    (d / 10) * 16 + d % 10
}

pub fn bcd2dec(bcd: u8) -> (r: u8)
    ensures
        r as int == bcd_value(bcd),
{
    let hi = (bcd & 0xF0) >> 4;
    let lo = bcd & 0x0F;
    assert(hi == bcd / 16 && lo == bcd % 16) by (bit_vector)
        requires hi == (bcd & 0xF0) >> 4, lo == bcd & 0x0F;
    hi * 10 + lo
}

/// `dec` in binary-coded decimal; a tens digit above 15 loses its high bits.
pub fn dec2bcd(dec: u8) -> (r: u8)
    ensures
        r as int == ((dec as int / 10) * 16) % 256 + dec as int % 10,
        dec <= 99 ==> r as int == bcd_of(dec as int),
{
    let tens = dec / 10;
    let units = dec % 10;
    let r = (tens << 4) | units;
    assert(r == ((tens as u32 * 16) % 256) as u8 + units) by (bit_vector)
        requires units < 10, r == (tens << 4) | units;
    r
}

/// Decoding the binary-coded decimal form of a number below 100 gives it back.
pub proof fn lemma_bcd_round_trip(dec: u8)
    requires
        dec <= 99,
    ensures
        bcd_value(bcd_of(dec as int) as u8) == dec,
{
    let t = dec as int / 10;
    let u = dec as int % 10;
    vstd::arithmetic::div_mod::lemma_fundamental_div_mod(dec as int, 10);
    assert(bcd_of(dec as int) <= 9 * 16 + 9);
    vstd::arithmetic::div_mod::lemma_mod_multiples_vanish(t, u, 16);
    vstd::arithmetic::div_mod::lemma_small_mod(u as nat, 16);
    vstd::arithmetic::div_mod::lemma_div_multiples_vanish_fancy(t, u, 16);
}

} // verus!
