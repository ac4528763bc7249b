use vstd::prelude::*;
use crate::frame::Frame;
use crate::led::{LED, black, led_of};
use crate::messages::{PlayerColors, WorkMode, player_color};
use crate::ratio::Ratio;
use crate::sequence::Sequence;
use crate::sequence_generator::{custom_frames, dot_frames, solid_frame};
use crate::stripe::Stripe;

verus! {

/// Pixel `i` of the player table: pixels 30 to 49 show the first player's
/// colour, 60 to 79 the second's, 120 to 129 the third's, the rest are black.
pub open spec fn table_pixel(
    i: int,
    first: PlayerColors,
    second: PlayerColors,
    third: PlayerColors,
) -> LED {
    if 30 <= i < 50 {
        led_of(player_color(first))
    } else if 60 <= i < 80 {
        led_of(player_color(second))
    } else if 120 <= i < 130 {
        led_of(player_color(third))
    } else {
        black()
    }
}

/// The frame that shows the players' colours on a strip of `number_of_leds` pixels.
pub fn playertable_frame(
    number_of_leds: usize,
    first: PlayerColors,
    second: PlayerColors,
    third: PlayerColors,
) -> (r: Frame)
    ensures
        r@ == Seq::new(number_of_leds as nat, |i: int| table_pixel(i, first, second, third)),
{
    let mut v: Vec<LED> = Vec::new();
    let mut i: usize = 0;
    while i < number_of_leds
        invariant
            i <= number_of_leds,
            v@ == Seq::new(i as nat, |k: int| table_pixel(k, first, second, third)),
        decreases number_of_leds - i,
    {
        let led = if 30 <= i && i < 50 {
            LED::from_color(first.get_color())
        } else if 60 <= i && i < 80 {
            LED::from_color(second.get_color())
        } else if 120 <= i && i < 130 {
            LED::from_color(third.get_color())
        } else {
            LED(0, 0, 0)
        };
        v.push(led);
        i += 1;
        assert(v@ =~= Seq::new(i as nat, |k: int| table_pixel(k, first, second, third)));
    }
    Frame(v)
}

/// The animation a client's settings ask for, with the value the repeat flag
/// must hold while it plays: a static colour plays once, the custom animation
/// always repeats, the others repeat as asked.
pub fn led_settings_sequence(
    stripe: &Stripe,
    color: (u8, u8, u8),
    mode: WorkMode,
    speed: Ratio,
    repeat: bool,
) -> (r: (Sequence, bool))
    requires
        stripe.leds() > 0,
        mode == WorkMode::Blink || mode == WorkMode::Dot ==> speed.is_rate(),
    ensures
        r.0.wf(),
        mode == WorkMode::Static ==> r.0@ == seq![solid_frame(stripe.leds(), color)]
            && r.0.rate() == (Ratio { num: 1, den: 1 }) && !r.1,
        mode == WorkMode::Blink ==> r.0@ == seq![
            solid_frame(stripe.leds(), color),
            solid_frame(stripe.leds(), (0u8, 0u8, 0u8)),
        ] && r.0.rate() == speed && r.1 == repeat,
        mode == WorkMode::Dot ==> r.0@ == dot_frames(stripe.leds(), color, 0, 0) && r.0.rate()
            == speed && r.1 == repeat,
        mode == WorkMode::Custom ==> r.0@ == custom_frames(stripe.leds()) && r.0.rate() == (Ratio {
            num: 30,
            den: 1,
        }) && r.1,
{
    match mode {
        WorkMode::Static => (stripe.create_static(color), false),
        WorkMode::Blink => (stripe.create_blink(color, speed), repeat),
        WorkMode::Dot => (stripe.create_dot(color, speed, 0, 0), repeat),
        WorkMode::Custom => (stripe.custom(), true),
    }
}

} // verus!
