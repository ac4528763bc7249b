use ledstrip::led_stripe;
use ledstrip::{
    frame_period_micros, lerp_leds, Frame, LedError, Playback, PlaybackAction, Ratio, Sequence,
    SequenzGenerator, Stripe, LED,
};

fn white() -> (u8, u8, u8) {
    (255, 255, 255)
}

fn pixels(f: &Frame) -> Vec<(u8, u8, u8)> {
    f.0.iter().map(|l| l.get_color()).collect()
}

fn frames(s: &Sequence) -> Vec<Vec<(u8, u8, u8)>> {
    s.get_frames().iter().map(pixels).collect()
}

fn seq(fs: Vec<Vec<(u8, u8, u8)>>, rate: Ratio) -> Sequence {
    let fs = fs
        .into_iter()
        .map(|f| Frame(f.into_iter().map(LED::from_color).collect()))
        .collect();
    Sequence::new(fs, rate).unwrap()
}

#[test]
fn it_works() {
    assert_eq!(true, true);
}

#[test]
fn test_seq_shift() {
    let frame1 = vec![(255, 0, 0), (0, 0, 255)];
    let frame2 = vec![(0, 255, 0), (0, 255, 0)];
    let frame3 = vec![(0, 0, 255), (255, 0, 0)];
    let s = seq(vec![frame1.clone(), frame2.clone(), frame3.clone()], Ratio::whole(1));
    let sl = s.shr(1);
    assert_eq!(frames(&sl), vec![frame3.clone(), frame1.clone(), frame2.clone()]);
    let sr = sl.shl(1);
    assert_eq!(frames(&sr), vec![frame1, frame2, frame3]);
    assert!(true);
}

#[test]
fn pixel_addition_saturates() {
    let a = LED::from_color((200, 0, 0));
    let b = LED::from_color((100, 0, 0));
    assert_eq!(a.add(&b).get_color(), (255, 0, 0));
    assert_eq!(LED(10, 20, 30).add(&LED(1, 2, 3)).get_color(), (11, 22, 33));
}

#[test]
fn pixel_scale_truncates_and_saturates() {
    assert_eq!(LED(255, 100, 3).scale(Ratio::new(1, 2)).get_color(), (127, 50, 1));
    assert_eq!(LED(200, 100, 0).scale(Ratio::new(3, 2)).get_color(), (255, 150, 0));
    assert_eq!(LED(255, 255, 255).scale(Ratio::new(0, 1)).get_color(), (0, 0, 0));
}

#[test]
fn pixel_lerp_clamps_weight() {
    let a = LED(0, 100, 255);
    let b = LED(255, 0, 0);
    assert_eq!(a.lerp(&b, Ratio::new(1, 2)).get_color(), (127, 50, 127));
    assert_eq!(a.lerp(&b, Ratio::new(5, 2)).get_color(), (255, 0, 0));
    assert_eq!(lerp_leds(&a, &b, Ratio::new(0, 7)).get_color(), (0, 100, 255));
    assert_eq!(LED::default().get_color(), (0, 0, 0));
}

#[test]
fn frame_sum_has_longer_length() {
    let f1 = Frame(vec![LED(200, 10, 0), LED(1, 1, 1)]);
    let f2 = Frame(vec![LED(100, 10, 0), LED(0, 0, 0), LED(7, 8, 9)]);
    let s = f1.add(&f2);
    assert_eq!(s.len(), 3);
    assert_eq!(pixels(&s), vec![(255, 20, 0), (1, 1, 1), (7, 8, 9)]);
    assert_eq!(f2.add(&Frame(vec![])).len(), 3);
}

#[test]
fn frame_rotation_wraps_modulo_length() {
    let f = Frame(vec![LED(1, 0, 0), LED(2, 0, 0), LED(3, 0, 0)]);
    let l = f.shl(4).unwrap();
    assert_eq!(pixels(&l), vec![(2, 0, 0), (3, 0, 0), (1, 0, 0)]);
    let r = f.shr(1).unwrap();
    assert_eq!(pixels(&r), vec![(3, 0, 0), (1, 0, 0), (2, 0, 0)]);
    assert_eq!(pixels(&r.shl(1).unwrap()), pixels(&f));
    assert_eq!(pixels(&f.reverse()), vec![(3, 0, 0), (2, 0, 0), (1, 0, 0)]);
    assert_eq!(f.get(1).map(|l| l.get_color()), Some((2, 0, 0)));
    assert!(f.get(3).is_none());
}

#[test]
fn empty_frame_rotation_is_refused() {
    let f = Frame(vec![]);
    assert_eq!(f.shl(1).err(), Some(LedError::EmptyFrame));
    assert_eq!(f.shr(0).err(), Some(LedError::EmptyFrame));
}

#[test]
fn frame_scale_applies_to_every_pixel() {
    let f = Frame(vec![LED(255, 255, 255), LED(10, 0, 0)]);
    assert_eq!(pixels(&f.scale(Ratio::new(1, 3))), vec![(85, 85, 85), (3, 0, 0)]);
}

#[test]
fn sequence_construction_errors() {
    assert_eq!(Sequence::new(vec![], Ratio::whole(1)).err(), Some(LedError::NoFrames));
    assert_eq!(
        Sequence::new(vec![Frame(vec![])], Ratio::new(0, 1)).err(),
        Some(LedError::InvalidFramerate)
    );
    assert_eq!(
        Sequence::new(vec![Frame(vec![])], Ratio::new(1, 0)).err(),
        Some(LedError::InvalidFramerate)
    );
    let s = Sequence::new(vec![Frame(vec![])], Ratio::new(5, 2)).unwrap();
    assert_eq!(s.get_framerate(), Ratio::new(5, 2));
    assert_eq!(s.len(), 1);
}

#[test]
fn change_framerate_nearest_previous_frame() {
    let s = seq(vec![vec![(1, 0, 0)], vec![(2, 0, 0)], vec![(3, 0, 0)]], Ratio::whole(2));
    let up = s.change_framerate(Ratio::whole(4));
    assert_eq!(up.get_framerate(), Ratio::whole(4));
    assert_eq!(
        frames(&up),
        vec![
            vec![(1, 0, 0)],
            vec![(1, 0, 0)],
            vec![(2, 0, 0)],
            vec![(2, 0, 0)],
            vec![(3, 0, 0)],
            vec![(3, 0, 0)]
        ]
    );
    let down = s.change_framerate(Ratio::whole(1));
    assert_eq!(frames(&down), vec![vec![(1, 0, 0)], vec![(3, 0, 0)]]);
}

#[test]
fn change_framerate_round_trip_keeps_duration() {
    let s = seq(
        (0..7).map(|i| vec![(i as u8, 0, 0)]).collect(),
        Ratio::whole(3),
    );
    let back = s.change_framerate(Ratio::whole(2)).change_framerate(Ratio::whole(3));
    let diff = back.len() as i64 - s.len() as i64;
    assert!(diff.abs() <= 1);
    let back = s.change_framerate(Ratio::new(7, 2)).change_framerate(Ratio::whole(3));
    assert_eq!(back.len(), 7);
}

#[test]
fn sequence_rotation_round_trip() {
    let s = seq(
        vec![vec![(1, 0, 0)], vec![(2, 0, 0)], vec![(3, 0, 0)], vec![(4, 0, 0)]],
        Ratio::whole(1),
    );
    for n in [0usize, 1, 3, 4, 9, 1000] {
        assert_eq!(frames(&s.shl(n).shr(n)), frames(&s));
    }
    assert_eq!(frames(&s.shl(1))[0], vec![(2, 0, 0)]);
    assert_eq!(frames(&s.shr(1))[0], vec![(4, 0, 0)]);
}

#[test]
fn sequence_add_resamples_and_pads() {
    let a = seq(vec![vec![(100, 0, 0)], vec![(0, 100, 0)]], Ratio::whole(1));
    let b = seq(vec![vec![(200, 0, 0), (0, 0, 9)]], Ratio::whole(2));
    let s = a.add(&b);
    assert_eq!(s.get_framerate(), Ratio::whole(2));
    assert_eq!(
        frames(&s),
        vec![
            vec![(255, 0, 0), (0, 0, 9)],
            vec![(100, 0, 0)],
            vec![(0, 100, 0)],
            vec![(0, 100, 0)]
        ]
    );
}

#[test]
fn sequence_concat_appends_at_faster_rate() {
    let a = seq(vec![vec![(1, 0, 0)]], Ratio::whole(1));
    let b = seq(vec![vec![(2, 0, 0)], vec![(3, 0, 0)]], Ratio::whole(2));
    let s = a.concat(&b);
    assert_eq!(s.get_framerate(), Ratio::whole(2));
    assert_eq!(
        frames(&s),
        vec![vec![(1, 0, 0)], vec![(1, 0, 0)], vec![(2, 0, 0)], vec![(3, 0, 0)]]
    );
}

#[test]
fn sequence_repeat_and_reverse() {
    let s = seq(vec![vec![(1, 0, 0)], vec![(2, 0, 0)]], Ratio::whole(5));
    let r = s.repeat(3);
    assert_eq!(r.len(), 6);
    assert_eq!(frames(&r)[4], vec![(1, 0, 0)]);
    assert_eq!(r.get_framerate(), Ratio::whole(5));
    assert_eq!(frames(&s.reverse()), vec![vec![(2, 0, 0)], vec![(1, 0, 0)]]);
}

#[test]
fn pulse_envelope_on_static_white() {
    let s = SequenzGenerator::create_static(3, white()).repeat(4);
    let p = s.pulse(2, Ratio::new(1, 2));
    assert_eq!(p.get_framerate(), Ratio::whole(30));
    assert_eq!(p.len(), 120);
    let expected = [255u8, 191, 127, 191];
    for (i, f) in frames(&p).iter().enumerate() {
        let c = expected[i % 4];
        assert_eq!(f, &vec![(c, c, c); 3]);
    }
}

#[test]
fn pulse_keeps_fast_sequences() {
    let s = seq(vec![vec![(200, 0, 0)]; 3], Ratio::whole(60));
    let p = s.pulse(1, Ratio::new(0, 1));
    assert_eq!(p.get_framerate(), Ratio::whole(60));
    assert_eq!(frames(&p), vec![vec![(200, 0, 0)], vec![(0, 0, 0)], vec![(200, 0, 0)]]);
}

#[test]
fn static_and_blink() {
    let s = SequenzGenerator::create_static(4, (1, 2, 3));
    assert_eq!(frames(&s), vec![vec![(1, 2, 3); 4]]);
    assert_eq!(s.get_framerate(), Ratio::whole(1));
    let b = SequenzGenerator::create_blink(2, (9, 9, 9), Ratio::new(1, 2));
    assert_eq!(frames(&b), vec![vec![(9, 9, 9); 2], vec![(0, 0, 0); 2]]);
    assert_eq!(b.get_framerate(), Ratio::new(1, 2));
}

#[test]
fn dot_without_blur() {
    let s = SequenzGenerator::create_dot(5, white(), Ratio::whole(10), 0, 0);
    let fs = frames(&s);
    assert_eq!(fs.len(), 5);
    for (i, f) in fs.iter().enumerate() {
        for (p, c) in f.iter().enumerate() {
            assert_eq!(*c, if p == i { white() } else { (0, 0, 0) });
        }
    }
}

#[test]
fn dot_trailing_blur() {
    let s = SequenzGenerator::create_dot(5, white(), Ratio::whole(10), 2, 0);
    let fs = frames(&s);
    assert_eq!(fs[0], vec![white(), (0, 0, 0), (0, 0, 0), (85, 85, 85), (170, 170, 170)]);
    assert_eq!(fs[2], vec![(85, 85, 85), (170, 170, 170), white(), (0, 0, 0), (0, 0, 0)]);
}

#[test]
fn dot_leading_and_both_blurs() {
    let head = SequenzGenerator::create_dot(5, white(), Ratio::whole(10), 0, 2);
    assert_eq!(
        frames(&head)[0],
        vec![white(), (170, 170, 170), (85, 85, 85), (0, 0, 0), (0, 0, 0)]
    );
    let both = SequenzGenerator::create_dot(5, white(), Ratio::whole(10), 2, 2);
    assert_eq!(
        frames(&both)[2],
        vec![(85, 85, 85), (170, 170, 170), white(), (170, 170, 170), (85, 85, 85)]
    );
}

#[test]
fn dot_blur_divides_before_multiplying() {
    let s = SequenzGenerator::create_dot(4, (100, 0, 0), Ratio::whole(1), 2, 0);
    assert_eq!(frames(&s)[0][3], (66, 0, 0));
    assert_eq!(frames(&s)[0][2], (33, 0, 0));
}

#[test]
fn dot_blur_longer_than_strip_overwrites() {
    let s = SequenzGenerator::create_dot(2, (30, 0, 0), Ratio::whole(1), 3, 0);
    assert_eq!(frames(&s)[0], vec![(14, 0, 0), (7, 0, 0)]);
}

#[test]
fn custom_and_red_alert_shapes() {
    let c = SequenzGenerator::custom(12);
    assert_eq!(c.len(), 12);
    assert_eq!(c.get_framerate(), Ratio::whole(30));
    let r = SequenzGenerator::red_alert(8);
    assert_eq!(r.len(), 4500);
    assert_eq!(r.get_framerate(), Ratio::whole(30));
}

#[test]
fn scrolling_frame_and_its_errors() {
    let f = Frame(vec![LED(1, 0, 0), LED(2, 0, 0)]);
    let s = SequenzGenerator::create_scrolling_frame(3, &f, Ratio::whole(4)).unwrap();
    assert_eq!(
        frames(&s),
        vec![
            vec![(1, 0, 0), (2, 0, 0)],
            vec![(2, 0, 0), (1, 0, 0)],
            vec![(1, 0, 0), (2, 0, 0)]
        ]
    );
    let empty = Frame(vec![]);
    assert_eq!(
        SequenzGenerator::create_scrolling_frame(3, &empty, Ratio::whole(4)).err(),
        Some(LedError::EmptyFrame)
    );
    assert_eq!(
        SequenzGenerator::create_scrolling_frame(0, &f, Ratio::whole(4)).err(),
        Some(LedError::NoFrames)
    );
    assert_eq!(
        SequenzGenerator::create_scrolling_frame(2, &f, Ratio::new(0, 4)).err(),
        Some(LedError::InvalidFramerate)
    );
}

#[test]
fn stripe_setup_and_reset() {
    assert_eq!(Stripe::new(0).err(), Some(LedError::NoPixels));
    let s = Stripe::new(3).unwrap();
    assert_eq!(s.get_number_of_leds(), 3);
    assert_eq!(pixels(&s.reset_frame()), vec![(0, 0, 0); 3]);
    assert_eq!(frames(&s.create_static((5, 5, 5))), vec![vec![(5, 5, 5); 3]]);
    assert_eq!(s.create_dot(white(), Ratio::whole(3), 0, 0).len(), 3);
    assert_eq!(s.create_blink(white(), Ratio::whole(3)).len(), 2);
    assert_eq!(s.custom().len(), 3);
    assert_eq!(s.red_alert().len(), 4500);
}

#[test]
fn spi_encoding_of_one_pixel() {
    let bytes = Stripe::encode_frame(&Frame(vec![LED(0x80, 0x01, 0x00)]));
    assert_eq!(bytes.len(), 48);
    let mut expected = Vec::new();
    for bit in 0..24 {
        let one = bit == 7 || bit == 8;
        if one {
            expected.extend_from_slice(&[0xFF, 0x80]);
        } else {
            expected.extend_from_slice(&[0xF8, 0x00]);
        }
    }
    assert_eq!(bytes, expected);
}

#[test]
fn frame_period_from_rate() {
    assert_eq!(frame_period_micros(Ratio::whole(30)), 33_333);
    assert_eq!(frame_period_micros(Ratio::new(1, 2)), 2_000_000);
}

#[test]
fn playback_stops_when_flag_clears() {
    let s = seq(vec![vec![(1, 0, 0)], vec![(2, 0, 0)], vec![(3, 0, 0)]], Ratio::whole(1));
    let (mut p, first) = Playback::start(s.len());
    assert_eq!(first, PlaybackAction::Show(0));
    assert_eq!(p.frame_done(true), PlaybackAction::Show(1));
    assert_eq!(p.frame_done(true), PlaybackAction::Show(2));
    assert_eq!(p.frame_done(true), PlaybackAction::Show(0));
    assert_eq!(p.frame_done(false), PlaybackAction::Stop);
}

#[test]
fn bit_string_refinement() {
    let led1 = led_stripe::LED::new(0, 255, 170);
    let led2 = led_stripe::LED::new(255, 0, 85);
    let frame1 = led_stripe::Frame(vec![led1, led2]);
    assert_eq!(
        frame1.refine().0,
        "111111110000000010101010000000001111111101010101"
    );
    let frame2 = led_stripe::Frame(vec![led2, led1]);
    assert_eq!(
        frame2.refine().0,
        "000000001111111101010101111111110000000010101010"
    );
    let s = led_stripe::Sequenz::new(
        vec![led_stripe::Frame(vec![led_stripe::LED::default()])],
        Ratio::whole(2),
    );
    let r = s.refine();
    assert_eq!(r.frames, vec!["0".repeat(24)]);
    assert_eq!(r.framerate, Ratio::whole(2));
}

#[test]
fn strength_fills_a_fraction() {
    let s = Stripe::new(10).unwrap();
    let f = s.strength(Ratio::new(3, 10), (0, 9, 0));
    let mut expected = vec![(0, 9, 0); 3];
    expected.extend(vec![(0, 0, 0); 7]);
    assert_eq!(pixels(&f), expected);
    assert_eq!(pixels(&s.strength(Ratio::new(1, 4), (1, 1, 1)))[..3], [(1, 1, 1); 3]);
    assert_eq!(pixels(&s.strength(Ratio::new(1, 4), (1, 1, 1)))[3], (0, 0, 0));
    assert_eq!(pixels(&s.strength(Ratio::new(2, 1), (1, 1, 1))), vec![(1, 1, 1); 10]);
    let startup = s
        .strength(Ratio::new(1, 2), (100, 0, 0))
        .add(&s.strength(Ratio::new(1, 5), (0, 0, 100)));
    assert_eq!(pixels(&startup)[0], (100, 0, 100));
    assert_eq!(pixels(&startup)[4], (100, 0, 0));
    assert_eq!(pixels(&startup)[5], (0, 0, 0));
}
