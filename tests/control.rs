use ledstrip::{
    led_settings_sequence, playertable_frame, Door, Event, PlayerColors, Ratio, State, Stripe,
    WorkMode,
};

#[test]
fn door_follows_commands_and_sensors() {
    let mut d = Door::new();
    assert_eq!(d.state(), State::Opening);
    d.process_event(Event::IsOpen);
    assert_eq!(d.state(), State::Opened);
    d.process_event(Event::Hold);
    assert_eq!(d.state(), State::Holding);
    d.process_event(Event::Close);
    assert_eq!(d.state(), State::Holding);
    d.process_event(Event::Unhold);
    assert_eq!(d.state(), State::Opened);
    d.process_event(Event::Close);
    assert_eq!(d.state(), State::Closing);
    d.process_event(Event::Open);
    assert_eq!(d.state(), State::Opening);
    d.process_event(Event::Close);
    d.process_event(Event::IsClose);
    assert_eq!(d.state(), State::Closed);
}

#[test]
fn player_colors() {
    assert_eq!(PlayerColors::White.get_color(), (255, 255, 255));
    assert_eq!(PlayerColors::Green.get_color(), (0, 255, 0));
    assert_eq!(PlayerColors::Blue.get_color(), (0, 0, 255));
    assert_eq!(PlayerColors::Orange.get_color(), (255, 147, 15));
}

#[test]
fn player_table_ranges() {
    let f = playertable_frame(140, PlayerColors::Green, PlayerColors::Blue, PlayerColors::Orange);
    assert_eq!(f.len(), 140);
    let c = |i: usize| f.0[i].get_color();
    assert_eq!(c(29), (0, 0, 0));
    assert_eq!(c(30), (0, 255, 0));
    assert_eq!(c(49), (0, 255, 0));
    assert_eq!(c(50), (0, 0, 0));
    assert_eq!(c(60), (0, 0, 255));
    assert_eq!(c(79), (0, 0, 255));
    assert_eq!(c(120), (255, 147, 15));
    assert_eq!(c(129), (255, 147, 15));
    assert_eq!(c(130), (0, 0, 0));
}

#[test]
fn led_settings_choose_sequence_and_flag() {
    let s = Stripe::new(4).unwrap();
    let (q, rep) = led_settings_sequence(&s, (1, 2, 3), WorkMode::Static, Ratio::whole(0), true);
    assert_eq!(q.len(), 1);
    assert!(!rep);
    let (q, rep) = led_settings_sequence(&s, (1, 2, 3), WorkMode::Blink, Ratio::whole(2), false);
    assert_eq!(q.len(), 2);
    assert_eq!(q.get_framerate(), Ratio::whole(2));
    assert!(!rep);
    let (q, rep) = led_settings_sequence(&s, (1, 2, 3), WorkMode::Dot, Ratio::whole(3), true);
    assert_eq!(q.len(), 4);
    assert!(rep);
    let (q, rep) = led_settings_sequence(&s, (1, 2, 3), WorkMode::Custom, Ratio::whole(0), false);
    assert_eq!(q.get_framerate(), Ratio::whole(30));
    assert!(rep);
}

#[test]
fn bcd_conversions() {
    assert_eq!(ledstrip::bcd2dec(0x42), 42);
    assert_eq!(ledstrip::bcd2dec(0x09), 9);
    assert_eq!(ledstrip::bcd2dec(0xFF), 165);
    assert_eq!(ledstrip::dec2bcd(42), 0x42);
    assert_eq!(ledstrip::dec2bcd(99), 0x99);
    assert_eq!(ledstrip::dec2bcd(0), 0);
    assert_eq!(ledstrip::dec2bcd(255), 0x95);
    for d in 0..100u8 {
        assert_eq!(ledstrip::bcd2dec(ledstrip::dec2bcd(d)), d);
    }
}
