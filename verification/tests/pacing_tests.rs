use nmea_log_player::nmea_reader::{get_nmea_positions, TimeOfDay};
use nmea_log_player::pacing::{pace_sentence, ReplayRate, ReplayState};

#[test]
fn rate_must_be_positive() {
    assert!(ReplayRate::from_millis(0).is_none());
    let rate = ReplayRate::from_millis(1000).expect("a positive rate");
    assert_eq!(rate.millis(), 1000);
}

#[test]
fn delay_is_gap_over_rate_when_later() {
    let rate = ReplayRate::from_millis(1000).unwrap();
    let mut state = ReplayState::new();
    assert_eq!(state.step(Some(TimeOfDay { millis: 5_000 }), &rate), 0);
    assert_eq!(state.step(Some(TimeOfDay { millis: 6_500 }), &rate), 1_500);
}

#[test]
fn delay_is_zero_when_not_strictly_later() {
    let rate = ReplayRate::from_millis(1000).unwrap();
    let mut state = ReplayState::new();
    assert_eq!(state.step(Some(TimeOfDay { millis: 5_000 }), &rate), 0);
    assert_eq!(state.step(Some(TimeOfDay { millis: 5_000 }), &rate), 0);
    assert_eq!(state.step(Some(TimeOfDay { millis: 4_000 }), &rate), 0);
}

#[test]
fn double_rate_halves_the_delay() {
    let unit = ReplayRate::from_millis(1000).unwrap();
    let double = ReplayRate::from_millis(2000).unwrap();

    let mut state = ReplayState::new();
    state.step(Some(TimeOfDay { millis: 0 }), &unit);
    let at_unit = state.step(Some(TimeOfDay { millis: 3_000 }), &unit);

    let mut state = ReplayState::new();
    state.step(Some(TimeOfDay { millis: 0 }), &double);
    let at_double = state.step(Some(TimeOfDay { millis: 3_000 }), &double);

    assert_eq!(at_unit, 3_000);
    assert_eq!(at_double, at_unit / 2);
}

#[test]
fn untimestamped_sentence_gets_default_delay_and_keeps_reference() {
    let rate = ReplayRate::from_millis(1000).unwrap();
    let mut state = ReplayState::new();
    assert_eq!(state.step(Some(TimeOfDay { millis: 10_000 }), &rate), 0);
    // No stamp: fixed one-second default, rate-scaled; the reference stays.
    assert_eq!(state.step(None, &rate), 1_000);
    assert_eq!(state.previous_stamp, Some(TimeOfDay { millis: 10_000 }));
    // The next stamped sentence is still paced against the old reference.
    assert_eq!(state.step(Some(TimeOfDay { millis: 12_000 }), &rate), 2_000);
}

#[test]
fn default_delay_scales_with_rate() {
    let rate = ReplayRate::from_millis(2000).unwrap();
    let mut state = ReplayState::new();
    assert_eq!(state.step(None, &rate), 500);
}

#[test]
fn unknown_sentence_gets_default_delay_not_an_error() {
    let positions = get_nmea_positions();
    let rate = ReplayRate::from_millis(1000).unwrap();
    let mut state = ReplayState::new();
    let (delay, out) = pace_sentence(&mut state, "$GPXYZ,074100,noise", &positions, &rate);
    assert_eq!(delay, 1_000);
    assert_eq!(out, b"$GPXYZ,074100,noise\r\n".to_vec());
    assert_eq!(state.previous_stamp, None);
}

#[test]
fn three_sentences_pace_by_their_recorded_gaps() {
    let positions = get_nmea_positions();
    let rate = ReplayRate::from_millis(1000).unwrap();
    let mut state = ReplayState::new();

    let (d1, out1) = pace_sentence(&mut state, "$GPGGA,074100,4807.038,N", &positions, &rate);
    let (d2, out2) = pace_sentence(&mut state, "$GPGGA,074101,4807.038,N", &positions, &rate);
    let (d3, out3) = pace_sentence(&mut state, "$GPGGA,074103,4807.038,N", &positions, &rate);

    assert_eq!(d1, 0);
    assert_eq!(d2, 1_000);
    assert_eq!(d3, 2_000);
    assert_eq!(out1, b"$GPGGA,074100,4807.038,N\r\n".to_vec());
    assert_eq!(out2, b"$GPGGA,074101,4807.038,N\r\n".to_vec());
    assert_eq!(out3, b"$GPGGA,074103,4807.038,N\r\n".to_vec());
}
