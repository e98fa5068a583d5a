use day_piece_media::{PlaybackState, report};

#[test]
fn reports_decode_to_states() {
    assert_eq!(
        PlaybackState::from_report(report::PLAYING as f64 as i32, ""),
        PlaybackState::Playing
    );
    assert_eq!(
        PlaybackState::from_report(report::ERROR as f64 as i32, "no route to host"),
        PlaybackState::Error("no route to host".into())
    );
    assert_eq!(PlaybackState::from_report(42.0 as i32, ""), PlaybackState::Idle);
    assert!(PlaybackState::Loading.is_active());
    assert!(!PlaybackState::Paused.is_active());
}

#[test]
fn every_state_round_trips_through_its_code() {
    let states = [
        (report::IDLE, "", PlaybackState::Idle),
        (report::LOADING, "", PlaybackState::Loading),
        (report::PLAYING, "", PlaybackState::Playing),
        (report::PAUSED, "", PlaybackState::Paused),
        (report::ENDED, "", PlaybackState::Ended),
        (report::ERROR, "boom", PlaybackState::Error("boom".into())),
    ];
    for (code, text, state) in states {
        assert_eq!(PlaybackState::from_report(code, text), state);
    }
    assert_eq!(PlaybackState::from_report(report::METADATA, "x"), PlaybackState::Idle);
    assert_eq!(PlaybackState::from_report(-1, "x"), PlaybackState::Idle);
    assert_eq!(PlaybackState::from_report(report::PAUSED, "ignored"), PlaybackState::Paused);
}

#[test]
fn only_playing_and_loading_are_active() {
    assert!(PlaybackState::Playing.is_active());
    assert!(!PlaybackState::Idle.is_active());
    assert!(!PlaybackState::Ended.is_active());
    assert!(!PlaybackState::Error("x".into()).is_active());
    assert_eq!(PlaybackState::default(), PlaybackState::Idle);
    assert_ne!(PlaybackState::Error("a".into()), PlaybackState::Error("b".into()));
}
