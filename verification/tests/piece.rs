use day_piece_media::piece::{
    SignalWrite, metadata_write, next_metadata, on_report, probe_on_build, state_write,
    uses_side_probe,
};
use day_piece_media::{PlaybackState, StreamMetadata, report, flag, KIND, ICY_PROBE_SECS};

#[test]
fn metadata_reports_write_only_on_change() {
    let current: Option<StreamMetadata> = None;
    let w = on_report(report::METADATA, "A - B", Some(&current), None);
    let next = match w {
        SignalWrite::Metadata(Some(m)) => m,
        _ => panic!("expected a metadata write"),
    };
    assert_eq!((next.artist.as_str(), next.title.as_str()), ("A", "B"));
    let current = Some(next);
    assert!(matches!(on_report(report::METADATA, "A - B", Some(&current), None), SignalWrite::Nothing));
    assert!(matches!(
        on_report(report::METADATA, "   ", Some(&current), None),
        SignalWrite::Metadata(None)
    ));
    // Without a bound metadata signal a metadata report writes nothing, not even the state.
    let state = PlaybackState::Playing;
    assert!(matches!(on_report(report::METADATA, "A - B", None, Some(&state)), SignalWrite::Nothing));
}

#[test]
fn state_reports_write_only_on_change() {
    let state = PlaybackState::Idle;
    assert!(matches!(
        on_report(report::PLAYING, "", None, Some(&state)),
        SignalWrite::State(PlaybackState::Playing)
    ));
    assert!(matches!(on_report(report::IDLE, "", None, Some(&state)), SignalWrite::Nothing));
    assert!(matches!(on_report(report::PLAYING, "", None, None), SignalWrite::Nothing));
    let e = PlaybackState::Error("a".into());
    assert!(matches!(
        on_report(report::ERROR, "b", None, Some(&e)),
        SignalWrite::State(PlaybackState::Error(t)) if t == "b"
    ));
    assert_eq!(state_write(&PlaybackState::Paused, report::PAUSED, ""), None);
    assert_eq!(state_write(&PlaybackState::Paused, 99, ""), Some(PlaybackState::Idle));
}

#[test]
fn metadata_values_are_none_when_nothing_is_said() {
    assert_eq!(next_metadata(" \t"), None);
    assert_eq!(next_metadata("Title").map(|m| m.title), Some("Title".to_string()));
    assert_eq!(metadata_write(&None, ""), None);
    assert!(matches!(metadata_write(&None, "x"), Some(Some(m)) if m.raw == "x"));
}

#[test]
fn the_probe_starts_on_build_only_when_playing_a_source() {
    assert!(probe_on_build(true, "https://example.com/s", true, false));
    assert!(!probe_on_build(true, "", true, false));
    assert!(!probe_on_build(true, "https://example.com/s", false, false));
    assert!(!probe_on_build(false, "https://example.com/s", true, false));
}

#[test]
fn apple_arms_and_the_web_run_no_side_probe() {
    // AppKit and UIKit report the stream's metadata from AVFoundation.
    assert!(!probe_on_build(true, "https://example.com/s", true, true));
    assert!(!uses_side_probe(true, true, false));
    assert!(!uses_side_probe(true, false, true));
    assert!(!uses_side_probe(false, false, false));
    assert!(uses_side_probe(true, false, false));
}

#[test]
fn constants_and_flags() {
    assert_eq!(flag(true), "-");
    assert_eq!(flag(false), "");
    assert_eq!(KIND, "day.piece.media");
    assert_eq!(ICY_PROBE_SECS, 20);
    assert_eq!(report::TAG, "media:state");
    assert_eq!(report::METADATA, 6);
}
