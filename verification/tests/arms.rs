use day_piece_media::arms::{
    MetadataIds, TimeControl, failure_text, groups_text, items_text, names_uri, player_report,
    stream_report,
};
use day_piece_media::report;

#[test]
fn gtk_streams_report_their_condition() {
    assert_eq!(stream_report(Some("no backend".into()), true, true, true), (report::ERROR, "no backend".to_string()));
    assert_eq!(stream_report(None, true, true, true), (report::ENDED, String::new()));
    assert_eq!(stream_report(None, false, true, true), (report::PLAYING, String::new()));
    assert_eq!(stream_report(None, false, true, false), (report::LOADING, String::new()));
    assert_eq!(stream_report(None, false, false, true), (report::PAUSED, String::new()));
    assert_eq!(stream_report(None, false, false, false), (report::LOADING, String::new()));
}

#[test]
fn apple_players_report_their_condition() {
    assert_eq!(player_report(false, true, None, TimeControl::Playing), (report::IDLE, String::new()));
    assert_eq!(
        player_report(true, true, Some("bad file".into()), TimeControl::Playing),
        (report::ERROR, "bad file".to_string())
    );
    assert_eq!(
        player_report(true, true, None, TimeControl::Playing),
        (report::ERROR, "playback failed".to_string())
    );
    assert_eq!(player_report(true, false, None, TimeControl::Playing), (report::PLAYING, String::new()));
    assert_eq!(player_report(true, false, None, TimeControl::WaitingToPlay), (report::LOADING, String::new()));
    assert_eq!(player_report(true, false, None, TimeControl::Paused), (report::PAUSED, String::new()));
    assert_eq!(failure_text(None), "playback failed");
    assert_eq!(failure_text(Some("gone".into())), "gone");
}

fn ids() -> MetadataIds {
    MetadataIds {
        icy: Some("icy/StreamTitle".into()),
        title: Some("common/title".into()),
        artist: Some("common/artist".into()),
        album: Some("common/albumName".into()),
    }
}

fn item(id: Option<&str>, value: Option<&str>) -> (Option<String>, Option<String>) {
    (id.map(String::from), value.map(String::from))
}

#[test]
fn timed_items_pack_their_fields() {
    let items = vec![
        item(Some("common/artist"), Some("Miles Davis")),
        item(Some("common/title"), Some("So What")),
        item(Some("common/albumName"), None),
        item(None, Some("stray")),
        item(Some("common/title"), Some("Blue in Green")),
    ];
    assert_eq!(items_text(&items, &ids()), Some("Blue in Green\u{1f}Miles Davis\u{1f}".to_string()));
}

#[test]
fn an_icy_title_is_taken_as_it_came() {
    let items = vec![
        item(Some("common/title"), Some("ignored")),
        item(Some("icy/StreamTitle"), None),
        item(Some("icy/StreamTitle"), Some("Artist - Song")),
        item(Some("icy/StreamTitle"), Some("later")),
    ];
    assert_eq!(items_text(&items, &ids()), Some("Artist - Song".to_string()));
}

#[test]
fn nothing_known_makes_no_payload() {
    let items = vec![item(Some("other"), Some("x")), item(Some("common/title"), Some(""))];
    assert_eq!(items_text(&items, &ids()), None);
    let groups = vec![items, vec![item(Some("common/album"), Some("y")), item(Some("common/albumName"), Some("Kind of Blue"))]];
    assert_eq!(groups_text(&groups, &ids()), Some("\u{1f}\u{1f}Kind of Blue".to_string()));
    assert_eq!(groups_text(&[], &ids()), None);
}

#[test]
fn sources_with_a_scheme_are_uris() {
    assert!(names_uri("https://example.com/a.mp3"));
    assert!(names_uri("file:///tmp/a.mp4"));
    assert!(!names_uri("/Users/me/clip.mp4"));
    assert!(!names_uri("C:\\clips\\a.mp4"));
}
