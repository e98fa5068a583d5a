use day_piece_media::StreamMetadata;

#[test]
fn metadata_reports_parse() {
    let m = StreamMetadata::from_report("Miles Davis - So What");
    assert_eq!(
        (m.artist.as_str(), m.title.as_str()),
        ("Miles Davis", "So What")
    );
    assert_eq!(m.raw, "Miles Davis - So What");
    let m = StreamMetadata::from_report("Morning Show");
    assert_eq!(m.title, "Morning Show");
    assert!(m.artist.is_empty());
    let m = StreamMetadata::from_report("So What\u{1f}Miles Davis\u{1f}Kind of Blue");
    assert_eq!(m.album, "Kind of Blue");
    assert_eq!(m.raw, "So What - Miles Davis - Kind of Blue");
    assert!(StreamMetadata::from_report("  ").is_empty());
}

#[test]
fn packed_fields_are_trimmed_and_missing_ones_skipped() {
    let m = StreamMetadata::from_report(" Title \u{1f}\u{1f} Album ");
    assert_eq!(m.title, "Title");
    assert_eq!(m.artist, "");
    assert_eq!(m.album, "Album");
    assert_eq!(m.raw, "Title - Album");
    let m = StreamMetadata::from_report("Only\u{1f}Artist");
    assert_eq!((m.title.as_str(), m.artist.as_str(), m.album.as_str()), ("Only", "Artist", ""));
    assert_eq!(m.raw, "Only - Artist");
    let m = StreamMetadata::from_report("a\u{1f}b\u{1f}c\u{1f}d");
    assert_eq!((m.title.as_str(), m.artist.as_str(), m.album.as_str()), ("a", "b", "c"));
    assert_eq!(m.raw, "a - b - c");
    let m = StreamMetadata::from_report("\u{1f}\u{1f}");
    assert!(m.is_empty());
}

#[test]
fn bare_titles_split_on_the_first_dash_only() {
    let m = StreamMetadata::from_report("  A - B - C ");
    assert_eq!((m.artist.as_str(), m.title.as_str()), ("A", "B - C"));
    assert_eq!(m.raw, "A - B - C");
    let m = StreamMetadata::from_report(" - Title");
    assert_eq!((m.artist.as_str(), m.title.as_str()), ("", "- Title"));
    let m = StreamMetadata::from_report("Artist -  ");
    assert_eq!((m.artist.as_str(), m.title.as_str()), ("", "Artist -"));
    let m = StreamMetadata::from_report("Jean-Luc");
    assert_eq!(m.title, "Jean-Luc");
}

#[test]
fn reparsing_the_raw_value_is_stable() {
    let m = StreamMetadata::from_report("  Miles Davis - So What ");
    assert_eq!(StreamMetadata::from_report(&m.raw), m);
}

#[test]
fn unicode_whitespace_is_trimmed() {
    let m = StreamMetadata::from_report("\u{3000}Title\u{a0}\t");
    assert_eq!(m.title, "Title");
    assert!(StreamMetadata::from_report("\u{2003}\n").is_empty());
}

#[test]
fn default_metadata_is_empty() {
    assert!(StreamMetadata::default().is_empty());
    assert_eq!(StreamMetadata::default(), StreamMetadata::from_report(""));
}
