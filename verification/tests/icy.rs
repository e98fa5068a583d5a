use day_piece_media::icy::{
    FetchEnd, IcySink, ChunkStep, Outcome, ProbeWorker, WorkerAction, interval_of,
    head_interval_exec,
};
use day_piece_media::stream_title;
use day_piece_media::icy::title_of;

#[test]
fn stream_titles_parse() {
    assert_eq!(
        stream_title(b"StreamTitle='Miles Davis - So What';StreamUrl='';\0\0\0\0"),
        "Miles Davis - So What"
    );
    assert_eq!(
        stream_title(b"StreamTitle='Rock 'n' Roll - Someone';\0"),
        "Rock 'n' Roll - Someone"
    );
    assert_eq!(stream_title(b"StreamTitle='';StreamUrl='';"), "");
    assert_eq!(stream_title(b"\0\0"), "");
}

#[test]
fn stream_title_ends_at_stream_next() {
    assert_eq!(
        stream_title(b"StreamTitle='A';B';StreamNext='C';"),
        "A';B"
    );
}

#[test]
fn stream_title_without_field_end_runs_to_the_end() {
    assert_eq!(stream_title(b"StreamTitle='  Unclosed title  \0\0"), "Unclosed title");
}

#[test]
fn stream_title_skips_leading_fields() {
    assert_eq!(
        stream_title(b"StreamUrl='x';StreamTitle='Later';"),
        "Later"
    );
}

#[test]
fn stream_title_replaces_invalid_utf8() {
    // An invalid byte becomes U+FFFD rather than being dropped or passed through.
    assert_eq!(
        stream_title(b"StreamTitle='caf\xe9 au lait';StreamUrl='';"),
        "caf\u{fffd} au lait"
    );
    assert_eq!(
        stream_title("StreamTitle='Café';".as_bytes()),
        "Café"
    );
}

#[test]
fn interval_values_parse() {
    assert_eq!(interval_of("16000"), Some(16000));
    assert_eq!(interval_of("  8192 "), Some(8192));
    assert_eq!(interval_of("+8192"), Some(8192));
    assert_eq!(interval_of("1048576"), Some(1048576));
    assert_eq!(interval_of("1048577"), None);
    assert_eq!(interval_of("0"), None);
    assert_eq!(interval_of(""), None);
    assert_eq!(interval_of("+"), None);
    assert_eq!(interval_of("-5"), None);
    assert_eq!(interval_of("12ab"), None);
    assert_eq!(interval_of("99999999999999999999999999"), None);
}

fn headers(pairs: &[(&str, &str)]) -> Vec<(String, String)> {
    pairs.iter().map(|(k, v)| (k.to_string(), v.to_string())).collect()
}

#[test]
fn head_reads_the_first_metaint_header() {
    let h = headers(&[("Content-Type", "audio/mpeg"), ("ICY-MetaInt", "16000"), ("icy-metaint", "8")]);
    assert_eq!(head_interval_exec(200, &h), Some(16000));
    assert_eq!(head_interval_exec(404, &h), None);
    let h = headers(&[("icy-metaint", "junk"), ("icy-metaint", "8")]);
    assert_eq!(head_interval_exec(200, &h), None);
    let h = headers(&[("icy-name", "Groove Salad")]);
    assert_eq!(head_interval_exec(200, &h), None);
}

#[test]
fn sink_head_hangs_up_without_interval() {
    let mut sink = IcySink::new();
    assert!(!sink.head(200, &headers(&[("Server", "Icecast")])));
    assert_eq!(sink.interval, None);
    let mut sink = IcySink::new();
    assert!(!sink.head(302, &headers(&[("icy-metaint", "16")])));
    assert_eq!(sink.interval, None);
    let mut sink = IcySink::new();
    assert!(sink.head(200, &headers(&[("icy-metaint", "16")])));
    assert_eq!(sink.interval, Some(16));
}

fn block_bytes(text: &[u8]) -> Vec<u8> {
    let n = (text.len() + 15) / 16;
    let mut out = vec![n as u8];
    out.extend_from_slice(text);
    out.resize(1 + n * 16, 0);
    out
}

#[test]
fn sink_cuts_the_block_across_chunks() {
    let mut sink = IcySink::new();
    assert!(sink.head(200, &headers(&[("icy-metaint", "4")])));
    let mut body = vec![1u8, 2, 3, 4];
    body.extend(block_bytes(b"StreamTitle='Artist - Song';StreamUrl='';"));
    body.extend_from_slice(&[9, 9, 9]);
    let (first, second) = body.split_at(10);
    assert!(matches!(sink.chunk(false, &first[..3]), ChunkStep::Continue));
    assert!(matches!(sink.chunk(false, &first[3..]), ChunkStep::Continue));
    assert!(matches!(sink.chunk(false, second), ChunkStep::Done));
    assert_eq!(sink.title.as_deref(), Some("Artist - Song"));
    assert!(matches!(sink.finish(FetchEnd::Finished), Outcome::Title(t) if t == "Artist - Song"));
}

#[test]
fn sink_stops_when_cancelled() {
    let mut sink = IcySink::new();
    assert!(sink.head(200, &headers(&[("icy-metaint", "1")])));
    assert!(matches!(sink.chunk(true, &[0, 1, 2]), ChunkStep::Cancelled));
    assert!(sink.buffer.is_empty());
    assert!(sink.title.is_none());
}

#[test]
fn sink_empty_block_gives_empty_title() {
    let mut sink = IcySink::new();
    assert!(matches!(sink.chunk(false, &[0]), ChunkStep::Done));
    assert_eq!(sink.title.as_deref(), Some(""));
}

#[test]
fn outcomes_classify_how_the_request_ended() {
    let sink = IcySink::new();
    assert!(matches!(sink.finish(FetchEnd::Finished), Outcome::NoMetadata));
    let sink = IcySink::new();
    let end = FetchEnd::Failed { aborted: true, detail: "Io(\"aborted\")".to_string() };
    assert!(matches!(sink.finish(end), Outcome::NoMetadata));
    let mut sink = IcySink::new();
    sink.interval = Some(16);
    assert!(matches!(
        sink.finish(FetchEnd::Finished),
        Outcome::Failed(m) if m == "the stream ended before its first metadata block"
    ));
    let mut sink = IcySink::new();
    sink.interval = Some(16);
    let end = FetchEnd::Failed { aborted: true, detail: "Io(\"aborted\")".to_string() };
    assert!(matches!(sink.finish(end), Outcome::Failed(m) if m == "Io(\"aborted\")"));
    let sink = IcySink::new();
    let end = FetchEnd::Failed { aborted: false, detail: "Timeout".to_string() };
    assert!(matches!(sink.finish(end), Outcome::Failed(m) if m == "Timeout"));
}

#[test]
fn worker_delivers_each_new_title_once() {
    let mut w = ProbeWorker::new();
    let title = |t: &str| Outcome::Title(t.to_string());
    assert!(matches!(w.step(title("A"), false), WorkerAction::Deliver(t) if t == "A"));
    assert!(matches!(w.step(title("A"), false), WorkerAction::Wait));
    assert!(matches!(w.step(Outcome::Failed("x".into()), false), WorkerAction::Wait));
    assert!(matches!(w.step(title("A"), false), WorkerAction::Wait));
    assert!(matches!(w.step(title("B"), false), WorkerAction::Deliver(t) if t == "B"));
    assert!(matches!(w.step(title("A"), false), WorkerAction::Deliver(t) if t == "A"));
    assert!(matches!(w.step(title("C"), true), WorkerAction::Quit));
    assert!(matches!(w.step(Outcome::NoMetadata, false), WorkerAction::Quit));
}

#[test]
fn a_stream_without_metaint_is_not_asked_again() {
    let mut sink = IcySink::new();
    assert!(!sink.head(200, &headers(&[("Content-Type", "audio/aac")])));
    let end = FetchEnd::Failed { aborted: true, detail: "Io(\"aborted\")".to_string() };
    let outcome = sink.finish(end);
    assert!(matches!(outcome, Outcome::NoMetadata));
    let mut w = ProbeWorker::new();
    assert!(matches!(w.step(Outcome::Title("A".into()), false), WorkerAction::Deliver(_)));
    assert!(matches!(w.step(outcome, false), WorkerAction::Quit));
}

#[test]
fn titles_read_from_decoded_text() {
    assert_eq!(title_of("StreamTitle='Song';StreamUrl='x';\0\0"), "Song");
    assert_eq!(title_of("nothing here"), "");
}

fn outcome_of(body: &[u8], cuts: &[usize]) -> Outcome {
    let mut sink = IcySink::new();
    assert!(sink.head(200, &headers(&[("icy-metaint", "5")])));
    let mut start = 0;
    let mut done = false;
    for &end in cuts.iter().chain(std::iter::once(&body.len())) {
        if matches!(sink.chunk(false, &body[start..end]), ChunkStep::Done) {
            done = true;
            break;
        }
        start = end;
    }
    let end = if done {
        FetchEnd::Failed { aborted: false, detail: "Io(\"done\")".to_string() }
    } else {
        FetchEnd::Finished
    };
    sink.finish(end)
}

#[test]
fn chunking_does_not_change_the_outcome() {
    let mut body = vec![7u8; 5];
    body.extend(block_bytes(b"StreamTitle='Cut Anywhere';"));
    body.extend_from_slice(&[1, 2, 3]);
    for cuts in [&[][..], &[1][..], &[5, 6][..], &[2, 9, 20, 33][..], &[38][..]] {
        assert!(matches!(outcome_of(&body, cuts), Outcome::Title(t) if t == "Cut Anywhere"));
    }
    let short = &body[..20];
    for cuts in [&[][..], &[3][..], &[6, 10][..]] {
        assert!(matches!(
            outcome_of(short, cuts),
            Outcome::Failed(m) if m == "the stream ended before its first metadata block"
        ));
    }
}
