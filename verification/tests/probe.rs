use std::sync::atomic::Ordering;

use day_piece_media::Probe;
use day_piece_media::probe::is_http_exec;

#[test]
fn only_http_sources_are_probed() {
    assert!(is_http_exec("http://radio.example/stream"));
    assert!(is_http_exec("https://radio.example/stream"));
    assert!(!is_http_exec("file:///tmp/a.mp3"));
    assert!(!is_http_exec("/tmp/a.mp3"));
    assert!(!is_http_exec("HTTP://radio.example"));
    assert!(!is_http_exec("http:/x"));
}

#[test]
fn start_replaces_the_running_worker_and_stop_cancels_it() {
    let mut p = Probe::new(7);
    assert_eq!(p.id(), 7);
    let first = p.start("https://a.example/one").expect("an http source starts a worker");
    assert!(!first.load(Ordering::Relaxed));
    let second = p.start("https://a.example/two").expect("another worker");
    assert!(first.load(Ordering::Relaxed), "starting again cancels the earlier worker");
    assert!(!second.load(Ordering::Relaxed));
    assert!(p.start("file:///tmp/x.mp3").is_none());
    assert!(second.load(Ordering::Relaxed), "a non-http source still stops the earlier one");
    p.stop();
    p.stop();
    assert_eq!(p.id(), 7);
}
