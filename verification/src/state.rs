//! What the native player is doing, and how an arm's report decodes into it.

use vstd::prelude::*;

use crate::report;

verus! {

/// What the native player is doing, as reported through the piece's state signal.
///
/// The arms agree on this vocabulary and nothing finer: a live stream has no position or
/// duration worth reporting, and the states an app draws a transport from are these five.
#[derive(Clone, Debug)]
pub enum PlaybackState {
    /// No source, or the source was stopped.
    Idle,
    /// A source is set and the player is connecting or buffering; nothing audible yet.
    Loading,
    Playing,
    Paused,
    /// The source played to its end (a file; a live stream never does).
    Ended,
    /// The player gave up on the source. The text is the toolkit's own message.
    Error(String),
}

/// A [`PlaybackState`] with its message as characters.
pub enum PlaybackView {
    Idle,
    Loading,
    Playing,
    Paused,
    Ended,
    Error(Seq<char>),
}

impl View for PlaybackState {
    type V = PlaybackView;

    open spec fn view(&self) -> PlaybackView {
        match self {
            PlaybackState::Idle => PlaybackView::Idle,
            PlaybackState::Loading => PlaybackView::Loading,
            PlaybackState::Playing => PlaybackView::Playing,
            PlaybackState::Paused => PlaybackView::Paused,
            PlaybackState::Ended => PlaybackView::Ended,
            PlaybackState::Error(text) => PlaybackView::Error(text@),
        }
    }
}

/// The state an arm's report `(code, text)` stands for. Unknown codes read as `Idle`.
pub open spec fn decode_report(code: i32, text: Seq<char>) -> PlaybackView {
    if code == report::LOADING {
        PlaybackView::Loading
    } else if code == report::PLAYING {
        PlaybackView::Playing
    } else if code == report::PAUSED {
        PlaybackView::Paused
    } else if code == report::ENDED {
        PlaybackView::Ended
    } else if code == report::ERROR {
        PlaybackView::Error(text)
    } else {
        PlaybackView::Idle
    }
}

/// The code an arm reports a state with.
pub open spec fn report_code(s: PlaybackView) -> i32 {
    match s {
        PlaybackView::Idle => report::IDLE,
        PlaybackView::Loading => report::LOADING,
        PlaybackView::Playing => report::PLAYING,
        PlaybackView::Paused => report::PAUSED,
        PlaybackView::Ended => report::ENDED,
        PlaybackView::Error(_) => report::ERROR,
    }
}

/// The detail an arm reports a state with: an error's message, else nothing.
pub open spec fn report_text(s: PlaybackView) -> Seq<char> {
    match s {
        PlaybackView::Error(text) => text,
        _ => Seq::empty(),
    }
}

/// Sound is (or is about to be) coming out.
pub open spec fn active(s: PlaybackView) -> bool {
    s is Playing || s is Loading
}

impl PlaybackState {
    /// Sound is (or is about to be) coming out: playing, or loading on the way to playing.
    pub fn is_active(&self) -> (r: bool)
        ensures
            r == active(self@),
    {
        match self {
            PlaybackState::Playing | PlaybackState::Loading => true,
            _ => false,
        }
    }

    /// The report an arm sends: `code` is one of the `report` codes and `text` the detail
    /// (an error's message). Unknown codes read as `Idle` rather than being dropped, so a
    /// backend that grows a state the front-end does not know still resets a stale one.
    pub fn from_report(code: i32, text: &str) -> (r: PlaybackState)
        ensures
            r@ == decode_report(code, text@),
    {
        if code == report::LOADING {
            PlaybackState::Loading
        } else if code == report::PLAYING {
            PlaybackState::Playing
        } else if code == report::PAUSED {
            PlaybackState::Paused
        } else if code == report::ENDED {
            PlaybackState::Ended
        } else if code == report::ERROR {
            PlaybackState::Error(text.to_owned())
        } else {
            PlaybackState::Idle
        }
    }
}

impl Default for PlaybackState {
    fn default() -> (r: PlaybackState)
        ensures
            r@ == PlaybackView::Idle,
    {
        PlaybackState::Idle
    }
}

impl PartialEq for PlaybackState {
    fn eq(&self, other: &Self) -> (r: bool) {
        match (self, other) {
            (PlaybackState::Idle, PlaybackState::Idle) => true,
            (PlaybackState::Loading, PlaybackState::Loading) => true,
            (PlaybackState::Playing, PlaybackState::Playing) => true,
            (PlaybackState::Paused, PlaybackState::Paused) => true,
            (PlaybackState::Ended, PlaybackState::Ended) => true,
            (PlaybackState::Error(a), PlaybackState::Error(b)) => *a == *b,
            _ => false,
        }
    }
}

impl vstd::std_specs::cmp::PartialEqSpecImpl for PlaybackState {
    open spec fn obeys_eq_spec() -> bool {
        true
    }

    open spec fn eq_spec(&self, other: &PlaybackState) -> bool {
        self@ == other@
    }
}

/// Every state an arm can report comes back unchanged from its code and detail: the wire
/// codes round-trip into the states an app matches on.
pub proof fn lemma_report_roundtrip(s: PlaybackView)
    ensures
        decode_report(report_code(s), report_text(s)) == s,
{
}

/// A code the front-end does not know reads as `Idle`, whatever its detail.
pub proof fn lemma_unknown_code_is_idle(code: i32, text: Seq<char>)
    requires
        code < report::IDLE || code > report::ERROR,
    ensures
        decode_report(code, text) == PlaybackView::Idle,
{
}

/// Only an error report carries its text into the state; every other report ignores it.
pub proof fn lemma_text_only_for_errors(code: i32, t1: Seq<char>, t2: Seq<char>)
    requires
        code != report::ERROR,
    ensures
        decode_report(code, t1) == decode_report(code, t2),
{
}

} // verus!
