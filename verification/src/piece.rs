//! The front-end's decisions: when the piece starts its metadata probe, and what an arm's report
//! writes into the bound state and metadata signals.

use vstd::prelude::*;

use crate::metadata::{parse_metadata, MetadataView, StreamMetadata};
use crate::report;
use crate::state::{decode_report, PlaybackState, PlaybackView};

verus! {

/// The metadata a payload gives the signal: what it parses to, or nothing when it says nothing.
pub open spec fn metadata_value(text: Seq<char>) -> Option<MetadataView> {
    let m = parse_metadata(text);
    if m.raw.len() == 0 {
        None
    } else {
        Some(m)
    }
}

/// An optional metadata value as character sequences.
pub open spec fn opt_view(m: Option<StreamMetadata>) -> Option<MetadataView> {
    match m {
        Some(m) => Some(m@),
        None => None,
    }
}

/// What a report writes.
pub enum SignalWrite {
    /// Nothing: no signal is bound for it, or the signal already holds the value.
    Nothing,
    /// The metadata signal gets this value.
    Metadata(Option<StreamMetadata>),
    /// The state signal gets this value.
    State(PlaybackState),
}

/// A [`SignalWrite`] as views.
pub enum WriteView {
    Nothing,
    Metadata(Option<MetadataView>),
    State(PlaybackView),
}

impl View for SignalWrite {
    type V = WriteView;

    open spec fn view(&self) -> WriteView {
        match self {
            SignalWrite::Nothing => WriteView::Nothing,
            SignalWrite::Metadata(m) => WriteView::Metadata(opt_view(*m)),
            SignalWrite::State(s) => WriteView::State(s@),
        }
    }
}

/// What a report `(code, text)` writes, given the current value of the metadata signal and of
/// the state signal, each when bound. A `report::METADATA` code speaks to the metadata signal
/// only; every other code is a state. A signal is written only when its value changes.
pub open spec fn report_write(
    code: i32,
    text: Seq<char>,
    metadata: Option<Option<MetadataView>>,
    state: Option<PlaybackView>,
) -> WriteView {
    if code == report::METADATA {
        match metadata {
            Some(current) => if current == metadata_value(text) {
                WriteView::Nothing
            } else {
                WriteView::Metadata(metadata_value(text))
            },
            None => WriteView::Nothing,
        }
    } else {
        match state {
            Some(current) => if current == decode_report(code, text) {
                WriteView::Nothing
            } else {
                WriteView::State(decode_report(code, text))
            },
            None => WriteView::Nothing,
        }
    }
}

/// The value a metadata payload gives the signal: `None` when it says nothing.
pub fn next_metadata(text: &str) -> (r: Option<StreamMetadata>)
    ensures
        opt_view(r) == metadata_value(text@),
{
    let parsed = StreamMetadata::from_report(text);
    if parsed.is_empty() {
        None
    } else {
        Some(parsed)
    }
}

/// Whether two optional metadata values are equal.
fn same_metadata(a: &Option<StreamMetadata>, b: &Option<StreamMetadata>) -> (r: bool)
    ensures
        r == (opt_view(*a) == opt_view(*b)),
{
    match (a, b) {
        (Some(x), Some(y)) => *x == *y,
        (None, None) => true,
        _ => false,
    }
}

/// What a metadata payload writes into a metadata signal holding `current`: the new value, or
/// nothing when the signal already holds it.
pub fn metadata_write(current: &Option<StreamMetadata>, text: &str) -> (r: Option<
    Option<StreamMetadata>,
>)
    ensures
        match r {
            Some(next) => opt_view(next) == metadata_value(text@) && opt_view(*current)
                != metadata_value(text@),
            None => opt_view(*current) == metadata_value(text@),
        },
{
    let next = next_metadata(text);
    if same_metadata(current, &next) {
        None
    } else {
        Some(next)
    }
}

/// What a state report writes into a state signal holding `current`: the new state, or nothing
/// when the signal already holds it.
pub fn state_write(current: &PlaybackState, code: i32, text: &str) -> (r: Option<PlaybackState>)
    ensures
        match r {
            Some(next) => next@ == decode_report(code, text@) && current@ != decode_report(
                code,
                text@,
            ),
            None => current@ == decode_report(code, text@),
        },
{
    let next = PlaybackState::from_report(code, text);
    if *current == next {
        None
    } else {
        Some(next)
    }
}

/// The readback rail: what an arm's report on the node's Custom channel writes, given the
/// current values of the bound metadata and state signals (see [`report_write`]). The code is
/// the discriminator, never the tag: a cross-boundary report carries only its code and text.
pub fn on_report(
    code: i32,
    text: &str,
    metadata: Option<&Option<StreamMetadata>>,
    state: Option<&PlaybackState>,
) -> (r: SignalWrite)
    ensures
        r@ == report_write(
            code,
            text@,
            match metadata {
                Some(m) => Some(opt_view(*m)),
                None => None,
            },
            match state {
                Some(s) => Some(s@),
                None => None,
            },
        ),
{
    if code == report::METADATA {
        match metadata {
            Some(current) => match metadata_write(current, text) {
                Some(next) => SignalWrite::Metadata(next),
                None => SignalWrite::Nothing,
            },
            None => SignalWrite::Nothing,
        }
    } else {
        match state {
            Some(current) => match state_write(current, code, text) {
                Some(next) => SignalWrite::State(next),
                None => SignalWrite::Nothing,
            },
            None => SignalWrite::Nothing,
        }
    }
}

/// Whether the piece runs a side probe of the stream's in-band metadata at all: only with a
/// metadata signal bound, and only on a native arm whose player does not surface the stream's
/// timed metadata itself (AppKit and UIKit report it from AVFoundation); never on the web,
/// where a page cannot read a cross-origin stream.
pub fn uses_side_probe(metadata_bound: bool, player_reports_metadata: bool, on_web: bool) -> (r:
    bool)
    ensures
        r == (metadata_bound && !player_reports_metadata && !on_web),
{
    metadata_bound && !player_reports_metadata && !on_web
}

/// Whether the piece starts its metadata probe as it is built: only with a metadata signal
/// bound, on an arm whose player does not report the stream's metadata itself, a source given,
/// and autoplay on (a source that does not play is not probed until it is loaded).
pub fn probe_on_build(
    metadata_bound: bool,
    url: &str,
    autoplay: bool,
    player_reports_metadata: bool,
) -> (r: bool)
    ensures
        r == (metadata_bound && url@.len() > 0 && autoplay && !player_reports_metadata),
{
    metadata_bound && !url.is_empty() && autoplay && !player_reports_metadata
}

/// A report that has been written does not write again: once a signal holds what a report
/// says, the same report leaves it alone.
pub proof fn lemma_report_settles(
    code: i32,
    text: Seq<char>,
    metadata: Option<Option<MetadataView>>,
    state: Option<PlaybackView>,
)
    ensures
        match report_write(code, text, metadata, state) {
            WriteView::Metadata(m) => report_write(code, text, Some(m), state) is Nothing,
            WriteView::State(s) => report_write(code, text, metadata, Some(s)) is Nothing,
            WriteView::Nothing => true,
        },
{
}

/// A metadata report never touches the state signal, and a state report never touches the
/// metadata signal.
pub proof fn lemma_reports_keep_to_their_signal(
    code: i32,
    text: Seq<char>,
    metadata: Option<Option<MetadataView>>,
    state: Option<PlaybackView>,
)
    ensures
        code == report::METADATA ==> !(report_write(code, text, metadata, state) is State),
        code != report::METADATA ==> !(report_write(code, text, metadata, state) is Metadata),
{
}


/// The state signal's value once a report's write has been applied to a signal holding
/// `current`.
pub open spec fn state_after(current: PlaybackView, w: WriteView) -> PlaybackView {
    match w {
        WriteView::State(s) => s,
        _ => current,
    }
}

/// The metadata signal's value once a report's write has been applied to a signal holding
/// `current`.
pub open spec fn metadata_after(current: Option<MetadataView>, w: WriteView) -> Option<
    MetadataView,
> {
    match w {
        WriteView::Metadata(m) => m,
        _ => current,
    }
}

/// After any state report the bound state signal holds exactly the state the report decodes
/// to, from whatever it held before (so Loading moves to Playing, and Playing back to Loading on
/// a rebuffer), and it is written exactly when that differs from what it held; the metadata
/// signal is left alone.
pub proof fn lemma_state_report_lands(
    code: i32,
    text: Seq<char>,
    metadata: Option<Option<MetadataView>>,
    current: PlaybackView,
)
    requires
        code != report::METADATA,
    ensures
        state_after(current, report_write(code, text, metadata, Some(current))) == decode_report(
            code,
            text,
        ),
        (report_write(code, text, metadata, Some(current)) is Nothing) == (current
            == decode_report(code, text)),
        current != decode_report(code, text) ==> report_write(code, text, metadata, Some(current))
            == WriteView::State(decode_report(code, text)),
        report_write(code, text, metadata, None) is Nothing,
{
}

/// After any metadata report the bound metadata signal holds exactly what the payload says
/// (nothing for a blank payload), and it is written exactly when that differs from what it
/// held; the state signal is left alone.
pub proof fn lemma_metadata_report_lands(
    text: Seq<char>,
    current: Option<MetadataView>,
    state: Option<PlaybackView>,
)
    ensures
        metadata_after(current, report_write(report::METADATA, text, Some(current), state))
            == metadata_value(text),
        (report_write(report::METADATA, text, Some(current), state) is Nothing) == (current
            == metadata_value(text)),
        metadata_value(text) == (if parse_metadata(text).raw.len() == 0 {
            None
        } else {
            Some(parse_metadata(text))
        }),
        report_write(report::METADATA, text, None, state) is Nothing,
{
}

} // verus!
