//! Playback-state decoding, stream-metadata parsing and the in-band ICY metadata probe of a
//! native media player piece, and the decisions its front-end and native arms make over them.

use vstd::prelude::*;

pub mod arms;
pub mod icy;
pub mod metadata;
pub mod piece;
pub mod probe;
pub mod report;
pub mod state;
pub mod text;

pub use icy::stream_title;
pub use metadata::StreamMetadata;
pub use probe::Probe;
pub use state::PlaybackState;

verus! {

/// The leaf kind the piece registers its renderers under.
pub const KIND: &'static str = "day.piece.media";

/// How often the side probe re-reads a stream's in-band metadata, where it is used.
pub const ICY_PROBE_SECS: u32 = 20;

/// Boolean DOM attributes use day-dom's marker convention: `"-"` sets, `""` removes.
pub fn flag(on: bool) -> (r: &'static str)
    ensures
        r@ == (if on {
            "-"@
        } else {
            ""@
        }),
{
    if on {
        "-"
    } else {
        ""
    }
}

} // verus!
