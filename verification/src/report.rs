//! The `num` codes the arms report a `PlaybackState` with on the node's `Event::Custom`
//! channel, tagged [`TAG`]. Plain integers rather than an enum, because they cross the JNI,
//! C-ABI, ArkTS, and wasm boundaries where only a number survives.

use vstd::prelude::*;

verus! {

/// The `Event::Custom` tag the in-process arms attach (cross-boundary ones carry none).
pub const TAG: &'static str = "media:state";

pub const IDLE: i32 = 0;

pub const LOADING: i32 = 1;

pub const PLAYING: i32 = 2;

pub const PAUSED: i32 = 3;

pub const ENDED: i32 = 4;

pub const ERROR: i32 = 5;

/// Not a state: the stream said what it is playing. `text` is the raw in-band value, an ICY
/// `StreamTitle` (`Artist - Title`) or the ID3/timed fields packed `title\u{1f}artist\u{1f}album`,
/// which `StreamMetadata::from_report` parses.
pub const METADATA: i32 = 6;

} // verus!
