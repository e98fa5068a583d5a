//! The native arms' own decisions, over the plain values they read from their toolkit: the
//! report a player's condition becomes, the "now playing" text of a batch of timed metadata
//! items, and whether a source string names a URI or a local file.

use vstd::prelude::*;

use crate::report;
use crate::text::{chars_of, find, find_exec, string_from};

verus! {

/// The report a GTK media stream's condition becomes: an error with its message, else ended,
/// else playing (loading until prepared), else paused once prepared, else loading.
pub open spec fn stream_report_spec(
    error: Option<Seq<char>>,
    ended: bool,
    playing: bool,
    prepared: bool,
) -> (i32, Seq<char>) {
    match error {
        Some(message) => (report::ERROR, message),
        None => if ended {
            (report::ENDED, Seq::empty())
        } else if playing {
            if prepared {
                (report::PLAYING, Seq::empty())
            } else {
                (report::LOADING, Seq::empty())
            }
        } else if prepared {
            (report::PAUSED, Seq::empty())
        } else {
            (report::LOADING, Seq::empty())
        },
    }
}

/// The report a GTK media stream's condition becomes (see [`stream_report_spec`]).
pub fn stream_report(error: Option<String>, ended: bool, playing: bool, prepared: bool) -> (r: (
    i32,
    String,
))
    ensures
        (r.0, r.1@) == stream_report_spec(
            match error {
                Some(m) => Some(m@),
                None => None,
            },
            ended,
            playing,
            prepared,
        ),
{
    match error {
        Some(message) => (report::ERROR, message),
        None => if ended {
            (report::ENDED, String::new())
        } else if playing {
            if prepared {
                (report::PLAYING, String::new())
            } else {
                (report::LOADING, String::new())
            }
        } else if prepared {
            (report::PAUSED, String::new())
        } else {
            (report::LOADING, String::new())
        },
    }
}

/// The message of a failure that came without a description.
pub open spec fn playback_failed() -> Seq<char> {
    "playback failed"@
}

/// The text of a failure: its description, else "playback failed".
pub fn failure_text(description: Option<String>) -> (r: String)
    ensures
        r@ == match description {
            Some(d) => d@,
            None => playback_failed(),
        },
{
    match description {
        Some(d) => d,
        None => "playback failed".to_owned(),
    }
}

/// What an AVPlayer's `timeControlStatus` says.
pub enum TimeControl {
    /// Paused, or any status the arm does not know.
    Paused,
    /// Waiting to play at the specified rate: buffering.
    WaitingToPlay,
    Playing,
}

/// The report an AVPlayer's condition becomes: idle without an item; an error when the item
/// failed; else what its time control says.
pub open spec fn player_report_spec(
    has_item: bool,
    failed: bool,
    error: Option<Seq<char>>,
    control: TimeControl,
) -> (i32, Seq<char>) {
    if !has_item {
        (report::IDLE, Seq::empty())
    } else if failed {
        (
            report::ERROR,
            match error {
                Some(e) => e,
                None => playback_failed(),
            },
        )
    } else {
        match control {
            TimeControl::Playing => (report::PLAYING, Seq::empty()),
            TimeControl::WaitingToPlay => (report::LOADING, Seq::empty()),
            TimeControl::Paused => (report::PAUSED, Seq::empty()),
        }
    }
}

/// The report an AVPlayer's condition becomes (see [`player_report_spec`]).
pub fn player_report(has_item: bool, failed: bool, error: Option<String>, control: TimeControl) -> (r: (
    i32,
    String,
))
    ensures
        (r.0, r.1@) == player_report_spec(
            has_item,
            failed,
            match error {
                Some(e) => Some(e@),
                None => None,
            },
            control,
        ),
{
    if !has_item {
        return (report::IDLE, String::new());
    }
    if failed {
        return (report::ERROR, failure_text(error));
    }
    match control {
        TimeControl::Playing => (report::PLAYING, String::new()),
        TimeControl::WaitingToPlay => (report::LOADING, String::new()),
        TimeControl::Paused => (report::PAUSED, String::new()),
    }
}

/// The identifiers the timed metadata items are told apart by: the ICY stream title, and the
/// common title, artist, and album (each absent where the platform does not define it).
pub struct MetadataIds {
    pub icy: Option<String>,
    pub title: Option<String>,
    pub artist: Option<String>,
    pub album: Option<String>,
}

/// An optional string as characters.
pub open spec fn opt_chars(s: Option<String>) -> Option<Seq<char>> {
    match s {
        Some(s) => Some(s@),
        None => None,
    }
}

/// A timed metadata item: its identifier and its string value, each when it has one.
pub type MetadataItem = (Option<String>, Option<String>);

/// The role of an item with identifier `id`: 0 for the ICY title, 1 title, 2 artist, 3 album,
/// 4 none; the first that matches wins, and an item without an identifier has none.
pub open spec fn item_role(id: Option<Seq<char>>, ids: MetadataIds) -> int {
    if id is None {
        4
    } else if id == opt_chars(ids.icy) {
        0
    } else if id == opt_chars(ids.title) {
        1
    } else if id == opt_chars(ids.artist) {
        2
    } else if id == opt_chars(ids.album) {
        3
    } else {
        4
    }
}

/// The value of the last item among the first `n` with a string value and role `role`, or
/// nothing.
pub open spec fn last_value(items: Seq<MetadataItem>, ids: MetadataIds, role: int, n: int) -> Seq<
    char,
>
    decreases n,
{
    if n <= 0 {
        Seq::empty()
    } else {
        let (id, value) = items[n - 1];
        if value is Some && item_role(opt_chars(id), ids) == role {
            value.unwrap()@
        } else {
            last_value(items, ids, role, n - 1)
        }
    }
}

/// The index of the first item at or after `i` that carries the ICY title with a value.
pub open spec fn first_icy(items: Seq<MetadataItem>, ids: MetadataIds, i: int) -> Option<int>
    decreases items.len() - i,
{
    if i < 0 || i >= items.len() {
        None
    } else if items[i].1 is Some && item_role(opt_chars(items[i].0), ids) == 0 {
        Some(i)
    } else {
        first_icy(items, ids, i + 1)
    }
}

/// The packing separator of the timed fields.
pub open spec fn unit_sep_seq() -> Seq<char> {
    seq!['\u{1f}']
}

/// The `report::METADATA` payload a batch of items makes: an ICY `StreamTitle` as it came, else
/// the last title, artist, and album packed `title\u{1f}artist\u{1f}album`, else nothing.
pub open spec fn items_text_spec(items: Seq<MetadataItem>, ids: MetadataIds) -> Option<Seq<char>> {
    match first_icy(items, ids, 0) {
        Some(i) => Some(items[i].1.unwrap()@),
        None => {
            let n = items.len() as int;
            let title = last_value(items, ids, 1, n);
            let artist = last_value(items, ids, 2, n);
            let album = last_value(items, ids, 3, n);
            if title.len() == 0 && artist.len() == 0 && album.len() == 0 {
                None
            } else {
                Some(title + unit_sep_seq() + artist + unit_sep_seq() + album)
            }
        },
    }
}

/// Whether two optional strings are equal.
fn same_id(a: &Option<String>, b: &Option<String>) -> (r: bool)
    ensures
        r == (opt_chars(*a) == opt_chars(*b)),
{
    match (a, b) {
        (Some(x), Some(y)) => *x == *y,
        (None, None) => true,
        _ => false,
    }
}

/// The role of an item with identifier `id` (see [`item_role`]).
fn role_of(id: &Option<String>, ids: &MetadataIds) -> (r: u8)
    ensures
        r as int == item_role(opt_chars(*id), *ids),
{
    if id.is_none() {
        4
    } else if same_id(id, &ids.icy) {
        0
    } else if same_id(id, &ids.title) {
        1
    } else if same_id(id, &ids.artist) {
        2
    } else if same_id(id, &ids.album) {
        3
    } else {
        4
    }
}

/// Appends the characters of `s` to `out`.
fn append_chars(out: &mut Vec<char>, s: &String)
    ensures
        final(out)@ == old(out)@ + s@,
{
    let chars = chars_of(s.as_str());
    let mut i: usize = 0;
    let ghost start = out@;
    while i < chars.len()
        invariant
            i <= chars.len(),
            start == old(out)@,
            chars@ == s@,
            out@ == start + chars@.take(i as int),
        decreases chars.len() - i,
    {
        out.push(chars[i]);
        proof {
            assert(chars@.take(i + 1) =~= chars@.take(i as int).push(chars@[i as int]));
        }
        i += 1;
    }
    assert(chars@.take(chars@.len() as int) =~= chars@);
}

/// The `report::METADATA` payload a batch of timed metadata items makes (see
/// [`items_text_spec`]).
pub fn items_text(items: &[MetadataItem], ids: &MetadataIds) -> (r: Option<String>)
    ensures
        opt_chars(r) == items_text_spec(items@, *ids),
{
    let mut title = String::new();
    let mut artist = String::new();
    let mut album = String::new();
    let mut i: usize = 0;
    while i < items.len()
        invariant
            i <= items.len(),
            first_icy(items@, *ids, 0) == first_icy(items@, *ids, i as int),
            title@ == last_value(items@, *ids, 1, i as int),
            artist@ == last_value(items@, *ids, 2, i as int),
            album@ == last_value(items@, *ids, 3, i as int),
        decreases items.len() - i,
    {
        let (id, value) = &items[i];
        match value {
            Some(v) => {
                let role = role_of(id, ids);
                if role == 0 {
                    return Some(v.clone());
                } else if role == 1 {
                    title = v.clone();
                } else if role == 2 {
                    artist = v.clone();
                } else if role == 3 {
                    album = v.clone();
                }
            },
            None => {},
        }
        i += 1;
    }
    if title.as_str().is_empty() && artist.as_str().is_empty() && album.as_str().is_empty() {
        return None;
    }
    let mut packed: Vec<char> = Vec::new();
    append_chars(&mut packed, &title);
    packed.push('\u{1f}');
    append_chars(&mut packed, &artist);
    packed.push('\u{1f}');
    append_chars(&mut packed, &album);
    proof {
        assert(packed@ =~= title@ + unit_sep_seq() + artist@ + unit_sep_seq() + album@);
    }
    Some(string_from(&packed))
}

/// The payload of a batch of timed metadata groups: that of the first group that makes one.
pub open spec fn groups_text_spec(groups: Seq<Vec<MetadataItem>>, ids: MetadataIds, i: int) -> Option<
    Seq<char>,
>
    decreases groups.len() - i,
{
    if i < 0 || i >= groups.len() {
        None
    } else {
        match items_text_spec(groups[i]@, ids) {
            Some(t) => Some(t),
            None => groups_text_spec(groups, ids, i + 1),
        }
    }
}

/// The payload of a batch of timed metadata groups (see [`groups_text_spec`]).
pub fn groups_text(groups: &[Vec<MetadataItem>], ids: &MetadataIds) -> (r: Option<String>)
    ensures
        opt_chars(r) == groups_text_spec(groups@, *ids, 0),
{
    let mut i: usize = 0;
    while i < groups.len()
        invariant
            i <= groups.len(),
            groups_text_spec(groups@, *ids, 0) == groups_text_spec(groups@, *ids, i as int),
        decreases groups.len() - i,
    {
        let found = items_text(groups[i].as_slice(), ids);
        if found.is_some() {
            return found;
        }
        i += 1;
    }
    None
}

/// A source with an explicit scheme (`://`) is a URI; anything else is a local file path.
pub open spec fn names_uri_spec(source: Seq<char>) -> bool {
    find(source, seq![':', '/', '/']) is Some
}

/// Whether `source` names a URI rather than a local file path (see [`names_uri_spec`]).
pub fn names_uri(source: &str) -> (r: bool)
    ensures
        r == names_uri_spec(source@),
{
    let scheme = vec![':', '/', '/'];
    assert(scheme@ =~= seq![':', '/', '/']);
    find_exec(&chars_of(source), &scheme).is_some()
}


/// What a GTK stream reports: an error wins with its message; else an ended stream reports
/// ended whatever its playing and prepared flags (GTK pauses a stream as it ends it); else it
/// is playing exactly when it plays and is prepared, paused exactly when prepared and not
/// playing, and loading exactly while not prepared. Only an error carries text.
pub proof fn lemma_stream_report(
    error: Option<Seq<char>>,
    ended: bool,
    playing: bool,
    prepared: bool,
)
    ensures
        error matches Some(m) ==> stream_report_spec(error, ended, playing, prepared) == (
            report::ERROR,
            m,
        ),
        error is None && ended ==> stream_report_spec(error, ended, playing, prepared) == (
            report::ENDED,
            Seq::<char>::empty(),
        ),
        error is None && !ended ==> {
            let r = stream_report_spec(error, ended, playing, prepared);
            &&& r.1 == Seq::<char>::empty()
            &&& (r.0 == report::PLAYING) == (playing && prepared)
            &&& (r.0 == report::PAUSED) == (!playing && prepared)
            &&& (r.0 == report::LOADING) == !prepared
        },
{
}

/// What an AVPlayer reports: without a current item, idle; with a failed item, an error with
/// the item's description (else "playback failed") whatever the time control says; otherwise
/// the time control alone decides, with no text.
pub proof fn lemma_player_report(
    has_item: bool,
    failed: bool,
    error: Option<Seq<char>>,
    control: TimeControl,
)
    ensures
        !has_item ==> player_report_spec(has_item, failed, error, control) == (
            report::IDLE,
            Seq::<char>::empty(),
        ),
        has_item && failed ==> player_report_spec(has_item, failed, error, control).0
            == report::ERROR,
        has_item && failed && error is Some ==> player_report_spec(
            has_item,
            failed,
            error,
            control,
        ).1 == error.unwrap(),
        has_item && failed && error is None ==> player_report_spec(
            has_item,
            failed,
            error,
            control,
        ).1 == playback_failed(),
        has_item && !failed ==> {
            let r = player_report_spec(has_item, failed, error, control);
            &&& r.1 == Seq::<char>::empty()
            &&& (r.0 == report::PLAYING) == (control is Playing)
            &&& (r.0 == report::LOADING) == (control is WaitingToPlay)
            &&& (r.0 == report::PAUSED) == (control is Paused)
        },
{
}

} // verus!
