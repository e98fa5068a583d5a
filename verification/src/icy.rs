//! The side probe of a stream's in-band metadata, for the arms whose native player keeps it to
//! itself. Icecast and Shoutcast servers interleave a `StreamTitle='…';` block into an MP3 or
//! AAC stream every `icy-metaint` bytes when the client asks with `Icy-MetaData: 1`. The probe
//! asks the same way on a second, short-lived connection, reads exactly one block, hangs up,
//! and comes back every `ICY_PROBE_SECS` seconds. A stream that answers without `icy-metaint`
//! has no such metadata, and the probe stops asking it.
//!
//! This module holds the probe's decisions: reading the response head, cutting the metadata
//! block out of the body, classifying how a request ended, the worker's next step, and the
//! probe's own start/stop state. The connection, the thread and the sleeping are the caller's.

use vstd::prelude::*;
use vstd::utf8::{decode_utf8, valid_utf8};

use crate::text::{
    chars_of, find, find_exec, is_space, is_trimmed, lemma_find, lemma_find_is,
    lemma_matches_prefix, lemma_trim_end_nul_padding, lemma_trim_of_trimmed, matches_at, rfind,
    rfind_exec, string_of, sub_chars, trim, trim_end_nul, trim_end_nul_len, trim_range,
};

verus! {

/// The text `String::from_utf8_lossy` makes of `bytes`: valid UTF-8 decoded, each maximal
/// invalid sequence replaced by U+FFFD.
pub uninterp spec fn utf8_lossy(bytes: Seq<u8>) -> Seq<char>;

/// Calls `String::from_utf8_lossy`. Trusted: the result's characters are `utf8_lossy(bytes)`,
/// and for valid UTF-8 they are exactly its decoding (std hands the input back unchanged then).
#[verifier::external_body]
fn decode_lossy(bytes: &[u8]) -> (r: String)
    ensures
        r@ == utf8_lossy(bytes@),
        valid_utf8(bytes@) ==> r@ == decode_utf8(bytes@),
{
    String::from_utf8_lossy(bytes).into_owned()
}

/// Where the title field opens.
pub open spec fn title_open() -> Seq<char> {
    "StreamTitle='"@
}

/// Where the title field ends when a `StreamUrl` follows.
pub open spec fn url_field() -> Seq<char> {
    "';StreamUrl="@
}

/// Where the title field ends when a `StreamNext` follows.
pub open spec fn next_field() -> Seq<char> {
    "';StreamNext="@
}

/// Where a field ends.
pub open spec fn field_end() -> Seq<char> {
    "';"@
}

/// The title a metadata block's text carries: the `StreamTitle` field of the NUL-padded text,
/// trimmed, or nothing when there is none. The title may itself contain a quote; the field ends
/// at the next `';StreamUrl=`, else the next `';StreamNext=`, else the LAST `';`, else at the
/// end of the block.
pub open spec fn title_in(text: Seq<char>) -> Seq<char> {
    let t = trim_end_nul(text);
    match find(t, title_open()) {
        None => Seq::empty(),
        Some(start) => {
            let rest = t.subrange(start + title_open().len(), t.len() as int);
            let end = match find(rest, url_field()) {
                Some(e) => e,
                None => match find(rest, next_field()) {
                    Some(e) => e,
                    None => match rfind(rest, field_end()) {
                        Some(e) => e,
                        None => rest.len() as int,
                    },
                },
            };
            trim(rest.subrange(0, end))
        },
    }
}

/// The title a metadata block's decoded text carries (see [`title_in`]).
pub fn title_of(text: &str) -> (r: String)
    ensures
        r@ == title_in(text@),
{
    let all = chars_of(text);
    let n = trim_end_nul_len(&all);
    let trimmed = sub_chars(&all, 0, n);
    let open = chars_of("StreamTitle='");
    proof {
        lemma_find(trimmed@, open@);
    }
    match find_exec(&trimmed, &open) {
        None => String::new(),
        Some(start) => {
            let rest = sub_chars(&trimmed, start + open.len(), trimmed.len());
            let end = match find_exec(&rest, &chars_of("';StreamUrl=")) {
                Some(e) => e,
                None => match find_exec(&rest, &chars_of("';StreamNext=")) {
                    Some(e) => e,
                    None => match rfind_exec(&rest, &chars_of("';")) {
                        Some(e) => e,
                        None => rest.len(),
                    },
                },
            };
            proof {
                crate::text::lemma_find(rest@, url_field());
                crate::text::lemma_find(rest@, next_field());
                crate::text::lemma_rfind_below(rest@, field_end(), rest@.len() + 1int);
            }
            let (a, b) = trim_range(&rest, 0, end);
            string_of(&rest, a, b)
        },
    }
}

/// `StreamTitle='…';StreamUrl='…';` (NUL-padded) → the title, or empty when there is none.
pub fn stream_title(block: &[u8]) -> (r: String)
    ensures
        r@ == title_in(utf8_lossy(block@)),
        valid_utf8(block@) ==> r@ == title_in(decode_utf8(block@)),
{
    let decoded = decode_lossy(block);
    title_of(decoded.as_str())
}

/// The largest interval worth reading through: past this a stream is video or odd.
pub const MAX_INTERVAL: usize = 1048576;

/// The response header that carries the metadata interval, lower-cased.
pub open spec fn metaint_key() -> Seq<char> {
    seq!['i', 'c', 'y', '-', 'm', 'e', 't', 'a', 'i', 'n', 't']
}

/// An ASCII upper-case letter's lower-case form; every other code unchanged.
pub open spec fn ascii_lower(u: u32) -> u32 {
    if 0x41 <= u <= 0x5a {
        (u + 32) as u32
    } else {
        u
    }
}

/// `name` is `icy-metaint`, ignoring ASCII case (`str::eq_ignore_ascii_case`).
pub open spec fn is_metaint_name(name: Seq<char>) -> bool {
    &&& name.len() == metaint_key().len()
    &&& forall|i: int|
        0 <= i < name.len() ==> ascii_lower(#[trigger] name[i] as u32) == metaint_key()[i] as u32
}

/// The headers as pairs of character sequences.
pub open spec fn header_views(headers: Seq<(String, String)>) -> Seq<(Seq<char>, Seq<char>)> {
    headers.map_values(|h: (String, String)| (h.0@, h.1@))
}

/// The index of the first header at or after `i` named `icy-metaint`.
pub open spec fn metaint_header_from(headers: Seq<(Seq<char>, Seq<char>)>, i: int) -> Option<int>
    decreases headers.len() - i,
{
    if i < 0 || i >= headers.len() {
        None
    } else if is_metaint_name(headers[i].0) {
        Some(i)
    } else {
        metaint_header_from(headers, i + 1)
    }
}

/// A decimal digit.
pub open spec fn is_digit(c: char) -> bool {
    '0' <= c <= '9'
}

/// The value of a run of decimal digits.
pub open spec fn digits_value(d: Seq<char>) -> nat
    decreases d.len(),
{
    if d.len() == 0 {
        0
    } else {
        digits_value(d.drop_last()) * 10 + ((d.last() as u32) - ('0' as u32)) as nat
    }
}

/// The digits of a decimal numeral: everything after an optional leading `+`.
pub open spec fn numeral_digits(v: Seq<char>) -> Seq<char> {
    if v.len() > 0 && v[0] == '+' {
        v.drop_first()
    } else {
        v
    }
}

/// `<usize as FromStr>::from_str`: an optional `+` and one or more decimal digits, whose value
/// fits in a `usize`.
pub open spec fn parse_usize(v: Seq<char>) -> Option<nat> {
    let d = numeral_digits(v);
    if d.len() > 0 && (forall|i: int| 0 <= i < d.len() ==> is_digit(#[trigger] d[i]))
        && digits_value(d) <= usize::MAX {
        Some(digits_value(d))
    } else {
        None
    }
}

/// The interval a header value announces: the trimmed value as a `usize`, kept only when it is
/// positive and at most [`MAX_INTERVAL`].
pub open spec fn interval_value(v: Seq<char>) -> Option<nat> {
    match parse_usize(trim(v)) {
        Some(n) if 0 < n <= MAX_INTERVAL => Some(n),
        _ => None,
    }
}

/// The interval a response head announces: none unless the status is 200; else the value of the
/// first `icy-metaint` header, if it is a usable interval.
pub open spec fn head_interval(status: u16, headers: Seq<(Seq<char>, Seq<char>)>) -> Option<nat> {
    if status != 200 {
        None
    } else {
        match metaint_header_from(headers, 0) {
            Some(i) => interval_value(headers[i].1),
            None => None,
        }
    }
}

/// A run of digits whose prefix already exceeds a bound exceeds it too.
proof fn lemma_digits_value_grows(d: Seq<char>, k: int)
    requires
        0 <= k <= d.len(),
        forall|i: int| 0 <= i < d.len() ==> is_digit(#[trigger] d[i]),
    ensures
        digits_value(d) >= digits_value(d.subrange(0, k)),
    decreases d.len() - k,
{
    if k < d.len() {
        lemma_digits_value_grows(d, k + 1);
        let p = d.subrange(0, k + 1);
        assert(p.drop_last() =~= d.subrange(0, k));
    } else {
        assert(d.subrange(0, k) =~= d);
    }
}

/// Whether `name` is `icy-metaint`, ignoring ASCII case.
fn is_metaint_name_exec(name: &Vec<char>) -> (r: bool)
    ensures
        r == is_metaint_name(name@),
{
    let key = vec!['i', 'c', 'y', '-', 'm', 'e', 't', 'a', 'i', 'n', 't'];
    assert(key@ =~= metaint_key());
    if name.len() != key.len() {
        return false;
    }
    let mut i: usize = 0;
    while i < name.len()
        invariant
            name.len() == key.len(),
            key@ == metaint_key(),
            i <= name.len(),
            forall|j: int| 0 <= j < i ==> ascii_lower(#[trigger] name@[j] as u32) == metaint_key()[j] as u32,
        decreases name.len() - i,
    {
        let u = name[i] as u32;
        let lower = if 0x41 <= u && u <= 0x5a {
            u + 32
        } else {
            u
        };
        if lower != key[i] as u32 {
            assert(ascii_lower(name@[i as int] as u32) != metaint_key()[i as int] as u32);
            return false;
        }
        i += 1;
    }
    true
}

/// The usable interval a header value announces (see [`interval_value`]).
pub fn interval_of(value: &str) -> (r: Option<usize>)
    ensures
        match r {
            Some(n) => interval_value(value@) == Some(n as nat),
            None => interval_value(value@) is None,
        },
{
    let all = chars_of(value);
    let (lo, hi) = trim_range(&all, 0, all.len());
    proof {
        assert(all@.subrange(0, all@.len() as int) =~= all@);
    }
    let v = sub_chars(&all, lo, hi);
    let ghost d = numeral_digits(v@);
    let mut i: usize = 0;
    if v.len() > 0 && v[0] == '+' {
        i = 1;
    }
    let start = i;
    proof {
        assert(d =~= v@.subrange(start as int, v@.len() as int));
    }
    let mut n: usize = 0;
    while i < v.len()
        invariant
            v@ == trim(value@),
            d == numeral_digits(v@),
            start <= i <= v.len(),
            d =~= v@.subrange(start as int, v@.len() as int),
            n <= MAX_INTERVAL,
            n == digits_value(d.subrange(0, i - start)),
            forall|j: int| 0 <= j < i - start ==> is_digit(#[trigger] d[j]),
        decreases v.len() - i,
    {
        let c = v[i];
        if !('0' <= c && c <= '9') {
            assert(!is_digit(d[i - start]));
            return None;
        }
        proof {
            let p = d.subrange(0, i - start + 1);
            assert(p.drop_last() =~= d.subrange(0, i - start));
        }
        n = n * 10 + (c as u32 - '0' as u32) as usize;
        i += 1;
        if n > MAX_INTERVAL {
            proof {
                if forall|j: int| 0 <= j < d.len() ==> is_digit(#[trigger] d[j]) {
                    lemma_digits_value_grows(d, i - start);
                }
            }
            return None;
        }
    }
    proof {
        assert(d.subrange(0, d.len() as int) =~= d);
    }
    if i == start || n == 0 {
        return None;
    }
    Some(n)
}

/// The usable interval a response head announces (see [`head_interval`]).
pub fn head_interval_exec(status: u16, headers: &[(String, String)]) -> (r: Option<usize>)
    ensures
        match r {
            Some(n) => head_interval(status, header_views(headers@)) == Some(n as nat),
            None => head_interval(status, header_views(headers@)) is None,
        },
{
    if status != 200 {
        return None;
    }
    let ghost hs = header_views(headers@);
    let mut i: usize = 0;
    while i < headers.len()
        invariant
            hs == header_views(headers@),
            i <= headers.len(),
            status == 200,
            hs.len() == headers@.len(),
            metaint_header_from(hs, 0) == metaint_header_from(hs, i as int),
        decreases headers.len() - i,
    {
        let name = chars_of(headers[i].0.as_str());
        assert(hs[i as int] == (headers@[i as int].0@, headers@[i as int].1@));
        if is_metaint_name_exec(&name) {
            return interval_of(headers[i].1.as_str());
        }
        i += 1;
    }
    None
}

/// The metadata block a body buffer holds once `interval` audio bytes have passed: one length
/// byte (×16), then that many bytes of text; nothing until all of it has arrived.
pub open spec fn block_in(buffer: Seq<u8>, interval: nat) -> Option<Seq<u8>> {
    if buffer.len() > interval {
        let len = buffer[interval as int] as nat * 16;
        if buffer.len() >= interval + 1 + len {
            Some(buffer.subrange(interval + 1int, interval + 1int + len))
        } else {
            None
        }
    } else {
        None
    }
}

/// The interval a sink reads with: the announced one, or zero.
pub open spec fn interval_or_zero(interval: Option<usize>) -> nat {
    match interval {
        Some(n) => n as nat,
        None => 0,
    }
}

/// What a body chunk did to the sink.
pub enum ChunkStep {
    /// More body is needed.
    Continue,
    /// The probe was cancelled: abort the transfer.
    Cancelled,
    /// The metadata block arrived and its title is in the sink: hang up.
    Done,
}

/// How a request ended, as far as the probe cares: the transfer finished, or it failed with a
/// message (`aborted` when the transfer was aborted from the head).
pub enum FetchEnd {
    Finished,
    Failed { aborted: bool, detail: String },
}

/// What one request found.
pub enum Outcome {
    /// The stream's current title.
    Title(String),
    /// The stream carries no ICY metadata.
    NoMetadata,
    /// The request failed; the text says how.
    Failed(String),
}

/// An [`Outcome`] with its text as characters.
pub enum OutcomeView {
    Title(Seq<char>),
    NoMetadata,
    Failed(Seq<char>),
}

impl View for Outcome {
    type V = OutcomeView;

    open spec fn view(&self) -> OutcomeView {
        match self {
            Outcome::Title(t) => OutcomeView::Title(t@),
            Outcome::NoMetadata => OutcomeView::NoMetadata,
            Outcome::Failed(m) => OutcomeView::Failed(m@),
        }
    }
}

/// The message of a transfer that ended before the first metadata block.
pub open spec fn ended_early() -> Seq<char> {
    "the stream ended before its first metadata block"@
}

/// The outcome of one request, from the sink it filled and how the transfer ended: a title
/// when the block arrived; no metadata when the head announced no interval and the transfer
/// finished or was aborted there; else a failure.
pub open spec fn request_outcome(
    interval: Option<usize>,
    title: Option<Seq<char>>,
    end: FetchEnd,
) -> OutcomeView {
    match title {
        Some(t) => OutcomeView::Title(t),
        None => match end {
            FetchEnd::Finished => if interval is None {
                OutcomeView::NoMetadata
            } else {
                OutcomeView::Failed(ended_early())
            },
            FetchEnd::Failed { aborted, detail } => if aborted && interval is None {
                OutcomeView::NoMetadata
            } else {
                OutcomeView::Failed(detail@)
            },
        },
    }
}

/// The state of one probe request: the interval the head announced, the body so far, and the
/// title once the block has arrived.
pub struct IcySink {
    pub interval: Option<usize>,
    pub buffer: Vec<u8>,
    pub title: Option<String>,
}

impl IcySink {
    /// A sink that has seen nothing.
    pub fn new() -> (r: IcySink)
        ensures
            r.interval is None,
            r.buffer@.len() == 0,
            r.title is None,
    {
        IcySink { interval: None, buffer: Vec::new(), title: None }
    }

    /// The response head. Anything but status 200 hangs up; otherwise the sink takes the
    /// interval the head announces, and hangs up when there is none (the server does not do
    /// ICY) rather than read the stream.
    pub fn head(&mut self, status: u16, headers: &[(String, String)]) -> (r: bool)
        ensures
            status != 200 ==> !r && final(self).interval == old(self).interval,
            status == 200 ==> r == final(self).interval is Some && match final(self).interval {
                Some(n) => head_interval(status, header_views(headers@)) == Some(n as nat),
                None => head_interval(status, header_views(headers@)) is None,
            },
            final(self).buffer == old(self).buffer,
            final(self).title == old(self).title,
    {
        if status != 200 {
            return false;
        }
        self.interval = head_interval_exec(status, headers);
        self.interval.is_some()
    }

    /// One body chunk: appended to the buffer, and the title taken from the metadata block as
    /// soon as all of it is there. A cancelled probe takes nothing.
    pub fn chunk(&mut self, cancelled: bool, data: &[u8]) -> (r: ChunkStep)
        ensures
            cancelled ==> r is Cancelled && *final(self) == *old(self),
            !cancelled ==> {
                &&& final(self).interval == old(self).interval
                &&& final(self).buffer@ == old(self).buffer@ + data@
                &&& match block_in(final(self).buffer@, interval_or_zero(old(self).interval)) {
                    Some(block) => r is Done && (final(self).title matches Some(t) && t@
                        == title_in(utf8_lossy(block))),
                    None => r is Continue && final(self).title == old(self).title,
                }
            },
    {
        if cancelled {
            return ChunkStep::Cancelled;
        }
        let interval = match self.interval {
            Some(n) => n,
            None => 0,
        };
        let ghost before = self.buffer@;
        let mut i: usize = 0;
        while i < data.len()
            invariant
                i <= data.len(),
                before == old(self).buffer@,
                self.interval == old(self).interval,
                self.title == old(self).title,
                self.buffer@ == before + data@.subrange(0, i as int),
            decreases data.len() - i,
        {
            self.buffer.push(data[i]);
            proof {
                assert(data@.subrange(0, i + 1) =~= data@.subrange(0, i as int).push(data@[i as int]));
            }
            i += 1;
        }
        proof {
            assert(data@.subrange(0, data@.len() as int) =~= data@);
        }
        if self.buffer.len() > interval {
            let len = self.buffer[interval] as usize * 16;
            if self.buffer.len() - (interval + 1) >= len {
                let block = &self.buffer.as_slice()[interval + 1..interval + 1 + len];
                self.title = Some(stream_title(block));
                return ChunkStep::Done;
            }
        }
        ChunkStep::Continue
    }

    /// The outcome of the request this sink served (see [`request_outcome`]).
    pub fn finish(self, end: FetchEnd) -> (r: Outcome)
        ensures
            r@ == request_outcome(
                self.interval,
                match self.title {
                    Some(t) => Some(t@),
                    None => None,
                },
                end,
            ),
    {
        if let Some(title) = self.title {
            return Outcome::Title(title);
        }
        match end {
            FetchEnd::Finished => if self.interval.is_none() {
                Outcome::NoMetadata
            } else {
                Outcome::Failed("the stream ended before its first metadata block".to_owned())
            },
            FetchEnd::Failed { aborted, detail } => if aborted && self.interval.is_none() {
                Outcome::NoMetadata
            } else {
                Outcome::Failed(detail)
            },
        }
    }
}

/// What the worker does next.
pub enum WorkerAction {
    /// Stop probing this stream.
    Quit,
    /// Hand this title to the player's metadata signal, then wait.
    Deliver(String),
    /// Wait for the next round.
    Wait,
}

/// A [`WorkerAction`] with its title as characters.
pub enum ActionView {
    Quit,
    Deliver(Seq<char>),
    Wait,
}

impl View for WorkerAction {
    type V = ActionView;

    open spec fn view(&self) -> ActionView {
        match self {
            WorkerAction::Quit => ActionView::Quit,
            WorkerAction::Deliver(t) => ActionView::Deliver(t@),
            WorkerAction::Wait => ActionView::Wait,
        }
    }
}

/// The worker's step after one request: the title it last delivered, and what it does. A title
/// is delivered only when it differs from the last one; a cancelled worker, or a stream without
/// metadata, quits; a failure waits for the next round.
pub open spec fn worker_next(
    last: Option<Seq<char>>,
    outcome: OutcomeView,
    cancelled: bool,
) -> (Option<Seq<char>>, ActionView) {
    match outcome {
        OutcomeView::Title(t) => if cancelled {
            (last, ActionView::Quit)
        } else if last == Some(t) {
            (last, ActionView::Wait)
        } else {
            (Some(t), ActionView::Deliver(t))
        },
        OutcomeView::NoMetadata => (last, ActionView::Quit),
        OutcomeView::Failed(_) => (last, ActionView::Wait),
    }
}

/// The probe worker's memory: the title it last delivered.
pub struct ProbeWorker {
    last: Option<String>,
}

impl ProbeWorker {
    /// The title the worker last delivered.
    pub closed spec fn last(&self) -> Option<Seq<char>> {
        match self.last {
            Some(t) => Some(t@),
            None => None,
        }
    }

    /// A worker that has delivered nothing yet.
    pub fn new() -> (r: ProbeWorker)
        ensures
            r.last() is None,
    {
        ProbeWorker { last: None }
    }

    /// The step after one request; `cancelled` is whether the probe was stopped meanwhile.
    pub fn step(&mut self, outcome: Outcome, cancelled: bool) -> (r: WorkerAction)
        ensures
            (final(self).last(), r@) == worker_next(old(self).last(), outcome@, cancelled),
    {
        match outcome {
            Outcome::Title(title) => {
                if cancelled {
                    return WorkerAction::Quit;
                }
                let same = match &self.last {
                    Some(last) => *last == title,
                    None => false,
                };
                if same {
                    WorkerAction::Wait
                } else {
                    self.last = Some(title.clone());
                    WorkerAction::Deliver(title)
                }
            },
            Outcome::NoMetadata => WorkerAction::Quit,
            Outcome::Failed(_) => WorkerAction::Wait,
        }
    }
}

/// The metadata block a server sends for `title` and `url`, before its NUL padding.
pub open spec fn icy_block(title: Seq<char>, url: Seq<char>) -> Seq<char> {
    title_open() + title + url_field() + "'"@ + url + field_end()
}

/// A block read gives back the title it was written with, whatever its URL and padding: for a
/// trimmed title that holds no `';StreamUrl=` of its own, not even where it meets that field.
pub proof fn lemma_title_roundtrip(title: Seq<char>, url: Seq<char>, pad: nat)
    requires
        is_trimmed(title),
        find(title + url_field(), url_field()) == Some(title.len() as int),
    ensures
        title_in(icy_block(title, url) + Seq::new(pad, |k: int| '\0')) == title,
{
    reveal_strlit("StreamTitle='");
    reveal_strlit("';");
    let block = icy_block(title, url);
    let open = title_open();
    let head = title + url_field();
    let ol = open.len() as int;
    let tl = title.len() as int;
    assert(block.last() == ';');
    lemma_trim_end_nul_padding(block, pad);
    assert(matches_at(block, open, 0)) by {
        assert forall|m: int| 0 <= m < open.len() implies #[trigger] block[0 + m] == open[m] by {
            assert(block[m] == open[m]);
        }
    }
    lemma_find_is(block, open, 0);
    let rest = block.subrange(ol, block.len() as int);
    assert forall|i: int| 0 <= i < head.len() implies #[trigger] rest[i] == head[i] by {
        assert(rest[i] == block[ol + i]);
    }
    lemma_find(head, url_field());
    lemma_matches_prefix(rest, head, url_field(), head.len() as int, tl);
    assert forall|k: int| 0 <= k < tl implies !#[trigger] matches_at(rest, url_field(), k) by {
        lemma_matches_prefix(rest, head, url_field(), head.len() as int, k);
    }
    lemma_find_is(rest, url_field(), tl);
    assert(rest.subrange(0, tl) =~= title);
    lemma_trim_of_trimmed(title);
}

/// The block layout a server interleaves: after `audio`, one length byte `n`, then `16 n` bytes
/// of metadata; whatever follows does not matter. The sink finds exactly that block.
pub proof fn lemma_block_layout(audio: Seq<u8>, n: u8, block: Seq<u8>, after: Seq<u8>)
    requires
        block.len() == n as nat * 16,
    ensures
        block_in(audio + seq![n] + block + after, audio.len()) == Some(block),
{
    let buffer = audio + seq![n] + block + after;
    let a = audio.len() as int;
    assert(buffer[a] == n);
    assert(buffer.subrange(a + 1, a + 1 + block.len()) =~= block);
}

/// Until a block's last byte has arrived there is no block.
pub proof fn lemma_block_incomplete(audio: Seq<u8>, n: u8, partial: Seq<u8>)
    requires
        partial.len() < n as nat * 16,
    ensures
        block_in(audio + seq![n] + partial, audio.len()) is None,
{
    let buffer = audio + seq![n] + partial;
    assert(buffer[audio.len() as int] == n);
}

/// The titles a run of requests delivers, in order, for a worker that last delivered `last`;
/// the run ends where the worker quits.
pub open spec fn deliveries(last: Option<Seq<char>>, events: Seq<(OutcomeView, bool)>) -> Seq<
    Seq<char>,
>
    decreases events.len(),
{
    if events.len() == 0 {
        Seq::empty()
    } else {
        let (next, action) = worker_next(last, events[0].0, events[0].1);
        let rest = deliveries(next, events.drop_first());
        match action {
            ActionView::Deliver(t) => seq![t] + rest,
            ActionView::Quit => Seq::empty(),
            ActionView::Wait => rest,
        }
    }
}

/// The worker never delivers the same title twice in a row: each delivered title differs from
/// the one delivered before it, the first one from what the worker last delivered.
pub proof fn lemma_no_repeated_delivery(last: Option<Seq<char>>, events: Seq<(OutcomeView, bool)>)
    ensures
        forall|k: int|
            0 <= k < deliveries(last, events).len() - 1 ==> #[trigger] deliveries(last, events)[k]
                != deliveries(last, events)[k + 1],
        last is Some && deliveries(last, events).len() > 0 ==> deliveries(last, events)[0]
            != last.unwrap(),
    decreases events.len(),
{
    if events.len() > 0 {
        let (next, action) = worker_next(last, events[0].0, events[0].1);
        lemma_no_repeated_delivery(next, events.drop_first());
        let rest = deliveries(next, events.drop_first());
        match action {
            ActionView::Deliver(t) => {
                let d = seq![t] + rest;
                assert(deliveries(last, events) == d);
                assert forall|k: int| 0 <= k < d.len() - 1 implies #[trigger] d[k] != d[k + 1] by {
                    if k > 0 {
                        assert(d[k] == rest[k - 1]);
                        assert(d[k + 1] == rest[k]);
                    }
                }
            },
            _ => {},
        }
    }
}

/// A decimal digit's character.
pub open spec fn digit_char(d: nat) -> char {
    if d == 0 {
        '0'
    } else if d == 1 {
        '1'
    } else if d == 2 {
        '2'
    } else if d == 3 {
        '3'
    } else if d == 4 {
        '4'
    } else if d == 5 {
        '5'
    } else if d == 6 {
        '6'
    } else if d == 7 {
        '7'
    } else if d == 8 {
        '8'
    } else {
        '9'
    }
}

/// A digit's character stands for that digit.
proof fn lemma_digit_char(d: nat)
    requires
        d < 10,
    ensures
        is_digit(digit_char(d)),
        (digit_char(d) as u32) - ('0' as u32) == d,
{
}

/// `n` in decimal, as a server writes the header value.
pub open spec fn decimal(n: nat) -> Seq<char>
    decreases n,
{
    if n < 10 {
        seq![digit_char(n)]
    } else {
        decimal(n / 10).push(digit_char(n % 10))
    }
}

/// The decimal numeral of `n` is all digits, and its value is `n`.
pub proof fn lemma_decimal_value(n: nat)
    ensures
        forall|i: int| 0 <= i < decimal(n).len() ==> is_digit(#[trigger] decimal(n)[i]),
        digits_value(decimal(n)) == n,
        decimal(n).len() > 0,
    decreases n,
{
    lemma_digit_char(n % 10);
    if n < 10 {
        let d = decimal(n);
        assert(n % 10 == n);
        assert(d.drop_last() =~= Seq::<char>::empty());
        assert(d.last() == digit_char(n));
        assert(digits_value(d) == digits_value(d.drop_last()) * 10 + ((d.last() as u32) - (
        '0' as u32)) as nat);
    } else {
        lemma_decimal_value(n / 10);
        let d = decimal(n);
        assert(n == (n / 10) * 10 + n % 10);
        assert(d.last() == digit_char(n % 10));
        assert(digits_value(d) == digits_value(d.drop_last()) * 10 + ((d.last() as u32) - (
        '0' as u32)) as nat);
        assert(d.drop_last() =~= decimal(n / 10));
        assert forall|i: int| 0 <= i < d.len() implies is_digit(#[trigger] d[i]) by {
            if i < d.len() - 1 {
                assert(d[i] == decimal(n / 10)[i]);
            }
        }
    }
}

/// An interval header read gives back the interval it was written with: the decimal numeral of
/// any usable interval, with or without surrounding whitespace, reads as that interval.
pub proof fn lemma_interval_roundtrip(n: nat)
    requires
        0 < n <= MAX_INTERVAL,
    ensures
        interval_value(decimal(n)) == Some(n),
{
    lemma_decimal_value(n);
    let d = decimal(n);
    assert(!is_space(d[0]));
    assert(!is_space(d.last()));
    lemma_trim_of_trimmed(d);
    assert(d[0] != '+');
    assert(numeral_digits(d) == d);
}

/// A stream that answers without a usable `icy-metaint` has no such metadata, and the probe
/// stops asking it: the head hangs up, the transfer ends finished or aborted there, the request
/// finds no metadata, and the worker quits, whatever it delivered before.
pub proof fn lemma_no_metaint_stops(
    status: u16,
    headers: Seq<(Seq<char>, Seq<char>)>,
    end: FetchEnd,
    last: Option<Seq<char>>,
    cancelled: bool,
)
    requires
        head_interval(status, headers) is None,
        end matches FetchEnd::Failed { aborted, .. } ==> aborted,
    ensures
        request_outcome(None, None, end) == OutcomeView::NoMetadata,
        worker_next(last, request_outcome(None, None, end), cancelled).1 == ActionView::Quit,
{
}

/// The body chunks in arrival order, joined.
pub open spec fn joined(chunks: Seq<Seq<u8>>) -> Seq<u8>
    decreases chunks.len(),
{
    if chunks.len() == 0 {
        Seq::empty()
    } else {
        chunks[0] + joined(chunks.drop_first())
    }
}

/// The block a sink holding `buffer` finds as `chunks` arrive one by one, each appended and
/// checked as [`IcySink::chunk`] does, stopping at the first chunk that completes a block.
pub open spec fn block_as_chunks_arrive(
    interval: nat,
    buffer: Seq<u8>,
    chunks: Seq<Seq<u8>>,
) -> Option<Seq<u8>>
    decreases chunks.len(),
{
    if chunks.len() == 0 {
        None
    } else {
        let next = buffer + chunks[0];
        match block_in(next, interval) {
            Some(block) => Some(block),
            None => block_as_chunks_arrive(interval, next, chunks.drop_first()),
        }
    }
}

/// The outcome of a request whose head announced `interval` and whose body arrived as
/// `chunks`, the transfer ending as `end` (see [`request_outcome`]).
pub open spec fn chunked_outcome(
    interval: Option<usize>,
    chunks: Seq<Seq<u8>>,
    end: FetchEnd,
) -> OutcomeView {
    request_outcome(
        interval,
        match block_as_chunks_arrive(interval_or_zero(interval), Seq::empty(), chunks) {
            Some(block) => Some(title_in(utf8_lossy(block))),
            None => None,
        },
        end,
    )
}

/// Once a buffer holds a block, more bytes after it do not change the block.
proof fn lemma_block_stays(buffer: Seq<u8>, more: Seq<u8>, interval: nat)
    requires
        block_in(buffer, interval) is Some,
    ensures
        block_in(buffer + more, interval) == block_in(buffer, interval),
{
    let whole = buffer + more;
    let i = interval as int;
    assert(whole[i] == buffer[i]);
    let len = buffer[i] as nat * 16;
    assert(whole.subrange(i + 1, i + 1 + len) =~= buffer.subrange(i + 1, i + 1 + len));
}

/// As long as no block has been found, the block the arriving chunks complete is the block of
/// the whole buffer they make.
proof fn lemma_arrival_is_whole(interval: nat, buffer: Seq<u8>, chunks: Seq<Seq<u8>>)
    requires
        block_in(buffer, interval) is None,
    ensures
        block_as_chunks_arrive(interval, buffer, chunks) == block_in(
            buffer + joined(chunks),
            interval,
        ),
    decreases chunks.len(),
{
    if chunks.len() == 0 {
        assert(buffer + joined(chunks) =~= buffer);
    } else {
        let next = buffer + chunks[0];
        let rest = chunks.drop_first();
        assert(buffer + joined(chunks) =~= next + joined(rest));
        match block_in(next, interval) {
            Some(_) => {
                lemma_block_stays(next, joined(rest), interval);
            },
            None => {
                lemma_arrival_is_whole(interval, next, rest);
            },
        }
    }
}

/// How the body is cut into chunks does not matter: two runs that receive the same bytes, cut
/// differently, find the same block, namely the block of the whole body, and so end with the
/// same outcome; once the block is found, the outcome is its title however the transfer ended.
pub proof fn lemma_chunking_irrelevant(
    interval: Option<usize>,
    chunks1: Seq<Seq<u8>>,
    chunks2: Seq<Seq<u8>>,
    end: FetchEnd,
)
    requires
        joined(chunks1) == joined(chunks2),
    ensures
        block_as_chunks_arrive(interval_or_zero(interval), Seq::empty(), chunks1) == block_in(
            joined(chunks1),
            interval_or_zero(interval),
        ),
        block_as_chunks_arrive(interval_or_zero(interval), Seq::empty(), chunks1)
            == block_as_chunks_arrive(interval_or_zero(interval), Seq::empty(), chunks2),
        chunked_outcome(interval, chunks1, end) == chunked_outcome(interval, chunks2, end),
        block_in(joined(chunks1), interval_or_zero(interval)) matches Some(block)
            ==> chunked_outcome(interval, chunks1, end) == OutcomeView::Title(
            title_in(utf8_lossy(block)),
        ),
{
    let n = interval_or_zero(interval);
    let empty = Seq::<u8>::empty();
    lemma_arrival_is_whole(n, empty, chunks1);
    lemma_arrival_is_whole(n, empty, chunks2);
    assert(empty + joined(chunks1) =~= joined(chunks1));
    assert(empty + joined(chunks2) =~= joined(chunks2));
}


/// The sink reads the block at the offset the head announced: with an interval `n` announced,
/// a body of `n` audio bytes, a length byte `k` and `16 k` bytes of text yields that text as the
/// block, whatever follows and however the body is cut into chunks; with none announced the
/// block starts at the first byte.
pub proof fn lemma_block_at_announced_interval(
    n: usize,
    audio: Seq<u8>,
    k: u8,
    block: Seq<u8>,
    after: Seq<u8>,
    chunks: Seq<Seq<u8>>,
)
    requires
        audio.len() == n,
        block.len() == k as nat * 16,
        joined(chunks) == audio + seq![k] + block + after,
    ensures
        interval_or_zero(Some(n)) == n,
        interval_or_zero(None) == 0,
        block_in(audio + seq![k] + block + after, interval_or_zero(Some(n))) == Some(block),
        block_as_chunks_arrive(interval_or_zero(Some(n)), Seq::empty(), chunks) == Some(block),
        chunked_outcome(Some(n), chunks, FetchEnd::Finished) == OutcomeView::Title(
            title_in(utf8_lossy(block)),
        ),
{
    lemma_block_layout(audio, k, block, after);
    lemma_chunking_irrelevant(Some(n), chunks, chunks, FetchEnd::Finished);
}

/// What the worker does after each kind of request: a title it has not just delivered is
/// delivered and remembered, whatever it is (an empty one clears the signal); the same title
/// again waits; a cancelled worker quits on a title; a stream without metadata ends the
/// worker; a failed request waits for the next round. Only a delivery changes what it
/// remembers.
pub proof fn lemma_worker_steps(last: Option<Seq<char>>, outcome: OutcomeView, cancelled: bool)
    ensures
        match outcome {
            OutcomeView::Title(t) => {
                &&& !cancelled && last != Some(t) ==> worker_next(last, outcome, cancelled) == (
                    Some(t),
                    ActionView::Deliver(t),
                )
                &&& !cancelled && last == Some(t) ==> worker_next(last, outcome, cancelled) == (
                    last,
                    ActionView::Wait,
                )
            },
            _ => true,
        },
        outcome is Title && cancelled ==> worker_next(last, outcome, cancelled) == (
            last,
            ActionView::Quit,
        ),
        outcome is NoMetadata ==> worker_next(last, outcome, cancelled) == (last, ActionView::Quit),
        outcome is Failed ==> worker_next(last, outcome, cancelled) == (last, ActionView::Wait),
        match worker_next(last, outcome, cancelled).1 {
            ActionView::Deliver(t) => worker_next(last, outcome, cancelled).0 == Some(t) && outcome
                == OutcomeView::Title(t),
            _ => true,
        },
        !(worker_next(last, outcome, cancelled).1 is Deliver) ==> worker_next(
            last,
            outcome,
            cancelled,
        ).0 == last,
{
}

} // verus!
