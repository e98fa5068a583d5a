//! What the stream says it is playing, parsed from a `report::METADATA` payload.

use vstd::prelude::*;

use crate::text::{
    chars_of, find, find_exec, find_from, find_from_exec, is_space, is_trimmed, lemma_find,
    lemma_find_from, lemma_find_from_is, lemma_find_from_none, lemma_find_is,
    lemma_matches_prefix, lemma_trim_idempotent, lemma_trim_of_trimmed, matches_at, string_from, string_of,
    sub_chars, trim, trim_range,
};

verus! {

/// What the stream says it is playing, as the arm delivered it and as parsed for display.
///
/// Internet radio carries "now playing" in one of two ways: the ICY/Shoutcast in-band
/// `StreamTitle` that Icecast servers interleave into an MP3/AAC stream on request, or
/// timed ID3 in an HLS stream. Both reach this struct; `raw` keeps the exact text for a
/// later lookup (lyrics, a catalog), `title`/`artist`/`album` are the best split of it.
#[derive(Clone, Debug)]
pub struct StreamMetadata {
    pub title: String,
    pub artist: String,
    pub album: String,
    /// The value as received: a `StreamTitle` string, or the timed fields joined with ` - `.
    pub raw: String,
}

/// A [`StreamMetadata`] as character sequences.
pub struct MetadataView {
    pub title: Seq<char>,
    pub artist: Seq<char>,
    pub album: Seq<char>,
    pub raw: Seq<char>,
}

impl View for StreamMetadata {
    type V = MetadataView;

    open spec fn view(&self) -> MetadataView {
        MetadataView { title: self.title@, artist: self.artist@, album: self.album@, raw: self.raw@ }
    }
}

/// The separator of packed timed fields (`title\u{1f}artist\u{1f}album`).
pub open spec fn unit_sep() -> char {
    '\u{1f}'
}

/// The separator of a `StreamTitle`'s artist and title, and of the joined timed fields.
pub open spec fn dash() -> Seq<char> {
    seq![' ', '-', ' ']
}

/// The `k`-th field of `s[start..]` split at `sep` (`str::split`), if it has that many.
pub open spec fn field_from(s: Seq<char>, sep: char, start: int, k: nat) -> Option<Seq<char>>
    decreases k,
{
    match find_from(s, seq![sep], start) {
        None => if k == 0 {
            Some(s.subrange(start, s.len() as int))
        } else {
            None
        },
        Some(i) => if k == 0 {
            Some(s.subrange(start, i))
        } else {
            field_from(s, sep, i + 1, (k - 1) as nat)
        },
    }
}

/// The `k`-th packed field of `s`, trimmed; empty when `s` has fewer fields.
pub open spec fn packed_field(s: Seq<char>, k: nat) -> Seq<char> {
    match field_from(s, unit_sep(), 0, k) {
        Some(f) => trim(f),
        None => Seq::empty(),
    }
}

/// `acc` with `part` appended after a ` - `; an empty part adds nothing, and nothing goes
/// before the first non-empty part.
pub open spec fn join_step(acc: Seq<char>, part: Seq<char>) -> Seq<char> {
    if part.len() == 0 {
        acc
    } else if acc.len() == 0 {
        part
    } else {
        acc + dash() + part
    }
}

/// The non-empty `parts` joined with ` - `.
pub open spec fn join_nonempty(parts: Seq<Seq<char>>) -> Seq<char>
    decreases parts.len(),
{
    if parts.len() == 0 {
        Seq::empty()
    } else {
        join_step(join_nonempty(parts.drop_last()), parts.last())
    }
}

/// The metadata a payload `text` stands for.
///
/// Packed fields (`\u{1f}`-separated) are taken as they are; a bare `StreamTitle` splits on its
/// first ` - `, the convention nearly every station follows (`Artist - Title`). A value with no
/// dash, or with nothing on one side of it, is all title.
pub open spec fn parse_metadata(text: Seq<char>) -> MetadataView {
    let t = trim(text);
    if find(t, seq![unit_sep()]) is Some {
        let title = packed_field(t, 0);
        let artist = packed_field(t, 1);
        let album = packed_field(t, 2);
        MetadataView { title, artist, album, raw: join_nonempty(seq![title, artist, album]) }
    } else {
        match find(t, dash()) {
            Some(i) if trim(t.subrange(0, i)).len() > 0 && trim(
                t.subrange(i + 3, t.len() as int),
            ).len() > 0 => MetadataView {
                title: trim(t.subrange(i + 3, t.len() as int)),
                artist: trim(t.subrange(0, i)),
                album: Seq::empty(),
                raw: t,
            },
            _ => MetadataView { title: t, artist: Seq::empty(), album: Seq::empty(), raw: t },
        }
    }
}

/// Appends `part` to the ` - `-joined `acc` (see [`join_step`]).
fn join_into(acc: &mut Vec<char>, part: &Vec<char>)
    ensures
        final(acc)@ == join_step(old(acc)@, part@),
{
    if part.len() == 0 {
        return;
    }
    if acc.len() > 0 {
        acc.push(' ');
        acc.push('-');
        acc.push(' ');
    }
    let mut i: usize = 0;
    let ghost start = acc@;
    while i < part.len()
        invariant
            i <= part.len(),
            acc@ == start + part@.take(i as int),
        decreases part.len() - i,
    {
        acc.push(part[i]);
        proof {
            assert(part@.take(i + 1) =~= part@.take(i as int).push(part@[i as int]));
        }
        i += 1;
    }
    proof {
        assert(part@.take(part@.len() as int) =~= part@);
        if old(acc)@.len() > 0 {
            assert(start =~= old(acc)@ + dash());
        } else {
            assert(start =~= Seq::<char>::empty());
        }
    }
}

/// The trimmed `k`-th field of `t` split at the unit separator, `t` being split from `start`
/// on, with the field's bounds. Returns where the next field starts, if there is one.
fn packed_field_from(t: &Vec<char>, sep: &Vec<char>, start: usize) -> (r: (Vec<char>, Option<usize>))
    requires
        start <= t.len(),
        sep@ == seq![unit_sep()],
    ensures
        field_from(t@, unit_sep(), start as int, 0) matches Some(f) && r.0@ == trim(f),
        match r.1 {
            Some(next) => next <= t.len() && find_from(t@, sep@, start as int) == Some(next - 1)
                && forall|k: nat| #[trigger]
                    field_from(t@, unit_sep(), start as int, k + 1) == field_from(
                        t@,
                        unit_sep(),
                        next as int,
                        k,
                    ),
            None => find_from(t@, sep@, start as int) is None && forall|k: nat|
                k > 0 ==> #[trigger] field_from(t@, unit_sep(), start as int, k) is None,
        },
{
    let found = find_from_exec(t, sep, start);
    proof {
        lemma_find_from(t@, sep@, start as int);
    }
    match found {
        Some(i) => {
            let (a, b) = trim_range(t, start, i);
            let f = sub_chars(t, a, b);
            proof {
                assert forall|k: nat| #[trigger]
                    field_from(t@, unit_sep(), start as int, k + 1) == field_from(
                        t@,
                        unit_sep(),
                        i + 1,
                        k,
                    ) by {
                    assert((k + 1) as nat - 1 == k);
                }
            }
            (f, Some(i + 1))
        },
        None => {
            let (a, b) = trim_range(t, start, t.len());
            let f = sub_chars(t, a, b);
            (f, None)
        },
    }
}

impl StreamMetadata {
    /// Parse a `report::METADATA` payload. Packed fields (`\u{1f}`-separated) are taken as
    /// they are; a bare `StreamTitle` splits on its first ` - `, the convention nearly every
    /// station follows (`Artist - Title`). A value with no dash is all title.
    pub fn from_report(text: &str) -> (r: StreamMetadata)
        ensures
            r@ == parse_metadata(text@),
    {
        let all = chars_of(text);
        let (lo, hi) = trim_range(&all, 0, all.len());
        proof {
            assert(all@.subrange(0, all@.len() as int) =~= all@);
        }
        let t = sub_chars(&all, lo, hi);
        let sep = vec!['\u{1f}'];
        assert(sep@ =~= seq![unit_sep()]);
        let n = t.len();
        if find_exec(&t, &sep).is_some() {
            let (title, next1) = packed_field_from(&t, &sep, 0);
            let (artist, album) = match next1 {
                Some(s1) => {
                    let (artist, next2) = packed_field_from(&t, &sep, s1);
                    let album = match next2 {
                        Some(s2) => {
                            let (album, _) = packed_field_from(&t, &sep, s2);
                            proof {
                                assert(field_from(t@, unit_sep(), 0, 2) == field_from(
                                    t@,
                                    unit_sep(),
                                    s1 as int,
                                    1,
                                ));
                                assert(field_from(t@, unit_sep(), s1 as int, 1) == field_from(
                                    t@,
                                    unit_sep(),
                                    s2 as int,
                                    0,
                                ));
                            }
                            album
                        },
                        None => {
                            proof {
                                assert(field_from(t@, unit_sep(), 0, 2) == field_from(
                                    t@,
                                    unit_sep(),
                                    s1 as int,
                                    1,
                                ));
                            }
                            Vec::new()
                        },
                    };
                    proof {
                        assert(field_from(t@, unit_sep(), 0, 1) == field_from(
                            t@,
                            unit_sep(),
                            s1 as int,
                            0,
                        ));
                    }
                    (artist, album)
                },
                None => (Vec::new(), Vec::new()),
            };
            let mut raw: Vec<char> = Vec::new();
            join_into(&mut raw, &title);
            join_into(&mut raw, &artist);
            join_into(&mut raw, &album);
            proof {
                let parts = seq![title@, artist@, album@];
                assert(parts.drop_last() =~= seq![title@, artist@]);
                assert(parts.drop_last().drop_last() =~= seq![title@]);
                assert(parts.drop_last().drop_last().drop_last() =~= Seq::<Seq<char>>::empty());
                reveal_with_fuel(join_nonempty, 4);
            }
            StreamMetadata {
                title: string_from(&title),
                artist: string_from(&artist),
                album: string_from(&album),
                raw: string_from(&raw),
            }
        } else {
            let sep_dash = vec![' ', '-', ' '];
            assert(sep_dash@ =~= dash());
            proof {
                lemma_find(t@, sep_dash@);
                assert(t@.subrange(0, n as int) =~= t@);
            }
            if let Some(i) = find_exec(&t, &sep_dash) {
                let (a0, a1) = trim_range(&t, 0, i);
                let (t0, t1) = trim_range(&t, i + 3, n);
                if a0 < a1 && t0 < t1 {
                    return StreamMetadata {
                        title: string_of(&t, t0, t1),
                        artist: string_of(&t, a0, a1),
                        album: String::new(),
                        raw: string_of(&t, 0, n),
                    };
                }
            }
            StreamMetadata {
                title: string_of(&t, 0, n),
                artist: String::new(),
                album: String::new(),
                raw: string_of(&t, 0, n),
            }
        }
    }

    /// Whether anything was said at all.
    pub fn is_empty(&self) -> (r: bool)
        ensures
            r == (self@.raw.len() == 0),
    {
        self.raw.as_str().is_empty()
    }
}

impl Default for StreamMetadata {
    fn default() -> (r: StreamMetadata)
        ensures
            r@.title.len() == 0,
            r@.artist.len() == 0,
            r@.album.len() == 0,
            r@.raw.len() == 0,
    {
        StreamMetadata {
            title: String::new(),
            artist: String::new(),
            album: String::new(),
            raw: String::new(),
        }
    }
}

impl PartialEq for StreamMetadata {
    fn eq(&self, other: &Self) -> (r: bool) {
        self.title == other.title && self.artist == other.artist && self.album == other.album
            && self.raw == other.raw
    }
}

impl vstd::std_specs::cmp::PartialEqSpecImpl for StreamMetadata {
    open spec fn obeys_eq_spec() -> bool {
        true
    }

    open spec fn eq_spec(&self, other: &StreamMetadata) -> bool {
        self@ == other@
    }
}

impl Eq for StreamMetadata {

}

/// `s` holds no packing separator.
pub open spec fn no_unit_sep(s: Seq<char>) -> bool {
    forall|i: int| 0 <= i < s.len() ==> #[trigger] s[i] != unit_sep()
}

/// The timed fields packed `title\u{1f}artist\u{1f}album`, as the Apple arms send them.
pub open spec fn packed(title: Seq<char>, artist: Seq<char>, album: Seq<char>) -> Seq<char> {
    title + seq![unit_sep()] + artist + seq![unit_sep()] + album
}

/// Packed fields come back as they were packed: trimmed fields without a separator of their
/// own parse to themselves, and the raw text joins the non-empty ones with ` - `.
pub proof fn lemma_packed_roundtrip(title: Seq<char>, artist: Seq<char>, album: Seq<char>)
    requires
        is_trimmed(title),
        is_trimmed(artist),
        is_trimmed(album),
        no_unit_sep(title),
        no_unit_sep(artist),
        no_unit_sep(album),
    ensures
        parse_metadata(packed(title, artist, album)) == (MetadataView {
            title,
            artist,
            album,
            raw: join_nonempty(seq![title, artist, album]),
        }),
{
    let text = packed(title, artist, album);
    let sep = seq![unit_sep()];
    let tl = title.len() as int;
    let a1 = tl + 1 + artist.len();
    let n = text.len() as int;
    assert(text.subrange(0, tl) =~= title);
    assert(text.subrange(tl + 1, a1) =~= artist);
    assert(text.subrange(a1 + 1, n) =~= album);
    assert(text[tl] == unit_sep());
    assert(text[a1] == unit_sep());
    // The text is trimmed: it starts and ends with a field's edge or a separator.
    assert(!is_space(unit_sep()));
    if tl > 0 {
        assert(text[0] == title[0]);
    }
    if album.len() > 0 {
        assert(text.last() == album.last());
    }
    lemma_trim_of_trimmed(text);
    // The separators sit right after the title and right after the artist.
    assert(matches_at(text, sep, tl));
    assert(matches_at(text, sep, a1));
    assert forall|k: int| 0 <= k < tl implies !#[trigger] matches_at(text, sep, k) by {
        assert(text[k] == text.subrange(0, tl)[k]);
    }
    assert forall|k: int| tl + 1 <= k < a1 implies !#[trigger] matches_at(text, sep, k) by {
        assert(text[k] == text.subrange(tl + 1, a1)[k - tl - 1]);
        assert(artist[k - tl - 1] != unit_sep());
        if matches_at(text, sep, k) {
            assert(text[k + 0] == sep[0]);
        }
    }
    assert forall|k: int| a1 + 1 <= k implies !#[trigger] matches_at(text, sep, k) by {
        if k < n {
            assert(text[k] == text.subrange(a1 + 1, n)[k - a1 - 1]);
            assert(album[k - a1 - 1] != unit_sep());
            if matches_at(text, sep, k) {
                assert(text[k + 0] == sep[0]);
            }
        }
    }
    lemma_find_is(text, sep, tl);
    lemma_find_from_is(text, sep, tl + 1, a1);
    lemma_find_from_none(text, sep, a1 + 1);
    assert(field_from(text, unit_sep(), 0, 0) == Some(title));
    assert(field_from(text, unit_sep(), 0, 1) == field_from(text, unit_sep(), tl + 1, 0));
    assert(field_from(text, unit_sep(), tl + 1, 0) == Some(artist));
    assert(field_from(text, unit_sep(), 0, 2) == field_from(text, unit_sep(), tl + 1, 1));
    assert(field_from(text, unit_sep(), tl + 1, 1) == field_from(text, unit_sep(), a1 + 1, 0));
    assert(field_from(text, unit_sep(), a1 + 1, 0) == Some(album));
    lemma_trim_of_trimmed(title);
    lemma_trim_of_trimmed(artist);
    lemma_trim_of_trimmed(album);
}

/// A bare `Artist - Title` comes back as that artist and title, with the text as its raw value:
/// for trimmed, non-empty parts without a packing separator, where the artist holds no ` - ` of
/// its own, not even where it meets the separator.
pub proof fn lemma_artist_title_roundtrip(artist: Seq<char>, title: Seq<char>)
    requires
        is_trimmed(artist),
        is_trimmed(title),
        artist.len() > 0,
        title.len() > 0,
        no_unit_sep(artist),
        no_unit_sep(title),
        find(artist + dash(), dash()) == Some(artist.len() as int),
    ensures
        parse_metadata(artist + dash() + title) == (MetadataView {
            title,
            artist,
            album: Seq::empty(),
            raw: artist + dash() + title,
        }),
{
    let text = artist + dash() + title;
    let head = artist + dash();
    let al = artist.len() as int;
    let n = text.len() as int;
    assert(text.subrange(0, al) =~= artist);
    assert(text.subrange(al + 3, n) =~= title);
    assert(text[0] == artist[0]);
    assert(text.last() == title.last());
    lemma_trim_of_trimmed(text);
    // No packing separator anywhere.
    assert forall|k: int| 0 <= k implies !#[trigger] matches_at(text, seq![unit_sep()], k) by {
        if matches_at(text, seq![unit_sep()], k) {
            assert(text[k + 0] == seq![unit_sep()][0]);
            if 0 <= k < al {
                assert(text[k] == artist[k]);
                assert(artist[k] != unit_sep());
            } else if al <= k < al + 3 {
                assert(text[k] == dash()[k - al]);
            } else {
                assert(text[k] == title[k - al - 3]);
                assert(title[k - al - 3] != unit_sep());
            }
        }
    }
    lemma_find_from_none(text, seq![unit_sep()], 0);
    // The first ` - ` is the one after the artist.
    lemma_find(head, dash());
    assert forall|i: int| 0 <= i < head.len() implies #[trigger] text[i] == head[i] by {}
    assert forall|k: int| 0 <= k < al implies !#[trigger] matches_at(text, dash(), k) by {
        lemma_matches_prefix(text, head, dash(), head.len() as int, k);
    }
    lemma_matches_prefix(text, head, dash(), head.len() as int, al);
    lemma_find_is(text, dash(), al);
    lemma_trim_of_trimmed(artist);
    lemma_trim_of_trimmed(title);
}

/// Parsing a bare `StreamTitle`'s raw value again gives the same metadata.
pub proof fn lemma_reparse_raw(text: Seq<char>)
    requires
        find(trim(text), seq![unit_sep()]) is None,
    ensures
        parse_metadata(parse_metadata(text).raw) == parse_metadata(text),
{
    lemma_trim_idempotent(text);
}

/// A payload of nothing but whitespace says nothing; and a bare `StreamTitle` says something
/// exactly when it is not blank.
pub proof fn lemma_empty_iff_blank(text: Seq<char>)
    ensures
        trim(text).len() == 0 ==> parse_metadata(text).raw.len() == 0,
        find(trim(text), seq![unit_sep()]) is None ==> (parse_metadata(text).raw.len() == 0
            <==> trim(text).len() == 0),
{
    if trim(text).len() == 0 {
        lemma_find(trim(text), seq![unit_sep()]);
        if let Some(i) = find(trim(text), seq![unit_sep()]) {
            assert(matches_at(trim(text), seq![unit_sep()], i));
        }
    }
}

} // verus!
