//! Character-sequence primitives the parsers are built from: whitespace trimming, substring
//! search from the front and from the back, and the conversions between `str`, `String` and
//! `Vec<char>`. Each executable function is tied to a spec function over `Seq<char>`.

use vstd::prelude::*;

verus! {

/// `char::is_whitespace`: the characters with the Unicode `White_Space` property.
pub open spec fn is_space(c: char) -> bool {
    let u = c as u32;
    ||| u == 0x20
    ||| 0x09 <= u <= 0x0d
    ||| u == 0x85
    ||| u == 0xa0
    ||| u == 0x1680
    ||| 0x2000 <= u <= 0x200a
    ||| u == 0x2028
    ||| u == 0x2029
    ||| u == 0x202f
    ||| u == 0x205f
    ||| u == 0x3000
}

/// `s` without its leading whitespace.
pub open spec fn trim_start(s: Seq<char>) -> Seq<char>
    decreases s.len(),
{
    if s.len() > 0 && is_space(s[0]) {
        trim_start(s.drop_first())
    } else {
        s
    }
}

/// `s` without its trailing whitespace.
pub open spec fn trim_end(s: Seq<char>) -> Seq<char>
    decreases s.len(),
{
    if s.len() > 0 && is_space(s.last()) {
        trim_end(s.drop_last())
    } else {
        s
    }
}

/// `str::trim`: `s` without leading and trailing whitespace.
pub open spec fn trim(s: Seq<char>) -> Seq<char> {
    trim_end(trim_start(s))
}

/// `s` without its trailing NUL characters (`str::trim_end_matches('\0')`).
pub open spec fn trim_end_nul(s: Seq<char>) -> Seq<char>
    decreases s.len(),
{
    if s.len() > 0 && s.last() == '\0' {
        trim_end_nul(s.drop_last())
    } else {
        s
    }
}

/// `pat` occurs in `s` starting at index `i`.
pub open spec fn matches_at(s: Seq<char>, pat: Seq<char>, i: int) -> bool {
    &&& 0 <= i
    &&& i + pat.len() <= s.len()
    &&& forall|k: int| 0 <= k < pat.len() ==> #[trigger] s[i + k] == pat[k]
}

/// The first index at or after `i` where `pat` occurs in `s`.
pub open spec fn find_from(s: Seq<char>, pat: Seq<char>, i: int) -> Option<int>
    decreases s.len() + 1 - i,
{
    if i < 0 || i + pat.len() > s.len() {
        None
    } else if matches_at(s, pat, i) {
        Some(i)
    } else {
        find_from(s, pat, i + 1)
    }
}

/// `str::find`: the first index where `pat` occurs in `s`.
pub open spec fn find(s: Seq<char>, pat: Seq<char>) -> Option<int> {
    find_from(s, pat, 0)
}

/// The last index below `i` where `pat` occurs in `s`.
pub open spec fn rfind_below(s: Seq<char>, pat: Seq<char>, i: int) -> Option<int>
    decreases i,
{
    if i <= 0 {
        None
    } else if matches_at(s, pat, i - 1) {
        Some(i - 1)
    } else {
        rfind_below(s, pat, i - 1)
    }
}

/// `str::rfind`: the last index where `pat` occurs in `s`.
pub open spec fn rfind(s: Seq<char>, pat: Seq<char>) -> Option<int> {
    rfind_below(s, pat, s.len() + 1int)
}

/// `s` has a whitespace-free first and last character.
pub open spec fn is_trimmed(s: Seq<char>) -> bool {
    s.len() > 0 ==> !is_space(s[0]) && !is_space(s.last())
}

/// What `find_from` returns is an occurrence at or after `i`, and none lies between `i` and it;
/// when it returns nothing, no occurrence lies at or after `i`.
pub proof fn lemma_find_from(s: Seq<char>, pat: Seq<char>, i: int)
    requires
        0 <= i,
    ensures
        find_from(s, pat, i) matches Some(j) ==> i <= j && matches_at(s, pat, j) && forall|
            k: int,
        |
            i <= k < j ==> !#[trigger] matches_at(s, pat, k),
        find_from(s, pat, i) is None ==> forall|k: int| i <= k ==> !#[trigger] matches_at(s, pat, k),
    decreases s.len() + 1 - i,
{
    if i + pat.len() > s.len() {
    } else if matches_at(s, pat, i) {
    } else {
        lemma_find_from(s, pat, i + 1);
        if let Some(j) = find_from(s, pat, i) {
            assert forall|k: int| i <= k < j implies !#[trigger] matches_at(s, pat, k) by {
                if k == i {
                } else {
                    assert(i + 1 <= k < j);
                }
            }
        }
    }
}

/// `find` returns the first occurrence, and nothing when there is none.
pub proof fn lemma_find(s: Seq<char>, pat: Seq<char>)
    ensures
        find(s, pat) matches Some(j) ==> 0 <= j && j + pat.len() <= s.len() && matches_at(s, pat, j)
            && forall|k: int| 0 <= k < j ==> !#[trigger] matches_at(s, pat, k),
        find(s, pat) is None ==> forall|k: int| 0 <= k ==> !#[trigger] matches_at(s, pat, k),
{
    lemma_find_from(s, pat, 0);
}

/// `find` is the unique first occurrence: an occurrence with none before it is what it returns.
pub proof fn lemma_find_is(s: Seq<char>, pat: Seq<char>, j: int)
    requires
        matches_at(s, pat, j),
        forall|k: int| 0 <= k < j ==> !#[trigger] matches_at(s, pat, k),
    ensures
        find(s, pat) == Some(j),
{
    lemma_find(s, pat);
    match find(s, pat) {
        Some(f) => {
            if f < j {
                assert(!matches_at(s, pat, f));
            } else if f > j {
                assert(!matches_at(s, pat, j));
            }
        },
        None => {
            assert(!matches_at(s, pat, j));
        },
    }
}

/// An occurrence at `j` with none between `i` and it is what `find_from` returns from `i`.
pub proof fn lemma_find_from_is(s: Seq<char>, pat: Seq<char>, i: int, j: int)
    requires
        0 <= i <= j,
        matches_at(s, pat, j),
        forall|k: int| i <= k < j ==> !#[trigger] matches_at(s, pat, k),
    ensures
        find_from(s, pat, i) == Some(j),
{
    lemma_find_from(s, pat, i);
    match find_from(s, pat, i) {
        Some(f) => {
            if f < j {
                assert(!matches_at(s, pat, f));
            } else if f > j {
                assert(!matches_at(s, pat, j));
            }
        },
        None => {
            assert(!matches_at(s, pat, j));
        },
    }
}

/// Without an occurrence at or after `i`, `find_from` returns nothing.
pub proof fn lemma_find_from_none(s: Seq<char>, pat: Seq<char>, i: int)
    requires
        0 <= i,
        forall|k: int| i <= k ==> !#[trigger] matches_at(s, pat, k),
    ensures
        find_from(s, pat, i) is None,
{
    lemma_find_from(s, pat, i);
    if let Some(f) = find_from(s, pat, i) {
        assert(matches_at(s, pat, f));
    }
}

/// Two sequences that agree on `[0, n)` have the same occurrences ending within `n`.
pub proof fn lemma_matches_prefix(s: Seq<char>, t: Seq<char>, pat: Seq<char>, n: int, k: int)
    requires
        n <= s.len(),
        n <= t.len(),
        forall|i: int| 0 <= i < n ==> #[trigger] s[i] == t[i],
        0 <= k,
        k + pat.len() <= n,
    ensures
        matches_at(s, pat, k) == matches_at(t, pat, k),
{
    if matches_at(s, pat, k) {
        assert forall|m: int| 0 <= m < pat.len() implies #[trigger] t[k + m] == pat[m] by {
            assert(s[k + m] == pat[m]);
        }
    }
    if matches_at(t, pat, k) {
        assert forall|m: int| 0 <= m < pat.len() implies #[trigger] s[k + m] == pat[m] by {
            assert(t[k + m] == pat[m]);
        }
    }
}

/// What `rfind_below` returns is an occurrence below `i`, and none lies above it.
pub proof fn lemma_rfind_below(s: Seq<char>, pat: Seq<char>, i: int)
    ensures
        rfind_below(s, pat, i) matches Some(j) ==> 0 <= j < i && matches_at(s, pat, j) && forall|
            k: int,
        |
            j < k < i ==> !#[trigger] matches_at(s, pat, k),
        rfind_below(s, pat, i) is None ==> forall|k: int| k < i ==> !#[trigger] matches_at(s, pat, k),
    decreases i,
{
    if i <= 0 {
    } else if matches_at(s, pat, i - 1) {
    } else {
        lemma_rfind_below(s, pat, i - 1);
    }
}

/// Trimming leaves a trimmed sequence.
pub proof fn lemma_trim_is_trimmed(s: Seq<char>)
    ensures
        is_trimmed(trim(s)),
{
    lemma_trim_start_first(s);
    lemma_trim_end_keeps_first(trim_start(s));
}

/// The first character of `trim_start(s)`, if any, is not whitespace.
pub proof fn lemma_trim_start_first(s: Seq<char>)
    ensures
        trim_start(s).len() > 0 ==> !is_space(trim_start(s)[0]),
        trim_start(s).len() <= s.len(),
    decreases s.len(),
{
    if s.len() > 0 && is_space(s[0]) {
        lemma_trim_start_first(s.drop_first());
    }
}

/// `trim_end(s)` is a prefix of `s` whose last character, if any, is not whitespace.
pub proof fn lemma_trim_end_keeps_first(s: Seq<char>)
    ensures
        trim_end(s).len() <= s.len(),
        trim_end(s) =~= s.take(trim_end(s).len() as int),
        trim_end(s).len() > 0 ==> !is_space(trim_end(s).last()),
        trim_end(s).len() > 0 && s.len() > 0 ==> trim_end(s)[0] == s[0],
    decreases s.len(),
{
    if s.len() > 0 && is_space(s.last()) {
        lemma_trim_end_keeps_first(s.drop_last());
        assert(s.drop_last().take(trim_end(s).len() as int) =~= s.take(trim_end(s).len() as int));
    }
}

/// A trimmed sequence is its own trim.
pub proof fn lemma_trim_of_trimmed(s: Seq<char>)
    requires
        is_trimmed(s),
    ensures
        trim(s) == s,
{
}

/// Trimming twice is trimming once.
pub proof fn lemma_trim_idempotent(s: Seq<char>)
    ensures
        trim(trim(s)) == trim(s),
{
    lemma_trim_is_trimmed(s);
    lemma_trim_of_trimmed(trim(s));
}

/// Dropping trailing NULs from a sequence whose last character is not NUL changes nothing;
/// appending NULs to it is undone.
pub proof fn lemma_trim_end_nul_padding(s: Seq<char>, n: nat)
    requires
        s.len() > 0 ==> s.last() != '\0',
    ensures
        trim_end_nul(s + Seq::new(n, |k: int| '\0')) == s,
    decreases n,
{
    let padded = s + Seq::new(n, |k: int| '\0');
    if n == 0 {
        assert(padded =~= s);
    } else {
        assert(padded.drop_last() =~= s + Seq::new((n - 1) as nat, |k: int| '\0'));
        lemma_trim_end_nul_padding(s, (n - 1) as nat);
    }
}

/// `char::is_whitespace`.
pub fn is_space_char(c: char) -> (r: bool)
    ensures
        r == is_space(c),
{
    let u = c as u32;
    u == 0x20 || (0x09 <= u && u <= 0x0d) || u == 0x85 || u == 0xa0 || u == 0x1680 || (0x2000
        <= u && u <= 0x200a) || u == 0x2028 || u == 0x2029 || u == 0x202f || u == 0x205f || u
        == 0x3000
}

/// The characters of `s`, in order.
pub fn chars_of(s: &str) -> (r: Vec<char>)
    ensures
        r@ == s@,
{
    let mut out: Vec<char> = Vec::new();
    for c in it: s.chars()
        invariant
            out@ == it.seq().take(it.index() as int),
    {
        out.push(c);
    }
    out
}

/// `String::push`: appends one character.
#[verifier::external_body]
fn push_char(s: &mut String, c: char)
    ensures
        final(s)@ == old(s)@.push(c),
{
    s.push(c);
}

/// The string made of the characters `v[a..b]`.
pub fn string_of(v: &Vec<char>, a: usize, b: usize) -> (r: String)
    requires
        a <= b <= v.len(),
    ensures
        r@ == v@.subrange(a as int, b as int),
{
    let mut out = String::new();
    let mut i = a;
    while i < b
        invariant
            a <= i <= b <= v.len(),
            out@ == v@.subrange(a as int, i as int),
        decreases b - i,
    {
        push_char(&mut out, v[i]);
        proof {
            assert(v@.subrange(a as int, i + 1) =~= v@.subrange(a as int, i as int).push(v@[i as int]));
        }
        i += 1;
    }
    out
}

/// The string made of the characters of `v`.
pub fn string_from(v: &Vec<char>) -> (r: String)
    ensures
        r@ == v@,
{
    let r = string_of(v, 0, v.len());
    assert(v@.subrange(0, v@.len() as int) =~= v@);
    r
}

/// The characters `v[a..b]` as a vector of their own.
pub fn sub_chars(v: &Vec<char>, a: usize, b: usize) -> (r: Vec<char>)
    requires
        a <= b <= v.len(),
    ensures
        r@ == v@.subrange(a as int, b as int),
{
    let mut out: Vec<char> = Vec::new();
    let mut i = a;
    while i < b
        invariant
            a <= i <= b <= v.len(),
            out@ == v@.subrange(a as int, i as int),
        decreases b - i,
    {
        out.push(v[i]);
        proof {
            assert(v@.subrange(a as int, i + 1) =~= v@.subrange(a as int, i as int).push(v@[i as int]));
        }
        i += 1;
    }
    out
}

/// The bounds of `v[a..b]` with whitespace trimmed from both ends.
pub fn trim_range(v: &Vec<char>, a: usize, b: usize) -> (r: (usize, usize))
    requires
        a <= b <= v.len(),
    ensures
        a <= r.0 <= r.1 <= b,
        v@.subrange(r.0 as int, r.1 as int) == trim(v@.subrange(a as int, b as int)),
{
    let ghost s = v@.subrange(a as int, b as int);
    let mut lo = a;
    while lo < b && is_space_char(v[lo])
        invariant
            a <= lo <= b <= v.len(),
            s == v@.subrange(a as int, b as int),
            trim_start(s) == trim_start(v@.subrange(lo as int, b as int)),
        decreases b - lo,
    {
        proof {
            assert(v@.subrange(lo as int, b as int).drop_first() =~= v@.subrange(lo + 1, b as int));
        }
        lo += 1;
    }
    let ghost ts = v@.subrange(lo as int, b as int);
    assert(trim_start(s) == ts);
    let mut hi = b;
    while hi > lo && is_space_char(v[hi - 1])
        invariant
            a <= lo <= hi <= b <= v.len(),
            ts == v@.subrange(lo as int, b as int),
            trim_end(ts) == trim_end(v@.subrange(lo as int, hi as int)),
        decreases hi,
    {
        proof {
            assert(v@.subrange(lo as int, hi as int).drop_last() =~= v@.subrange(lo as int, hi - 1));
        }
        hi -= 1;
    }
    (lo, hi)
}

/// The length of `v` with its trailing NULs dropped.
pub fn trim_end_nul_len(v: &Vec<char>) -> (r: usize)
    ensures
        r <= v.len(),
        v@.take(r as int) == trim_end_nul(v@),
{
    let mut n = v.len();
    assert(v@.take(n as int) =~= v@);
    while n > 0 && v[n - 1] == '\0'
        invariant
            n <= v.len(),
            trim_end_nul(v@) == trim_end_nul(v@.take(n as int)),
        decreases n,
    {
        proof {
            assert(v@.take(n as int).drop_last() =~= v@.take(n - 1));
        }
        n -= 1;
    }
    n
}

/// Whether `pat` occurs in `s` at index `i`.
pub fn matches_at_exec(s: &Vec<char>, pat: &Vec<char>, i: usize) -> (r: bool)
    ensures
        r == matches_at(s@, pat@, i as int),
{
    if i > s.len() || pat.len() > s.len() - i {
        return false;
    }
    let mut k: usize = 0;
    while k < pat.len()
        invariant
            i + pat.len() <= s.len(),
            k <= pat.len(),
            forall|m: int| 0 <= m < k ==> #[trigger] s@[i + m] == pat@[m],
        decreases pat.len() - k,
    {
        if s[i + k] != pat[k] {
            assert(s@[i + k as int] != pat@[k as int]);
            return false;
        }
        k += 1;
    }
    true
}

/// `str::find` over characters: the first index at or after `from` where `pat` occurs.
pub fn find_from_exec(s: &Vec<char>, pat: &Vec<char>, from: usize) -> (r: Option<usize>)
    ensures
        match r {
            Some(i) => find_from(s@, pat@, from as int) == Some(i as int),
            None => find_from(s@, pat@, from as int) is None,
        },
{
    let mut i = from;
    while i <= s.len() && pat.len() <= s.len() - i
        invariant
            from <= i,
            find_from(s@, pat@, from as int) == find_from(s@, pat@, i as int),
        decreases s.len() + 1 - i,
    {
        if matches_at_exec(s, pat, i) {
            return Some(i);
        }
        i += 1;
    }
    None
}

/// `str::find` over characters.
pub fn find_exec(s: &Vec<char>, pat: &Vec<char>) -> (r: Option<usize>)
    ensures
        match r {
            Some(i) => find(s@, pat@) == Some(i as int),
            None => find(s@, pat@) is None,
        },
{
    find_from_exec(s, pat, 0)
}

/// `str::rfind` over characters.
pub fn rfind_exec(s: &Vec<char>, pat: &Vec<char>) -> (r: Option<usize>)
    ensures
        match r {
            Some(i) => rfind(s@, pat@) == Some(i as int),
            None => rfind(s@, pat@) is None,
        },
{
    if pat.len() > s.len() {
        proof {
            lemma_rfind_below(s@, pat@, s@.len() + 1int);
            if let Some(j) = rfind(s@, pat@) {
                assert(matches_at(s@, pat@, j));
            }
        }
        return None;
    }
    let mut j = s.len() - pat.len();
    proof {
        // No occurrence can start past `s.len() - pat.len()`.
        lemma_rfind_tail(s@, pat@, j + 1, s@.len() + 1int);
    }
    loop
        invariant
            j + pat.len() <= s.len(),
            rfind(s@, pat@) == rfind_below(s@, pat@, j + 1),
        decreases j,
    {
        if matches_at_exec(s, pat, j) {
            return Some(j);
        }
        if j == 0 {
            assert(rfind_below(s@, pat@, 0) is None);
            return None;
        }
        j -= 1;
    }
}

/// Above the last place a pattern fits, `rfind_below` finds nothing new.
proof fn lemma_rfind_tail(s: Seq<char>, pat: Seq<char>, m: int, i: int)
    requires
        m == s.len() - pat.len() + 1,
        m <= i <= s.len() + 1,
        0 <= m,
    ensures
        rfind_below(s, pat, i) == rfind_below(s, pat, m),
    decreases i - m,
{
    if i > m {
        assert(!matches_at(s, pat, i - 1));
        lemma_rfind_tail(s, pat, m, i - 1);
    }
}

} // verus!
