//! Character-level text handling: whitespace, trimming, words, searching,
//! splitting and decimal numbers, each stated over `Seq<char>`.
use vstd::prelude::*;

verus! {

// ---------------------------------------------------------------------------
// Conversions between strings and character vectors
// ---------------------------------------------------------------------------

/// The characters of a string slice, in order.
pub fn chars_of(s: &str) -> (r: Vec<char>)
    ensures
        r@ == s@,
{
    let mut v: Vec<char> = Vec::new();
    for c in it: s.chars()
        invariant
            v@ == it.seq().take(it.index() as int),
            it.seq() == s@,
    {
        v.push(c);
    }
    v
}

/// A `String` holding exactly the given characters.
pub fn string_of(cs: &[char]) -> (r: String)
    ensures
        r@ == cs@,
{
    let mut out = String::new();
    let mut i: usize = 0;
    while i < cs.len()
        invariant
            i <= cs@.len(),
            out@ == cs@.take(i as int),
        decreases cs@.len() - i,
    {
        out.push(cs[i]);
        i = i + 1;
    }
    out
}

/// Whether two string slices hold the same characters.
pub fn same_text(a: &str, b: &str) -> (r: bool)
    ensures
        r == (a@ == b@),
{
    let x = chars_of(a);
    let y = chars_of(b);
    same_chars(x.as_slice(), y.as_slice())
}

/// Whether two character slices are equal.
pub fn same_chars(x: &[char], y: &[char]) -> (r: bool)
    ensures
        r == (x@ == y@),
{
    if x.len() != y.len() {
        return false;
    }
    let mut i: usize = 0;
    while i < x.len()
        invariant
            x@.len() == y@.len(),
            i <= x@.len(),
            forall|j: int| 0 <= j < i ==> x@[j] == y@[j],
        decreases x@.len() - i,
    {
        if x[i] != y[i] {
            return false;
        }
        i = i + 1;
    }
    assert(x@ =~= y@);
    true
}

// ---------------------------------------------------------------------------
// Whitespace and trimming
// ---------------------------------------------------------------------------

/// The Unicode `White_Space` characters, which `char::is_whitespace` accepts.
pub open spec fn is_ws(c: char) -> bool {
    ||| ('\u{9}' <= c && c <= '\u{d}')
    ||| c == ' '
    ||| c == '\u{85}'
    ||| c == '\u{a0}'
    ||| c == '\u{1680}'
    ||| ('\u{2000}' <= c && c <= '\u{200a}')
    ||| c == '\u{2028}'
    ||| c == '\u{2029}'
    ||| c == '\u{202f}'
    ||| c == '\u{205f}'
    ||| c == '\u{3000}'
}

/// Decides [`is_ws`].
pub fn is_whitespace(c: char) -> (r: bool)
    ensures
        r == is_ws(c),
{
    ('\u{9}' <= c && c <= '\u{d}') || c == ' ' || c == '\u{85}' || c == '\u{a0}' || c
        == '\u{1680}' || ('\u{2000}' <= c && c <= '\u{200a}') || c == '\u{2028}' || c
        == '\u{2029}' || c == '\u{202f}' || c == '\u{205f}' || c == '\u{3000}'
}

/// The number of whitespace characters at the start of `s`.
pub open spec fn leading_ws(s: Seq<char>) -> nat
    decreases s.len(),
{
    if s.len() > 0 && is_ws(s[0]) {
        1 + leading_ws(s.drop_first())
    } else {
        0
    }
}

/// The number of whitespace characters at the end of `s`.
pub open spec fn trailing_ws(s: Seq<char>) -> nat
    decreases s.len(),
{
    if s.len() > 0 && is_ws(s.last()) {
        1 + trailing_ws(s.drop_last())
    } else {
        0
    }
}

/// `s` without its leading whitespace (`str::trim_start`).
pub open spec fn trim_start(s: Seq<char>) -> Seq<char> {
    s.skip(leading_ws(s) as int)
}

/// `s` without its trailing whitespace (`str::trim_end`).
pub open spec fn trim_end(s: Seq<char>) -> Seq<char> {
    s.take(s.len() - trailing_ws(s))
}

/// `s` without leading and trailing whitespace (`str::trim`).
pub open spec fn trim(s: Seq<char>) -> Seq<char> {
    trim_start(trim_end(s))
}

pub proof fn lemma_leading_ws(s: Seq<char>)
    ensures
        leading_ws(s) <= s.len(),
        leading_ws(s) < s.len() ==> !is_ws(s[leading_ws(s) as int]),
        forall|j: int| 0 <= j < leading_ws(s) ==> is_ws(#[trigger] s[j]),
    decreases s.len(),
{
    if s.len() > 0 && is_ws(s[0]) {
        lemma_leading_ws(s.drop_first());
        assert forall|j: int| 0 <= j < leading_ws(s) implies is_ws(#[trigger] s[j]) by {
            if j > 0 {
                assert(s[j] == s.drop_first()[j - 1]);
            }
        }
    }
}

pub proof fn lemma_trailing_ws(s: Seq<char>)
    ensures
        trailing_ws(s) <= s.len(),
    decreases s.len(),
{
    if s.len() > 0 && is_ws(s.last()) {
        lemma_trailing_ws(s.drop_last());
    }
}

/// Counts the whitespace at the start of `cs`.
pub fn count_leading_ws(cs: &[char]) -> (n: usize)
    ensures
        n == leading_ws(cs@),
{
    let mut i: usize = 0;
    assert(cs@.skip(0) =~= cs@);
    while i < cs.len() && is_whitespace(cs[i])
        invariant
            i <= cs@.len(),
            leading_ws(cs@) == i + leading_ws(cs@.skip(i as int)),
        decreases cs@.len() - i,
    {
        assert(cs@.skip(i as int).drop_first() =~= cs@.skip(i + 1));
        i = i + 1;
    }
    i
}

/// Counts the whitespace at the end of `cs`.
pub fn count_trailing_ws(cs: &[char]) -> (n: usize)
    ensures
        n == trailing_ws(cs@),
{
    let len = cs.len();
    let mut k: usize = 0;
    assert(cs@.take(len as int) =~= cs@);
    while k < len && is_whitespace(cs[len - 1 - k])
        invariant
            len == cs@.len(),
            k <= len,
            trailing_ws(cs@) == k + trailing_ws(cs@.take(len - k)),
        decreases len - k,
    {
        assert(cs@.take(len - k).drop_last() =~= cs@.take(len - k - 1));
        k = k + 1;
    }
    k
}

/// `cs` without trailing whitespace.
pub fn trimmed_end(cs: &[char]) -> (r: &[char])
    ensures
        r@ == trim_end(cs@),
{
    let n = count_trailing_ws(cs);
    proof {
        lemma_trailing_ws(cs@);
    }
    &cs[0..cs.len() - n]
}

/// `cs` without leading and trailing whitespace.
pub fn trimmed(cs: &[char]) -> (r: &[char])
    ensures
        r@ == trim(cs@),
{
    let e = trimmed_end(cs);
    let n = count_leading_ws(e);
    proof {
        lemma_leading_ws(e@);
    }
    &e[n..e.len()]
}

// ---------------------------------------------------------------------------
// Words (`str::split_whitespace`)
// ---------------------------------------------------------------------------

/// The length of the run of non-whitespace characters at the start of `s`.
pub open spec fn word_len(s: Seq<char>) -> nat
    decreases s.len(),
{
    if s.len() > 0 && !is_ws(s[0]) {
        1 + word_len(s.drop_first())
    } else {
        0
    }
}

/// The first whitespace-separated word of `s` and the text after it, or `None`
/// when `s` holds only whitespace.
pub open spec fn next_word(s: Seq<char>) -> Option<(Seq<char>, Seq<char>)> {
    let t = trim_start(s);
    if t.len() == 0 {
        None
    } else {
        Some((t.take(word_len(t) as int), t.skip(word_len(t) as int)))
    }
}

/// The first word of `s` (`s.split_whitespace().next()`).
pub open spec fn first_word(s: Seq<char>) -> Option<Seq<char>> {
    match next_word(s) {
        Some((w, _)) => Some(w),
        None => None,
    }
}

/// The second word of `s` (`s.split_whitespace().nth(1)`).
pub open spec fn second_word(s: Seq<char>) -> Option<Seq<char>> {
    match next_word(s) {
        Some((_, rest)) => first_word(rest),
        None => None,
    }
}

pub proof fn lemma_word_len(s: Seq<char>)
    ensures
        word_len(s) <= s.len(),
        s.len() > 0 && !is_ws(s[0]) ==> word_len(s) > 0,
    decreases s.len(),
{
    if s.len() > 0 && !is_ws(s[0]) {
        lemma_word_len(s.drop_first());
    }
}

/// Counts the non-whitespace characters at the start of `cs`.
pub fn count_word(cs: &[char]) -> (n: usize)
    ensures
        n == word_len(cs@),
{
    let mut i: usize = 0;
    assert(cs@.skip(0) =~= cs@);
    while i < cs.len() && !is_whitespace(cs[i])
        invariant
            i <= cs@.len(),
            word_len(cs@) == i + word_len(cs@.skip(i as int)),
        decreases cs@.len() - i,
    {
        assert(cs@.skip(i as int).drop_first() =~= cs@.skip(i + 1));
        i = i + 1;
    }
    i
}

/// Finds the first word of `cs`: its start and end positions.
pub fn find_word(cs: &[char]) -> (r: Option<(usize, usize)>)
    ensures
        r is None <==> next_word(cs@) is None,
        r matches Some((a, b)) ==> a < b <= cs@.len() && next_word(cs@) == Some(
            (cs@.subrange(a as int, b as int), cs@.skip(b as int)),
        ),
{
    let a = count_leading_ws(cs);
    proof {
        lemma_leading_ws(cs@);
    }
    if a == cs.len() {
        assert(trim_start(cs@).len() == 0);
        return None;
    }
    let rest = &cs[a..cs.len()];
    let w = count_word(rest);
    proof {
        lemma_word_len(rest@);
        assert(rest@ =~= trim_start(cs@));
        assert(rest@.take(w as int) =~= cs@.subrange(a as int, a + w));
        assert(rest@.skip(w as int) =~= cs@.skip(a + w));
    }
    Some((a, a + w))
}

// ---------------------------------------------------------------------------
// Searching and splitting
// ---------------------------------------------------------------------------

/// Whether `s` begins with `p`.
pub open spec fn starts_with(s: Seq<char>, p: Seq<char>) -> bool {
    p.len() <= s.len() && s.take(p.len() as int) == p
}

/// The position of the first occurrence of `p` in `s`.
pub open spec fn first_match(s: Seq<char>, p: Seq<char>) -> Option<int>
    decreases s.len(),
{
    if starts_with(s, p) {
        Some(0)
    } else if s.len() == 0 {
        None
    } else {
        match first_match(s.drop_first(), p) {
            Some(i) => Some(i + 1),
            None => None,
        }
    }
}

/// The text before and after the first occurrence of `p` (`str::split_once`).
pub open spec fn split_once(s: Seq<char>, p: Seq<char>) -> Option<(Seq<char>, Seq<char>)> {
    match first_match(s, p) {
        Some(i) => Some((s.take(i), s.skip(i + p.len()))),
        None => None,
    }
}

/// `s` without the prefix `p`, if it has it (`str::strip_prefix`).
pub open spec fn strip_prefix(s: Seq<char>, p: Seq<char>) -> Option<Seq<char>> {
    if starts_with(s, p) {
        Some(s.skip(p.len() as int))
    } else {
        None
    }
}

/// Whether `c` occurs in `s`.
pub open spec fn has_char(s: Seq<char>, c: char) -> bool {
    exists|i: int| 0 <= i < s.len() && s[i] == c
}

pub proof fn lemma_first_match(s: Seq<char>, p: Seq<char>)
    ensures
        first_match(s, p) matches Some(i) ==> {
            &&& 0 <= i
            &&& i + p.len() <= s.len()
            &&& starts_with(s.skip(i), p)
            &&& forall|j: int| 0 <= j < i ==> !starts_with(#[trigger] s.skip(j), p)
        },
        first_match(s, p) is None ==> forall|j: int|
            0 <= j <= s.len() ==> !starts_with(#[trigger] s.skip(j), p),
    decreases s.len(),
{
    assert(s.skip(0) =~= s);
    if starts_with(s, p) {
    } else if s.len() == 0 {
    } else {
        let t = s.drop_first();
        lemma_first_match(t, p);
        assert forall|j: int| 1 <= j <= s.len() implies #[trigger] s.skip(j) =~= t.skip(j - 1) by {
        }
        if let Some(i) = first_match(t, p) {
            assert(s.skip(i + 1) =~= t.skip(i));
            assert forall|j: int| 0 <= j < i + 1 implies !starts_with(#[trigger] s.skip(j), p) by {
                if j > 0 {
                    assert(s.skip(j) =~= t.skip(j - 1));
                }
            }
        } else {
            assert forall|j: int| 0 <= j <= s.len() implies !starts_with(#[trigger] s.skip(j), p) by {
                if j > 0 {
                    assert(s.skip(j) =~= t.skip(j - 1));
                }
            }
        }
    }
}

/// A single occurrence of `c` ends a match of `seq![c]`, and no earlier `c` occurs.
pub proof fn lemma_first_char(s: Seq<char>, c: char)
    ensures
        first_match(s, seq![c]) matches Some(i) ==> {
            &&& 0 <= i < s.len()
            &&& s[i] == c
            &&& !has_char(s.take(i), c)
        },
        first_match(s, seq![c]) is None ==> !has_char(s, c),
{
    lemma_first_match(s, seq![c]);
    if let Some(i) = first_match(s, seq![c]) {
        assert(s.skip(i).take(1)[0] == s[i]);
        if has_char(s.take(i), c) {
            let j = choose|j: int| 0 <= j < s.take(i).len() && s.take(i)[j] == c;
            assert(s.skip(j).take(1) =~= seq![c]);
            assert(starts_with(s.skip(j), seq![c]));
        }
    } else {
        if has_char(s, c) {
            let j = choose|j: int| 0 <= j < s.len() && s[j] == c;
            assert(s.skip(j).take(1) =~= seq![c]);
            assert(starts_with(s.skip(j), seq![c]));
        }
    }
}

/// Whether `p` occurs in `cs` at position `i`.
pub fn matches_at(cs: &[char], i: usize, p: &[char]) -> (r: bool)
    requires
        i <= cs@.len(),
    ensures
        r == starts_with(cs@.skip(i as int), p@),
{
    if p.len() > cs.len() - i {
        return false;
    }
    let mut j: usize = 0;
    while j < p.len()
        invariant
            i + p@.len() <= cs.len(),
            j <= p@.len(),
            forall|k: int| 0 <= k < j ==> cs@[i + k] == p@[k],
        decreases p@.len() - j,
    {
        if cs[i + j] != p[j] {
            assert(cs@.skip(i as int).take(p@.len() as int)[j as int] != p@[j as int]);
            return false;
        }
        j = j + 1;
    }
    assert(cs@.skip(i as int).take(p@.len() as int) =~= p@);
    true
}

/// The position of the first occurrence of the non-empty pattern `p` in `cs`.
pub fn find(cs: &[char], p: &[char]) -> (r: Option<usize>)
    requires
        p@.len() > 0,
    ensures
        r matches Some(i) ==> first_match(cs@, p@) == Some(i as int) && i + p@.len() <= cs.len(),
        r is None ==> first_match(cs@, p@) is None,
{
    let mut i: usize = 0;
    assert(cs@.skip(0) =~= cs@);
    while i < cs.len()
        invariant
            i <= cs@.len(),
            p@.len() > 0,
            first_match(cs@, p@) == match first_match(cs@.skip(i as int), p@) {
                Some(k) => Some(k + i),
                None => None,
            },
        decreases cs@.len() - i,
    {
        if matches_at(cs, i, p) {
            proof {
                lemma_first_match(cs@, p@);
            }
            return Some(i);
        }
        assert(cs@.skip(i as int).drop_first() =~= cs@.skip(i + 1));
        i = i + 1;
    }
    None
}

/// Splits `cs` around the first occurrence of the non-empty pattern `p`.
pub fn split_once_at<'a>(cs: &'a [char], p: &[char]) -> (r: Option<(&'a [char], &'a [char])>)
    requires
        p@.len() > 0,
    ensures
        r is None <==> split_once(cs@, p@) is None,
        r matches Some((a, b)) ==> split_once(cs@, p@) == Some((a@, b@)),
{
    match find(cs, p) {
        Some(i) => {
            let a = &cs[0..i];
            let b = &cs[i + p.len()..cs.len()];
            assert(a@ =~= cs@.take(i as int));
            assert(b@ =~= cs@.skip(i + p@.len()));
            Some((a, b))
        },
        None => None,
    }
}

/// `cs` without the prefix `p`, if it has it.
pub fn strip_prefix_of<'a>(cs: &'a [char], p: &[char]) -> (r: Option<&'a [char]>)
    ensures
        r is None <==> strip_prefix(cs@, p@) is None,
        r matches Some(t) ==> strip_prefix(cs@, p@) == Some(t@),
{
    assert(cs@.skip(0) =~= cs@);
    if matches_at(cs, 0, p) {
        let t = &cs[p.len()..cs.len()];
        assert(t@ =~= cs@.skip(p@.len() as int));
        Some(t)
    } else {
        None
    }
}

/// The pieces of `s` between occurrences of `c` (`str::split`), empty pieces included.
pub open spec fn split_char(s: Seq<char>, c: char) -> Seq<Seq<char>>
    decreases s.len(),
{
    match first_match(s, seq![c]) {
        Some(i) => {
            proof {
                lemma_first_char(s, c);
            }
            seq![s.take(i)] + split_char(s.skip(i + 1), c)
        },
        None => seq![s],
    }
}

/// Whether `s` holds no whitespace.
pub open spec fn no_ws(s: Seq<char>) -> bool {
    forall|i: int| 0 <= i < s.len() ==> !is_ws(#[trigger] s[i])
}

/// A word followed by whitespace, or by nothing, has the word's length.
pub proof fn lemma_word_len_concat(w: Seq<char>, x: Seq<char>)
    requires
        no_ws(w),
        x.len() == 0 || is_ws(x[0]),
    ensures
        word_len(w + x) == w.len(),
    decreases w.len(),
{
    if w.len() == 0 {
        assert(w + x =~= x);
    } else {
        let rest = w.drop_first();
        assert forall|i: int| 0 <= i < rest.len() implies !is_ws(#[trigger] rest[i]) by {
            assert(rest[i] == w[i + 1]);
        }
        lemma_word_len_concat(rest, x);
        assert((w + x).drop_first() =~= rest + x);
        assert((w + x)[0] == w[0]);
    }
}

/// One space before a text adds one to its leading whitespace.
pub proof fn lemma_leading_ws_space(y: Seq<char>)
    ensures
        leading_ws(seq![' '] + y) == 1 + leading_ws(y),
{
    assert((seq![' '] + y).drop_first() =~= y);
}

/// A text that starts with a non-whitespace character has no leading whitespace.
pub proof fn lemma_leading_ws_none(s: Seq<char>)
    requires
        s.len() > 0,
        !is_ws(s[0]),
    ensures
        leading_ws(s) == 0,
        trim_start(s) == s,
{
    assert(s.skip(0) =~= s);
}

/// A text that ends with a non-whitespace character is its own `trim_end`.
pub proof fn lemma_trim_end_none(s: Seq<char>)
    requires
        s.len() > 0,
        !is_ws(s.last()),
    ensures
        trim_end(s) == s,
{
    assert(s.take(s.len() as int) =~= s);
}

/// A word without whitespace, followed by whitespace or nothing, is the first
/// word, and what follows it is the rest.
pub proof fn lemma_next_word_concat(w: Seq<char>, x: Seq<char>)
    requires
        w.len() > 0,
        no_ws(w),
        x.len() == 0 || is_ws(x[0]),
    ensures
        next_word(w + x) == Some((w, x)),
{
    let s = w + x;
    assert(s[0] == w[0]);
    lemma_leading_ws_none(s);
    lemma_word_len_concat(w, x);
    assert(s.take(w.len() as int) =~= w);
    assert(s.skip(w.len() as int) =~= x);
}

/// A space in front of a text does not change its words.
pub proof fn lemma_next_word_space(y: Seq<char>)
    ensures
        next_word(seq![' '] + y) == next_word(y),
{
    lemma_leading_ws_space(y);
    lemma_leading_ws(y);
    assert(trim_start(seq![' '] + y) =~= trim_start(y));
}

/// Splitting at the first `c` of `a + [c] + b`, where `a` holds no `c`,
/// gives `a` and `b`.
pub proof fn lemma_split_once_char(a: Seq<char>, c: char, b: Seq<char>)
    requires
        !has_char(a, c),
    ensures
        split_once(a + seq![c] + b, seq![c]) == Some((a, b)),
{
    let s = a + seq![c] + b;
    lemma_first_char(s, c);
    assert(s[a.len() as int] == c);
    if first_match(s, seq![c]) is None {
        assert(has_char(s, c));
    }
    let i = first_match(s, seq![c])->0;
    if i < a.len() {
        assert(s[i] == a[i]);
        assert(has_char(a, c));
    }
    if i > a.len() {
        assert(s.take(i)[a.len() as int] == c);
        assert(has_char(s.take(i), c));
    }
    assert(s.take(a.len() as int) =~= a);
    assert(s.skip(a.len() + 1int) =~= b);
}

// ---------------------------------------------------------------------------
// Leading runs of one character (`str::trim_start_matches`)
// ---------------------------------------------------------------------------

/// The number of copies of `c` at the start of `s`.
pub open spec fn leading_run(s: Seq<char>, c: char) -> nat
    decreases s.len(),
{
    if s.len() > 0 && s[0] == c {
        1 + leading_run(s.drop_first(), c)
    } else {
        0
    }
}

/// `s` without the copies of `c` at its start.
pub open spec fn trim_start_char(s: Seq<char>, c: char) -> Seq<char> {
    s.skip(leading_run(s, c) as int)
}

pub proof fn lemma_leading_run(s: Seq<char>, c: char)
    ensures
        leading_run(s, c) <= s.len(),
        leading_run(s, c) < s.len() ==> s[leading_run(s, c) as int] != c,
    decreases s.len(),
{
    if s.len() > 0 && s[0] == c {
        lemma_leading_run(s.drop_first(), c);
    }
}

/// `cs` without the copies of `c` at its start.
pub fn trimmed_start_char(cs: &[char], c: char) -> (r: &[char])
    ensures
        r@ == trim_start_char(cs@, c),
{
    let mut i: usize = 0;
    assert(cs@.skip(0) =~= cs@);
    while i < cs.len() && cs[i] == c
        invariant
            i <= cs@.len(),
            leading_run(cs@, c) == i + leading_run(cs@.skip(i as int), c),
        decreases cs@.len() - i,
    {
        assert(cs@.skip(i as int).drop_first() =~= cs@.skip(i + 1));
        i = i + 1;
    }
    &cs[i..cs.len()]
}

} // verus!
