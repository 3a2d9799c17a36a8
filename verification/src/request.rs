//! Reading an HTTP request: the request line, its query parameters and the
//! header lines.
use vstd::prelude::*;

use crate::number::{
    decimal, is_digit, lemma_decimal, lemma_parse_decimal, parse_usize, parse_usize_chars,
};
use crate::outside::{decode_body, lowercase, to_lowercase, utf8_lossy, ascii_lower};
use vstd::utf8::is_ascii_chars;
use crate::text::{
    chars_of, find, first_word, lemma_first_char, second_word, split_char, split_once,
    split_once_at, string_of, trim_end, trim, trimmed, trimmed_end, strip_prefix, strip_prefix_of,
    trim_start_char, trimmed_start_char, find_word, next_word, same_text, first_match, has_char, lemma_leading_ws_none,
    lemma_leading_ws_space, lemma_trim_end_none, lemma_word_len_concat, no_ws, is_ws,
    lemma_next_word_concat, lemma_next_word_space,
};

verus! {

/// The views of a list of string pairs.
pub open spec fn pairs_view(v: Seq<(String, String)>) -> Seq<(Seq<char>, Seq<char>)> {
    v.map_values(|p: (String, String)| (p.0@, p.1@))
}

/// The key and value of one query piece, if it holds a `=`.
pub open spec fn piece_pair(piece: Seq<char>) -> Seq<(Seq<char>, Seq<char>)> {
    match split_once(piece, seq!['=']) {
        Some(kv) => seq![kv],
        None => Seq::empty(),
    }
}

/// The key/value pairs of a list of query pieces, in order.
pub open spec fn query_pairs(pieces: Seq<Seq<char>>) -> Seq<(Seq<char>, Seq<char>)>
    decreases pieces.len(),
{
    if pieces.len() == 0 {
        Seq::empty()
    } else {
        piece_pair(pieces[0]) + query_pairs(pieces.drop_first())
    }
}

/// The parameters of a query string: its `&`-separated pieces that hold a
/// `=`, each split at its first `=`.
pub open spec fn query_params(query: Seq<char>) -> Seq<(Seq<char>, Seq<char>)> {
    query_pairs(split_char(query, '&'))
}

/// The method of a request line: its first word, or empty.
pub open spec fn line_method(line: Seq<char>) -> Seq<char> {
    match first_word(trim_end(line)) {
        Some(w) => w,
        None => Seq::empty(),
    }
}

/// The target of a request line: its second word, or `/`.
pub open spec fn line_path(line: Seq<char>) -> Seq<char> {
    match second_word(trim_end(line)) {
        Some(w) => w,
        None => seq!['/'],
    }
}

/// A target without its query: the text before the first `?`.
pub open spec fn path_part(path: Seq<char>) -> Seq<char> {
    match split_once(path, seq!['?']) {
        Some((a, _)) => a,
        None => path,
    }
}

/// The query of a target: the text after the first `?`, or empty.
pub open spec fn query_part(path: Seq<char>) -> Seq<char> {
    match split_once(path, seq!['?']) {
        Some((_, b)) => b,
        None => Seq::empty(),
    }
}

/// A request line taken apart.
pub struct RequestLine {
    /// The first word, such as `GET`.
    pub method: String,
    /// The second word: the target with its query.
    pub path: String,
    /// The target before its first `?`.
    pub path_without_query: String,
    /// The target after its first `?`.
    pub query: String,
    /// The `key=value` pairs of the query.
    pub params: Vec<(String, String)>,
    /// The target without its query and its leading slashes.
    pub relative_path: String,
}

/// Collects the parameters of a query string.
pub fn parse_query(query: &[char]) -> (r: Vec<(String, String)>)
    ensures
        pairs_view(r@) == query_params(query@),
{
    let mut out: Vec<(String, String)> = Vec::new();
    let mut rest: &[char] = query;
    let amp = vec!['&'];
    let eq = vec!['='];
    assert(pairs_view(out@) =~= Seq::empty());
    loop
        invariant
            amp@ == seq!['&'],
            eq@ == seq!['='],
            pairs_view(out@) + query_pairs(split_char(rest@, '&')) == query_params(query@),
        decreases rest@.len(),
    {
        let ghost before = pairs_view(out@);
        let found = find(rest, amp.as_slice());
        let piece: &[char] = match found {
            Some(i) => &rest[0..i],
            None => rest,
        };
        proof {
            lemma_first_char(rest@, '&');
            let pieces = split_char(rest@, '&');
            assert(pieces[0] == piece@);
            assert(query_pairs(pieces) == piece_pair(piece@) + query_pairs(pieces.drop_first()));
        }
        match split_once_at(piece, eq.as_slice()) {
            Some((k, v)) => {
                out.push((string_of(k), string_of(v)));
                proof {
                    assert(pairs_view(out@) =~= before + piece_pair(piece@));
                }
            },
            None => {
                assert(piece_pair(piece@) =~= Seq::empty());
                assert(pairs_view(out@) =~= before + piece_pair(piece@));
            },
        }
        match found {
            Some(i) => {
                let next = &rest[i + 1..rest.len()];
                proof {
                    assert(next@ =~= rest@.skip(i + 1));
                    assert(split_char(rest@, '&').drop_first() =~= split_char(next@, '&'));
                    assert(pairs_view(out@) + query_pairs(split_char(next@, '&')) =~= before + (
                    piece_pair(piece@) + query_pairs(split_char(next@, '&'))));
                }
                rest = next;
            },
            None => {
                proof {
                    assert(split_char(rest@, '&').drop_first() =~= Seq::<Seq<char>>::empty());
                    assert(pairs_view(out@) =~= before + (piece_pair(piece@) + query_pairs(
                        Seq::<Seq<char>>::empty(),
                    )));
                }
                return out;
            },
        }
    }
}

/// The first word of `cs` and the text after it.
fn take_word(cs: &[char]) -> (r: (Option<&[char]>, &[char]))
    ensures
        r.0 is None <==> next_word(cs@) is None,
        r.0 matches Some(w) ==> next_word(cs@) == Some((w@, r.1@)),
{
    match find_word(cs) {
        Some((a, b)) => {
            let w = &cs[a..b];
            let rest = &cs[b..cs.len()];
            assert(rest@ =~= cs@.skip(b as int));
            (Some(w), rest)
        },
        None => (None, cs),
    }
}

/// Takes a request line apart as the server does: the first two words are the
/// method and the target, the target splits at its first `?` into path and
/// query, and the query's `&`-separated pieces that hold a `=` are its
/// parameters.
pub fn parse_request_line(line: &str) -> (r: RequestLine)
    ensures
        r.method@ == line_method(line@),
        r.path@ == line_path(line@),
        r.path_without_query@ == path_part(line_path(line@)),
        r.query@ == query_part(line_path(line@)),
        pairs_view(r.params@) == query_params(query_part(line_path(line@))),
        r.relative_path@ == trim_start_char(path_part(line_path(line@)), '/'),
{
    let cs = chars_of(line);
    let t = trimmed_end(cs.as_slice());
    let (first, rest) = take_word(t);
    let method = match first {
        Some(w) => string_of(w),
        None => String::new(),
    };
    let path_chars: Vec<char> = match first {
        Some(_) => {
            let (second, _) = take_word(rest);
            match second {
                Some(w) => vstd::slice::slice_to_vec(w),
                None => vec!['/'],
            }
        },
        None => vec!['/'],
    };
    proof {
        reveal_with_fuel(first_word, 1);
    }
    let path = path_chars.as_slice();
    let qm = vec!['?'];
    assert(qm@ =~= seq!['?']);
    assert(path@ == line_path(line@));
    let (before, query): (&[char], &[char]) = match split_once_at(path, qm.as_slice()) {
        Some((a, b)) => (a, b),
        None => {
            let e = &path[0..0];
            assert(e@ =~= Seq::<char>::empty());
            (path, e)
        },
    };
    assert(query@ == query_part(path@));
    let params = parse_query(query);
    let relative = trimmed_start_char(before, '/');
    RequestLine {
        method,
        path: string_of(path),
        path_without_query: string_of(before),
        query: string_of(query),
        params,
        relative_path: string_of(relative),
    }
}

/// The body length a header line announces, given the one announced before:
/// a line whose lowercase form starts with `content-length:` sets it to the
/// number after that prefix, or to 0 where that is not a number.
pub open spec fn content_length_after(line: Seq<char>, previous: usize) -> usize {
    length_in_lowercase(lowercase(line), previous)
}

/// The body length announced by an already lowercased header line: the number
/// after a leading `content-length:`, trimmed, or 0 where that is not a
/// number; `previous` where the line does not start so.
pub open spec fn length_in_lowercase(lower_line: Seq<char>, previous: usize) -> usize {
    match strip_prefix(lower_line, "content-length:"@) {
        Some(v) => match parse_usize(trim(v)) {
            Some(n) => n,
            None => 0,
        },
        None => previous,
    }
}

/// Reads the body length that an already lowercased header line announces.
pub fn content_length_in(lower_line: &str, previous: usize) -> (r: usize)
    ensures
        r == length_in_lowercase(lower_line@, previous),
{
    let lower_chars = chars_of(lower_line);
    let prefix = chars_of("content-length:");
    match strip_prefix_of(lower_chars.as_slice(), prefix.as_slice()) {
        Some(v) => match parse_usize_chars(trimmed(v)) {
            Some(n) => n,
            None => 0,
        },
        None => previous,
    }
}

/// The header a line holds: the text before its first `": "`, in lowercase,
/// and the text after it.
pub open spec fn header_of(line: Seq<char>) -> Option<(Seq<char>, Seq<char>)> {
    match split_once(line, ": "@) {
        Some((k, v)) => Some((lowercase(k), v)),
        None => None,
    }
}

/// The value last recorded for `key`.
pub open spec fn last_value(headers: Seq<(Seq<char>, Seq<char>)>, key: Seq<char>) -> Option<
    Seq<char>,
>
    decreases headers.len(),
{
    if headers.len() == 0 {
        None
    } else if headers.last().0 == key {
        Some(headers.last().1)
    } else {
        last_value(headers.drop_last(), key)
    }
}

/// What the header lines of a request have told so far.
pub struct HeaderState {
    /// The announced body length.
    pub body_length: usize,
    /// The headers, in the order they came, with lowercase names.
    pub headers: Vec<(String, String)>,
}

impl HeaderState {
    /// The state before any header line.
    pub fn new() -> (r: HeaderState)
        ensures
            r.body_length == 0,
            r.headers@.len() == 0,
    {
        HeaderState { body_length: 0, headers: Vec::new() }
    }

    /// Takes in one header line as read, line break included. Returns whether
    /// more header lines follow: a line that is empty once its trailing
    /// whitespace is gone ends the header and changes nothing.
    pub fn feed(&mut self, line: &str) -> (more: bool)
        ensures
            more == (trim_end(line@).len() > 0),
            !more ==> final(self).body_length == old(self).body_length && final(self).headers@
                == old(self).headers@,
            more ==> final(self).body_length == content_length_after(
                trim_end(line@),
                old(self).body_length,
            ),
            more ==> pairs_view(final(self).headers@) == match header_of(trim_end(line@)) {
                Some(h) => pairs_view(old(self).headers@).push(h),
                None => pairs_view(old(self).headers@),
            },
            more && is_ascii_chars(trim_end(line@)) ==> lowercase(trim_end(line@)) == trim_end(
                line@,
            ).map_values(|c: char| ascii_lower(c)),
            more ==> match split_once(trim_end(line@), ": "@) {
                Some((k, _)) => is_ascii_chars(k) ==> lowercase(k) == k.map_values(
                    |c: char| ascii_lower(c),
                ),
                None => true,
            },
    {
        let cs = chars_of(line);
        let t = trimmed_end(cs.as_slice());
        if t.len() == 0 {
            return false;
        }
        let text = string_of(t);
        let lower = to_lowercase(text.as_str());
        self.body_length = content_length_in(lower.as_str(), self.body_length);
        let sep = chars_of(": ");
        proof {
            reveal_strlit(": ");
        }
        let ghost before = pairs_view(self.headers@);
        match split_once_at(t, sep.as_slice()) {
            Some((k, v)) => {
                let key = to_lowercase(string_of(k).as_str());
                self.headers.push((key, string_of(v)));
                assert(pairs_view(self.headers@) =~= before.push((lowercase(k@), v@)));
            },
            None => {},
        }
        true
    }

    /// The value last given for the header `name`.
    pub fn header(&self, name: &str) -> (r: Option<String>)
        ensures
            match r {
                Some(v) => last_value(pairs_view(self.headers@), name@) == Some(v@),
                None => last_value(pairs_view(self.headers@), name@) is None,
            },
    {
        let mut i: usize = self.headers.len();
        let ghost all = pairs_view(self.headers@);
        assert(all.take(i as int) =~= all);
        while i > 0
            invariant
                i <= self.headers@.len(),
                all == pairs_view(self.headers@),
                last_value(all, name@) == last_value(all.take(i as int), name@),
            decreases i,
        {
            let entry = &self.headers[i - 1];
            assert(all.take(i as int).last() == all[i - 1]);
            if same_text(entry.0.as_str(), name) {
                return Some(entry.1.clone());
            }
            assert(all.take(i as int).drop_last() =~= all.take(i - 1));
            i = i - 1;
        }
        None
    }

    /// The password the request carries: its `pwd` header, or empty.
    pub fn password(&self) -> (r: String)
        ensures
            r@ == match last_value(pairs_view(self.headers@), "pwd"@) {
                Some(v) => v,
                None => Seq::empty(),
            },
    {
        match self.header("pwd") {
            Some(v) => v,
            None => String::new(),
        }
    }
}

/// A later header line with the same name replaces the earlier value, and
/// leaves the other names as they were.
pub proof fn lemma_header_last_write_wins(
    headers: Seq<(Seq<char>, Seq<char>)>,
    key: Seq<char>,
    value: Seq<char>,
    other: Seq<char>,
)
    requires
        other != key,
    ensures
        last_value(headers.push((key, value)), key) == Some(value),
        last_value(headers.push((key, value)), other) == last_value(headers, other),
{
    assert(headers.push((key, value)).drop_last() =~= headers);
}

/// A lowercased `Content-Length` line that announces any number announces
/// exactly that number, whatever was announced before.
pub proof fn lemma_announced_length_read_back(n: usize, previous: usize)
    ensures
        length_in_lowercase("content-length: "@ + decimal(n as nat), previous) == n,
{
    reveal_strlit("content-length: ");
    reveal_strlit("content-length:");
    let d = decimal(n as nat);
    lemma_decimal(n as nat);
    lemma_parse_decimal(n);
    let s = "content-length: "@ + d;
    let prefix = "content-length:"@;
    assert(s.take(prefix.len() as int) =~= prefix);
    let v = s.skip(prefix.len() as int);
    assert(v =~= seq![' '] + d);
    assert(is_digit(d[0]));
    assert(is_digit(d[d.len() - 1]));
    lemma_trim_end_none(v);
    lemma_leading_ws_space(d);
    lemma_leading_ws_none(d);
    assert(trim(v) =~= d);
}

/// The target of a request line `m p v`, made of three words without
/// whitespace, is `p` exactly, and its method is `m`; a target without `?`
/// is also its own path without query.
pub proof fn lemma_target_is_second_word(m: Seq<char>, p: Seq<char>, v: Seq<char>)
    requires
        m.len() > 0,
        p.len() > 0,
        v.len() > 0,
        no_ws(m),
        no_ws(p),
        no_ws(v),
    ensures
        line_method(m + seq![' '] + p + seq![' '] + v) == m,
        line_path(m + seq![' '] + p + seq![' '] + v) == p,
        !has_char(p, '?') ==> path_part(line_path(m + seq![' '] + p + seq![' '] + v)) == p,
{
    let line = m + seq![' '] + p + seq![' '] + v;
    let z = seq![' '] + v;
    let y = p + z;
    let x = seq![' '] + y;
    assert(line =~= m + x);
    assert(line.last() == v.last());
    assert(!is_ws(v[v.len() - 1]));
    lemma_trim_end_none(line);
    lemma_next_word_concat(m, x);
    lemma_next_word_space(y);
    lemma_next_word_concat(p, z);
    lemma_first_char(p, '?');
}

/// No piece of a split contains the separator.
pub proof fn lemma_split_char_pieces(s: Seq<char>, c: char)
    ensures
        forall|i: int|
            0 <= i < split_char(s, c).len() ==> !has_char(#[trigger] split_char(s, c)[i], c),
    decreases s.len(),
{
    lemma_first_char(s, c);
    match first_match(s, seq![c]) {
        Some(i) => {
            let rest = s.skip(i + 1);
            lemma_split_char_pieces(rest, c);
            let ps = split_char(s, c);
            assert forall|k: int| 0 <= k < ps.len() implies !has_char(#[trigger] ps[k], c) by {
                if k > 0 {
                    assert(ps[k] == split_char(rest, c)[k - 1]);
                }
            }
        },
        None => {},
    }
}

/// The parameters of a query never hold `&`, and their keys never hold `=`.
pub proof fn lemma_query_params_separated(query: Seq<char>)
    ensures
        forall|i: int|
            0 <= i < query_params(query).len() ==> {
                &&& !has_char((#[trigger] query_params(query)[i]).0, '=')
                &&& !has_char(query_params(query)[i].0, '&')
                &&& !has_char(query_params(query)[i].1, '&')
            },
{
    lemma_split_char_pieces(query, '&');
    lemma_query_pairs_separated(split_char(query, '&'));
}

/// Pairs taken from pieces without `&` hold no `&`, and their keys hold no `=`.
pub proof fn lemma_query_pairs_separated(pieces: Seq<Seq<char>>)
    requires
        forall|i: int| 0 <= i < pieces.len() ==> !has_char(#[trigger] pieces[i], '&'),
    ensures
        forall|i: int|
            0 <= i < query_pairs(pieces).len() ==> {
                &&& !has_char((#[trigger] query_pairs(pieces)[i]).0, '=')
                &&& !has_char(query_pairs(pieces)[i].0, '&')
                &&& !has_char(query_pairs(pieces)[i].1, '&')
            },
    decreases pieces.len(),
{
    if pieces.len() > 0 {
        let p = pieces[0];
        assert(!has_char(p, '&'));
        assert forall|i: int| 0 <= i < pieces.drop_first().len() implies !has_char(
            #[trigger] pieces.drop_first()[i],
            '&',
        ) by {
            assert(pieces.drop_first()[i] == pieces[i + 1]);
        }
        lemma_query_pairs_separated(pieces.drop_first());
        lemma_first_char(p, '=');
        let head = piece_pair(p);
        let qs = query_pairs(pieces);
        assert(qs == head + query_pairs(pieces.drop_first()));
        if let Some(j) = first_match(p, seq!['=']) {
            let k = p.take(j);
            let v = p.skip(j + 1);
            assert(!has_char(k, '&')) by {
                if has_char(k, '&') {
                    let t = choose|t: int| 0 <= t < k.len() && k[t] == '&';
                    assert(p[t] == '&');
                }
            }
            assert(!has_char(v, '&')) by {
                if has_char(v, '&') {
                    let t = choose|t: int| 0 <= t < v.len() && v[t] == '&';
                    assert(p[t + j + 1] == '&');
                }
            }
        }
        assert forall|i: int| 0 <= i < qs.len() implies {
            &&& !has_char((#[trigger] qs[i]).0, '=')
            &&& !has_char(qs[i].0, '&')
            &&& !has_char(qs[i].1, '&')
        } by {
            if i >= head.len() {
                assert(qs[i] == query_pairs(pieces.drop_first())[i - head.len()]);
            }
        }
    }
}

/// The text of a request body, as `String::from_utf8_lossy` reads its bytes.
pub fn body_text(bytes: &[u8]) -> (r: String)
    ensures
        r@ == utf8_lossy(bytes@),
{
    decode_body(bytes)
}

} // verus!
