//! A parsed HTTP/1.1 request and the parser for its head (request line and
//! header fields).
use vstd::prelude::*;
use vstd::string::StringSliceAdditionalSpecFns;
use vstd::utf8::*;

use crate::error::Error;
use crate::text::{
    chars_eq_ignore_ascii_case, eq_ignore_ascii_case, find_chars_from, find_first, lemma_find_from,
    parse_usize, parse_usize_chars, split_chars, split_from, split_once, split_seq, str_chars,
    str_from_utf8, string_from_chars, sub_chars, trim, trim_chars,
};

verus! {

/// A header field as characters: `(name, value)`.
pub type HeaderView = (Seq<char>, Seq<char>);

/// The abstract content of a [`Request`].
pub struct RequestView {
    pub method: Seq<char>,
    pub target: Seq<char>,
    pub version: Seq<char>,
    pub headers: Seq<HeaderView>,
    pub body: Seq<u8>,
}

/// A parsed request head: method, target, version and header fields.
pub struct HeadView {
    pub method: Seq<char>,
    pub target: Seq<char>,
    pub version: Seq<char>,
    pub headers: Seq<HeaderView>,
}

/// A parsed HTTP/1.1 request.
#[derive(Clone, Debug)]
pub struct Request {
    /// Request method, as received (e.g. `"GET"`).
    pub method: String,
    /// Raw request target, including any query string (e.g. `"/a?b=1"`).
    pub target: String,
    /// HTTP version token (e.g. `"HTTP/1.1"`).
    pub version: String,
    /// Header fields, in received order, names as received.
    pub headers: Vec<(String, String)>,
    /// Request body (empty unless a `Content-Length` body was present).
    pub body: Vec<u8>,
}

impl View for Request {
    type V = RequestView;

    open spec fn view(&self) -> RequestView {
        RequestView {
            method: self.method@,
            target: self.target@,
            version: self.version@,
            headers: self.headers.deep_view(),
            body: self.body@,
        }
    }
}

// ---------------------------------------------------------------------------
// Specification of the head parser
// ---------------------------------------------------------------------------

pub open spec fn crlf() -> Seq<char> {
    seq!['\r', '\n']
}

/// The header fields of `lines` (empty lines are skipped; each other line is
/// `name:value`, both trimmed), or `None` when a non-empty line has no `:`.
pub open spec fn parse_header_lines(lines: Seq<Seq<char>>) -> Option<Seq<HeaderView>>
    decreases lines.len(),
{
    if lines.len() == 0 {
        Some(seq![])
    } else {
        match parse_header_lines(lines.drop_last()) {
            None => None,
            Some(hs) => {
                let line = lines.last();
                if line.len() == 0 {
                    Some(hs)
                } else {
                    match split_once(line, ':') {
                        None => None,
                        Some((name, value)) => Some(hs.push((trim(name), trim(value)))),
                    }
                }
            },
        }
    }
}

/// A header line `name:value` whose name holds no `:` splits at that first
/// `:` only: appending it to any lines adds the header `(trim(name),
/// trim(value))`, whatever `:` characters the value holds (as in
/// `Host: localhost:8080` or `Referer: http://x/`).
pub proof fn law_header_line_splits_at_first_colon(
    lines: Seq<Seq<char>>,
    name: Seq<char>,
    value: Seq<char>,
)
    requires
        !name.contains(':'),
    ensures
        parse_header_lines(lines.push(name + seq![':'] + value)) == match parse_header_lines(
            lines,
        ) {
            Some(hs) => Some(hs.push((trim(name), trim(value)))),
            None => None,
        },
{
    let line = name + seq![':'] + value;
    let n = name.len() as int;
    assert(line.subrange(n, n + 1) =~= seq![':']);
    assert forall|i: int| 0 <= i < n implies !#[trigger] crate::text::matches_at(line, seq![':'], i) by {
        if crate::text::matches_at(line, seq![':'], i) {
            assert(line.subrange(i, i + 1)[0] == line[i]);
            assert(line[i] == name[i]);
            assert(name.contains(':'));
        }
    }
    crate::text::lemma_find_first_is(line, seq![':'], n);
    assert(line.take(n) =~= name);
    assert(line.skip(n + 1) =~= value);
    assert(lines.push(line).drop_last() =~= lines);
}

/// The request head `s` (without the final blank line) parsed: the request
/// line is split on `' '` into method, target and version (further words are
/// ignored), the remaining `\r\n`-separated lines are header fields.
pub open spec fn parse_head_chars(s: Seq<char>) -> Result<HeadView, Error> {
    let lines = split_seq(s, crlf());
    let words = split_seq(lines[0], seq![' ']);
    if words.len() < 2 {
        Err(Error::InvalidInput("missing request target"))
    } else if words.len() < 3 {
        Err(Error::InvalidInput("missing HTTP version"))
    } else {
        match parse_header_lines(lines.skip(1)) {
            None => Err(Error::InvalidInput("malformed header line")),
            Some(headers) => Ok(
                HeadView { method: words[0], target: words[1], version: words[2], headers },
            ),
        }
    }
}

/// The request head given as bytes: it must be valid UTF-8.
pub open spec fn parse_head(bytes: Seq<u8>) -> Result<HeadView, Error> {
    if valid_utf8(bytes) {
        parse_head_chars(decode_utf8(bytes))
    } else {
        Err(Error::InvalidInput("request head is not valid UTF-8"))
    }
}

/// The index of the first header at or after `k` whose name equals `name`
/// up to ASCII case.
pub open spec fn find_header_from(hs: Seq<HeaderView>, name: Seq<char>, k: int) -> Option<int>
    decreases hs.len() - k,
{
    if k < 0 || k >= hs.len() {
        None
    } else if eq_ignore_ascii_case(hs[k].0, name) {
        Some(k)
    } else {
        find_header_from(hs, name, k + 1)
    }
}

/// The index of the first header whose name equals `name` up to ASCII case.
pub open spec fn find_header(hs: Seq<HeaderView>, name: Seq<char>) -> Option<int> {
    find_header_from(hs, name, 0)
}

/// The body length announced by the first `Content-Length` header; `0` when
/// there is none or its value is not a decimal `usize`.
pub open spec fn content_length(hs: Seq<HeaderView>) -> nat {
    match find_header(hs, "content-length"@) {
        Some(i) => match parse_usize(trim(hs[i].1)) {
            Some(n) => n as nat,
            None => 0,
        },
        None => 0,
    }
}

// ---------------------------------------------------------------------------
// Executable parser
// ---------------------------------------------------------------------------

fn crlf_chars() -> (v: Vec<char>)
    ensures
        v@ == crlf(),
{
    let mut v = Vec::new();
    v.push('\r');
    v.push('\n');
    v
}

fn space_chars() -> (v: Vec<char>)
    ensures
        v@ == seq![' '],
{
    let mut v = Vec::new();
    v.push(' ');
    v
}

fn string_of(v: &Vec<char>) -> (s: String)
    ensures
        s@ == v@,
{
    let s = string_from_chars(v, 0, v.len());
    assert(v@.subrange(0, v@.len() as int) =~= v@);
    s
}

/// Splits one header line at its first `:`; both parts trimmed.
fn parse_header_line(line: &Vec<char>) -> (r: Option<(String, String)>)
    ensures
        match split_once(line@, ':') {
            None => r is None,
            Some((n, v)) => r matches Some(p) && p.0@ == trim(n) && p.1@ == trim(v),
        },
{
    let mut colon = Vec::new();
    colon.push(':');
    match find_chars_from(line, &colon, 0) {
        None => None,
        Some(i) => {
            proof {
                lemma_find_from(line@, colon@, 0);
            }
            let n = line.len();
            assert(i + 1 <= n);
            let name = trim_chars(&sub_chars(line, 0, i));
            let value = trim_chars(&sub_chars(line, i + 1, line.len()));
            assert(line@.take(i as int) =~= line@.subrange(0, i as int));
            assert(line@.skip(i + 1) =~= line@.subrange(i + 1, line@.len() as int));
            Some((string_of(&name), string_of(&value)))
        },
    }
}

/// Parses the request head from its characters.
pub fn parse_head_from_chars(s: &Vec<char>) -> (r: Result<
    (String, String, String, Vec<(String, String)>),
    Error,
>)
    ensures
        match parse_head_chars(s@) {
            Ok(h) => r matches Ok(p) && p.0@ == h.method && p.1@ == h.target && p.2@ == h.version
                && p.3.deep_view() == h.headers,
            Err(e) => r == Err::<(String, String, String, Vec<(String, String)>), Error>(e),
        },
{
    let lines = split_chars(s, &crlf_chars());
    proof {
        lemma_split_nonempty(s@, crlf(), 0);
    }
    let words = split_chars(&lines[0], &space_chars());
    assert(lines[0]@ == lines.deep_view()[0]);
    if words.len() < 2 {
        return Err(Error::InvalidInput("missing request target"));
    }
    if words.len() < 3 {
        return Err(Error::InvalidInput("missing HTTP version"));
    }
    let method = string_of(&words[0]);
    let target = string_of(&words[1]);
    let version = string_of(&words[2]);
    assert(words[0]@ == words.deep_view()[0]);
    assert(words[1]@ == words.deep_view()[1]);
    assert(words[2]@ == words.deep_view()[2]);
    let ghost all = lines.deep_view();
    let mut headers: Vec<(String, String)> = Vec::new();
    let mut i: usize = 1;
    assert(all.skip(1).take(0) =~= Seq::<Seq<char>>::empty());
    while i < lines.len()
        invariant
            1 <= i <= lines@.len(),
            all == lines.deep_view(),
            all.len() == lines@.len(),
            all == split_seq(s@, crlf()),
            words.deep_view() == split_seq(all[0], seq![' ']),
            words@.len() >= 3,
            parse_header_lines(all.skip(1).take(i - 1)) == Some(headers.deep_view()),
        decreases lines@.len() - i,
    {
        let line = &lines[i];
        assert(line@ == all[i as int]);
        let ghost prev = all.skip(1).take(i - 1);
        let ghost next = all.skip(1).take(i as int);
        assert(next.drop_last() =~= prev);
        assert(next.last() == all[i as int]);
        if line.len() != 0 {
            match parse_header_line(line) {
                None => {
                    proof {
                        assert(parse_header_lines(next) is None);
                        lemma_header_lines_fail(all.skip(1), i as int);
                        assert(all == split_seq(s@, crlf()));
                        assert(words.deep_view() == split_seq(all[0], seq![' ']));
                        assert(parse_head_chars(s@) == Err::<HeadView, Error>(
                            Error::InvalidInput("malformed header line"),
                        ));
                    }
                    return Err(Error::InvalidInput("malformed header line"));
                },
                Some(h) => {
                    let ghost old_h = headers.deep_view();
                    headers.push(h);
                    assert(headers.deep_view() =~= old_h.push((h.0@, h.1@)));
                },
            }
        }
        i = i + 1;
    }
    assert(all.skip(1).take(i - 1) =~= all.skip(1));
    Ok((method, target, version, headers))
}

/// `split_from` always yields at least one piece.
pub proof fn lemma_split_nonempty<T>(s: Seq<T>, sep: Seq<T>, p: int)
    ensures
        split_from(s, sep, p).len() >= 1,
{
}

/// Once a prefix of the lines fails to parse, so do all longer prefixes.
proof fn lemma_header_lines_fail(lines: Seq<Seq<char>>, k: int)
    requires
        0 < k <= lines.len(),
        parse_header_lines(lines.take(k)) is None,
    ensures
        parse_header_lines(lines) is None,
    decreases lines.len() - k,
{
    if k < lines.len() {
        assert(lines.take(k + 1).drop_last() =~= lines.take(k));
        lemma_header_lines_fail(lines, k + 1);
    } else {
        assert(lines.take(k) =~= lines);
    }
}

/// Parses the request head from its bytes (without the blank line that ends
/// it): the bytes must be UTF-8, see [`parse_head`].
pub fn parse_head_bytes(bytes: &[u8]) -> (r: Result<
    (String, String, String, Vec<(String, String)>),
    Error,
>)
    ensures
        match parse_head(bytes@) {
            Ok(h) => r matches Ok(p) && p.0@ == h.method && p.1@ == h.target && p.2@ == h.version
                && p.3.deep_view() == h.headers,
            Err(e) => r == Err::<(String, String, String, Vec<(String, String)>), Error>(e),
        },
{
    match str_from_utf8(bytes) {
        None => Err(Error::InvalidInput("request head is not valid UTF-8")),
        Some(head) => {
            let chars = str_chars(head);
            proof {
                encode_utf8_decode_utf8(head@);
            }
            parse_head_from_chars(&chars)
        },
    }
}

/// `content_length`, executable.
pub fn find_content_length(headers: &Vec<(String, String)>) -> (n: usize)
    ensures
        n == content_length(headers.deep_view()),
{
    let name = str_chars("content-length");
    let ghost hs = headers.deep_view();
    match find_header_index(headers, &name) {
        None => 0,
        Some(i) => {
            let value = trim_chars(&str_chars(headers[i].1.as_str()));
            assert(headers[i as int].1@ == hs[i as int].1);
            match parse_usize_chars(&value) {
                Some(n) => n,
                None => 0,
            }
        },
    }
}

/// The index of the first header whose name equals `name` up to ASCII case.
pub fn find_header_index(headers: &Vec<(String, String)>, name: &Vec<char>) -> (r: Option<usize>)
    ensures
        r matches Some(i) ==> i < headers@.len() && find_header(headers.deep_view(), name@) == Some(
            i as int,
        ),
        r is None ==> find_header(headers.deep_view(), name@) is None,
{
    let ghost hs = headers.deep_view();
    let mut i: usize = 0;
    while i < headers.len()
        invariant
            i <= headers@.len(),
            hs == headers.deep_view(),
            find_header(hs, name@) == find_header_from(hs, name@, i as int),
        decreases headers@.len() - i,
    {
        let key = str_chars(headers[i].0.as_str());
        assert(headers[i as int].0@ == hs[i as int].0);
        if chars_eq_ignore_ascii_case(&key, name) {
            return Some(i);
        }
        i = i + 1;
    }
    None
}

impl Request {
    /// The index of the first `?` in the target, in characters.
    fn query_start(&self) -> (r: Option<usize>)
        ensures
            r matches Some(i) ==> find_first(self.target@, seq!['?']) == Some(i as int),
            r is None ==> find_first(self.target@, seq!['?']) is None,
    {
        let chars = str_chars(self.target.as_str());
        let mut q = Vec::new();
        q.push('?');
        find_chars_from(&chars, &q, 0)
    }

    /// The path portion of the target, with any `?query` stripped.
    pub fn path(&self) -> (p: &str)
        ensures
            p@ == (match split_once(self.target@, '?') {
                Some((path, _)) => path,
                None => self.target@,
            }),
    {
        match self.query_start() {
            Some(i) => {
                proof {
                    lemma_find_from(self.target@, seq!['?'], 0);
                }
                self.target.as_str().substring_char(0, i)
            },
            None => self.target.as_str(),
        }
    }

    /// The raw query string (everything after the first `?`), if any.
    pub fn query(&self) -> (q: Option<&str>)
        ensures
            match split_once(self.target@, '?') {
                Some((_, query)) => q matches Some(s) && s@ == query,
                None => q is None,
            },
    {
        match self.query_start() {
            Some(i) => {
                proof {
                    lemma_find_from(self.target@, seq!['?'], 0);
                }
                let t = self.target.as_str();
                let n = t.unicode_len();
                let s = t.substring_char(i + 1, n);
                assert(s@ =~= self.target@.skip(i + 1));
                Some(s)
            },
            None => None,
        }
    }

    /// Look up a header value by case-insensitive name (first match).
    pub fn header(&self, name: &str) -> (v: Option<&str>)
        ensures
            match find_header(self.headers.deep_view(), name@) {
                Some(i) => v matches Some(s) && s@ == self.headers.deep_view()[i].1,
                None => v is None,
            },
    {
        let key = str_chars(name);
        match find_header_index(&self.headers, &key) {
            Some(i) => {
                assert(self.headers[i as int].1@ == self.headers.deep_view()[i as int].1);
                Some(self.headers[i].1.as_str())
            },
            None => None,
        }
    }
}

} // verus!

verus! {

/// The path and the query are the two sides of the first `?` of the target:
/// with a `?`, `target == path + "?" + query` and the path has no `?`;
/// without one, the path is the whole target.
pub proof fn law_path_and_query(target: Seq<char>)
    ensures
        match split_once(target, '?') {
            Some((path, query)) => target == path + seq!['?'] + query && !path.contains('?'),
            None => !target.contains('?'),
        },
{
    lemma_find_from(target, seq!['?'], 0);
    match find_first(target, seq!['?']) {
        Some(i) => {
            assert(target.subrange(i, i + 1)[0] == target[i]);
            assert(target =~= target.take(i) + seq!['?'] + target.skip(i + 1));
            assert forall|j: int| 0 <= j < i implies target.take(i)[j] != '?' by {
                if target[j] == '?' {
                    assert(target.subrange(j, j + 1) =~= seq!['?']);
                    assert(crate::text::matches_at(target, seq!['?'], j));
                }
            }
        },
        None => {
            assert forall|j: int| 0 <= j < target.len() implies target[j] != '?' by {
                if target[j] == '?' {
                    assert(target.subrange(j, j + 1) =~= seq!['?']);
                    assert(crate::text::matches_at(target, seq!['?'], j));
                }
            }
        },
    }
}

proof fn lemma_eq_ignore_case_trans(x: Seq<char>, a: Seq<char>, b: Seq<char>)
    requires
        eq_ignore_ascii_case(a, b),
    ensures
        eq_ignore_ascii_case(x, a) <==> eq_ignore_ascii_case(x, b),
{
}

proof fn lemma_find_header_from_same(hs: Seq<HeaderView>, a: Seq<char>, b: Seq<char>, k: int)
    requires
        eq_ignore_ascii_case(a, b),
    ensures
        find_header_from(hs, a, k) == find_header_from(hs, b, k),
    decreases hs.len() - k,
{
    if 0 <= k < hs.len() {
        lemma_eq_ignore_case_trans(hs[k].0, a, b);
        lemma_find_header_from_same(hs, a, b, k + 1);
    }
}

/// Header lookup ignores ASCII case: names that differ only in case find
/// the same header.
pub proof fn law_header_lookup_ignores_case(hs: Seq<HeaderView>, a: Seq<char>, b: Seq<char>)
    requires
        eq_ignore_ascii_case(a, b),
    ensures
        find_header(hs, a) == find_header(hs, b),
{
    lemma_find_header_from_same(hs, a, b, 0);
}

} // verus!
