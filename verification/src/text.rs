//! Character-level text utilities shared by the HTTP parser and encoder:
//! pattern search, splitting, Unicode whitespace trimming, ASCII case folding
//! and decimal integers.
use vstd::prelude::*;
use vstd::utf8::*;
use vstd::string::StringSliceAdditionalSpecFns;

verus! {

// ---------------------------------------------------------------------------
// Search
// ---------------------------------------------------------------------------

/// `pat` occurs in `s` starting at index `i`.
pub open spec fn matches_at<T>(s: Seq<T>, pat: Seq<T>, i: int) -> bool {
    0 <= i && i + pat.len() <= s.len() && s.subrange(i, i + pat.len()) == pat
}

/// The first index `>= k` at which `pat` occurs in `s`.
pub open spec fn find_from<T>(s: Seq<T>, pat: Seq<T>, k: int) -> Option<int>
    decreases s.len() - k,
{
    if k < 0 || k + pat.len() > s.len() {
        None
    } else if matches_at(s, pat, k) {
        Some(k)
    } else if k >= s.len() {
        None
    } else {
        find_from(s, pat, k + 1)
    }
}

/// The first index at which `pat` occurs in `s`.
pub open spec fn find_first<T>(s: Seq<T>, pat: Seq<T>) -> Option<int> {
    find_from(s, pat, 0)
}

/// What `find_from` returns: a genuine occurrence, with no earlier one at or
/// after `k`; or `None` when there is no occurrence at or after `k`.
pub proof fn lemma_find_from<T>(s: Seq<T>, pat: Seq<T>, k: int)
    requires
        0 <= k,
    ensures
        match find_from(s, pat, k) {
            Some(j) => k <= j && matches_at(s, pat, j) && (forall|i: int|
                k <= i < j ==> !#[trigger] matches_at(s, pat, i)),
            None => forall|i: int| k <= i ==> !#[trigger] matches_at(s, pat, i),
        },
    decreases s.len() - k,
{
    if k + pat.len() > s.len() {
    } else if matches_at(s, pat, k) {
    } else if k >= s.len() {
        assert forall|i: int| k <= i implies !#[trigger] matches_at(s, pat, i) by {
            if matches_at(s, pat, i) {
                assert(pat.len() == 0);
            }
        }
    } else {
        lemma_find_from(s, pat, k + 1);
    }
}

/// Skipping a position that does not match leaves the search result unchanged.
pub proof fn lemma_find_from_step<T>(s: Seq<T>, pat: Seq<T>, k: int)
    requires
        0 <= k,
        k < s.len(),
        !matches_at(s, pat, k),
    ensures
        find_from(s, pat, k) == find_from(s, pat, k + 1),
{
}

// ---------------------------------------------------------------------------
// Splitting
// ---------------------------------------------------------------------------

/// The pieces of `s[p..]` separated by non-overlapping occurrences of `sep`,
/// taken left to right (what `str::split` yields).
pub open spec fn split_from<T>(s: Seq<T>, sep: Seq<T>, p: int) -> Seq<Seq<T>>
    decreases s.len() - p,
{
    if sep.len() == 0 || p < 0 || p > s.len() {
        seq![s.subrange(p, s.len() as int)]
    } else {
        match find_from(s, sep, p) {
            Some(i) => {
                proof {
                    lemma_find_from(s, sep, p);
                }
                seq![s.subrange(p, i)] + split_from(s, sep, i + sep.len())
            },
            None => seq![s.subrange(p, s.len() as int)],
        }
    }
}

/// The pieces of `s` separated by `sep`.
pub open spec fn split_seq<T>(s: Seq<T>, sep: Seq<T>) -> Seq<Seq<T>> {
    split_from(s, sep, 0)
}

/// Splits `s` at the first occurrence of `c` (what `str::split_once` returns).
pub open spec fn split_once(s: Seq<char>, c: char) -> Option<(Seq<char>, Seq<char>)> {
    match find_first(s, seq![c]) {
        Some(i) => Some((s.take(i), s.skip(i + 1))),
        None => None,
    }
}

// ---------------------------------------------------------------------------
// Whitespace and ASCII case
// ---------------------------------------------------------------------------

/// The Unicode `White_Space` property, as tested by `char::is_whitespace`.
pub open spec fn is_whitespace(c: char) -> bool {
    ||| ('\u{9}' <= c && c <= '\u{d}')
    ||| c == ' '
    ||| c == '\u{85}'
    ||| c == '\u{a0}'
    ||| c == '\u{1680}'
    ||| ('\u{2000}' <= c && c <= '\u{200a}')
    ||| c == '\u{2028}'
    ||| c == '\u{2029}'
    ||| c == '\u{202f}'
    ||| c == '\u{205f}'
    ||| c == '\u{3000}'
}

/// `s` without its leading whitespace.
pub open spec fn trim_start(s: Seq<char>) -> Seq<char>
    decreases s.len(),
{
    if s.len() > 0 && is_whitespace(s[0]) {
        trim_start(s.drop_first())
    } else {
        s
    }
}

/// `s` without its trailing whitespace.
pub open spec fn trim_end(s: Seq<char>) -> Seq<char>
    decreases s.len(),
{
    if s.len() > 0 && is_whitespace(s.last()) {
        trim_end(s.drop_last())
    } else {
        s
    }
}

/// `s` without leading and trailing whitespace (what `str::trim` returns).
pub open spec fn trim(s: Seq<char>) -> Seq<char> {
    trim_end(trim_start(s))
}

/// ASCII lower-casing of one character; other characters are unchanged.
pub open spec fn ascii_lower(c: char) -> char {
    if 'A' <= c && c <= 'Z' {
        ((c as u32) + 32) as char
    } else {
        c
    }
}

/// `a` and `b` are equal up to ASCII case (what `str::eq_ignore_ascii_case`
/// computes).
pub open spec fn eq_ignore_ascii_case(a: Seq<char>, b: Seq<char>) -> bool {
    a.len() == b.len() && forall|i: int| 0 <= i < a.len() ==> ascii_lower(a[i]) == ascii_lower(b[i])
}

// ---------------------------------------------------------------------------
// Decimal integers
// ---------------------------------------------------------------------------

/// The ASCII digit for `d < 10`.
pub open spec fn digit_char(d: nat) -> char {
    (d + 48) as char
}

/// The value of an ASCII decimal digit.
pub open spec fn digit_value(c: char) -> nat {
    (c as u32 - 48) as nat
}

pub open spec fn is_digit(c: char) -> bool {
    '0' <= c && c <= '9'
}

/// Decimal representation of `n` without leading zeros (what `{}` prints).
pub open spec fn decimal(n: nat) -> Seq<char>
    decreases n,
{
    if n < 10 {
        seq![digit_char(n)]
    } else {
        decimal(n / 10).push(digit_char(n % 10))
    }
}

/// Decimal representation of a signed integer (a `-` before the magnitude
/// of a negative one).
pub open spec fn signed_decimal(n: int) -> Seq<char> {
    if n < 0 {
        seq!['-'] + decimal((-n) as nat)
    } else {
        decimal(n as nat)
    }
}

/// The lower-case hexadecimal digit for `d < 16`.
pub open spec fn hex_char(d: nat) -> char {
    if d < 10 {
        (d + 48) as char
    } else {
        (d + 87) as char
    }
}

/// The last `n` hexadecimal digits of `v`, most significant first.
pub open spec fn hex_digits(v: nat, n: nat) -> Seq<char>
    decreases n,
{
    if n == 0 {
        Seq::empty()
    } else {
        hex_digits(v / 16, (n - 1) as nat).push(hex_char(v % 16))
    }
}

/// Every character of `decimal(n)` is a digit.
pub proof fn lemma_decimal_digits(n: nat)
    ensures
        all_digits(decimal(n)),
    decreases n,
{
    if n >= 10 {
        lemma_decimal_digits(n / 10);
    }
}

/// `decimal(n)` is a non-empty digit string that reads back as `n`.
pub proof fn lemma_decimal_value(n: nat)
    ensures
        decimal(n).len() > 0,
        all_digits(decimal(n)),
        digits_value(decimal(n)) == n,
    decreases n,
{
    lemma_decimal_digits(n);
    let d = (n % 10) as nat;
    assert(digit_value(digit_char(d)) == d);
    if n >= 10 {
        lemma_decimal_value(n / 10);
        assert(decimal(n).drop_last() =~= decimal(n / 10));
        assert(decimal(n).last() == digit_char(d));
        assert((n / 10) * 10 + d == n);
        assert(digits_value(decimal(n)) == digits_value(decimal(n / 10)) * 10 + d);
    } else {
        assert(decimal(n).drop_last() =~= Seq::<char>::empty());
        assert(digits_value(decimal(n)) == digits_value(Seq::<char>::empty()) * 10 + d);
    }
}

/// The value of a non-empty sequence of decimal digits.
pub open spec fn digits_value(s: Seq<char>) -> nat
    decreases s.len(),
{
    if s.len() == 0 {
        0
    } else {
        digits_value(s.drop_last()) * 10 + digit_value(s.last())
    }
}

pub open spec fn all_digits(s: Seq<char>) -> bool {
    forall|i: int| 0 <= i < s.len() ==> is_digit(#[trigger] s[i])
}

/// What `str::parse::<usize>` accepts and returns: an optional `+` followed by
/// at least one ASCII digit, whose value fits in a `usize`.
pub open spec fn parse_usize(s: Seq<char>) -> Option<usize> {
    let digits = if s.len() > 0 && s[0] == '+' {
        s.drop_first()
    } else {
        s
    };
    if digits.len() > 0 && all_digits(digits) && digits_value(digits) <= usize::MAX {
        Some(digits_value(digits) as usize)
    } else {
        None
    }
}

// ---------------------------------------------------------------------------
// Trusted std calls
// ---------------------------------------------------------------------------

/// `String::push`: appends one character.
#[verifier::external_body]
pub fn push_char(s: &mut String, c: char)
    ensures
        final(s)@ == old(s)@.push(c),
{
    s.push(c);
}

/// `core::str::from_utf8`: the bytes as a string slice when they are valid
/// UTF-8, `None` otherwise.
#[verifier::external_body]
pub fn str_from_utf8(bytes: &[u8]) -> (res: Option<&str>)
    ensures
        res is Some <==> valid_utf8(bytes@),
        res matches Some(s) ==> s.spec_bytes() == bytes@,
{
    core::str::from_utf8(bytes).ok()
}

// ---------------------------------------------------------------------------
// Executable helpers
// ---------------------------------------------------------------------------

/// The characters of `s`.
pub fn str_chars(s: &str) -> (v: Vec<char>)
    ensures
        v@ == s@,
{
    let mut v: Vec<char> = Vec::new();
    for c in it: s.chars()
        invariant
            v@ == it.seq().take(it.index() as int),
            it.seq() == s@,
    {
        v.push(c);
    }
    v
}

/// A string holding `v[lo..hi]`.
pub fn string_from_chars(v: &Vec<char>, lo: usize, hi: usize) -> (s: String)
    requires
        lo <= hi <= v@.len(),
    ensures
        s@ == v@.subrange(lo as int, hi as int),
{
    let mut s = String::new();
    let mut i = lo;
    while i < hi
        invariant
            lo <= i <= hi <= v@.len(),
            s@ == v@.subrange(lo as int, i as int),
        decreases hi - i,
    {
        push_char(&mut s, v[i]);
        assert(v@.subrange(lo as int, i + 1) == v@.subrange(lo as int, i as int).push(v@[i as int]));
        i = i + 1;
    }
    s
}

/// `v[lo..hi]` as a new vector.
pub fn sub_chars(v: &Vec<char>, lo: usize, hi: usize) -> (r: Vec<char>)
    requires
        lo <= hi <= v@.len(),
    ensures
        r@ == v@.subrange(lo as int, hi as int),
{
    let mut r: Vec<char> = Vec::new();
    let mut i = lo;
    while i < hi
        invariant
            lo <= i <= hi <= v@.len(),
            r@ == v@.subrange(lo as int, i as int),
        decreases hi - i,
    {
        r.push(v[i]);
        assert(v@.subrange(lo as int, i + 1) == v@.subrange(lo as int, i as int).push(v@[i as int]));
        i = i + 1;
    }
    r
}

/// Whether `pat` occurs in `s` at `i`.
fn chars_match_at(s: &Vec<char>, pat: &Vec<char>, i: usize) -> (b: bool)
    requires
        i <= s@.len(),
    ensures
        b == matches_at(s@, pat@, i as int),
{
    if pat.len() > s.len() - i {
        return false;
    }
    let mut k: usize = 0;
    while k < pat.len()
        invariant
            i + pat@.len() <= s@.len(),
            k <= pat@.len(),
            forall|j: int| 0 <= j < k ==> s@[i + j] == pat@[j],
        decreases pat@.len() - k,
    {
        let n = s.len();
        assert(i + k < n);
        if s[i + k] != pat[k] {
            assert(s@.subrange(i as int, i + pat@.len())[k as int] != pat@[k as int]);
            return false;
        }
        k = k + 1;
    }
    assert(s@.subrange(i as int, i + pat@.len()) =~= pat@);
    true
}

/// The first occurrence of `pat` in `s` at or after `from`.
pub fn find_chars_from(s: &Vec<char>, pat: &Vec<char>, from: usize) -> (r: Option<usize>)
    requires
        from <= s@.len(),
    ensures
        r matches Some(i) ==> find_from(s@, pat@, from as int) == Some(i as int),
        r is None ==> find_from(s@, pat@, from as int) is None,
{
    let mut i = from;
    while i < s.len()
        invariant
            from <= i <= s@.len(),
            find_from(s@, pat@, from as int) == find_from(s@, pat@, i as int),
        decreases s@.len() - i,
    {
        if chars_match_at(s, pat, i) {
            return Some(i);
        }
        proof {
            lemma_find_from_step(s@, pat@, i as int);
        }
        i = i + 1;
    }
    if chars_match_at(s, pat, i) {
        Some(i)
    } else {
        None
    }
}

/// The pieces of `s` separated by `sep` (non-empty).
pub fn split_chars(s: &Vec<char>, sep: &Vec<char>) -> (r: Vec<Vec<char>>)
    requires
        sep@.len() > 0,
    ensures
        r.deep_view() == split_seq(s@, sep@),
{
    let mut r: Vec<Vec<char>> = Vec::new();
    let mut p: usize = 0;
    loop
        invariant
            p <= s@.len(),
            sep@.len() > 0,
            split_seq(s@, sep@) == r.deep_view() + split_from(s@, sep@, p as int),
        decreases s@.len() - p,
    {
        let found = find_chars_from(s, sep, p);
        proof {
            lemma_find_from(s@, sep@, p as int);
        }
        match found {
            Some(i) => {
                let piece = sub_chars(s, p, i);
                let ghost old_r = r.deep_view();
                assert(piece.deep_view() =~= piece@);
                r.push(piece);
                assert(r.deep_view() =~= old_r.push(s@.subrange(p as int, i as int)));
                assert(split_from(s@, sep@, p as int) == seq![s@.subrange(p as int, i as int)]
                    + split_from(s@, sep@, i + sep@.len()));
                assert(old_r + split_from(s@, sep@, p as int) =~= r.deep_view() + split_from(
                    s@,
                    sep@,
                    i + sep@.len(),
                ));
                let n = s.len();
                assert(i + sep@.len() <= n);
                p = i + sep.len();
            },
            None => {
                let piece = sub_chars(s, p, s.len());
                let ghost old_r = r.deep_view();
                assert(piece.deep_view() =~= piece@);
                r.push(piece);
                assert(r.deep_view() =~= old_r.push(s@.subrange(p as int, s@.len() as int)));
                assert(r.deep_view() =~= old_r + split_from(s@, sep@, p as int));
                return r;
            },
        }
    }
}

/// `is_whitespace`, executable.
pub fn char_is_whitespace(c: char) -> (b: bool)
    ensures
        b == is_whitespace(c),
{
    ('\u{9}' <= c && c <= '\u{d}') || c == ' ' || c == '\u{85}' || c == '\u{a0}' || c
        == '\u{1680}' || ('\u{2000}' <= c && c <= '\u{200a}') || c == '\u{2028}' || c
        == '\u{2029}' || c == '\u{202f}' || c == '\u{205f}' || c == '\u{3000}'
}

proof fn lemma_trim_start_skip(s: Seq<char>, i: int)
    requires
        0 <= i < s.len(),
        is_whitespace(s[i]),
    ensures
        trim_start(s.subrange(i, s.len() as int)) == trim_start(s.subrange(i + 1, s.len() as int)),
{
    assert(s.subrange(i, s.len() as int).drop_first() =~= s.subrange(i + 1, s.len() as int));
}

proof fn lemma_trim_end_skip(s: Seq<char>, lo: int, j: int)
    requires
        0 <= lo < j <= s.len(),
        is_whitespace(s[j - 1]),
    ensures
        trim_end(s.subrange(lo, j)) == trim_end(s.subrange(lo, j - 1)),
{
    assert(s.subrange(lo, j).drop_last() =~= s.subrange(lo, j - 1));
}

/// `trim(v)` as a new vector.
pub fn trim_chars(v: &Vec<char>) -> (r: Vec<char>)
    ensures
        r@ == trim(v@),
{
    let n = v.len();
    let mut i: usize = 0;
    assert(v@.subrange(0, n as int) =~= v@);
    while i < n && char_is_whitespace(v[i])
        invariant
            i <= n == v@.len(),
            trim_start(v@) == trim_start(v@.subrange(i as int, n as int)),
        decreases n - i,
    {
        proof {
            lemma_trim_start_skip(v@, i as int);
        }
        i = i + 1;
    }
    let ghost start = v@.subrange(i as int, n as int);
    assert(trim_start(start) == start);
    let mut j: usize = n;
    assert(start =~= v@.subrange(i as int, j as int));
    while j > i && char_is_whitespace(v[j - 1])
        invariant
            i <= j <= n == v@.len(),
            trim_end(start) == trim_end(v@.subrange(i as int, j as int)),
        decreases j - i,
    {
        proof {
            lemma_trim_end_skip(v@, i as int, j as int);
        }
        j = j - 1;
    }
    assert(trim_end(v@.subrange(i as int, j as int)) == v@.subrange(i as int, j as int));
    sub_chars(v, i, j)
}

/// `ascii_lower`, executable.
pub fn char_ascii_lower(c: char) -> (r: char)
    ensures
        r == ascii_lower(c),
{
    if 'A' <= c && c <= 'Z' {
        let u: u32 = c as u32;
        let l: u32 = u + 32;
        char_from_ascii(l)
    } else {
        c
    }
}

fn char_from_ascii(u: u32) -> (c: char)
    requires
        97 <= u <= 122,
    ensures
        c == u as char,
{
    (u as u8) as char
}

/// `eq_ignore_ascii_case`, executable.
pub fn chars_eq_ignore_ascii_case(a: &Vec<char>, b: &Vec<char>) -> (r: bool)
    ensures
        r == eq_ignore_ascii_case(a@, b@),
{
    if a.len() != b.len() {
        return false;
    }
    let mut i: usize = 0;
    while i < a.len()
        invariant
            a@.len() == b@.len(),
            i <= a@.len(),
            forall|k: int| 0 <= k < i ==> ascii_lower(a@[k]) == ascii_lower(b@[k]),
        decreases a@.len() - i,
    {
        if char_ascii_lower(a[i]) != char_ascii_lower(b[i]) {
            return false;
        }
        i = i + 1;
    }
    true
}

/// `digit_char`, executable.
fn digit_to_char(d: u64) -> (c: char)
    requires
        d < 10,
    ensures
        c == digit_char(d as nat),
{
    ((d as u8) + 48) as char
}

/// Appends the decimal representation of `n` to `s`.
pub fn push_decimal(s: &mut String, n: u64)
    ensures
        final(s)@ == old(s)@ + decimal(n as nat),
    decreases n,
{
    if n < 10 {
        push_char(s, digit_to_char(n));
        assert(decimal(n as nat) == seq![digit_char(n as nat)]);
    } else {
        push_decimal(s, n / 10);
        push_char(s, digit_to_char(n % 10));
        assert(decimal(n as nat) == decimal((n / 10) as nat).push(digit_char((n % 10) as nat)));
    }
}

/// Appends the decimal representation of a signed `n` to `s`.
pub fn push_signed_decimal(s: &mut String, n: i32)
    ensures
        final(s)@ == old(s)@ + signed_decimal(n as int),
{
    if n < 0 {
        push_char(s, '-');
        let m: u64 = (0i64 - (n as i64)) as u64;
        push_decimal(s, m);
        assert(final(s)@ =~= old(s)@ + signed_decimal(n as int));
    } else {
        push_decimal(s, n as u64);
    }
}

fn hex_digit_char(d: u32) -> (c: char)
    requires
        d < 16,
    ensures
        c == hex_char(d as nat),
{
    if d < 10 {
        ((d as u8) + 48) as char
    } else {
        ((d as u8) + 87) as char
    }
}

/// Appends the last `n` hexadecimal digits of `v` to `s` (as `{:0n$x}` does
/// for a value below `16^n`).
pub fn push_hex_digits(s: &mut String, v: u32, n: u32)
    ensures
        final(s)@ == old(s)@ + hex_digits(v as nat, n as nat),
    decreases n,
{
    if n > 0 {
        push_hex_digits(s, v / 16, n - 1);
        push_char(s, hex_digit_char(v % 16));
    }
}

/// `parse_usize`, executable.
pub fn parse_usize_chars(s: &Vec<char>) -> (r: Option<usize>)
    ensures
        r == parse_usize(s@),
{
    let start: usize = if s.len() > 0 && s[0] == '+' {
        1
    } else {
        0
    };
    let ghost digits = if s@.len() > 0 && s@[0] == '+' {
        s@.drop_first()
    } else {
        s@
    };
    assert(digits =~= s@.subrange(start as int, s@.len() as int));
    if start >= s.len() {
        return None;
    }
    let mut value: usize = 0;
    let mut i = start;
    while i < s.len()
        invariant
            start <= i <= s@.len(),
            digits == s@.subrange(start as int, s@.len() as int),
            digits == (if s@.len() > 0 && s@[0] == '+' {
                s@.drop_first()
            } else {
                s@
            }),
            all_digits(s@.subrange(start as int, i as int)),
            value as nat == digits_value(s@.subrange(start as int, i as int)),
        decreases s@.len() - i,
    {
        let c = s[i];
        let ghost prefix = s@.subrange(start as int, i as int);
        let ghost next = s@.subrange(start as int, i + 1);
        assert(next.drop_last() =~= prefix);
        if !('0' <= c && c <= '9') {
            assert(!is_digit(digits[i - start]));
            return None;
        }
        let d: usize = (c as u32 - 48) as usize;
        assert(digits_value(next) == digits_value(prefix) * 10 + d);
        if value > (usize::MAX - d) / 10 {
            proof {
                assert(digits.take(i + 1 - start) =~= next);
                assert(prefix =~= digits.take(i - start));
                lemma_digits_value_prefix_bound(digits, (i + 1 - start) as int);
            }
            return None;
        }
        value = value * 10 + d;
        i = i + 1;
    }
    assert(s@.subrange(start as int, s@.len() as int) == digits);
    Some(value)
}

/// The value of a digit string is at least the value of any of its prefixes
/// (when all characters are digits).
proof fn lemma_digits_value_monotone(s: Seq<char>, k: int)
    requires
        0 <= k <= s.len(),
        all_digits(s),
    ensures
        digits_value(s.take(k)) <= digits_value(s),
    decreases s.len() - k,
{
    if k < s.len() {
        lemma_digits_value_monotone(s, k + 1);
        assert(s.take(k + 1).drop_last() =~= s.take(k));
    } else {
        assert(s.take(k) =~= s);
    }
}

proof fn lemma_digits_value_prefix_bound(digits: Seq<char>, k: int)
    requires
        0 < k <= digits.len(),
        all_digits(digits.take(k - 1)),
        is_digit(digits[k - 1]),
        digits_value(digits.take(k)) > usize::MAX,
    ensures
        !(digits.len() > 0 && all_digits(digits) && digits_value(digits) <= usize::MAX),
{
    if all_digits(digits) {
        lemma_digits_value_monotone(digits, k);
    }
}

} // verus!

verus! {

/// The first occurrence is determined by where the pattern occurs: a match
/// at `j` with none before it is what `find_first` returns; no match at all
/// means `None`.
pub proof fn lemma_find_first_is<T>(s: Seq<T>, pat: Seq<T>, j: int)
    requires
        matches_at(s, pat, j),
        forall|i: int| 0 <= i < j ==> !#[trigger] matches_at(s, pat, i),
    ensures
        find_first(s, pat) == Some(j),
{
    lemma_find_from(s, pat, 0);
}

/// Occurrences that fit in a prefix are the occurrences of the whole
/// sequence there.
pub proof fn lemma_matches_at_prefix<T>(s: Seq<T>, p: Seq<T>, pat: Seq<T>, i: int)
    requires
        p.len() <= s.len(),
        p == s.take(p.len() as int),
        i + pat.len() <= p.len(),
    ensures
        matches_at(p, pat, i) == matches_at(s, pat, i),
{
    if 0 <= i {
        assert(p.subrange(i, i + pat.len()) =~= s.subrange(i, i + pat.len()));
    }
}

/// In a prefix of `s`, the first occurrence of `pat` is that of `s` when the
/// prefix holds it entirely, and there is none otherwise.
pub proof fn lemma_find_first_prefix<T>(s: Seq<T>, p: Seq<T>, pat: Seq<T>, h: int)
    requires
        p.len() <= s.len(),
        p == s.take(p.len() as int),
        find_first(s, pat) == Some(h),
    ensures
        p.len() >= h + pat.len() ==> find_first(p, pat) == Some(h),
        p.len() < h + pat.len() ==> find_first(p, pat) is None,
{
    lemma_find_from(s, pat, 0);
    lemma_find_from(p, pat, 0);
    if p.len() >= h + pat.len() {
        lemma_matches_at_prefix(s, p, pat, h);
        assert forall|i: int| 0 <= i < h implies !#[trigger] matches_at(p, pat, i) by {
            lemma_matches_at_prefix(s, p, pat, i);
        }
        lemma_find_first_is(p, pat, h);
    } else {
        match find_first(p, pat) {
            Some(j) => {
                lemma_matches_at_prefix(s, p, pat, j);
            },
            None => {},
        }
    }
}

} // verus!
