//! Character-level text helpers: conversion between strings and character
//! vectors, substring search, decimal formatting and parsing, truncation.
use vstd::prelude::*;

verus! {

/// The characters of `s`, in order.
pub fn to_chars(s: &str) -> (r: Vec<char>)
    ensures
        r@ == s@,
{
    let n = s.unicode_len();
    let mut r: Vec<char> = Vec::new();
    for i in 0..n
        invariant
            n == s@.len(),
            r@ == s@.subrange(0, i as int),
    {
        r.push(s.get_char(i));
    }
    r
}

/// A string holding exactly the characters of `v`.
///
/// Trusted: `String::from_iter` over the characters of a slice builds the
/// string of those characters, in order.
#[verifier::external_body]
pub(crate) fn chars_to_string(v: &[char]) -> (s: String)
    ensures
        s@ == v@,
{
    String::from_iter(v.iter())
}

/// What `str::to_lowercase` gives for a string, character by character
/// under the Unicode lowercase mapping.
pub uninterp spec fn lowercase_of(s: Seq<char>) -> Seq<char>;

/// The lowercase of an ASCII character: capital letters become small
/// letters, every other character stays.
pub open spec fn ascii_lower(c: char) -> char {
    if 'A' <= c && c <= 'Z' {
        ((c as u32) + 32) as char
    } else {
        c
    }
}

/// Trusted: `str::to_lowercase` returns the lowercase form of `s`; that
/// form depends on the characters of `s` alone. The empty text stays
/// empty, and a text of ASCII characters is lowercased character by
/// character, capital letters to small ones (the Unicode lowercase
/// mapping agrees with the ASCII one there).
#[verifier::external_body]
pub(crate) fn to_lowercase(s: &str) -> (r: String)
    ensures
        r@ == lowercase_of(s@),
        s@.len() == 0 ==> r@.len() == 0,
        (forall|i: int| 0 <= i < s@.len() ==> (#[trigger] s@[i] as u32) < 128) ==> r@ == s@.map_values(
            |c: char| ascii_lower(c),
        ),
{
    s.to_lowercase()
}

/// `pat` occurs in `s` starting at position `i`.
pub open spec fn occurs_at(s: Seq<char>, pat: Seq<char>, i: int) -> bool {
    0 <= i && i + pat.len() <= s.len() && s.subrange(i, i + pat.len()) == pat
}

/// `pat` occurs somewhere in `s` (the empty pattern occurs in every string).
pub open spec fn contains_seq(s: Seq<char>, pat: Seq<char>) -> bool {
    exists|i: int| occurs_at(s, pat, i)
}

fn occurs_at_exec(s: &Vec<char>, pat: &Vec<char>, i: usize) -> (b: bool)
    requires
        i + pat@.len() <= s@.len(),
    ensures
        b == occurs_at(s@, pat@, i as int),
{
    let m = pat.len();
    let sl = s.len();
    let mut k: usize = 0;
    while k < m
        invariant
            m == pat@.len(),
            sl == s@.len(),
            i + m <= s@.len(),
            k <= m,
            forall|j: int| 0 <= j < k ==> s@[i + j] == pat@[j],
        decreases m - k,
    {
        if s[i + k] != pat[k] {
            assert(s@.subrange(i as int, i + m)[k as int] != pat@[k as int]);
            return false;
        }
        k = k + 1;
    }
    assert(s@.subrange(i as int, i + m) =~= pat@);
    true
}

/// Whether `pat` occurs in `s`.
pub fn contains_chars(s: &Vec<char>, pat: &Vec<char>) -> (b: bool)
    ensures
        b == contains_seq(s@, pat@),
{
    if pat.len() == 0 {
        assert(s@.subrange(0, 0) =~= pat@);
        assert(occurs_at(s@, pat@, 0));
        return true;
    }
    if pat.len() > s.len() {
        assert forall|i: int| !occurs_at(s@, pat@, i) by {}
        return false;
    }
    let last = s.len() - pat.len();
    assert(last < s.len());
    let mut i: usize = 0;
    while i <= last
        invariant
            last + pat@.len() == s@.len(),
            last < usize::MAX,
            pat@.len() > 0,
            forall|j: int| 0 <= j < i ==> !occurs_at(s@, pat@, j),
        decreases last + 1 - i,
    {
        if occurs_at_exec(s, pat, i) {
            return true;
        }
        i = i + 1;
    }
    assert forall|j: int| !occurs_at(s@, pat@, j) by {
        if 0 <= j && j < i {
        }
    }
    false
}

/// Whether `needle` occurs in `haystack` (`str::contains` for a string
/// pattern).
pub fn str_contains(haystack: &str, needle: &str) -> (b: bool)
    ensures
        b == contains_seq(haystack@, needle@),
{
    let h = to_chars(haystack);
    let n = to_chars(needle);
    contains_chars(&h, &n)
}

/// Case-insensitive containment: both sides are lowercased first.
pub open spec fn contains_ignoring_case(value: Seq<char>, filter: Seq<char>) -> bool {
    contains_seq(lowercase_of(value), lowercase_of(filter))
}

/// Whether `filter` occurs in `value` once both are lowercased.
pub fn contains_ignore_case(value: &str, filter: &str) -> (b: bool)
    ensures
        b == contains_ignoring_case(value@, filter@),
{
    let v = to_lowercase(value);
    let f = to_lowercase(filter);
    str_contains(v.as_str(), f.as_str())
}

/// The ASCII digit for a value below ten.
pub open spec fn digit_char(d: nat) -> char {
    if d == 0 {
        '0'
    } else if d == 1 {
        '1'
    } else if d == 2 {
        '2'
    } else if d == 3 {
        '3'
    } else if d == 4 {
        '4'
    } else if d == 5 {
        '5'
    } else if d == 6 {
        '6'
    } else if d == 7 {
        '7'
    } else if d == 8 {
        '8'
    } else {
        '9'
    }
}

/// The decimal representation of `n`, without leading zeros.
pub open spec fn decimal(n: nat) -> Seq<char>
    decreases n,
{
    if n < 10 {
        seq![digit_char(n)]
    } else {
        decimal(n / 10).push(digit_char(n % 10))
    }
}

fn digit_exec(d: u64) -> (c: char)
    requires
        d < 10,
    ensures
        c == digit_char(d as nat),
{
    if d == 0 {
        '0'
    } else if d == 1 {
        '1'
    } else if d == 2 {
        '2'
    } else if d == 3 {
        '3'
    } else if d == 4 {
        '4'
    } else if d == 5 {
        '5'
    } else if d == 6 {
        '6'
    } else if d == 7 {
        '7'
    } else if d == 8 {
        '8'
    } else {
        '9'
    }
}

/// The decimal digits of `n`.
pub fn decimal_chars(n: u64) -> (r: Vec<char>)
    ensures
        r@ == decimal(n as nat),
    decreases n,
{
    if n < 10 {
        let mut r: Vec<char> = Vec::new();
        r.push(digit_exec(n));
        assert(r@ =~= seq![digit_char(n as nat)]);
        r
    } else {
        let mut r = decimal_chars(n / 10);
        r.push(digit_exec(n % 10));
        r
    }
}

/// `s` padded on the left with `'0'` up to `width` characters
/// (`format!("{s:0>width$}")`).
pub open spec fn pad_zeros(s: Seq<char>, width: nat) -> Seq<char> {
    if s.len() >= width {
        s
    } else {
        Seq::new((width - s.len()) as nat, |_i: int| '0') + s
    }
}

/// Pads `s` on the left with zeros up to `width` characters.
pub fn pad_zeros_exec(s: &Vec<char>, width: usize) -> (r: Vec<char>)
    ensures
        r@ == pad_zeros(s@, width as nat),
{
    if s.len() >= width {
        return s.clone();
    }
    let k = width - s.len();
    let mut r: Vec<char> = Vec::new();
    for i in 0..k
        invariant
            r@ == Seq::new(i as nat, |_i: int| '0'),
    {
        r.push('0');
        assert(r@ =~= Seq::new((i + 1) as nat, |_i: int| '0'));
    }
    let ghost zeros = r@;
    let n = s.len();
    for i in 0..n
        invariant
            n == s@.len(),
            r@ == zeros + s@.subrange(0, i as int),
    {
        r.push(s[i]);
        assert(r@ =~= zeros + s@.subrange(0, i + 1));
    }
    assert(s@.subrange(0, n as int) =~= s@);
    r
}

/// An ASCII decimal digit.
pub open spec fn is_digit(c: char) -> bool {
    '0' <= c && c <= '9'
}

/// The value of an ASCII digit.
pub open spec fn digit_value(c: char) -> nat {
    (c as int - '0' as int) as nat
}

/// The value of a string of decimal digits.
pub open spec fn digits_value(s: Seq<char>) -> nat
    decreases s.len(),
{
    if s.len() == 0 {
        0
    } else {
        digits_value(s.drop_last()) * 10 + digit_value(s.last())
    }
}

/// The digits of an unsigned number: `s` without one leading `+`.
pub open spec fn unsigned_digits(s: Seq<char>) -> Seq<char> {
    if s.len() > 0 && s[0] == '+' {
        s.drop_first()
    } else {
        s
    }
}

/// Every character of `d` is an ASCII digit.
pub open spec fn all_digits(d: Seq<char>) -> bool {
    forall|i: int| 0 <= i < d.len() ==> is_digit(#[trigger] d[i])
}

/// What `str::parse` gives for an unsigned integer type whose largest value
/// is `max`: an optional leading `+`, then one or more ASCII digits whose
/// value does not exceed `max`; anything else is an error.
pub open spec fn parse_unsigned(s: Seq<char>, max: nat) -> Option<nat> {
    let d = unsigned_digits(s);
    if d.len() > 0 && all_digits(d) && digits_value(d) <= max {
        Some(digits_value(d))
    } else {
        None
    }
}

pub proof fn lemma_digits_value_push(s: Seq<char>, c: char)
    ensures
        digits_value(s.push(c)) == digits_value(s) * 10 + digit_value(c),
{
    assert(s.push(c).drop_last() =~= s);
}

proof fn lemma_digits_value_monotone(s: Seq<char>, k: int)
    requires
        0 <= k <= s.len(),
        forall|i: int| 0 <= i < s.len() ==> is_digit(#[trigger] s[i]),
    ensures
        digits_value(s.subrange(0, k)) <= digits_value(s),
    decreases s.len() - k,
{
    if k < s.len() {
        lemma_digits_value_monotone(s, k + 1);
        lemma_digits_value_push(s.subrange(0, k), s[k]);
        assert(s.subrange(0, k).push(s[k]) =~= s.subrange(0, k + 1));
        assert(digits_value(s.subrange(0, k)) * 10 + digit_value(s[k]) >= digits_value(
            s.subrange(0, k),
        )) by (nonlinear_arith);
    } else {
        assert(s.subrange(0, k) =~= s);
    }
}

/// Parses an unsigned decimal integer no larger than `max`
/// (`str::parse::<u32>`, `str::parse::<usize>` and the like).
pub fn parse_unsigned_exec(s: &Vec<char>, max: u64) -> (r: Option<u64>)
    ensures
        r is Some <==> parse_unsigned(s@, max as nat) is Some,
        r is Some ==> parse_unsigned(s@, max as nat) == Some(r->0 as nat),
{
    let ghost d = unsigned_digits(s@);
    let start: usize = if s.len() > 0 && s[0] == '+' {
        1
    } else {
        0
    };
    assert(d =~= s@.subrange(start as int, s@.len() as int));
    if start >= s.len() {
        return None;
    }
    let n = s.len();
    let mut acc: u64 = 0;
    let mut i = start;
    assert(d.subrange(0, 0) =~= Seq::<char>::empty());
    while i < n
        invariant
            start <= i <= n,
            n == s@.len(),
            d == s@.subrange(start as int, n as int),
            d == unsigned_digits(s@),
            d.len() > 0,
            forall|j: int| 0 <= j < i - start ==> is_digit(#[trigger] d[j]),
            acc as nat == digits_value(d.subrange(0, i - start)),
            acc <= max,
        decreases n - i,
    {
        let c = s[i];
        assert(c == d[i - start]);
        if !('0' <= c && c <= '9') {
            assert(!is_digit(d[i - start]));
            assert(!all_digits(d));
            return None;
        }
        let dv = (c as u64) - ('0' as u64);
        proof {
            lemma_digits_value_push(d.subrange(0, i - start), c);
            assert(d.subrange(0, i - start).push(c) =~= d.subrange(0, i - start + 1));
        }
        if dv > max || acc > (max - dv) / 10 {
            proof {
                if dv <= max {
                    assert(acc * 10 + dv > max) by (nonlinear_arith)
                        requires
                            acc > (max - dv) / 10,
                            dv <= max,
                    ;
                }
                assert(digits_value(d.subrange(0, i - start + 1)) > max);
                if all_digits(d) {
                    lemma_digits_value_monotone(d, i - start + 1);
                }
            }
            return None;
        }
        proof {
            assert(acc * 10 + dv <= max) by (nonlinear_arith)
                requires
                    acc <= (max - dv) / 10,
                    dv <= max,
            ;
        }
        acc = acc * 10 + dv;
        i = i + 1;
    }
    assert(d.subrange(0, n - start) =~= d);
    Some(acc)
}

/// The first `len` characters of `s` (all of them when `s` is shorter).
pub open spec fn keep_first(s: Seq<char>, len: nat) -> Seq<char> {
    if len >= s.len() {
        s
    } else {
        s.take(len as int)
    }
}

/// The last `len` characters of `s` (all of them when `s` is shorter).
pub open spec fn keep_last(s: Seq<char>, len: nat) -> Seq<char> {
    if len >= s.len() {
        s
    } else {
        s.skip(s.len() - len)
    }
}

/// Appends the characters of `src[from..to]` to `dst`.
fn push_range(dst: &mut Vec<char>, src: &Vec<char>, from: usize, to: usize)
    requires
        from <= to <= src@.len(),
    ensures
        final(dst)@ == old(dst)@ + src@.subrange(from as int, to as int),
{
    let ghost start = dst@;
    let mut i = from;
    while i < to
        invariant
            from <= i <= to,
            to <= src@.len(),
            dst@ == start + src@.subrange(from as int, i as int),
        decreases to - i,
    {
        dst.push(src[i]);
        assert(dst@ =~= start + src@.subrange(from as int, i + 1));
        i = i + 1;
    }
}

/// Keeps the first `len` characters (truncation at the end).
pub fn truncate_end(s: &Vec<char>, len: usize) -> (r: Vec<char>)
    ensures
        r@ == keep_first(s@, len as nat),
{
    let n = if len < s.len() {
        len
    } else {
        s.len()
    };
    let mut r: Vec<char> = Vec::new();
    push_range(&mut r, s, 0, n);
    assert(r@ =~= keep_first(s@, len as nat));
    r
}

/// Keeps the last `len` characters (truncation at the start).
pub fn truncate_start(s: &Vec<char>, len: usize) -> (r: Vec<char>)
    ensures
        r@ == keep_last(s@, len as nat),
{
    let from = if len < s.len() {
        s.len() - len
    } else {
        0
    };
    let mut r: Vec<char> = Vec::new();
    push_range(&mut r, s, from, s.len());
    assert(r@ =~= keep_last(s@, len as nat));
    r
}

/// `s` shortened to fit `max_len` characters: when it is longer, its first
/// `max_len - |ellipsis|` characters (none when the ellipsis is longer)
/// followed by the ellipsis.
pub open spec fn ellipsized(s: Seq<char>, max_len: nat, ellipsis: Seq<char>) -> Seq<char> {
    if s.len() > max_len {
        s.take(
            (if max_len >= ellipsis.len() {
                max_len - ellipsis.len()
            } else {
                0
            }) as int,
        ) + ellipsis
    } else {
        s
    }
}

/// Shortens `s` to `max_len` characters, marking the cut with `ellipsis`.
pub fn ellipsize(s: &str, max_len: usize, ellipsis: &str) -> (r: String)
    ensures
        r@ == ellipsized(s@, max_len as nat, ellipsis@),
{
    let chars = to_chars(s);
    if chars.len() > max_len {
        let e = to_chars(ellipsis);
        let keep = if max_len >= e.len() {
            max_len - e.len()
        } else {
            0
        };
        let mut r: Vec<char> = Vec::new();
        push_range(&mut r, &chars, 0, keep);
        let l = r.len();
        push_range(&mut r, &e, 0, e.len());
        assert(e@.subrange(0, e@.len() as int) =~= e@);
        assert(chars@.subrange(0, keep as int) =~= chars@.take(keep as int));
        chars_to_string(r.as_slice())
    } else {
        String::from_str(s)
    }
}

/// The strings of `parts` joined by `sep`.
pub open spec fn joined(parts: Seq<Seq<char>>, sep: Seq<char>) -> Seq<char>
    decreases parts.len(),
{
    if parts.len() == 0 {
        Seq::empty()
    } else if parts.len() == 1 {
        parts[0]
    } else {
        joined(parts.drop_last(), sep) + sep + parts.last()
    }
}

/// The views of a vector of strings.
pub open spec fn views(v: Seq<String>) -> Seq<Seq<char>> {
    v.map_values(|s: String| s@)
}

/// Joins `parts` with `sep` between neighbours (`[String]::join`).
pub fn join_strings(parts: &Vec<String>, sep: &str) -> (r: String)
    ensures
        r@ == joined(views(parts@), sep@),
{
    let mut r = String::new();
    let n = parts.len();
    let ghost vs = views(parts@);
    for i in 0..n
        invariant
            n == parts@.len(),
            vs == views(parts@),
            r@ == joined(vs.take(i as int), sep@),
    {
        assert(vs.take(i + 1).drop_last() =~= vs.take(i as int));
        if i == 0 {
            r.append(parts[i].as_str());
            assert(r@ =~= joined(vs.take(1), sep@));
        } else {
            r.append(sep);
            r.append(parts[i].as_str());
        }
    }
    assert(vs.take(n as int) =~= vs);
    r
}

/// Whether two strings hold the same characters.
pub fn str_equals(a: &str, b: &str) -> (r: bool)
    ensures
        r == (a@ == b@),
{
    let x = to_chars(a);
    let y = to_chars(b);
    if x.len() != y.len() {
        return false;
    }
    let n = x.len();
    for i in 0..n
        invariant
            n == x@.len(),
            n == y@.len(),
            x@ == a@,
            y@ == b@,
            forall|j: int| 0 <= j < i ==> x@[j] == y@[j],
    {
        if x[i] != y[i] {
            return false;
        }
    }
    assert(x@ =~= y@);
    true
}

/// What `str::parse::<i32>` and the like give, for a type ranging over
/// `min..=max`: an optional sign, then one or more ASCII digits whose value
/// lies in the range; anything else is an error.
pub open spec fn parse_signed(s: Seq<char>, min: int, max: int) -> Option<int> {
    let negative = s.len() > 0 && s[0] == '-';
    let d = if s.len() > 0 && (s[0] == '-' || s[0] == '+') {
        s.drop_first()
    } else {
        s
    };
    let v: int = if negative {
        -digits_value(d)
    } else {
        digits_value(d) as int
    };
    if d.len() > 0 && all_digits(d) && min <= v <= max {
        Some(v)
    } else {
        None
    }
}

/// Parses a signed decimal `i32`.
pub fn parse_i32(s: &Vec<char>) -> (r: Option<i32>)
    ensures
        r is Some <==> parse_signed(s@, i32::MIN as int, i32::MAX as int) is Some,
        r is Some ==> parse_signed(s@, i32::MIN as int, i32::MAX as int) == Some(r->0 as int),
{
    let negative = s.len() > 0 && s[0] == '-';
    let signed = s.len() > 0 && (s[0] == '-' || s[0] == '+');
    let mut rest: Vec<char> = Vec::new();
    let start: usize = if signed {
        1
    } else {
        0
    };
    push_range(&mut rest, s, start, s.len());
    let ghost d = if s@.len() > 0 && (s@[0] == '-' || s@[0] == '+') {
        s@.drop_first()
    } else {
        s@
    };
    assert(rest@ =~= d);
    if rest.len() > 0 && rest[0] == '+' {
        assert(!is_digit(d[0]));
        return None;
    }
    assert(unsigned_digits(rest@) == d);
    let bound: u64 = if negative {
        2147483648
    } else {
        2147483647
    };
    match parse_unsigned_exec(&rest, bound) {
        Some(v) => {
            if negative {
                Some((0 - (v as i64)) as i32)
            } else {
                Some(v as i32)
            }
        },
        None => None,
    }
}

/// A character of the Unicode `White_Space` property, as
/// `char::is_whitespace` accepts: the controls from tab to carriage
/// return, space, next line, no-break space, the Ogham space mark, the
/// spaces from en quad to hair space, the line and paragraph separators,
/// the narrow no-break space, the medium mathematical space and the
/// ideographic space.
pub open spec fn is_white_space(c: char) -> bool {
    let u = c as u32;
    (0x9 <= u && u <= 0xd) || u == 0x20 || u == 0x85 || u == 0xa0 || u == 0x1680 || (0x2000 <= u && u
        <= 0x200a) || u == 0x2028 || u == 0x2029 || u == 0x202f || u == 0x205f || u == 0x3000
}

/// Whether `c` is whitespace (`char::is_whitespace`).
pub(crate) fn is_whitespace(c: char) -> (r: bool)
    ensures
        r == is_white_space(c),
{
    let u = c as u32;
    (0x9 <= u && u <= 0xd) || u == 0x20 || u == 0x85 || u == 0xa0 || u == 0x1680 || (0x2000 <= u && u
        <= 0x200a) || u == 0x2028 || u == 0x2029 || u == 0x202f || u == 0x205f || u == 0x3000
}

/// `s` without leading and trailing whitespace (`str::trim`).
pub open spec fn trimmed(s: Seq<char>) -> Seq<char> {
    let start = leading_whitespace(s);
    let end = s.len() - trailing_whitespace(s.skip(start as int));
    s.subrange(start as int, end as int)
}

/// The number of whitespace characters that begin `s`.
pub open spec fn leading_whitespace(s: Seq<char>) -> nat
    decreases s.len(),
{
    if s.len() > 0 && is_white_space(s[0]) {
        1 + leading_whitespace(s.drop_first())
    } else {
        0
    }
}

/// The number of whitespace characters that end `s`.
pub open spec fn trailing_whitespace(s: Seq<char>) -> nat
    decreases s.len(),
{
    if s.len() > 0 && is_white_space(s.last()) {
        1 + trailing_whitespace(s.drop_last())
    } else {
        0
    }
}

proof fn lemma_leading_bound(s: Seq<char>)
    ensures
        leading_whitespace(s) <= s.len(),
    decreases s.len(),
{
    if s.len() > 0 && is_white_space(s[0]) {
        lemma_leading_bound(s.drop_first());
    }
}

proof fn lemma_trailing_bound(s: Seq<char>)
    ensures
        trailing_whitespace(s) <= s.len(),
    decreases s.len(),
{
    if s.len() > 0 && is_white_space(s.last()) {
        lemma_trailing_bound(s.drop_last());
    }
}

/// Removes leading and trailing whitespace.
pub fn trim(s: &Vec<char>) -> (r: Vec<char>)
    ensures
        r@ == trimmed(s@),
{
    let n = s.len();
    let mut start: usize = 0;
    assert(s@.skip(0) =~= s@);
    while start < n && is_whitespace(s[start])
        invariant
            n == s@.len(),
            start <= n,
            leading_whitespace(s@) == start + leading_whitespace(s@.skip(start as int)),
        decreases n - start,
    {
        assert(s@.skip(start as int).drop_first() =~= s@.skip(start + 1));
        start = start + 1;
    }
    assert(leading_whitespace(s@.skip(start as int)) == 0);
    let ghost rest = s@.skip(start as int);
    let mut end: usize = n;
    while end > start && is_whitespace(s[end - 1])
        invariant
            n == s@.len(),
            start <= end <= n,
            rest == s@.skip(start as int),
            trailing_whitespace(rest) == (n - end) + trailing_whitespace(
                s@.subrange(start as int, end as int),
            ),
        decreases end,
    {
        assert(s@.subrange(start as int, end as int).drop_last() =~= s@.subrange(
            start as int,
            end - 1,
        ));
        end = end - 1;
    }
    assert(rest =~= s@.subrange(start as int, n as int));
    let mut r: Vec<char> = Vec::new();
    push_range(&mut r, s, start, end);
    r
}

/// A text cut with an ellipsis fits the width whenever the ellipsis does,
/// and a text that already fits is left as it is; a cut text keeps the
/// start of the original.
pub proof fn law_ellipsized_fits(s: Seq<char>, max_len: nat, ellipsis: Seq<char>)
    ensures
        ellipsis.len() <= max_len ==> ellipsized(s, max_len, ellipsis).len() <= max_len,
        s.len() <= max_len ==> ellipsized(s, max_len, ellipsis) == s,
        s.len() > max_len && ellipsis.len() <= max_len ==> ellipsized(s, max_len, ellipsis).take(
            max_len - ellipsis.len(),
        ) == s.take(max_len - ellipsis.len()),
{
    if s.len() > max_len && ellipsis.len() <= max_len {
        let k = max_len - ellipsis.len();
        assert(ellipsized(s, max_len, ellipsis).take(k) =~= s.take(k));
    }
}

/// Keeping the first or the last characters never gives more than asked,
/// and keeps a text that is short enough whole.
pub proof fn law_truncation_bounds(s: Seq<char>, len: nat)
    ensures
        keep_first(s, len).len() <= len,
        keep_last(s, len).len() <= len,
        s.len() <= len ==> keep_first(s, len) == s && keep_last(s, len) == s,
        keep_first(s, len).len() == if s.len() < len { s.len() } else { len },
        keep_last(s, len) == s.skip(s.len() - keep_last(s, len).len()),
        keep_first(s, len) == s.take(keep_first(s, len).len() as int),
{
    assert(s.skip(0) =~= s);
    assert(s.take(s.len() as int) =~= s);
}

} // verus!
