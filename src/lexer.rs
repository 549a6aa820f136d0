//! Character classes and token scanners of the script language.
//!
//! Each scanner has a spec function over `Seq<char>` and an executable
//! counterpart over `Vec<char>` that is proved to return the same position.
use vstd::prelude::*;

verus! {

pub open spec fn is_ws(c: char) -> bool {
    c == ' ' || c == '\t' || c == '\n' || c == '\r'
}

pub open spec fn is_digit(c: char) -> bool {
    '0' <= c && c <= '9'
}

pub open spec fn is_alpha(c: char) -> bool {
    ('a' <= c && c <= 'z') || ('A' <= c && c <= 'Z') || c == '_'
}

pub open spec fn is_word(c: char) -> bool {
    is_alpha(c) || is_digit(c)
}

pub open spec fn is_unit(c: char) -> bool {
    c == 'd' || c == 'w' || c == 'm' || c == 'y'
}

/// `s` holds `c` at position `p`.
pub open spec fn char_is(s: Seq<char>, p: int, c: char) -> bool {
    0 <= p < s.len() && s[p] == c
}

/// First position at or after `p` that is not white space.
pub open spec fn skip_ws(s: Seq<char>, p: int) -> int
    decreases s.len() - p,
{
    if 0 <= p < s.len() && is_ws(s[p]) {
        skip_ws(s, p + 1)
    } else {
        p
    }
}

/// First position at or after `p` that is not a decimal digit.
pub open spec fn digits_end(s: Seq<char>, p: int) -> int
    decreases s.len() - p,
{
    if 0 <= p < s.len() && is_digit(s[p]) {
        digits_end(s, p + 1)
    } else {
        p
    }
}

/// First position at or after `p` that is not a word character.
pub open spec fn word_end(s: Seq<char>, p: int) -> int
    decreases s.len() - p,
{
    if 0 <= p < s.len() && is_word(s[p]) {
        word_end(s, p + 1)
    } else {
        p
    }
}

/// First position at or after `p` that holds a double quote, or the end.
pub open spec fn quote_end(s: Seq<char>, p: int) -> int
    decreases s.len() - p,
{
    if 0 <= p < s.len() && s[p] != '"' {
        quote_end(s, p + 1)
    } else {
        p
    }
}

/// First position at or after `p` that holds `&`, or the end.
pub open spec fn amp_end(s: Seq<char>, p: int) -> int
    decreases s.len() - p,
{
    if 0 <= p < s.len() && s[p] != '&' {
        amp_end(s, p + 1)
    } else {
        p
    }
}

/// An identifier: a letter or `_`, then word characters. Gives its end.
pub open spec fn ident_at(s: Seq<char>, p: int) -> Option<int> {
    if 0 <= p < s.len() && is_alpha(s[p]) {
        Some(word_end(s, p + 1))
    } else {
        None
    }
}

/// A number: an optional `-`, digits, and an optional `.` with digits.
pub open spec fn number_at(s: Seq<char>, p: int) -> Option<int> {
    let q = if char_is(s, p, '-') { p + 1 } else { p };
    let d = digits_end(s, q);
    if d == q {
        None
    } else if char_is(s, d, '.') && digits_end(s, d + 1) != d + 1 {
        Some(digits_end(s, d + 1))
    } else {
        Some(d)
    }
}

/// A date `YYYY-MM-DD`.
pub open spec fn date_at(s: Seq<char>, p: int) -> Option<int> {
    if digits_end(s, p) == p + 4 && char_is(s, p + 4, '-') && digits_end(s, p + 5) == p + 7
        && char_is(s, p + 7, '-') && digits_end(s, p + 8) == p + 10 {
        Some(p + 10)
    } else {
        None
    }
}

/// A duration: digits followed by one unit letter that ends the word.
pub open spec fn duration_at(s: Seq<char>, p: int) -> Option<int> {
    let d = digits_end(s, p);
    if d > p && 0 <= d < s.len() && is_unit(s[d]) && !(d + 1 < s.len() && is_word(s[d + 1])) {
        Some(d + 1)
    } else {
        None
    }
}

/// A double-quoted string; gives the position of the closing quote.
pub open spec fn string_at(s: Seq<char>, p: int) -> Option<int> {
    if char_is(s, p, '"') && quote_end(s, p + 1) < s.len() {
        Some(quote_end(s, p + 1))
    } else {
        None
    }
}

pub fn is_ws_char(c: char) -> (r: bool)
    ensures
        r == is_ws(c),
{
    c == ' ' || c == '\t' || c == '\n' || c == '\r'
}

pub fn is_digit_char(c: char) -> (r: bool)
    ensures
        r == is_digit(c),
{
    '0' <= c && c <= '9'
}

pub fn is_alpha_char(c: char) -> (r: bool)
    ensures
        r == is_alpha(c),
{
    ('a' <= c && c <= 'z') || ('A' <= c && c <= 'Z') || c == '_'
}

pub fn is_word_char(c: char) -> (r: bool)
    ensures
        r == is_word(c),
{
    is_alpha_char(c) || is_digit_char(c)
}

pub fn char_is_at(s: &Vec<char>, p: usize, c: char) -> (r: bool)
    ensures
        r == char_is(s@, p as int, c),
        s@.len() == s.len(),
{
    p < s.len() && s[p] == c
}

/// The characters of `t`, in order.
pub fn chars_of(t: &str) -> (r: Vec<char>)
    ensures
        r@ == t@,
{
    let n = t.unicode_len();
    let mut r: Vec<char> = Vec::new();
    let mut i: usize = 0;
    while i < n
        invariant
            n == t@.len(),
            i <= n,
            r@ == t@.subrange(0, i as int),
        decreases n - i,
    {
        r.push(t.get_char(i));
        i += 1;
    }
    assert(r@ =~= t@);
    r
}

pub fn skip_ws_from(s: &Vec<char>, p: usize) -> (r: usize)
    requires
        p <= s@.len(),
    ensures
        r as int == skip_ws(s@, p as int),
        p <= r <= s@.len(),
        s@.len() == s.len(),
{
    let mut i = p;
    while i < s.len() && is_ws_char(s[i])
        invariant
            p <= i <= s@.len(),
            skip_ws(s@, i as int) == skip_ws(s@, p as int),
        decreases s@.len() - i,
    {
        i += 1;
    }
    i
}

pub fn digits_end_from(s: &Vec<char>, p: usize) -> (r: usize)
    requires
        p <= s@.len(),
    ensures
        r as int == digits_end(s@, p as int),
        p <= r <= s@.len(),
{
    let mut i = p;
    while i < s.len() && is_digit_char(s[i])
        invariant
            p <= i <= s@.len(),
            digits_end(s@, i as int) == digits_end(s@, p as int),
        decreases s@.len() - i,
    {
        i += 1;
    }
    i
}

pub fn word_end_from(s: &Vec<char>, p: usize) -> (r: usize)
    requires
        p <= s@.len(),
    ensures
        r as int == word_end(s@, p as int),
        p <= r <= s@.len(),
{
    let mut i = p;
    while i < s.len() && is_word_char(s[i])
        invariant
            p <= i <= s@.len(),
            word_end(s@, i as int) == word_end(s@, p as int),
        decreases s@.len() - i,
    {
        i += 1;
    }
    i
}

pub fn quote_end_from(s: &Vec<char>, p: usize) -> (r: usize)
    requires
        p <= s@.len(),
    ensures
        r as int == quote_end(s@, p as int),
        p <= r <= s@.len(),
{
    let mut i = p;
    while i < s.len() && s[i] != '"'
        invariant
            p <= i <= s@.len(),
            quote_end(s@, i as int) == quote_end(s@, p as int),
        decreases s@.len() - i,
    {
        i += 1;
    }
    i
}

pub fn amp_end_from(s: &Vec<char>, p: usize) -> (r: usize)
    requires
        p <= s@.len(),
    ensures
        r as int == amp_end(s@, p as int),
        p <= r <= s@.len(),
{
    let mut i = p;
    while i < s.len() && s[i] != '&'
        invariant
            p <= i <= s@.len(),
            amp_end(s@, i as int) == amp_end(s@, p as int),
        decreases s@.len() - i,
    {
        i += 1;
    }
    i
}

pub fn scan_ident(s: &Vec<char>, p: usize) -> (r: Option<usize>)
    requires
        p <= s@.len(),
    ensures
        r matches Some(e) ==> ident_at(s@, p as int) == Some(e as int) && p < e <= s@.len(),
        r is None ==> ident_at(s@, p as int) is None,
{
    if p < s.len() && is_alpha_char(s[p]) {
        Some(word_end_from(s, p + 1))
    } else {
        None
    }
}

pub fn scan_number(s: &Vec<char>, p: usize) -> (r: Option<usize>)
    requires
        p <= s@.len(),
    ensures
        r matches Some(e) ==> number_at(s@, p as int) == Some(e as int) && p < e <= s@.len(),
        r is None ==> number_at(s@, p as int) is None,
{
    let n = s.len();
    let q = if p < n && s[p] == '-' { p + 1 } else { p };
    let d = digits_end_from(s, q);
    if d == q {
        None
    } else if d < n && s[d] == '.' && digits_end_from(s, d + 1) != d + 1 {
        Some(digits_end_from(s, d + 1))
    } else {
        Some(d)
    }
}

pub fn scan_date(s: &Vec<char>, p: usize) -> (r: Option<usize>)
    requires
        p <= s@.len(),
    ensures
        r matches Some(e) ==> date_at(s@, p as int) == Some(e as int) && p < e <= s@.len(),
        r is None ==> date_at(s@, p as int) is None,
{
    let n = s.len();
    let a = digits_end_from(s, p);
    if a - p == 4 && a < n && s[a] == '-' {
        let b = digits_end_from(s, a + 1);
        if b - a == 3 && b < n && s[b] == '-' {
            let c = digits_end_from(s, b + 1);
            if c - b == 3 {
                return Some(c);
            }
        }
    }
    None
}

pub fn scan_duration(s: &Vec<char>, p: usize) -> (r: Option<usize>)
    requires
        p <= s@.len(),
    ensures
        r matches Some(e) ==> duration_at(s@, p as int) == Some(e as int) && p < e <= s@.len(),
        r is None ==> duration_at(s@, p as int) is None,
{
    let d = digits_end_from(s, p);
    if d > p && d < s.len() && (s[d] == 'd' || s[d] == 'w' || s[d] == 'm' || s[d] == 'y') && !(d
        + 1 < s.len() && is_word_char(s[d + 1])) {
        Some(d + 1)
    } else {
        None
    }
}

pub fn scan_string(s: &Vec<char>, p: usize) -> (r: Option<usize>)
    requires
        p <= s@.len(),
    ensures
        r matches Some(e) ==> string_at(s@, p as int) == Some(e as int) && p < e < s@.len(),
        r is None ==> string_at(s@, p as int) is None,
        s@.len() == s.len(),
{
    if p < s.len() && s[p] == '"' {
        let q = quote_end_from(s, p + 1);
        if q < s.len() {
            return Some(q);
        }
    }
    None
}

/// The characters `a..b` of `s` spell the word `w`.
pub fn span_is(s: &Vec<char>, a: usize, b: usize, w: &str) -> (r: bool)
    requires
        a <= b <= s@.len(),
    ensures
        r == (s@.subrange(a as int, b as int) == w@),
{
    let n = w.unicode_len();
    if b - a != n {
        proof {
            assert(s@.subrange(a as int, b as int).len() != w@.len());
        }
        return false;
    }
    let mut i: usize = 0;
    while i < n
        invariant
            n == w@.len(),
            b - a == n,
            a <= b <= s@.len(),
            i <= n,
            forall|k: int| 0 <= k < i ==> s@[a + k] == w@[k],
        decreases n - i,
    {
        if s[a + i] != w.get_char(i) {
            proof {
                assert(s@.subrange(a as int, b as int)[i as int] != w@[i as int]);
            }
            return false;
        }
        i += 1;
    }
    assert(s@.subrange(a as int, b as int) =~= w@);
    true
}

/// The two texts hold the same characters.
pub fn same_text(a: &str, b: &str) -> (r: bool)
    ensures
        r == (a@ == b@),
{
    let n = a.unicode_len();
    if n != b.unicode_len() {
        return false;
    }
    let mut i: usize = 0;
    while i < n
        invariant
            n == a@.len(),
            n == b@.len(),
            i <= n,
            forall|k: int| 0 <= k < i ==> a@[k] == b@[k],
        decreases n - i,
    {
        if a.get_char(i) != b.get_char(i) {
            return false;
        }
        i += 1;
    }
    assert(a@ =~= b@);
    true
}

/// `s` has the character `c` somewhere.
pub fn text_has_char(s: &str, c: char) -> (r: bool)
    ensures
        r == s@.contains(c),
{
    let n = s.unicode_len();
    let mut i: usize = 0;
    while i < n
        invariant
            n == s@.len(),
            i <= n,
            forall|k: int| 0 <= k < i ==> s@[k] != c,
        decreases n - i,
    {
        if s.get_char(i) == c {
            assert(s@[i as int] == c);
            return true;
        }
        i += 1;
    }
    false
}

} // verus!
