//! Characters and strings as the generator reads them: the ASCII classes that
//! split and re-case a name, and the few operations of `char`, `str` and
//! `String` that the rest of the crate is built on. Three of them are taken
//! from the standard library on trust: whether a character is a letter by
//! Unicode, putting a character at the end of a string, and `==` on `str`.

use vstd::prelude::*;
use vstd::seq_lib::lemma_seq_contains_after_push;
use vstd::string::*;

verus! {

/// `A` to `Z`.
pub open spec fn is_ascii_upper(c: char) -> bool {
    'A' <= c && c <= 'Z'
}

/// `a` to `z`.
pub open spec fn is_ascii_lower(c: char) -> bool {
    'a' <= c && c <= 'z'
}

/// An ASCII letter of either case.
pub open spec fn is_ascii_letter(c: char) -> bool {
    is_ascii_upper(c) || is_ascii_lower(c)
}

/// `0` to `9`.
pub open spec fn is_ascii_digit(c: char) -> bool {
    '0' <= c && c <= '9'
}

/// An ASCII letter or digit.
pub open spec fn is_ascii_alnum(c: char) -> bool {
    is_ascii_letter(c) || is_ascii_digit(c)
}

/// `c` with an ASCII small letter turned into its capital; any other character as it is.
pub open spec fn ascii_upper(c: char) -> char {
    if is_ascii_lower(c) {
        ((c as int) - 32) as char
    } else {
        c
    }
}

/// `c` with an ASCII capital turned into its small letter; any other character as it is.
pub open spec fn ascii_lower(c: char) -> char {
    if is_ascii_upper(c) {
        ((c as int) + 32) as char
    } else {
        c
    }
}

/// Whether the Unicode character database gives `c` the property `Alphabetic`.
/// The tables are those of the standard library; this crate reads them only
/// through `char::is_alphabetic` and only for characters beyond ASCII.
pub uninterp spec fn unicode_alphabetic(c: char) -> bool;

/// Whether `c` is a letter. Within ASCII the letters are `A` to `Z` and `a` to
/// `z`; beyond it the Unicode tables decide.
pub open spec fn is_letter(c: char) -> bool {
    if c <= '\x7f' {
        is_ascii_letter(c)
    } else {
        unicode_alphabetic(c)
    }
}

/// `char::is_alphabetic`: whether the character has the Unicode property
/// `Alphabetic`. The character database lists no ASCII character under that
/// property but the fifty-two letters, which is all that is claimed here of
/// ASCII; of any other character the result is only given its name.
pub assume_specification[ char::is_alphabetic ](c: char) -> (b: bool)
    ensures
        b == (if c <= '\x7f' {
            is_ascii_letter(c)
        } else {
            unicode_alphabetic(c)
        }),
;

/// `String::push`: the character is put at the end of the string.
pub assume_specification[ String::push ](s: &mut String, c: char)
    ensures
        final(s)@ == old(s)@.push(c),
;

/// `==` on `str`: two string slices are equal when they hold the same characters.
pub assume_specification[ <str as PartialEq>::eq ](a: &str, b: &str) -> (same: bool)
    ensures
        same == (a@ == b@),
;

/// Whether `c` is an ASCII capital.
pub(crate) fn is_capital(c: char) -> (b: bool)
    ensures
        b == is_ascii_upper(c),
{
    'A' <= c && c <= 'Z'
}

/// Whether `c` is an ASCII letter.
pub(crate) fn is_plain_letter(c: char) -> (b: bool)
    ensures
        b == is_ascii_letter(c),
{
    ('A' <= c && c <= 'Z') || ('a' <= c && c <= 'z')
}

/// Whether `c` is an ASCII letter or digit.
pub(crate) fn is_letter_or_digit(c: char) -> (b: bool)
    ensures
        b == is_ascii_alnum(c),
{
    ('A' <= c && c <= 'Z') || ('a' <= c && c <= 'z') || ('0' <= c && c <= '9')
}

/// `c` as a capital, where it is an ASCII small letter.
pub(crate) fn to_capital(c: char) -> (u: char)
    ensures
        u == ascii_upper(c),
{
    if 'a' <= c && c <= 'z' {
        ((c as u8) - 32) as char
    } else {
        c
    }
}

/// `c` as a small letter, where it is an ASCII capital.
pub(crate) fn to_small(c: char) -> (l: char)
    ensures
        l == ascii_lower(c),
{
    if 'A' <= c && c <= 'Z' {
        ((c as u8) + 32) as char
    } else {
        c
    }
}

/// Whether two string slices hold the same text.
pub(crate) fn same_text(a: &str, b: &str) -> (same: bool)
    ensures
        same == (a@ == b@),
{
    *a == *b
}

/// Whether `c` occurs in `s`.
pub(crate) fn contains_char(s: &str, c: char) -> (found: bool)
    ensures
        found == s@.contains(c),
{
    let mut found = false;
    for x in it: s.chars()
        invariant
            it.seq() == s@,
            found == s@.take(it.index()).contains(c),
    {
        proof {
            let k = it.index();
            assert(s@.take(k + 1) =~= s@.take(k).push(x));
            lemma_seq_contains_after_push(s@.take(k), x, c);
        }
        if x == c {
            found = true;
        }
    }
    assert(s@.take(s@.len() as int) =~= s@);
    found
}

/// The first character of `s`, if it has one.
pub(crate) fn first_char(s: &str) -> (first: Option<char>)
    ensures
        first == (if s@.len() == 0 {
            None
        } else {
            Some(s@[0])
        }),
{
    if s.is_empty() {
        None
    } else {
        Some(s.get_char(0))
    }
}

/// What follows `marker` in `s`, when `s` begins with `marker`.
pub(crate) fn strip_marker<'a>(s: &'a str, marker: &str) -> (rest: Option<&'a str>)
    ensures
        rest is Some <==> marker@.is_prefix_of(s@),
        rest matches Some(tail) ==> tail@ == s@.skip(marker@.len() as int),
{
    let n = marker.unicode_len();
    let m = s.unicode_len();
    if m < n {
        return None;
    }
    let mut i: usize = 0;
    while i < n
        invariant
            i <= n,
            n == marker@.len(),
            m == s@.len(),
            n <= m,
            forall|j: int| 0 <= j < i ==> s@[j] == marker@[j],
        decreases n - i,
    {
        if s.get_char(i) != marker.get_char(i) {
            assert(s@.subrange(0, n as int)[i as int] != marker@[i as int]);
            return None;
        }
        i = i + 1;
    }
    assert(marker@ =~= s@.subrange(0, n as int));
    assert(s@.subrange(n as int, m as int) =~= s@.skip(n as int));
    Some(s.substring_char(n, m))
}

} // verus!
