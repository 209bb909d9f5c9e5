//! Text helpers over character sequences: white space, trimming, prefixes
//! and the search for a line feed.
//!
//! Positions are counted in characters, so every contract is stated over the
//! `Seq<char>` view of a string.

use vstd::prelude::*;
use vstd::std_specs::iter::IteratorSpec;

verus! {

/// The line feed that ends a line.
pub open spec fn line_feed() -> char {
    '\n'
}

/// Whether `c` has the Unicode property `White_Space`.
pub open spec fn is_whitespace_char(c: char) -> bool {
    let code = c as u32;
    ||| 0x09 <= code <= 0x0D
    ||| code == 0x20
    ||| code == 0x85
    ||| code == 0xA0
    ||| code == 0x1680
    ||| 0x2000 <= code <= 0x200A
    ||| code == 0x2028
    ||| code == 0x2029
    ||| code == 0x202F
    ||| code == 0x205F
    ||| code == 0x3000
}

/// `text` without its leading white space.
pub open spec fn trim_start_of(text: Seq<char>) -> Seq<char>
    decreases text.len(),
{
    if text.len() > 0 && is_whitespace_char(text.first()) {
        trim_start_of(text.drop_first())
    } else {
        text
    }
}

/// `text` without its trailing white space.
pub open spec fn trim_end_of(text: Seq<char>) -> Seq<char>
    decreases text.len(),
{
    if text.len() > 0 && is_whitespace_char(text.last()) {
        trim_end_of(text.drop_last())
    } else {
        text
    }
}

/// `text` without its leading and trailing white space.
pub open spec fn trimmed(text: Seq<char>) -> Seq<char> {
    trim_end_of(trim_start_of(text))
}

/// Tests a character for white space.
pub fn is_whitespace(c: char) -> (answer: bool)
    ensures
        answer == is_whitespace_char(c),
{
    let code: u32 = c as u32;
    (0x09 <= code && code <= 0x0D) || code == 0x20 || code == 0x85 || code == 0xA0 || code
        == 0x1680 || (0x2000 <= code && code <= 0x200A) || code == 0x2028 || code == 0x2029 || code
        == 0x202F || code == 0x205F || code == 0x3000
}

/// Returns `text` without its leading and trailing white space.
pub fn trim(text: &str) -> (inner: &str)
    ensures
        inner@ == trimmed(text@),
{
    let n = text.unicode_len();
    let mut chars = text.chars();
    let mut start: usize = 0;
    assert(text@.skip(0) =~= text@);
    loop
        invariant_except_break
            n == text@.len(),
            start <= n,
            chars.remaining() == text@.skip(start as int),
            trim_start_of(text@) == trim_start_of(text@.skip(start as int)),
        ensures
            n == text@.len(),
            start < n,
            chars.remaining() == text@.skip(start + 1),
            !is_whitespace_char(text@[start as int]),
            trim_start_of(text@) == text@.skip(start as int),
        decreases n - start,
    {
        match chars.next() {
            None => {
                return text.substring_char(0, 0);
            },
            Some(c) => {
                if !is_whitespace(c) {
                    break ;
                }
                assert(text@.skip(start as int).drop_first() =~= text@.skip(start + 1));
                start = start + 1;
            },
        }
    }
    let ghost body = text@.skip(start as int);
    let mut end: usize = start + 1;
    let mut i: usize = start + 1;
    assert(body.take(1).last() == text@[start as int]);
    loop
        invariant
            n == text@.len(),
            body == text@.skip(start as int),
            body == trim_start_of(text@),
            start < end <= i <= n,
            chars.remaining() == text@.skip(i as int),
            trim_end_of(body.take(i - start)) == body.take(end - start),
        decreases n - i,
    {
        match chars.next() {
            None => {
                assert(body.take(i - start) =~= body);
                assert(body.take(end - start) =~= text@.subrange(start as int, end as int));
                return text.substring_char(start, end);
            },
            Some(c) => {
                assert(body.take(i + 1 - start).drop_last() =~= body.take(i - start));
                if !is_whitespace(c) {
                    end = i + 1;
                }
                i = i + 1;
            },
        }
    }
}

/// Returns what follows `prefix` in `text`, or `None` where `text` does not
/// start with `prefix`.
pub fn strip_prefix<'a>(text: &'a str, prefix: &str) -> (rest: Option<&'a str>)
    ensures
        match rest {
            Some(tail) => prefix@.is_prefix_of(text@) && tail@ == text@.skip(prefix@.len() as int),
            None => !prefix@.is_prefix_of(text@),
        },
{
    let n = text.unicode_len();
    let m = prefix.unicode_len();
    if m > n {
        return None;
    }
    let mut ours = text.chars();
    let mut theirs = prefix.chars();
    let mut i: usize = 0;
    while i < m
        invariant
            n == text@.len(),
            m == prefix@.len(),
            i <= m <= n,
            ours.remaining() == text@.skip(i as int),
            theirs.remaining() == prefix@.skip(i as int),
            forall|j: int| 0 <= j < i ==> text@[j] == prefix@[j],
        decreases m - i,
    {
        match (ours.next(), theirs.next()) {
            (Some(a), Some(b)) => {
                if a != b {
                    assert(text@.subrange(0, m as int)[i as int] != prefix@[i as int]);
                    return None;
                }
            },
            _ => {
                return None;
            },
        }
        i = i + 1;
    }
    assert(prefix@ =~= text@.subrange(0, m as int));
    Some(text.substring_char(m, n))
}

/// Finds the first line feed of `text`, counted in characters.
pub fn find_newline(text: &str) -> (found: Option<usize>)
    ensures
        match found {
            Some(at) => text@.index_of_first(line_feed()) == Some(at as int),
            None => text@.index_of_first(line_feed()) is None,
        },
{
    let n = text.unicode_len();
    let mut chars = text.chars();
    let mut i: usize = 0;
    loop
        invariant
            n == text@.len(),
            i <= n,
            chars.remaining() == text@.skip(i as int),
            forall|j: int| 0 <= j < i ==> text@[j] != line_feed(),
        decreases n - i,
    {
        match chars.next() {
            None => {
                proof {
                    text@.index_of_first_ensures(line_feed());
                }
                return None;
            },
            Some(c) => {
                if c == '\n' {
                    proof {
                        text@.index_of_first_ensures(line_feed());
                    }
                    return Some(i);
                }
                i = i + 1;
            },
        }
    }
}

} // verus!
