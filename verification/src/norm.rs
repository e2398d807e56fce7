//! Tag normalization: the service only accepts tag keys and values made of
//! lower-case ASCII letters and dashes, so arbitrary caller input is
//! sanitized before it is stored.  The rule: every character that is not an
//! ASCII letter, ASCII whitespace or a dash is removed; every remaining run
//! of whitespace becomes a single dash; letters are lower-cased.

use vstd::prelude::*;
use vstd::string::StrSliceExecFns;

use crate::text::string_from_chars;

verus! {

/// An ASCII letter.
pub open spec fn is_ascii_letter(c: char) -> bool {
    ('a' <= c && c <= 'z') || ('A' <= c && c <= 'Z')
}

/// An ASCII whitespace character: the characters the normalizer collapses
/// into dashes.
pub open spec fn is_ascii_space(c: char) -> bool {
    c == ' ' || c == '\t' || c == '\n' || c == '\r' || c == '\u{b}' || c == '\u{c}'
}

/// The lower-case form of an ASCII upper-case letter; any other character
/// is returned unchanged.
pub open spec fn to_lower(c: char) -> char {
    if 'A' <= c && c <= 'Z' {
        ((c as u32 + 32) as u8) as char
    } else {
        c
    }
}

/// The normal form of the suffix `s`, where `prev_space` records whether
/// the character kept immediately before this suffix was whitespace (so a
/// further whitespace character extends that run and emits nothing).
pub open spec fn norm_rec(s: Seq<char>, prev_space: bool) -> Seq<char>
    decreases s.len(),
{
    if s.len() == 0 {
        Seq::<char>::empty()
    } else {
        let c = s[0];
        let rest = s.drop_first();
        if is_ascii_letter(c) {
            seq![to_lower(c)] + norm_rec(rest, false)
        } else if c == '-' {
            seq!['-'] + norm_rec(rest, false)
        } else if is_ascii_space(c) {
            if prev_space {
                norm_rec(rest, true)
            } else {
                seq!['-'] + norm_rec(rest, true)
            }
        } else {
            norm_rec(rest, prev_space)
        }
    }
}

/// The normal form of a whole string.
pub open spec fn norm_seq(s: Seq<char>) -> Seq<char> {
    norm_rec(s, false)
}

/// A character that normalization can produce: a lower-case ASCII letter
/// or a dash.
pub open spec fn is_normal_char(c: char) -> bool {
    ('a' <= c && c <= 'z') || c == '-'
}

/// A string made only of lower-case ASCII letters and dashes.
pub open spec fn is_normal_seq(s: Seq<char>) -> bool {
    forall|i: int| 0 <= i < s.len() ==> is_normal_char(s[i])
}

proof fn lemma_norm_rec_charset(s: Seq<char>, prev_space: bool)
    ensures
        is_normal_seq(norm_rec(s, prev_space)),
    decreases s.len(),
{
    if s.len() == 0 {
    } else {
        let c = s[0];
        let rest = s.drop_first();
        lemma_norm_rec_charset(rest, false);
        lemma_norm_rec_charset(rest, true);
        lemma_norm_rec_charset(rest, prev_space);
        if is_ascii_letter(c) {
            assert(is_normal_char(to_lower(c)));
            assert(norm_rec(s, prev_space) == seq![to_lower(c)] + norm_rec(rest, false));
            assert forall|i: int| 0 <= i < norm_rec(s, prev_space).len() implies is_normal_char(
                norm_rec(s, prev_space)[i],
            ) by {
                if i > 0 {
                    assert(norm_rec(s, prev_space)[i] == norm_rec(rest, false)[i - 1]);
                }
            }
        } else if c == '-' || (is_ascii_space(c) && !prev_space) {
            let next = if c == '-' { false } else { true };
            assert(norm_rec(s, prev_space) == seq!['-'] + norm_rec(rest, next));
            assert forall|i: int| 0 <= i < norm_rec(s, prev_space).len() implies is_normal_char(
                norm_rec(s, prev_space)[i],
            ) by {
                if i > 0 {
                    assert(norm_rec(s, prev_space)[i] == norm_rec(rest, next)[i - 1]);
                }
            }
        }
    }
}

/// Law: for every input, the normal form is a string containing only
/// lower-case ASCII letters and dashes — digits, punctuation other than
/// the dash, and upper-case letters never survive normalization.
pub proof fn lemma_normalized_charset(s: Seq<char>)
    ensures
        is_normal_seq(norm_seq(s)),
{
    lemma_norm_rec_charset(s, false);
}

fn lower_char(c: char) -> (r: char)
    ensures
        r == to_lower(c),
{
    if 'A' <= c && c <= 'Z' {
        (c as u32 + 32) as u8 as char
    } else {
        c
    }
}

/// Computes the normal form of one string.
fn normalize_str(s: &str) -> (r: String)
    ensures
        r@ == norm_seq(s@),
{
    let n = s.unicode_len();
    let mut out: Vec<char> = Vec::new();
    let mut prev: bool = false;
    let mut i: usize = 0;
    proof {
        assert(s@.subrange(0, n as int) =~= s@);
    }
    while i < n
        invariant
            n == s@.len(),
            i <= n,
            norm_seq(s@) == out@ + norm_rec(s@.subrange(i as int, n as int), prev),
        decreases n - i,
    {
        let c = s.get_char(i);
        proof {
            let suffix = s@.subrange(i as int, n as int);
            assert(suffix.len() > 0);
            assert(suffix[0] == s@[i as int]);
            assert(suffix.drop_first() =~= s@.subrange(i + 1 as int, n as int));
        }
        if ('a' <= c && c <= 'z') || ('A' <= c && c <= 'Z') {
            out.push(lower_char(c));
            prev = false;
        } else if c == '-' {
            out.push('-');
            prev = false;
        } else if c == ' ' || c == '\t' || c == '\n' || c == '\r' || c == '\u{b}' || c == '\u{c}' {
            if !prev {
                out.push('-');
            }
            prev = true;
        }
        i = i + 1;
    }
    proof {
        assert(s@.subrange(n as int, n as int) =~= Seq::<char>::empty());
    }
    string_from_chars(&out)
}

/// Normalizes a tag key and a tag value, applying the same rule to both.
pub fn normalize(key: &str, value: &str) -> (r: (String, String))
    ensures
        r.0@ == norm_seq(key@),
        r.1@ == norm_seq(value@),
{
    (normalize_str(key), normalize_str(value))
}

} // verus!
