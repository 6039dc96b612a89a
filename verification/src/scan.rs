//! The matchers that decide the grammars on ASCII bytes, one pass each.

use vstd::prelude::*;
use vstd::string::{is_ascii_spec_bytes, StringSliceAdditionalSpecFns};
use vstd::utf8::is_ascii_chars;
use crate::grammar::{
    did_parts, is_alphanumeric, is_did_char, is_did_syntax, is_digit, is_dotted, is_lower,
    is_plc_identifier, is_upper, is_web_identifier, lemma_did_syntax_start, lemma_split_at,
    lemma_split_found, lemma_web_identifier_shape, splits_at,
};

verus! {

/// `.`
const DOT: u8 = 46;

/// `-`
const HYPHEN: u8 = 45;

/// `_`
const UNDERSCORE: u8 = 95;

/// `:`
const COLON: u8 = 58;

/// `%`
const PERCENT: u8 = 37;

/// `d`
const LETTER_D: u8 = 100;

/// `i`
const LETTER_I: u8 = 105;

/// The characters that bytes are read as, each byte one character.
pub open spec fn as_chars(bytes: Seq<u8>) -> Seq<char> {
    Seq::new(bytes.len(), |i: int| bytes[i] as char)
}

/// The bytes of ASCII text, each of them one character of it; nothing for
/// text that holds any other character.
pub fn ascii_text(s: &str) -> (r: Option<&[u8]>)
    ensures
        match r {
            Some(text) => is_ascii_chars(s@) && as_chars(text@) == s@,
            None => !is_ascii_chars(s@),
        },
{
    if s.is_ascii() {
        let text = s.as_bytes();
        proof {
            is_ascii_spec_bytes(s);
        }
        Some(text)
    } else {
        None
    }
}

fn lower_byte(b: u8) -> (r: bool)
    ensures
        r == is_lower(b as char),
{
    let c: char = b as char;
    'a' <= c && c <= 'z'
}

fn upper_byte(b: u8) -> (r: bool)
    ensures
        r == is_upper(b as char),
{
    let c: char = b as char;
    'A' <= c && c <= 'Z'
}

fn digit_byte(b: u8) -> (r: bool)
    ensures
        r == is_digit(b as char),
{
    let c: char = b as char;
    '0' <= c && c <= '9'
}

fn alphanumeric_byte(b: u8) -> (r: bool)
    ensures
        r == is_alphanumeric(b as char),
{
    lower_byte(b) || upper_byte(b) || digit_byte(b)
}

/// Decides the PLC grammar on ASCII text.
pub fn plc_identifier_matches(text: &[u8]) -> (r: bool)
    ensures
        r == is_plc_identifier(as_chars(text@)),
{
    if text.len() == 0 {
        return false;
    }
    let mut i: usize = 0;
    while i < text.len()
        invariant
            i <= text.len(),
            forall|j: int|
                0 <= j < i ==> is_lower(#[trigger] as_chars(text@)[j]) || is_digit(
                    as_chars(text@)[j],
                ),
        decreases text.len() - i,
    {
        if !(lower_byte(text[i]) || digit_byte(text[i])) {
            assert(!is_lower(as_chars(text@)[i as int]) && !is_digit(as_chars(text@)[i as int]));
            return false;
        }
        i += 1;
    }
    true
}

/// Decides the Web grammar on ASCII text.
pub fn web_identifier_matches(text: &[u8]) -> (r: bool)
    ensures
        r == is_web_identifier(as_chars(text@)),
{
    let ghost s = as_chars(text@);
    proof {
        lemma_web_identifier_shape(s);
    }
    let n = text.len();
    if n == 0 || !alphanumeric_byte(text[0]) || !alphanumeric_byte(text[n - 1]) {
        return false;
    }
    let mut seen_dot = false;
    let mut i: usize = 1;
    while i < n
        invariant
            1 <= i <= n,
            n == text.len(),
            s == as_chars(text@),
            is_alphanumeric(s.first()),
            is_alphanumeric(s.last()),
            forall|j: int|
                0 <= j < i ==> is_alphanumeric(#[trigger] s[j]) || s[j] == '-' || s[j] == '.',
            forall|j: int|
                0 < j < i && j < n - 1 && #[trigger] s[j] == '.' ==> is_alphanumeric(s[j - 1])
                    && is_alphanumeric(s[j + 1]),
            seen_dot <==> exists|j: int| 0 <= j < i && s[j] == '.',
            is_web_identifier(s) <==> is_dotted(s) && s.contains('.'),
        decreases n - i,
    {
        let b = text[i];
        if b == DOT {
            assert(s[i as int] == '.');
            if i + 1 < n {
                if !alphanumeric_byte(text[i - 1]) || !alphanumeric_byte(text[i + 1]) {
                    return false;
                }
            }
            seen_dot = true;
        } else if !(alphanumeric_byte(b) || b == HYPHEN) {
            assert(s[i as int] != '-');
            return false;
        }
        i += 1;
    }
    seen_dot
}

fn did_byte(b: u8) -> (r: bool)
    ensures
        r == is_did_char(b as char),
{
    alphanumeric_byte(b) || b == DOT || b == UNDERSCORE || b == COLON || b == PERCENT || b
        == HYPHEN
}

/// Finds the colon that ends the method name of a DID given as ASCII text,
/// or finds that the text is not of the DID syntax.
pub fn split_did(text: &[u8]) -> (r: Option<usize>)
    ensures
        match r {
            Some(k) => {
                &&& 4 < k < text.len() - 1
                &&& is_did_syntax(as_chars(text@))
                &&& did_parts(as_chars(text@)) == (
                    as_chars(text@).subrange(4, k as int),
                    as_chars(text@).subrange(k + 1, text.len() as int),
                )
            },
            None => !is_did_syntax(as_chars(text@)),
        },
{
    let ghost s = as_chars(text@);
    let n = text.len();
    if n < 7 || text[0] != LETTER_D || text[1] != LETTER_I || text[2] != LETTER_D || text[3]
        != COLON {
        proof {
            if is_did_syntax(s) {
                lemma_did_syntax_start(s);
                assert(s[0] == text[0] as char && s[1] == text[1] as char);
                assert(s[2] == text[2] as char && s[3] == text[3] as char);
            }
        }
        return None;
    }
    let mut k: usize = 4;
    while k < n && lower_byte(text[k])
        invariant
            4 <= k <= n,
            n == text.len(),
            s == as_chars(text@),
            forall|i: int| 4 <= i < k ==> is_lower(#[trigger] s[i]),
        decreases n - k,
    {
        k += 1;
    }
    proof {
        if is_did_syntax(s) {
            assert(k < n ==> s[k as int] == text[k as int] as char);
            lemma_split_found(s, k as int);
        }
    }
    if k == 4 || k >= n - 1 {
        return None;
    }
    assert(s[k as int] == text[k as int] as char && s.last() == text[n - 1] as char);
    if text[k] != COLON || text[n - 1] == COLON {
        return None;
    }
    let mut i: usize = k + 1;
    while i < n
        invariant
            k < i <= n,
            n == text.len(),
            s == as_chars(text@),
            is_did_syntax(s) ==> splits_at(s, k as int),
            forall|j: int| k < j < i ==> is_did_char(#[trigger] s[j]),
        decreases n - i,
    {
        if !did_byte(text[i]) {
            assert(!is_did_char(s[i as int]));
            return None;
        }
        i += 1;
    }
    proof {
        assert(s[0] == text[0] as char && s[1] == text[1] as char);
        assert(s[2] == text[2] as char && s[3] == text[3] as char);
        lemma_split_at(s, k as int);
    }
    Some(k)
}

} // verus!
