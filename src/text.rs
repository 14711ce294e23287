//! Normalization of typed words: whitespace, case, and the letters of a word.
use vstd::prelude::*;
use crate::scoring::{is_letter, is_word_bytes, WORD_LEN};

verus! {

/// A character with Unicode's White_Space property.
pub open spec fn is_white_space(c: char) -> bool {
    ('\u{9}' <= c <= '\u{d}') || c == ' ' || c == '\u{85}' || c == '\u{a0}' || c == '\u{1680}'
        || ('\u{2000}' <= c <= '\u{200a}') || c == '\u{2028}' || c == '\u{2029}' || c
        == '\u{202f}' || c == '\u{205f}' || c == '\u{3000}'
}

/// `s` without its leading white space.
pub open spec fn trim_start(s: Seq<char>) -> Seq<char>
    decreases s.len(),
{
    if s.len() > 0 && is_white_space(s[0]) {
        trim_start(s.drop_first())
    } else {
        s
    }
}

/// `s` without its trailing white space.
pub open spec fn trim_end(s: Seq<char>) -> Seq<char>
    decreases s.len(),
{
    if s.len() > 0 && is_white_space(s.last()) {
        trim_end(s.drop_last())
    } else {
        s
    }
}

/// `s` without leading and trailing white space.
pub open spec fn trimmed(s: Seq<char>) -> Seq<char> {
    trim_end(trim_start(s))
}

/// What `str::to_uppercase` makes of a string.
pub uninterp spec fn upper_of(s: Seq<char>) -> Seq<char>;

/// The normal form of a typed word: trimmed, then uppercased.
pub open spec fn normalized(s: Seq<char>) -> Seq<char> {
    upper_of(trimmed(s))
}

/// An uppercase ASCII letter.
pub open spec fn is_letter_char(c: char) -> bool {
    'A' <= c <= 'Z'
}

/// Five uppercase ASCII letters.
pub open spec fn is_word(s: Seq<char>) -> bool {
    s.len() == WORD_LEN && forall|i: int| 0 <= i < s.len() ==> is_letter_char(#[trigger] s[i])
}

/// The bytes of a word of ASCII letters.
pub open spec fn word_bytes(s: Seq<char>) -> Seq<u8> {
    s.map_values(|c: char| c as u8)
}

/// The bytes of a word of five uppercase letters are five letter bytes.
pub proof fn lemma_word_bytes(s: Seq<char>)
    requires
        is_word(s),
    ensures
        is_word_bytes(word_bytes(s)),
{
}

/// Relies on `str::trim`: removes leading and trailing White_Space characters.
#[verifier::external_body]
pub(crate) fn trim(s: &str) -> (r: &str)
    ensures
        r@ == trimmed(s@),
{
    s.trim()
}

/// A string of ASCII characters.
pub open spec fn is_ascii_text(s: Seq<char>) -> bool {
    forall|i: int| 0 <= i < s.len() ==> (#[trigger] s[i] as u32) < 128
}

/// `u` is the ASCII uppercase form of `c`: a lowercase letter becomes its
/// capital, any other character stays as it is.
pub open spec fn is_ascii_upper_of(c: char, u: char) -> bool {
    if 'a' <= c <= 'z' {
        u as u32 == c as u32 - 32
    } else {
        u == c
    }
}

/// Relies on `str::to_uppercase`: the result depends on the characters alone;
/// on ASCII text it capitalizes the lowercase letters one by one and keeps
/// every other character.
#[verifier::external_body]
pub(crate) fn to_upper(s: &str) -> (r: String)
    ensures
        r@ == upper_of(s@),
        is_ascii_text(s@) ==> r@.len() == s@.len() && forall|i: int|
            0 <= i < s@.len() ==> is_ascii_upper_of(s@[i], #[trigger] r@[i]),
{
    s.to_uppercase()
}

/// Relies on `String::push`: appends one character.
#[verifier::external_body]
pub(crate) fn push_char(s: &mut String, c: char)
    ensures
        final(s)@ == old(s)@.push(c),
{
    s.push(c)
}

/// Normalizes a typed word: trims white space, then uppercases.
pub fn normalize(s: &str) -> (r: String)
    ensures
        r@ == normalized(s@),
        is_ascii_text(trimmed(s@)) ==> r@.len() == trimmed(s@).len() && forall|i: int|
            0 <= i < r@.len() ==> is_ascii_upper_of(trimmed(s@)[i], #[trigger] r@[i]),
{
    to_upper(trim(s))
}

/// The characters of `s`.
pub fn chars_of(s: &str) -> (r: Vec<char>)
    ensures
        r@ == s@,
{
    let mut r: Vec<char> = Vec::new();
    for c in it: s.chars()
        invariant
            r@ == it.seq().take(it.index() as int),
            it.seq() == s@,
    {
        r.push(c);
    }
    r
}

/// The letters of `s` as bytes when `s` is a word of five uppercase ASCII
/// letters; `None` otherwise.
pub fn word_letters(s: &str) -> (r: Option<[u8; 5]>)
    ensures
        r is Some <==> is_word(s@),
        r matches Some(b) ==> b@ == word_bytes(s@) && is_word_bytes(b@),
{
    let cs = chars_of(s);
    if cs.len() != WORD_LEN {
        return None;
    }
    let mut b: [u8; 5] = [0u8; 5];
    for i in 0..WORD_LEN
        invariant
            cs@ == s@,
            cs.len() == WORD_LEN,
            forall|j: int| 0 <= j < i ==> is_letter_char(#[trigger] cs@[j]),
            forall|j: int| 0 <= j < i ==> b[j] == cs@[j] as u8 && is_letter(b[j]),
    {
        let c = cs[i];
        if !('A' <= c && c <= 'Z') {
            return None;
        }
        b[i] = c as u8;
    }
    assert(b@ =~= word_bytes(s@));
    Some(b)
}

/// The number of characters of `s`.
pub fn char_count(s: &str) -> (n: usize)
    ensures
        n == s@.len(),
{
    chars_of(s).len()
}

} // verus!
