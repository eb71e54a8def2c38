//! Text helpers shared by the other modules.
//!
//! Strings are modelled by their sequence of characters. The few operations of
//! the standard library that the verifier has no specification for are called
//! through the small trusted functions of this module.

use vstd::prelude::*;

verus! {

/// The characters of an optional owned string.
pub open spec fn opt_text(s: Option<String>) -> Option<Seq<char>> {
    match s {
        Some(t) => Some(t@),
        None => None,
    }
}

/// The characters of an optional borrowed string.
pub open spec fn opt_str_text(s: Option<&str>) -> Option<Seq<char>> {
    match s {
        Some(t) => Some(t@),
        None => None,
    }
}

/// The set of texts that occur in a list of strings.
pub open spec fn text_set(list: Seq<String>) -> Set<Seq<char>> {
    Set::new(|t: Seq<char>| exists|i: int| 0 <= i < list.len() && #[trigger] list[i]@ == t)
}

/// `s` without the characters `c` that end it.
pub open spec fn without_trailing(s: Seq<char>, c: char) -> Seq<char>
    decreases s.len(),
{
    if s.len() > 0 && s.last() == c {
        without_trailing(s.drop_last(), c)
    } else {
        s
    }
}

/// Whether a character is white space: one of the twenty-five characters
/// with the Unicode property White_Space.
pub open spec fn is_white_space(c: char) -> bool {
    let code: u32 = c as u32;
    ||| 0x0009 <= code <= 0x000D
    ||| code == 0x0020
    ||| code == 0x0085
    ||| code == 0x00A0
    ||| code == 0x1680
    ||| 0x2000 <= code <= 0x200A
    ||| code == 0x2028
    ||| code == 0x2029
    ||| code == 0x202F
    ||| code == 0x205F
    ||| code == 0x3000
}

/// A text without the white space that starts it.
pub open spec fn without_leading_space(s: Seq<char>) -> Seq<char>
    decreases s.len(),
{
    if s.len() > 0 && is_white_space(s.first()) {
        without_leading_space(s.drop_first())
    } else {
        s
    }
}

/// A text without the white space that ends it.
pub open spec fn without_trailing_space(s: Seq<char>) -> Seq<char>
    decreases s.len(),
{
    if s.len() > 0 && is_white_space(s.last()) {
        without_trailing_space(s.drop_last())
    } else {
        s
    }
}

/// A text without its leading and trailing white space.
pub open spec fn trimmed(s: Seq<char>) -> Seq<char> {
    without_trailing_space(without_leading_space(s))
}

/// A text that neither starts nor ends with white space is its own trimmed
/// text; so is the empty text.
pub proof fn lemma_trimmed_keeps_bare_text(s: Seq<char>)
    requires
        s.len() == 0 || (!is_white_space(s.first()) && !is_white_space(s.last())),
    ensures
        trimmed(s) == s,
{
}

/// Trimming leaves no white space at either end, and trimming again changes
/// nothing.
pub proof fn lemma_trimmed_is_bare(s: Seq<char>)
    ensures
        trimmed(s).len() > 0 ==> !is_white_space(trimmed(s).first()) && !is_white_space(
            trimmed(s).last(),
        ),
        trimmed(trimmed(s)) == trimmed(s),
        trimmed(s).len() <= s.len(),
{
    lemma_leading_space_gone(s);
    lemma_trailing_space_gone(without_leading_space(s));
    lemma_trimmed_keeps_bare_text(trimmed(s));
}

/// What is left once leading white space is gone starts with none, is no
/// longer than the text, and ends as the text did.
proof fn lemma_leading_space_gone(s: Seq<char>)
    ensures
        without_leading_space(s).len() <= s.len(),
        without_leading_space(s).len() > 0 ==> !is_white_space(without_leading_space(s).first())
            && without_leading_space(s).last() == s.last(),
    decreases s.len(),
{
    if s.len() > 0 && is_white_space(s.first()) {
        lemma_leading_space_gone(s.drop_first());
    }
}

/// What is left once trailing white space is gone ends with none, is no
/// longer than the text, and starts as the text did.
proof fn lemma_trailing_space_gone(s: Seq<char>)
    ensures
        without_trailing_space(s).len() <= s.len(),
        without_trailing_space(s).len() > 0 ==> !is_white_space(without_trailing_space(s).last())
            && without_trailing_space(s).first() == s.first(),
    decreases s.len(),
{
    if s.len() > 0 && is_white_space(s.last()) {
        lemma_trailing_space_gone(s.drop_last());
    }
}

/// The character of a decimal digit.
pub open spec fn digit_char(d: nat) -> char {
    if d == 0 {
        '0'
    } else if d == 1 {
        '1'
    } else if d == 2 {
        '2'
    } else if d == 3 {
        '3'
    } else if d == 4 {
        '4'
    } else if d == 5 {
        '5'
    } else if d == 6 {
        '6'
    } else if d == 7 {
        '7'
    } else if d == 8 {
        '8'
    } else {
        '9'
    }
}

/// The decimal digits of a natural number, without leading zeros.
pub open spec fn digits(n: nat) -> Seq<char>
    decreases n,
{
    if n < 10 {
        seq![digit_char(n)]
    } else {
        digits(n / 10).push(digit_char(n % 10))
    }
}

/// The decimal text of an integer: a minus sign for a negative number, then
/// its digits.
pub open spec fn decimal(n: int) -> Seq<char> {
    if n < 0 {
        seq!['-'] + digits((-n) as nat)
    } else {
        digits(n as nat)
    }
}

/// Trusted: `i32::to_string` of the standard library. An integer is written
/// in decimal, with a minus sign if it is negative.
#[verifier::external_body]
pub(crate) fn int_text(n: i32) -> (text: String)
    ensures
        text@ == decimal(n as int),
{
    n.to_string()
}

/// What `str::to_lowercase` returns for a text: its lowercase equivalent
/// by the Unicode rules.
pub uninterp spec fn lowercased(s: Seq<char>) -> Seq<char>;

/// Whether a text comes before another, or is the same, when texts are
/// compared character by character by their code points and a text comes
/// before every longer text that starts with it.
pub open spec fn text_le(a: Seq<char>, b: Seq<char>) -> bool
    decreases a.len(),
{
    if a.len() == 0 {
        true
    } else if b.len() == 0 {
        false
    } else if (a[0] as u32) < (b[0] as u32) {
        true
    } else if (b[0] as u32) < (a[0] as u32) {
        false
    } else {
        text_le(a.drop_first(), b.drop_first())
    }
}

/// A text comes before itself or is the same.
pub proof fn lemma_text_le_reflexive(a: Seq<char>)
    ensures
        text_le(a, a),
    decreases a.len(),
{
    if a.len() > 0 {
        lemma_text_le_reflexive(a.drop_first());
    }
}

/// Of two texts, one comes before the other or they are the same.
pub proof fn lemma_text_le_total(a: Seq<char>, b: Seq<char>)
    ensures
        text_le(a, b) || text_le(b, a),
    decreases a.len(),
{
    if a.len() > 0 && b.len() > 0 && (a[0] as u32) == (b[0] as u32) {
        lemma_text_le_total(a.drop_first(), b.drop_first());
    }
}

/// The order of texts is transitive.
pub proof fn lemma_text_le_transitive(a: Seq<char>, b: Seq<char>, c: Seq<char>)
    requires
        text_le(a, b),
        text_le(b, c),
    ensures
        text_le(a, c),
    decreases a.len(),
{
    if a.len() > 0 && b.len() > 0 && c.len() > 0 && (a[0] as u32) == (b[0] as u32) && (b[0] as u32)
        == (c[0] as u32) {
        lemma_text_le_transitive(a.drop_first(), b.drop_first(), c.drop_first());
    }
}

/// Trusted: `str::to_lowercase` of the standard library. The result is named
/// by `lowercased`; nothing else is claimed of it.
#[verifier::external_body]
pub(crate) fn text_lowercase(s: &str) -> (lower: String)
    ensures
        lower@ == lowercased(s@),
{
    s.to_lowercase()
}

/// Trusted: `str::le` of the standard library, the operator `<=`. String
/// slices are ordered by their bytes, which orders them character by
/// character by code point.
#[verifier::external_body]
pub(crate) fn text_precedes(a: &str, b: &str) -> (before: bool)
    ensures
        before == text_le(a@, b@),
{
    a <= b
}

/// Trusted: `str::eq` of the standard library. Two string slices compare equal
/// exactly when they hold the same characters.
#[verifier::external_body]
pub(crate) fn text_eq(a: &str, b: &str) -> (same: bool)
    ensures
        same == (a@ == b@),
{
    a == b
}

/// Trusted: `str::starts_with` of the standard library, with a string pattern.
/// It answers whether the pattern's characters are a prefix of the text.
#[verifier::external_body]
pub(crate) fn text_starts_with(s: &str, prefix: &str) -> (found: bool)
    ensures
        found == prefix@.is_prefix_of(s@),
{
    s.starts_with(prefix)
}

/// Trusted: `str::trim` of the standard library. It removes leading and
/// trailing white space, which is the characters with the Unicode property
/// White_Space.
#[verifier::external_body]
pub(crate) fn text_trim(s: &str) -> (inner: &str)
    ensures
        inner@ == trimmed(s@),
{
    s.trim()
}

/// Trusted: `str::trim_end_matches` of the standard library, with a character
/// pattern. Every trailing occurrence of the character is removed.
#[verifier::external_body]
pub(crate) fn text_trim_end_matches(s: &str, c: char) -> (head: &str)
    ensures
        head@ == without_trailing(s@, c),
{
    s.trim_end_matches(c)
}

/// Whether a list of strings holds the given text.
pub fn list_has(list: &Vec<String>, s: &str) -> (found: bool)
    ensures
        found == text_set(list@).contains(s@),
{
    let mut i: usize = 0;
    while i < list.len()
        invariant
            i <= list.len(),
            forall|j: int| 0 <= j < i ==> (#[trigger] list[j])@ != s@,
        decreases list.len() - i,
    {
        if text_eq(list[i].as_str(), s) {
            return true;
        }
        i += 1;
    }
    false
}

/// Borrows the text of an optional string.
pub fn opt_as_str(s: &Option<String>) -> (r: Option<&str>)
    ensures
        opt_str_text(r) == opt_text(*s),
{
    match s {
        Some(t) => Some(t.as_str()),
        None => None,
    }
}

/// A set without members.
pub open spec fn no_members<A>(s: Set<A>) -> bool {
    forall|a: A| !s.contains(a)
}

/// A list of strings holds no text exactly when it is empty.
pub proof fn lemma_text_set_empty(list: Seq<String>)
    ensures
        no_members(text_set(list)) <==> list.len() == 0,
{
    if list.len() > 0 {
        assert(text_set(list).contains(list[0]@));
    }
}

} // verus!
