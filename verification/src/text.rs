//! Text handling shared by the classifiers: substring search over the
//! characters of a string, and the two std string operations the library
//! relies on without proof.

use vstd::prelude::*;

verus! {

/// `pattern` stands in `text` at position `at`.
pub open spec fn occurs_at(text: Seq<char>, pattern: Seq<char>, at: int) -> bool {
    &&& 0 <= at
    &&& at + pattern.len() <= text.len()
    &&& text.subrange(at, at + pattern.len()) =~= pattern
}

/// `pattern` stands somewhere in `text`.
pub open spec fn contains(text: Seq<char>, pattern: Seq<char>) -> bool {
    exists|at: int| occurs_at(text, pattern, at)
}

/// The lowercase form of a string as `str::to_lowercase` produces it.
pub uninterp spec fn lowercase_of(s: Seq<char>) -> Seq<char>;

/// A string without its leading and trailing whitespace, as `str::trim`
/// produces it.
pub uninterp spec fn trimmed_of(s: Seq<char>) -> Seq<char>;

/// Trusted: calls `str::to_lowercase`, which maps every character by the
/// Unicode lowercase rules. The contract only names the result; it depends
/// on the characters of `s` and nothing else.
#[verifier::external_body]
pub(crate) fn lowercase(s: &str) -> (lower: String)
    ensures
        lower@ == lowercase_of(s@),
{
    s.to_lowercase()
}

/// Trusted: calls `str::trim`, which drops leading and trailing Unicode
/// whitespace. The contract only names the result; it depends on the
/// characters of `s` and nothing else.
#[verifier::external_body]
pub(crate) fn trim<'a>(s: &'a str) -> (trimmed: &'a str)
    ensures
        trimmed@ == trimmed_of(s@),
{
    s.trim()
}

/// The characters of `s`, in order.
pub fn to_chars(s: &str) -> (chars: Vec<char>)
    ensures
        chars@ == s@,
{
    let mut chars: Vec<char> = Vec::new();
    for c in it: s.chars()
        invariant
            chars@ == it.seq().take(it.index()),
    {
        chars.push(c);
    }
    chars
}

/// Whether two strings hold the same characters.
pub fn same_text(a: &str, b: &str) -> (same: bool)
    ensures
        same == (a@ == b@),
{
    let left: Vec<char> = to_chars(a);
    let right: Vec<char> = to_chars(b);
    if left.len() != right.len() {
        return false;
    }
    let mut i: usize = 0;
    while i < left.len()
        invariant
            i <= left.len(),
            left.len() == right.len(),
            left@ == a@,
            right@ == b@,
            forall|k: int| 0 <= k < i ==> left@[k] == right@[k],
        decreases left.len() - i,
    {
        if left[i] != right[i] {
            assert(left@[i as int] != right@[i as int]);
            return false;
        }
        i += 1;
    }
    assert(left@ =~= right@);
    true
}

/// Whether `pattern` stands in `text` at index `at`.
fn matches_at(text: &[char], pattern: &[char], at: usize) -> (found: bool)
    requires
        at + pattern.len() <= text.len(),
    ensures
        found == occurs_at(text@, pattern@, at as int),
{
    let mut j: usize = 0;
    while j < pattern.len()
        invariant
            j <= pattern.len(),
            at + pattern.len() <= text.len(),
            forall|k: int| 0 <= k < j ==> text@[at + k] == pattern@[k],
        decreases pattern.len() - j,
    {
        if text[at + j] != pattern[j] {
            assert(text@.subrange(at as int, at + pattern.len())[j as int] == text@[at + j]);
            return false;
        }
        j += 1;
    }
    assert(text@.subrange(at as int, at + pattern.len()) =~= pattern@);
    true
}

/// Whether `pattern` stands somewhere in `text`. The empty pattern stands in
/// every text.
pub fn contains_chars(text: &[char], pattern: &[char]) -> (found: bool)
    ensures
        found == contains(text@, pattern@),
{
    if pattern.len() > text.len() {
        return false;
    }
    let last: usize = text.len() - pattern.len();
    let mut at: usize = 0;
    loop
        invariant
            last == text.len() - pattern.len(),
            at <= last,
            forall|k: int| 0 <= k < at ==> !occurs_at(text@, pattern@, k),
        decreases last - at,
    {
        if matches_at(text, pattern, at) {
            return true;
        }
        if at == last {
            return false;
        }
        at += 1;
    }
}

/// Whether the characters of `pattern` stand somewhere in `text`.
pub fn contains_str(text: &str, pattern: &str) -> (found: bool)
    ensures
        found == contains(text@, pattern@),
{
    let text_chars: Vec<char> = to_chars(text);
    let pattern_chars: Vec<char> = to_chars(pattern);
    contains_chars(text_chars.as_slice(), pattern_chars.as_slice())
}

} // verus!
