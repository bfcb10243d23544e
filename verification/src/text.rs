//! Text helpers: matching without regard to case, and decimal numerals.

use vstd::prelude::*;
use vstd::string::*;

verus! {

/// The lowercase form of a text, as `str::to_lowercase` defines it.
pub uninterp spec fn lowercase(text: Seq<char>) -> Seq<char>;

/// Lowercases a text with `str::to_lowercase` and hands out its characters.
///
/// Trusted: the characters returned are taken to be the lowercase form of
/// `text`, which [`lowercase`] names. Nothing else is assumed of them.
#[verifier::external_body]
fn lowercase_chars(text: &str) -> (lowered: Vec<char>)
    ensures
        lowered@ == lowercase(text@),
{
    text.to_lowercase().chars().collect()
}

/// Whether `needle` stands in `haystack` from the position `at` on.
pub open spec fn occurs_at(needle: Seq<char>, haystack: Seq<char>, at: int) -> bool {
    0 <= at && at + needle.len() <= haystack.len() && haystack.subrange(at, at + needle.len())
        == needle
}

/// Whether `needle` stands somewhere in `haystack`. The empty text stands in
/// every text.
pub open spec fn occurs_in(needle: Seq<char>, haystack: Seq<char>) -> bool {
    exists|at: int| occurs_at(needle, haystack, at)
}

/// Whether `text` holds `query` when case is disregarded.
pub open spec fn matches_query(text: Seq<char>, query: Seq<char>) -> bool {
    occurs_in(lowercase(query), lowercase(text))
}

/// Whether `needle` stands in `haystack` from the position `at` on.
fn stands_at(haystack: &Vec<char>, needle: &Vec<char>, at: usize) -> (found: bool)
    requires
        at + needle@.len() <= haystack@.len(),
    ensures
        found == occurs_at(needle@, haystack@, at as int),
{
    let len = haystack.len();
    let mut i: usize = 0;
    while i < needle.len()
        invariant
            i <= needle@.len(),
            at + needle@.len() <= haystack@.len(),
            len == haystack@.len(),
            forall|j: int| 0 <= j < i ==> haystack@[at + j] == needle@[j],
        decreases needle.len() - i,
    {
        if haystack[at + i] != needle[i] {
            assert(haystack@.subrange(at as int, at + needle@.len())[i as int] != needle@[i as int]);
            return false;
        }
        i += 1;
    }
    assert(haystack@.subrange(at as int, at + needle@.len()) =~= needle@);
    true
}

/// Whether `needle` stands somewhere in `haystack`.
pub fn contains_chars(haystack: &Vec<char>, needle: &Vec<char>) -> (found: bool)
    ensures
        found == occurs_in(needle@, haystack@),
{
    if needle.len() > haystack.len() {
        return false;
    }
    let last = haystack.len() - needle.len();
    let mut at: usize = 0;
    while at < last
        invariant
            at <= last,
            last + needle@.len() == haystack@.len(),
            forall|earlier: int| 0 <= earlier < at ==> !occurs_at(needle@, haystack@, earlier),
        decreases last - at,
    {
        if stands_at(haystack, needle, at) {
            return true;
        }
        at += 1;
    }
    stands_at(haystack, needle, last)
}

/// Whether `text` holds the query whose lowercase form is `lowered_query`,
/// when case is disregarded.
pub fn text_matches(text: &str, lowered_query: &Vec<char>) -> (found: bool)
    ensures
        found == occurs_in(lowered_query@, lowercase(text@)),
{
    let lowered = lowercase_chars(text);
    contains_chars(&lowered, lowered_query)
}

/// The lowercase form of a query, to be held against many texts.
pub fn lowered_query(query: &str) -> (lowered: Vec<char>)
    ensures
        lowered@ == lowercase(query@),
{
    lowercase_chars(query)
}

/// The ten decimal digits, in order of value.
pub open spec fn decimal_digits() -> Seq<char> {
    "0123456789"@
}

/// The decimal numeral of `n`, without leading zeros.
pub open spec fn decimal(n: nat) -> Seq<char>
    decreases n,
{
    if n < 10 {
        seq![decimal_digits()[n as int]]
    } else {
        decimal(n / 10).push(decimal_digits()[(n % 10) as int])
    }
}

/// Writes the decimal numeral of `n`.
pub fn decimal_string(n: u64) -> (text: String)
    ensures
        text@ == decimal(n as nat),
    decreases n,
{
    let digits = "0123456789";
    proof {
        reveal_strlit("0123456789");
    }
    if n < 10 {
        let d: usize = n as usize;
        let text = digits.substring_ascii(d, d + 1).to_owned();
        assert(text@ =~= seq![decimal_digits()[n as int]]);
        text
    } else {
        let mut text = decimal_string(n / 10);
        let d: usize = (n % 10) as usize;
        text.append(digits.substring_ascii(d, d + 1));
        assert(text@ =~= decimal((n / 10) as nat).push(decimal_digits()[(n % 10) as int]));
        text
    }
}

} // verus!
