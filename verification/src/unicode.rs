//! Unicode services that the protocol and the guess rules take from outside
//! crates and from the standard library's Unicode tables.

use vstd::prelude::*;

verus! {

/// Number of extended grapheme clusters in a character sequence, as
/// `unicode_segmentation` segments it.
pub uninterp spec fn extended_grapheme_count(s: Seq<char>) -> usize;

/// NFKC normal form of a character sequence, as `unicode_normalization`
/// computes it.
pub uninterp spec fn nfkc(s: Seq<char>) -> Seq<char>;

/// Lowercase mapping of one character (`char::to_lowercase`).
pub uninterp spec fn lowercase(c: char) -> Seq<char>;

/// Unicode `Alphabetic` or `Numeric` (`char::is_alphanumeric`).
pub uninterp spec fn alphanumeric(c: char) -> bool;

/// Levenshtein edit distance between two character sequences: the least
/// number of single-character insertions, deletions and substitutions that
/// turn one into the other.
pub open spec fn levenshtein_distance(a: Seq<char>, b: Seq<char>) -> nat
    decreases a.len() + b.len(),
{
    if a.len() == 0 {
        b.len()
    } else if b.len() == 0 {
        a.len()
    } else {
        let delete = levenshtein_distance(a.drop_last(), b) + 1;
        let insert = levenshtein_distance(a, b.drop_last()) + 1;
        let replace = levenshtein_distance(a.drop_last(), b.drop_last()) + if a.last() == b.last() {
            0nat
        } else {
            1nat
        };
        if delete <= insert && delete <= replace {
            delete
        } else if insert <= replace {
            insert
        } else {
            replace
        }
    }
}

/// Counts extended grapheme clusters with
/// `unicode_segmentation::UnicodeSegmentation::graphemes(s, true)`. The
/// contract only ties the count to the text; the segmentation rules are not
/// restated.
#[verifier::external_body]
pub(crate) fn grapheme_count(s: &str) -> (n: usize)
    ensures
        n == extended_grapheme_count(s@),
{
    unicode_segmentation::UnicodeSegmentation::graphemes(s, true).count()
}

/// Applies `unicode_normalization::UnicodeNormalization::nfkc` and collects
/// the characters. The contract names the result; the normalization tables
/// are not restated.
#[verifier::external_body]
pub(crate) fn nfkc_chars(s: &str) -> (v: Vec<char>)
    ensures
        v@ == nfkc(s@),
{
    unicode_normalization::UnicodeNormalization::nfkc(s).collect()
}

/// `char::to_lowercase`, collected. The contract names the result; the
/// Unicode case tables are not restated.
#[verifier::external_body]
pub(crate) fn lowercase_chars(c: char) -> (v: Vec<char>)
    ensures
        v@ == lowercase(c),
{
    c.to_lowercase().collect()
}

/// An ASCII letter or digit.
pub open spec fn ascii_letter_or_digit(c: char) -> bool {
    (65 <= c as u32 <= 90) || (97 <= c as u32 <= 122) || (48 <= c as u32 <= 57)
}

/// `char::is_alphanumeric`: Unicode `Alphabetic` or `Numeric`. Among ASCII
/// characters exactly the letters and digits have either property, so the
/// space and ASCII punctuation are not alphanumeric; beyond ASCII the
/// contract names the result and the property tables are not restated.
#[verifier::external_body]
pub(crate) fn is_alphanumeric(c: char) -> (r: bool)
    ensures
        r == alphanumeric(c),
        (c as u32) < 128 ==> (r <==> ascii_letter_or_digit(c)),
{
    c.is_alphanumeric()
}

/// `strsim::levenshtein`: the least number of single-character insertions,
/// deletions and substitutions between two strings, counted over characters.
#[verifier::external_body]
pub(crate) fn levenshtein(a: &str, b: &str) -> (d: usize)
    ensures
        d == levenshtein_distance(a@, b@),
{
    strsim::levenshtein(a, b)
}

} // verus!
