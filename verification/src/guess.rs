//! Guess normalization, spoiler detection, and close-guess classification.

use vstd::prelude::*;

use crate::text::{chars_of, push_char};
use crate::unicode::{
    alphanumeric, is_alphanumeric, levenshtein, levenshtein_distance, lowercase, lowercase_chars,
    nfkc, nfkc_chars,
};

verus! {

/// Concatenated lowercase mappings of each character.
pub open spec fn lowered(s: Seq<char>) -> Seq<char>
    decreases s.len(),
{
    if s.len() == 0 {
        Seq::empty()
    } else {
        lowered(s.drop_last()) + lowercase(s.last())
    }
}

/// One step of the normalizer: alphanumerics are kept, and any run of other
/// characters between two kept characters becomes one ASCII space.
pub open spec fn norm_step(state: (Seq<char>, bool), c: char) -> (Seq<char>, bool) {
    if alphanumeric(c) {
        (
            if state.1 && state.0.len() > 0 {
                state.0.push(' ').push(c)
            } else {
                state.0.push(c)
            },
            false,
        )
    } else {
        (state.0, true)
    }
}

/// Normalizer state after a character sequence.
pub open spec fn norm_fold(s: Seq<char>) -> (Seq<char>, bool)
    decreases s.len(),
{
    if s.len() == 0 {
        (Seq::empty(), false)
    } else {
        norm_step(norm_fold(s.drop_last()), s.last())
    }
}

/// Canonical form used for guesses and word-pool uniqueness: NFKC, then
/// lowercase, then runs of non-alphanumeric characters collapsed to single
/// spaces between words (none at either end).
pub open spec fn normalized(s: Seq<char>) -> Seq<char> {
    norm_fold(lowered(nfkc(s))).0
}

/// Whether `needle` occurs contiguously in `hay`.
pub open spec fn occurs_in(needle: Seq<char>, hay: Seq<char>) -> bool {
    exists|i: int| 0 <= i && i + needle.len() <= hay.len() && #[trigger] hay.subrange(i, i + needle.len()) == needle
}

/// Space-padded form used for whole-phrase matching.
pub open spec fn padded(s: Seq<char>) -> Seq<char> {
    seq![' '] + s + seq![' ']
}

/// Maximum edit distance of a close guess for a secret of `n` characters.
pub open spec fn close_distance(n: nat) -> usize {
    if n <= 4 {
        1
    } else if n <= 8 {
        2
    } else {
        3
    }
}

/// A guess matches the secret: both normalize to the same non-empty form.
pub open spec fn correct_guess(guess: Seq<char>, secret: Seq<char>) -> bool {
    normalized(guess).len() > 0 && normalized(guess) == normalized(secret)
}

/// An incorrect guess close enough for a private hint: both normalized forms
/// are non-empty and different, and their edit distance is at most 1, 2, or 3
/// for secrets of up to 4, up to 8, or more characters.
pub open spec fn close_guess(guess: Seq<char>, secret: Seq<char>) -> bool {
    let g = normalized(guess);
    let s = normalized(secret);
    g.len() > 0 && s.len() > 0 && g != s && levenshtein_distance(g, s) <= close_distance(s.len())
}

/// A message spells out the complete secret as a whole phrase: both
/// normalized forms are non-empty and `" secret "` occurs in `" message "`.
pub open spec fn spoils(message: Seq<char>, secret: Seq<char>) -> bool {
    let m = normalized(message);
    let s = normalized(secret);
    m.len() > 0 && s.len() > 0 && occurs_in(padded(s), padded(m))
}

/// Produces the canonical form used for guesses and word-pool uniqueness.
pub fn normalize(value: &str) -> (r: String)
    ensures
        r@ == normalized(value@),
        normal_shape(r@),
        r@.len() == 0 <==> !has_alphanumeric(lowered(nfkc(value@))),
{
    // The separator is not alphanumeric; asking once lets the shape of the
    // result be proved.
    let _separator_is_alphanumeric = is_alphanumeric(' ');
    proof {
        lemma_normalized_shape(lowered(nfkc(value@)));
    }
    let source = nfkc_chars(value);
    let mut output = String::new();
    let mut pending_space = false;
    let mut nonempty = false;
    let mut i: usize = 0;
    while i < source.len()
        invariant
            i <= source.len(),
            source@ == nfkc(value@),
            nonempty == (output@.len() > 0),
            (output@, pending_space) == norm_fold(lowered(source@.take(i as int))),
        decreases source.len() - i,
    {
        let lower = lowercase_chars(source[i]);
        let ghost prefix = lowered(source@.take(i as int));
        let mut j: usize = 0;
        assert(prefix + lower@.take(0) =~= prefix);
        while j < lower.len()
            invariant
                j <= lower.len(),
                lower@ == lowercase(source@[i as int]),
                nonempty == (output@.len() > 0),
                (output@, pending_space) == norm_fold(prefix + lower@.take(j as int)),
            decreases lower.len() - j,
        {
            let c = lower[j];
            let ghost before = prefix + lower@.take(j as int);
            assert((prefix + lower@.take(j + 1)).drop_last() =~= before);
            if is_alphanumeric(c) {
                if pending_space && nonempty {
                    push_char(&mut output, ' ');
                }
                push_char(&mut output, c);
                nonempty = true;
                pending_space = false;
            } else {
                pending_space = true;
            }
            j = j + 1;
        }
        assert(lower@.take(lower.len() as int) =~= lower@);
        assert(source@.take(i + 1).drop_last() =~= source@.take(i as int));
        i = i + 1;
    }
    assert(source@.take(source.len() as int) =~= source@);
    output
}

/// Returns whether two values normalize to the same non-empty guess.
pub fn is_correct(guess: &str, secret: &str) -> (r: bool)
    ensures
        r == correct_guess(guess@, secret@),
{
    let g = normalize(guess);
    let s = normalize(secret);
    let g_chars = chars_of(g.as_str());
    g_chars.len() > 0 && g == s
}

/// Returns whether an incorrect guess is close enough for a private hint:
/// both normalized forms are non-empty and different, and their edit
/// distance is at most 1, 2, or 3 for secrets of up to 4, up to 8, or more
/// characters.
pub fn is_close(guess: &str, secret: &str) -> (r: bool)
    ensures
        r == close_guess(guess@, secret@),
{
    let g = normalize(guess);
    let s = normalize(secret);
    let g_chars = chars_of(g.as_str());
    let s_chars = chars_of(s.as_str());
    if g_chars.len() == 0 || s_chars.len() == 0 || g == s {
        return false;
    }
    let secret_len = s_chars.len();
    let maximum_distance: usize = if secret_len <= 4 {
        1
    } else if secret_len <= 8 {
        2
    } else {
        3
    };
    levenshtein(g.as_str(), s.as_str()) <= maximum_distance
}

fn occurs_at(needle: &Vec<char>, hay: &Vec<char>, start: usize) -> (r: bool)
    requires
        start + needle@.len() <= hay@.len(),
    ensures
        r == (hay@.subrange(start as int, start + needle@.len()) == needle@),
{
    let mut k: usize = 0;
    while k < needle.len()
        invariant
            k <= needle.len(),
            start + needle.len() <= hay.len(),
            forall|m: int| 0 <= m < k ==> hay@[start + m] == needle@[m],
        decreases needle.len() - k,
    {
        if hay[start + k] != needle[k] {
            assert(hay@.subrange(start as int, start + needle@.len())[k as int] != needle@[k as int]);
            return false;
        }
        k = k + 1;
    }
    assert(hay@.subrange(start as int, start + needle@.len()) =~= needle@);
    true
}

fn find_in(needle: &Vec<char>, hay: &Vec<char>) -> (r: bool)
    ensures
        r == occurs_in(needle@, hay@),
{
    if needle.len() > hay.len() {
        return false;
    }
    let limit = hay.len() - needle.len();
    let mut start: usize = 0;
    loop
        invariant
            needle@.len() <= hay@.len(),
            limit == hay@.len() - needle@.len(),
            start <= limit,
            forall|i: int|
                0 <= i < start ==> #[trigger] hay@.subrange(i, i + needle@.len()) != needle@,
        decreases limit - start,
    {
        if occurs_at(needle, hay, start) {
            return true;
        }
        if start == limit {
            return false;
        }
        start = start + 1;
    }
}

fn padded_chars(s: &String) -> (v: Vec<char>)
    ensures
        v@ == padded(s@),
{
    let inner = chars_of(s.as_str());
    let mut v: Vec<char> = Vec::new();
    v.push(' ');
    let mut i: usize = 0;
    while i < inner.len()
        invariant
            i <= inner.len(),
            v@ == seq![' '] + inner@.take(i as int),
        decreases inner.len() - i,
    {
        v.push(inner[i]);
        i = i + 1;
        assert(v@ =~= seq![' '] + inner@.take(i as int));
    }
    v.push(' ');
    assert(inner@.take(inner.len() as int) =~= inner@);
    assert(v@ =~= padded(s@));
    v
}

/// Detects the complete normalized secret as a whole phrase in normalized
/// chat: both are non-empty and `" secret "` occurs in `" message "`.
pub fn contains_secret(message: &str, secret: &str) -> (r: bool)
    ensures
        r == spoils(message@, secret@),
{
    let m = normalize(message);
    let s = normalize(secret);
    let m_chars = chars_of(m.as_str());
    let s_chars = chars_of(s.as_str());
    if m_chars.len() == 0 || s_chars.len() == 0 {
        return false;
    }
    let padded_message = padded_chars(&m);
    let padded_secret = padded_chars(&s);
    find_in(&padded_secret, &padded_message)
}

/// The shape of a normalized value: no space at either end, never two
/// spaces in a row, and every other character alphanumeric.
pub open spec fn normal_shape(n: Seq<char>) -> bool {
    &&& (n.len() > 0 ==> n[0] != ' ' && n.last() != ' ')
    &&& forall|i: int| 0 <= i < n.len() - 1 && n[i] == ' ' ==> #[trigger] n[i + 1] != ' '
    &&& forall|i: int| 0 <= i < n.len() && n[i] != ' ' ==> alphanumeric(#[trigger] n[i])
}

/// Whether a character sequence holds an alphanumeric character.
pub open spec fn has_alphanumeric(s: Seq<char>) -> bool {
    exists|i: int| 0 <= i < s.len() && alphanumeric(#[trigger] s[i])
}

/// Normalization law: since the space is not alphanumeric, a normalized
/// value has the normal shape, and it is empty exactly when the text holds
/// no alphanumeric character.
pub proof fn lemma_normalized_shape(s: Seq<char>)
    requires
        !alphanumeric(' '),
    ensures
        normal_shape(norm_fold(s).0),
        norm_fold(s).0.len() == 0 <==> !has_alphanumeric(s),
    decreases s.len(),
{
    if s.len() > 0 {
        lemma_normalized_shape(s.drop_last());
        let prev = norm_fold(s.drop_last());
        let c = s.last();
        if alphanumeric(c) {
            assert(alphanumeric(s[s.len() - 1]));
        } else if has_alphanumeric(s) {
            let i = choose|i: int| 0 <= i < s.len() && alphanumeric(#[trigger] s[i]);
            assert(s.drop_last()[i] == s[i]);
        } else if has_alphanumeric(s.drop_last()) {
            let i = choose|i: int| 0 <= i < s.drop_last().len() && alphanumeric(#[trigger] s.drop_last()[i]);
            assert(s[i] == s.drop_last()[i]);
        }
        if alphanumeric(c) {
            let p = prev.0;
            let n = norm_fold(s).0;
            if prev.1 && p.len() > 0 {
                assert(n == p.push(' ').push(c));
                assert forall|i: int| 0 <= i < n.len() - 1 && n[i] == ' ' implies #[trigger] n[i + 1] != ' ' by {
                    if i < p.len() - 1 {
                        assert(n[i] == p[i] && n[i + 1] == p[i + 1]);
                    } else if i == p.len() - 1 {
                        assert(n[i] == p.last());
                    }
                }
                assert forall|i: int| 0 <= i < n.len() && n[i] != ' ' implies alphanumeric(#[trigger] n[i]) by {
                    if i < p.len() {
                        assert(n[i] == p[i]);
                    }
                }
            } else {
                assert(n == p.push(c));
                assert forall|i: int| 0 <= i < n.len() - 1 && n[i] == ' ' implies #[trigger] n[i + 1] != ' ' by {
                    if i < p.len() - 1 {
                        assert(n[i] == p[i] && n[i + 1] == p[i + 1]);
                    }
                }
                assert forall|i: int| 0 <= i < n.len() && n[i] != ' ' implies alphanumeric(#[trigger] n[i]) by {
                    if i < p.len() {
                        assert(n[i] == p[i]);
                    }
                }
            }
        }
    }
}

/// The tolerance of a close guess grows with the secret and never shrinks:
/// a guess that normalizes to a different non-empty form is close when its
/// edit distance to the secret is 1, and also 2 for secrets of at least 5
/// characters, and also 3 for secrets of at least 9; a distance above 1 is
/// never close for secrets of at most 4 characters, above 2 never for at most
/// 8, and above 3 never. Only a guess different from the secret is close.
pub proof fn lemma_close_tolerance(guess: Seq<char>, secret: Seq<char>)
    ensures
        ({
            let g = normalized(guess);
            let s = normalized(secret);
            let dist = levenshtein_distance(g, s);
            let differ = g.len() > 0 && s.len() > 0 && g != s;
            &&& close_guess(guess, secret) ==> differ
            &&& differ && dist <= 1 ==> close_guess(guess, secret)
            &&& differ && s.len() >= 5 && dist <= 2 ==> close_guess(guess, secret)
            &&& differ && s.len() >= 9 && dist <= 3 ==> close_guess(guess, secret)
            &&& s.len() <= 4 && dist > 1 ==> !close_guess(guess, secret)
            &&& s.len() <= 8 && dist > 2 ==> !close_guess(guess, secret)
            &&& dist > 3 ==> !close_guess(guess, secret)
        }),
{
}

} // verus!
