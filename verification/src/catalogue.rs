//! The built-in human-player word catalogue: word lists in plain text, one
//! word per line.

use vstd::prelude::*;

use crate::guess::{normalize, normalized};
use crate::text::{chars_of, string_from_chars, trim_bounds, trimmed};
use crate::words::texts;
use vstd::hash_set::StringHashSet;

verus! {

/// The text between separators: `s` split at every `sep`.
pub open spec fn pieces(s: Seq<char>, sep: char) -> Seq<Seq<char>>
    decreases s.len(),
{
    if s.len() == 0 {
        seq![Seq::empty()]
    } else {
        let p = pieces(s.drop_last(), sep);
        if s.last() == sep {
            p.push(Seq::empty())
        } else {
            p.update(p.len() - 1, p.last().push(s.last()))
        }
    }
}

/// A trimmed line that names a word: not empty and not a `#` comment.
pub open spec fn names_word(line: Seq<char>) -> bool {
    line.len() > 0 && line[0] != '#'
}

/// The words a list names, in order: every line trimmed, with blank lines
/// and comments left out. Trimming also removes the carriage return of a
/// `"\r\n"` line break.
pub open spec fn listed_words(s: Seq<char>) -> Seq<Seq<char>> {
    pieces(s, '\n').map_values(|l: Seq<char>| trimmed(l)).filter(|l: Seq<char>| names_word(l))
}

/// The words of several lists, list after list.
pub open spec fn all_listed(sources: Seq<Seq<char>>) -> Seq<Seq<char>>
    decreases sources.len(),
{
    if sources.len() == 0 {
        Seq::empty()
    } else {
        all_listed(sources.drop_last()) + listed_words(sources.last())
    }
}

/// The first spelling of every normalized form, in order.
pub open spec fn first_spellings(ws: Seq<Seq<char>>) -> Seq<Seq<char>>
    decreases ws.len(),
{
    if ws.len() == 0 {
        Seq::empty()
    } else {
        let r = first_spellings(ws.drop_last());
        if exists|j: int| 0 <= j < ws.len() - 1 && #[trigger] normalized(ws[j]) == normalized(ws.last()) {
            r
        } else {
            r.push(ws.last())
        }
    }
}

/// Every kept word is one of the listed words.
proof fn lemma_spellings_are_listed(ws: Seq<Seq<char>>)
    ensures
        forall|i: int|
            0 <= i < first_spellings(ws).len() ==> exists|j: int|
                0 <= j < ws.len() && #[trigger] first_spellings(ws)[i] == ws[j],
    decreases ws.len(),
{
    if ws.len() > 0 {
        let prev = ws.drop_last();
        lemma_spellings_are_listed(prev);
        let fp = first_spellings(prev);
        let f = first_spellings(ws);
        assert forall|i: int| 0 <= i < f.len() implies exists|j: int| 0 <= j < ws.len() && #[trigger] f[i] == ws[j] by {
            if i < fp.len() {
                assert(f[i] == fp[i]);
                let j = choose|j: int| 0 <= j < prev.len() && #[trigger] fp[i] == prev[j];
                assert(f[i] == ws[j]);
            } else {
                assert(f[i] == ws[ws.len() - 1]);
            }
        }
    }
}

/// No two kept words normalize alike.
proof fn lemma_spellings_distinct(ws: Seq<Seq<char>>)
    ensures
        forall|i: int, k: int|
            0 <= i < k < first_spellings(ws).len() ==> normalized(#[trigger] first_spellings(ws)[i])
                != normalized(#[trigger] first_spellings(ws)[k]),
    decreases ws.len(),
{
    if ws.len() > 0 {
        let prev = ws.drop_last();
        lemma_spellings_distinct(prev);
        lemma_spellings_are_listed(prev);
        let fp = first_spellings(prev);
        let f = first_spellings(ws);
        if !(exists|j: int| 0 <= j < ws.len() - 1 && #[trigger] normalized(ws[j]) == normalized(ws.last())) {
            assert forall|i: int, k: int| 0 <= i < k < f.len() implies normalized(#[trigger] f[i])
                != normalized(#[trigger] f[k]) by {
                assert(f[i] == fp[i]);
                if k == f.len() - 1 {
                    let j = choose|j: int| 0 <= j < prev.len() && #[trigger] fp[i] == prev[j];
                    assert(ws[j] == prev[j]);
                    assert(f[k] == ws.last());
                } else {
                    assert(f[k] == fp[k]);
                }
            }
        }
    }
}

/// Every listed word normalizes like a kept word.
proof fn lemma_forms_covered(ws: Seq<Seq<char>>)
    ensures
        forall|j: int|
            #![trigger ws[j]]
            0 <= j < ws.len() ==> exists|i: int|
                0 <= i < first_spellings(ws).len() && normalized(#[trigger] first_spellings(ws)[i])
                    == normalized(ws[j]),
    decreases ws.len(),
{
    if ws.len() > 0 {
        let prev = ws.drop_last();
        lemma_forms_covered(prev);
        let fp = first_spellings(prev);
        let f = first_spellings(ws);
        let seen = exists|j: int| 0 <= j < ws.len() - 1 && #[trigger] normalized(ws[j]) == normalized(ws.last());
        assert forall|j: int| #![trigger ws[j]] 0 <= j < ws.len() implies exists|i: int|
            0 <= i < f.len() && normalized(#[trigger] f[i]) == normalized(ws[j]) by {
            if j < ws.len() - 1 {
                assert(prev[j] == ws[j]);
                let i = choose|i: int| 0 <= i < fp.len() && normalized(#[trigger] fp[i]) == normalized(prev[j]);
                assert(f[i] == fp[i]);
            } else if seen {
                let m = choose|m: int| 0 <= m < ws.len() - 1 && #[trigger] normalized(ws[m]) == normalized(ws.last());
                assert(prev[m] == ws[m]);
                let i = choose|i: int| 0 <= i < fp.len() && normalized(#[trigger] fp[i]) == normalized(prev[m]);
                assert(f[i] == fp[i]);
            } else {
                assert(f[f.len() - 1] == ws.last());
            }
        }
    }
}

/// The catalogue keeps one spelling per normalized form: its words are
/// listed words, no two of them normalize alike, and every listed word
/// normalizes like one of them.
pub proof fn lemma_one_spelling_per_form(ws: Seq<Seq<char>>)
    ensures
        forall|i: int|
            0 <= i < first_spellings(ws).len() ==> exists|j: int|
                0 <= j < ws.len() && #[trigger] first_spellings(ws)[i] == ws[j],
        forall|i: int, k: int|
            0 <= i < k < first_spellings(ws).len() ==> normalized(#[trigger] first_spellings(ws)[i])
                != normalized(#[trigger] first_spellings(ws)[k]),
        forall|j: int|
            #![trigger ws[j]]
            0 <= j < ws.len() ==> exists|i: int|
                0 <= i < first_spellings(ws).len() && normalized(#[trigger] first_spellings(ws)[i])
                    == normalized(ws[j]),
{
    lemma_spellings_are_listed(ws);
    lemma_spellings_distinct(ws);
    lemma_forms_covered(ws);
}

/// Splits a text at every separator.
pub fn split_pieces(chars: &Vec<char>, sep: char) -> (r: Vec<Vec<char>>)
    ensures
        r@.map_values(|l: Vec<char>| l@) == pieces(chars@, sep),
{
    let mut done: Vec<Vec<char>> = Vec::new();
    let mut current: Vec<char> = Vec::new();
    let mut i: usize = 0;
    while i < chars.len()
        invariant
            i <= chars@.len(),
            done@.map_values(|l: Vec<char>| l@).push(current@) == pieces(chars@.take(i as int), sep),
        decreases chars.len() - i,
    {
        let ghost before = done@.map_values(|l: Vec<char>| l@).push(current@);
        assert(chars@.take(i + 1).drop_last() =~= chars@.take(i as int));
        let c = chars[i];
        if c == sep {
            let line = current;
            done.push(line);
            current = Vec::new();
            assert(done@.map_values(|l: Vec<char>| l@).push(current@) =~= before.push(Seq::empty()));
        } else {
            current.push(c);
            assert(done@.map_values(|l: Vec<char>| l@).push(current@) =~= before.update(
                before.len() - 1,
                before.last().push(c),
            ));
        }
        i = i + 1;
    }
    assert(chars@.take(i as int) =~= chars@);
    let ghost before = done@.map_values(|l: Vec<char>| l@).push(current@);
    done.push(current);
    assert(done@.map_values(|l: Vec<char>| l@) =~= before);
    done
}

/// The words a list names, in order.
fn list_words(source: &String) -> (r: Vec<Vec<char>>)
    ensures
        r@.map_values(|l: Vec<char>| l@) == listed_words(source@),
{
    let chars = chars_of(source.as_str());
    let lines = split_pieces(&chars, '\n');
    let ghost trimmed_all = pieces(source@, '\n').map_values(|l: Seq<char>| trimmed(l));
    let mut r: Vec<Vec<char>> = Vec::new();
    let mut i: usize = 0;
    while i < lines.len()
        invariant
            i <= lines@.len(),
            lines@.map_values(|l: Vec<char>| l@) == pieces(source@, '\n'),
            trimmed_all == pieces(source@, '\n').map_values(|l: Seq<char>| trimmed(l)),
            r@.map_values(|l: Vec<char>| l@) == trimmed_all.take(i as int).filter(
                |l: Seq<char>| names_word(l),
            ),
        decreases lines.len() - i,
    {
        reveal(Seq::filter);
        assert(trimmed_all.take(i + 1).drop_last() =~= trimmed_all.take(i as int));
        let line = &lines[i];
        assert(line@ == pieces(source@, '\n')[i as int]);
        let (start, end) = trim_bounds(line);
        assert(trimmed_all[i as int] == line@.subrange(start as int, end as int));
        let ghost before = r@.map_values(|l: Vec<char>| l@);
        if start < end && line[start] != '#' {
            let mut word: Vec<char> = Vec::new();
            let mut k: usize = start;
            while k < end
                invariant
                    start <= k <= end <= line@.len(),
                    word@ == line@.subrange(start as int, k as int),
                decreases end - k,
            {
                word.push(line[k]);
                k = k + 1;
                assert(word@ =~= line@.subrange(start as int, k as int));
            }
            r.push(word);
            assert(r@.map_values(|l: Vec<char>| l@) =~= before.push(trimmed_all[i as int]));
        } else {
            assert(r@.map_values(|l: Vec<char>| l@) =~= before);
        }
        i = i + 1;
    }
    assert(trimmed_all.take(i as int) =~= trimmed_all);
    r
}

/// Loads a word catalogue from its lists: each list's words in order, list
/// after list, keeping the first spelling of every normalized form.
pub fn builtin_words(sources: &Vec<String>) -> (r: Vec<String>)
    ensures
        texts(r@) == first_spellings(all_listed(texts(sources@))),
{
    let ghost srcs = texts(sources@);
    let mut words: Vec<String> = Vec::new();
    let mut forms = StringHashSet::new();
    let ghost mut seen: Seq<Seq<char>> = Seq::empty();
    let mut s: usize = 0;
    while s < sources.len()
        invariant
            s <= sources@.len(),
            srcs == texts(sources@),
            seen == all_listed(srcs.take(s as int)),
            texts(words@) == first_spellings(seen),
            forall|x: Seq<char>|
                forms@.contains(x) <==> exists|j: int| 0 <= j < seen.len() && #[trigger] normalized(seen[j]) == x,
        decreases sources.len() - s,
    {
        assert(srcs.take(s + 1).drop_last() =~= srcs.take(s as int));
        let listed = list_words(&sources[s]);
        let ghost base = seen;
        let mut i: usize = 0;
        while i < listed.len()
            invariant
                i <= listed@.len(),
                listed@.map_values(|l: Vec<char>| l@) == listed_words(srcs[s as int]),
                seen == base + listed_words(srcs[s as int]).take(i as int),
                texts(words@) == first_spellings(seen),
                forall|x: Seq<char>|
                    forms@.contains(x) <==> exists|j: int| 0 <= j < seen.len() && #[trigger] normalized(seen[j]) == x,
            decreases listed.len() - i,
        {
            let w = string_from_chars(&listed[i]);
            let ghost next = seen.push(w@);
            assert(w@ == listed_words(srcs[s as int])[i as int]);
            assert(next =~= base + listed_words(srcs[s as int]).take(i + 1));
            assert(next.drop_last() =~= seen);
            let form = normalize(w.as_str());
            let ghost prior = forms@;
            let fresh = forms.insert(form);
            let ghost old_words = texts(words@);
            if fresh {
                words.push(w);
                assert(!(exists|j: int| 0 <= j < next.len() - 1 && #[trigger] normalized(next[j]) == normalized(next.last()))) by {
                    if exists|j: int| 0 <= j < next.len() - 1 && #[trigger] normalized(next[j]) == normalized(next.last()) {
                        let j = choose|j: int| 0 <= j < next.len() - 1 && #[trigger] normalized(next[j]) == normalized(next.last());
                        assert(normalized(seen[j]) == normalized(next.last()));
                    }
                }
                assert(texts(words@) =~= old_words.push(next.last()));
            } else {
                proof {
                    let j = choose|j: int| 0 <= j < seen.len() && #[trigger] normalized(seen[j]) == normalized(next.last());
                    assert(normalized(next[j]) == normalized(next.last()));
                }
            }
            proof {
                assert forall|x: Seq<char>|
                    forms@.contains(x) implies exists|j: int| 0 <= j < next.len() && #[trigger] normalized(next[j]) == x by {
                    if x == normalized(next.last()) {
                        assert(normalized(next[next.len() - 1]) == x);
                    } else {
                        let j = choose|j: int| 0 <= j < seen.len() && #[trigger] normalized(seen[j]) == x;
                        assert(normalized(next[j]) == x);
                    }
                }
                assert forall|x: Seq<char>|
                    (exists|j: int| 0 <= j < next.len() && #[trigger] normalized(next[j]) == x) implies forms@.contains(x) by {
                    let j = choose|j: int| 0 <= j < next.len() && #[trigger] normalized(next[j]) == x;
                    if j < seen.len() {
                        assert(normalized(seen[j]) == x);
                    }
                }
                seen = next;
            }
            i = i + 1;
        }
        assert(listed_words(srcs[s as int]).take(i as int) =~= listed_words(srcs[s as int]));
        assert(srcs.take(s + 1).last() == srcs[s as int]);
        s = s + 1;
    }
    assert(srcs.take(s as int) =~= srcs);
    words
}

} // verus!
