//! Seeded word offering without repeats inside one deck cycle.

use vstd::prelude::*;

use crate::failure::WordDeckError;
use crate::guess::{normalize, normalized};
use crate::limit::MAX_WORD_BYTES;
use crate::text::{
    all_whitespace, any_control, byte_len, chars_of, has_control, is_blank, trim_bounds, trimmed,
    utf8_len,
};
use crate::shuffle::{seeded_order, Shuffler};
use vstd::hash_set::StringHashSet;

verus! {

broadcast use vstd::seq_lib::group_to_multiset_ensures;

/// The text of each string.
pub open spec fn texts(v: Seq<String>) -> Seq<Seq<char>> {
    v.map_values(|s: String| s@)
}

/// The words at the given pool indices.
pub open spec fn words_at(pool: Seq<Seq<char>>, indices: Seq<usize>) -> Seq<Seq<char>> {
    indices.map_values(|i: usize| pool[i as int])
}

/// A word that a pool may hold: visible, already trimmed, within the protocol
/// byte limit, and free of control characters.
pub open spec fn pool_word_ok(w: Seq<char>) -> bool {
    &&& !all_whitespace(w)
    &&& trimmed(w) == w
    &&& utf8_len(w) <= MAX_WORD_BYTES
    &&& !has_control(w)
}

/// The problem with the word at `i`, judged after all earlier words passed.
pub open spec fn word_issue(words: Seq<Seq<char>>, i: int) -> Option<WordDeckError> {
    let w = words[i];
    if all_whitespace(w) {
        Some(WordDeckError::InvalidWord { index: i as usize, reason: "word must not be empty" })
    } else if trimmed(w) != w {
        Some(
            WordDeckError::InvalidWord {
                index: i as usize,
                reason: "leading and trailing whitespace is not allowed",
            },
        )
    } else if utf8_len(w) > MAX_WORD_BYTES {
        Some(
            WordDeckError::InvalidWord {
                index: i as usize,
                reason: "word exceeds the protocol byte limit",
            },
        )
    } else if has_control(w) {
        Some(
            WordDeckError::InvalidWord {
                index: i as usize,
                reason: "word contains a control character",
            },
        )
    } else if exists|j: int| 0 <= j < i && #[trigger] normalized(words[j]) == normalized(w) {
        Some(WordDeckError::DuplicateWord { index: i as usize })
    } else {
        None
    }
}

/// The first problem among the first `n` words.
pub open spec fn first_word_issue(words: Seq<Seq<char>>, n: nat) -> Option<WordDeckError>
    decreases n,
{
    if n == 0 {
        None
    } else {
        match first_word_issue(words, (n - 1) as nat) {
            Some(e) => Some(e),
            None => word_issue(words, n - 1),
        }
    }
}

/// Smallest offer a pool must be able to fill.
pub open spec fn required_size(required_offer_size: usize) -> usize {
    if required_offer_size < 1 {
        1
    } else {
        required_offer_size
    }
}

/// Outcome of validating a word pool.
pub open spec fn deck_check(words: Seq<Seq<char>>, required_offer_size: usize) -> Result<
    (),
    WordDeckError,
> {
    match first_word_issue(words, words.len()) {
        Some(e) => Err(e),
        None => if words.len() < required_size(required_offer_size) {
            Err(
                WordDeckError::TooSmall {
                    required: required_size(required_offer_size),
                    actual: words.len() as usize,
                },
            )
        } else {
            Ok(())
        },
    }
}

/// Every word of a pool is acceptable and no two share a normalized form.
pub open spec fn pool_ok(pool: Seq<Seq<char>>) -> bool {
    &&& forall|i: int| 0 <= i < pool.len() ==> #[trigger] pool_word_ok(pool[i])
    &&& forall|i: int, j: int|
        0 <= i < pool.len() && 0 <= j < pool.len() && i != j ==> #[trigger] normalized(pool[i])
            != #[trigger] normalized(pool[j])
}

proof fn lemma_no_issue_prefix(words: Seq<Seq<char>>, n: nat)
    requires
        n <= words.len(),
        first_word_issue(words, n) is None,
    ensures
        forall|i: int| 0 <= i < n ==> #[trigger] word_issue(words, i) is None,
    decreases n,
{
    if n > 0 {
        lemma_no_issue_prefix(words, (n - 1) as nat);
    }
}

proof fn lemma_issue_sticks(words: Seq<Seq<char>>, m: nat, n: nat)
    requires
        m <= n,
        first_word_issue(words, m) is Some,
    ensures
        first_word_issue(words, n) == first_word_issue(words, m),
    decreases n - m,
{
    if m < n {
        lemma_issue_sticks(words, m, (n - 1) as nat);
    }
}

proof fn lemma_no_issue_pool_ok(words: Seq<Seq<char>>)
    requires
        first_word_issue(words, words.len()) is None,
    ensures
        pool_ok(words),
{
    lemma_no_issue_prefix(words, words.len());
    assert forall|i: int| 0 <= i < words.len() implies #[trigger] pool_word_ok(words[i]) by {
        assert(word_issue(words, i) is None);
    }
    assert forall|i: int, j: int|
        0 <= i < words.len() && 0 <= j < words.len() && i != j implies #[trigger] normalized(
        words[i],
    ) != #[trigger] normalized(words[j]) by {
        if i < j {
            assert(word_issue(words, j) is None);
        } else {
            assert(word_issue(words, i) is None);
        }
    }
}

proof fn lemma_permutation_keeps_indices(a: Seq<usize>, b: Seq<usize>, n: nat)
    requires
        a.to_multiset() == b.to_multiset(),
        a.no_duplicates(),
        forall|i: int| 0 <= i < a.len() ==> a[i] < n,
    ensures
        b.len() == a.len(),
        b.no_duplicates(),
        forall|i: int| 0 <= i < b.len() ==> b[i] < n,
{
    a.lemma_multiset_has_no_duplicates();
    assert(b.len() == b.to_multiset().len());
    assert(a.len() == a.to_multiset().len());
    b.lemma_multiset_has_no_duplicates_conv();
    assert forall|i: int| 0 <= i < b.len() implies b[i] < n by {
        assert(b.contains(b[i]));
        assert(b.to_multiset().count(b[i]) > 0);
        assert(a.contains(b[i]));
    }
}

proof fn lemma_distinct_covered_len(a: Seq<usize>, b: Seq<usize>)
    requires
        a.no_duplicates(),
        forall|i: int| 0 <= i < a.len() ==> b.contains(#[trigger] a[i]),
    ensures
        a.len() <= b.len(),
{
    broadcast use vstd::seq_lib::seq_to_set_is_finite;

    a.unique_seq_to_set();
    b.lemma_cardinality_of_set();
    assert forall|x: usize| a.to_set().contains(x) implies b.to_set().contains(x) by {
        let i = choose|i: int| 0 <= i < a.len() && a[i] == x;
        assert(b.contains(a[i]));
    }
    vstd::set_lib::lemma_len_subset(a.to_set(), b.to_set());
}

/// The indices dealt from `order`, starting at position `i`, until `want`
/// have been taken, skipping those in `excluded`.
pub open spec fn picked(order: Seq<usize>, excluded: Seq<usize>, want: nat, i: int) -> Seq<usize>
    decreases order.len() - i,
{
    if want == 0 || i < 0 || i >= order.len() {
        Seq::empty()
    } else if excluded.contains(order[i]) {
        picked(order, excluded, want, i + 1)
    } else {
        seq![order[i]] + picked(order, excluded, (want - 1) as nat, i + 1)
    }
}

/// The position in `order` where that dealing stops.
pub open spec fn scan_end(order: Seq<usize>, excluded: Seq<usize>, want: nat, i: int) -> int
    decreases order.len() - i,
{
    if want == 0 || i < 0 || i >= order.len() {
        i
    } else if excluded.contains(order[i]) {
        scan_end(order, excluded, want, i + 1)
    } else {
        scan_end(order, excluded, (want - 1) as nat, i + 1)
    }
}

/// Dealing `count` pool indices (at most the pool size `n`) from a deck
/// whose cycle has `up` left, made from `seed` and after `shuffles`
/// shuffles: the indices dealt, the rest of the cycle afterwards, and the
/// shuffle count afterwards. While the cycle lasts its indices are dealt in
/// order; past its end the deck is reshuffled and the new cycle is dealt,
/// skipping the indices already dealt from the old one.
pub open spec fn deal(n: nat, up: Seq<usize>, seed: Seq<u8>, shuffles: nat, count: nat) -> (
    Seq<usize>,
    Seq<usize>,
    nat,
) {
    if count <= up.len() {
        (up.take(count as int), up.skip(count as int), shuffles)
    } else {
        let k = shuffles + 1;
        let next = seeded_order(seed, k, n);
        let want = (count - up.len()) as nat;
        (up + picked(next, up, want, 0), next.skip(scan_end(next, up, want, 0)), k)
    }
}

/// Offers dealt one after another within one deck cycle never repeat a
/// word: while the cycle lasts, two consecutive deals make no shuffle and
/// together deal what one deal of both counts would, with no index twice.
pub proof fn lemma_cycle_offers_disjoint(
    n: nat,
    up: Seq<usize>,
    seed: Seq<u8>,
    shuffles: nat,
    first: nat,
    second: nat,
)
    requires
        up.no_duplicates(),
        first + second <= up.len(),
    ensures
        ({
            let d1 = deal(n, up, seed, shuffles, first);
            let d2 = deal(n, d1.1, seed, d1.2, second);
            &&& d2.2 == shuffles
            &&& d1.0 + d2.0 == deal(n, up, seed, shuffles, first + second).0
            &&& (d1.0 + d2.0).no_duplicates()
        }),
{
    let d1 = deal(n, up, seed, shuffles, first);
    let d2 = deal(n, d1.1, seed, d1.2, second);
    let both = up.take((first + second) as int);
    assert(d1.0 + d2.0 =~= both);
    assert forall|i: int, j: int| 0 <= i < both.len() && 0 <= j < both.len() && i != j implies both[i]
        != both[j] by {
        assert(both[i] == up[i] && both[j] == up[j]);
    }
}

/// Deterministic shuffled word deck owned by one game.
pub struct WordDeck {
    words: Vec<String>,
    order: Vec<usize>,
    cursor: usize,
    shuffler: Shuffler,
}

impl WordDeck {
    /// The words of the pool, in the order they were given.
    pub closed spec fn pool(&self) -> Seq<Seq<char>> {
        texts(self.words@)
    }

    /// Pool indices still to be dealt in the current deck cycle, in order.
    pub closed spec fn upcoming(&self) -> Seq<usize> {
        self.order@.subrange(self.cursor as int, self.order@.len() as int)
    }

    /// The seed the deck was made with.
    pub closed spec fn seed(&self) -> Seq<u8> {
        self.shuffler.seed()
    }

    /// The number of shuffles the deck has made.
    pub closed spec fn shuffles(&self) -> nat {
        self.shuffler.shuffles()
    }

    /// Internal consistency: the order is the seeded order after the
    /// shuffles made so far, a permutation of the pool indices, the cursor
    /// lies within it, and the pool is acceptable.
    pub closed spec fn wf(&self) -> bool {
        &&& self.shuffler.len() == self.words@.len()
        &&& self.order@ == seeded_order(self.shuffler.seed(), self.shuffler.shuffles(), self.words@.len() as nat)
        &&& self.order@.len() == self.words@.len()
        &&& self.order@.no_duplicates()
        &&& forall|i: int| 0 <= i < self.order@.len() ==> #[trigger] self.order@[i] < self.words@.len()
        &&& self.cursor <= self.order@.len()
        &&& pool_ok(self.pool())
        &&& self.words@.len() >= 1
    }

    /// Within one deck cycle no pool index is dealt twice, every upcoming
    /// index names a pool word, and the pool is acceptable.
    pub proof fn lemma_cycle_has_no_repeats(&self)
        requires
            self.wf(),
        ensures
            self.upcoming().no_duplicates(),
            forall|i: int| 0 <= i < self.upcoming().len() ==> #[trigger] self.upcoming()[i] < self.pool().len(),
            pool_ok(self.pool()),
            self.pool().len() >= 1,
    {
        let u = self.upcoming();
        assert forall|i: int, j: int| 0 <= i < u.len() && 0 <= j < u.len() && i != j implies u[i]
            != u[j] by {
            assert(u[i] == self.order@[self.cursor + i]);
            assert(u[j] == self.order@[self.cursor + j]);
        }
        assert forall|i: int| 0 <= i < u.len() implies #[trigger] u[i] < self.pool().len() by {
            assert(u[i] == self.order@[self.cursor + i]);
        }
    }

    /// Validates a pool and initializes deterministic shuffle state.
    pub fn new(words: Vec<String>, required_offer_size: usize, seed: [u8; 32]) -> (r: Result<
        Self,
        WordDeckError,
    >)
        ensures
            match r {
                Ok(deck) => {
                    &&& deck_check(texts(words@), required_offer_size) == Ok::<(), WordDeckError>(())
                    &&& deck.wf()
                    &&& deck.pool() == texts(words@)
                    &&& deck.seed() == seed@
                    &&& deck.shuffles() == 1
                    &&& deck.upcoming() == seeded_order(seed@, 1, words@.len() as nat)
                },
                Err(e) => deck_check(texts(words@), required_offer_size) == Err::<(), WordDeckError>(e),
            },
    {
        let ghost ws = texts(words@);
        let mut forms = StringHashSet::new();
        let mut i: usize = 0;
        while i < words.len()
            invariant
                i <= words.len(),
                ws == texts(words@),
                first_word_issue(ws, i as nat) is None,
                forall|s: Seq<char>|
                    forms@.contains(s) <==> exists|j: int|
                        0 <= j < i && #[trigger] normalized(ws[j]) == s,
            decreases words.len() - i,
        {
            let word = &words[i];
            assert(word@ == ws[i as int]);
            let chars = chars_of(word.as_str());
            if is_blank(&chars) {
                proof {
                    lemma_issue_sticks(ws, (i + 1) as nat, ws.len());
                }
                return Err(WordDeckError::InvalidWord { index: i, reason: "word must not be empty" });
            }
            let (start, end) = trim_bounds(&chars);
            if start != 0 || end != chars.len() {
                assert(trimmed(ws[i as int]).len() != ws[i as int].len());
                proof {
                    lemma_issue_sticks(ws, (i + 1) as nat, ws.len());
                }
                return Err(
                    WordDeckError::InvalidWord {
                        index: i,
                        reason: "leading and trailing whitespace is not allowed",
                    },
                );
            }
            assert(chars@.subrange(0, chars@.len() as int) =~= chars@);
            if byte_len(word) > MAX_WORD_BYTES {
                proof {
                    lemma_issue_sticks(ws, (i + 1) as nat, ws.len());
                }
                return Err(
                    WordDeckError::InvalidWord {
                        index: i,
                        reason: "word exceeds the protocol byte limit",
                    },
                );
            }
            if any_control(&chars) {
                proof {
                    lemma_issue_sticks(ws, (i + 1) as nat, ws.len());
                }
                return Err(
                    WordDeckError::InvalidWord {
                        index: i,
                        reason: "word contains a control character",
                    },
                );
            }
            let form = normalize(word.as_str());
            let ghost prior = forms@;
            let fresh = forms.insert(form);
            if !fresh {
                let ghost j = choose|j: int| 0 <= j < i && #[trigger] normalized(ws[j]) == normalized(
                    ws[i as int],
                );
                assert(normalized(ws[j]) == normalized(ws[i as int]));
                proof {
                    lemma_issue_sticks(ws, (i + 1) as nat, ws.len());
                }
                return Err(WordDeckError::DuplicateWord { index: i });
            }
            assert(!prior.contains(normalized(ws[i as int])));
            assert(word_issue(ws, i as int) is None);
            i = i + 1;
            assert forall|s: Seq<char>| forms@.contains(s) implies exists|j: int|
                0 <= j < i && #[trigger] normalized(ws[j]) == s by {
                if s != normalized(ws[i - 1]) {
                    let j = choose|j: int| 0 <= j < i - 1 && #[trigger] normalized(ws[j]) == s;
                    assert(0 <= j < i && normalized(ws[j]) == s);
                }
            }
        }
        let required = if required_offer_size < 1 {
            1
        } else {
            required_offer_size
        };
        if words.len() < required {
            return Err(WordDeckError::TooSmall { required, actual: words.len() });
        }
        proof {
            lemma_no_issue_pool_ok(ws);
        }
        let mut shuffler = Shuffler::new(seed, words.len());
        let mut order: Vec<usize> = Vec::new();
        let mut k: usize = 0;
        while k < words.len()
            invariant
                k <= words.len(),
                order@.len() == k,
                forall|j: int| 0 <= j < k ==> #[trigger] order@[j] == j,
            decreases words.len() - k,
        {
            order.push(k);
            k = k + 1;
        }
        let ghost before = order@;
        assert(before =~= seeded_order(seed@, 0, words.len() as nat));
        shuffler.shuffle(&mut order);
        proof {
            lemma_permutation_keeps_indices(before, order@, words.len() as nat);
        }
        let deck = WordDeck { words, order, cursor: 0, shuffler };
        assert(deck.upcoming() =~= deck.order@);
        Ok(deck)
    }

    /// Returns a unique offer, reshuffling between exhausted deck cycles.
    ///
    /// Requests larger than the pool are limited to the pool size. Words are
    /// dealt in deck order; once the current cycle runs out the deck is
    /// reshuffled and dealing continues, skipping words already in the offer.
    pub fn offer(&mut self, count: usize) -> (r: Vec<String>)
        requires
            old(self).wf(),
        ensures
            final(self).wf(),
            final(self).pool() == old(self).pool(),
            r@.len() == (if count < old(self).pool().len() {
                count as int
            } else {
                old(self).pool().len() as int
            }),
            forall|k: int| 0 <= k < r@.len() ==> old(self).pool().contains(#[trigger] r@[k]@),
            forall|k: int, l: int|
                0 <= k < r@.len() && 0 <= l < r@.len() && k != l ==> normalized(#[trigger] r@[k]@)
                    != normalized(#[trigger] r@[l]@),
            final(self).seed() == old(self).seed(),
            ({
                let d = deal(
                    old(self).pool().len(),
                    old(self).upcoming(),
                    old(self).seed(),
                    old(self).shuffles(),
                    r@.len(),
                );
                &&& texts(r@) == words_at(old(self).pool(), d.0)
                &&& final(self).upcoming() == d.1
                &&& final(self).shuffles() == d.2
            }),
    {
        let n = self.words.len();
        let count = if count < n {
            count
        } else {
            n
        };
        let mut offered: Vec<String> = Vec::new();
        let mut seen: Vec<bool> = Vec::new();
        while seen.len() < n
            invariant
                seen@.len() <= n,
                forall|x: int| 0 <= x < seen@.len() ==> !seen@[x],
            decreases n - seen.len(),
        {
            seen.push(false);
        }
        let ghost mut used: Seq<usize> = Seq::empty();
        let ghost mut reshuffled = false;
        let ghost start = self.cursor as int;
        let ghost first_order = self.order@;
        let ghost up = old(self).upcoming();
        let ghost pool = old(self).pool();
        let ghost seed0 = old(self).seed();
        let ghost k0 = old(self).shuffles();
        let ghost want = (count - up.len()) as nat;
        while offered.len() < count
            invariant
                self.wf(),
                self.words@ == old(self).words@,
                pool == self.pool(),
                pool_ok(pool),
                self.shuffler.seed() == seed0,
                n == self.words@.len(),
                count <= n,
                up == first_order.subrange(start, n as int),
                0 <= start <= n,
                seen@.len() == n,
                forall|x: int| 0 <= x < n ==> (seen@[x] <==> used.contains(x as usize)),
                used.no_duplicates(),
                forall|k: int| 0 <= k < used.len() ==> #[trigger] used[k] < n,
                offered@.len() == used.len(),
                offered@.len() <= count,
                pool.len() == n,
                forall|k: int| 0 <= k < used.len() ==> #[trigger] offered@[k]@ == pool[used[k] as int],
                count >= up.len() ==> want == count - up.len(),
                !reshuffled ==> {
                    &&& self.shuffler.shuffles() == k0
                    &&& self.order@ == first_order
                    &&& start <= self.cursor
                    &&& used == first_order.subrange(start, self.cursor as int)
                },
                reshuffled ==> {
                    &&& count > up.len()
                    &&& used.len() >= up.len()
                    &&& used.take(up.len() as int) == up
                    &&& forall|j: int| 0 <= j < self.cursor ==> used.contains(#[trigger] self.order@[j])
                    &&& self.shuffler.shuffles() == k0 + 1
                    &&& used.skip(up.len() as int) + picked(
                        self.order@,
                        up,
                        (count - used.len()) as nat,
                        self.cursor as int,
                    ) == picked(self.order@, up, want, 0)
                    &&& scan_end(self.order@, up, (count - used.len()) as nat, self.cursor as int)
                        == scan_end(self.order@, up, want, 0)
                    &&& forall|k: int, j: int|
                        up.len() <= k < used.len() && self.cursor <= j < n ==> #[trigger] used[k]
                            != #[trigger] self.order@[j]
                },
            decreases (if reshuffled {
                0
            } else {
                n + 1
            }) + n - self.cursor,
        {
            if self.cursor >= self.order.len() {
                proof {
                    if reshuffled {
                        lemma_distinct_covered_len(self.order@, used);
                        assert(false);
                    }
                    assert(used =~= up);
                }
                let ghost before = self.order@;
                self.shuffler.shuffle(&mut self.order);
                proof {
                    lemma_permutation_keeps_indices(before, self.order@, n as nat);
                    assert(used.take(up.len() as int) =~= up);
                    assert(used.skip(up.len() as int) =~= Seq::<usize>::empty());
                    assert(used.skip(up.len() as int) + picked(self.order@, up, want, 0) =~= picked(
                        self.order@,
                        up,
                        want,
                        0,
                    ));
                }
                self.cursor = 0;
                proof {
                    reshuffled = true;
                }
            }
            let index = self.order[self.cursor];
            let ghost c = self.cursor as int;
            let ghost w = (count - used.len()) as nat;
            self.cursor = self.cursor + 1;
            if !seen[index] {
                seen.set(index, true);
                offered.push(self.words[index].clone());
                proof {
                    let old_used = used;
                    used = used.push(index);
                    assert forall|x: int| 0 <= x < n implies (seen@[x] <==> used.contains(
                        x as usize,
                    )) by {
                        if x == index as int {
                            assert(used[used.len() - 1] == index);
                        } else if old_used.contains(x as usize) {
                            let k = choose|k: int| 0 <= k < old_used.len() && old_used[k] == x as usize;
                            assert(used[k] == x as usize);
                        } else if used.contains(x as usize) {
                            let k = choose|k: int| 0 <= k < used.len() && used[k] == x as usize;
                            assert(k < old_used.len());
                            assert(old_used[k] == x as usize);
                        }
                    }
                    if reshuffled {
                        let nu = self.order@;
                        assert(!up.contains(index)) by {
                            if up.contains(index) {
                                let i = choose|i: int| 0 <= i < up.len() && up[i] == index;
                                assert(old_used.take(up.len() as int)[i] == index);
                                assert(old_used[i] == index);
                            }
                        }
                        assert(picked(nu, up, w, c) == seq![index] + picked(nu, up, (w - 1) as nat, c + 1));
                        assert(scan_end(nu, up, w, c) == scan_end(nu, up, (w - 1) as nat, c + 1));
                        assert(used.skip(up.len() as int) =~= old_used.skip(up.len() as int).push(index));
                        assert(used.skip(up.len() as int) + picked(nu, up, (w - 1) as nat, c + 1)
                            =~= old_used.skip(up.len() as int) + picked(nu, up, w, c));
                        assert forall|k: int, j: int|
                            up.len() <= k < used.len() && self.cursor <= j < n implies #[trigger] used[k]
                                != #[trigger] nu[j] by {
                            if k == used.len() - 1 {
                                assert(used[k] == nu[c]);
                            } else {
                                assert(used[k] == old_used[k]);
                            }
                        }
                        assert(used.take(up.len() as int) =~= old_used.take(up.len() as int));
                        assert forall|j: int| 0 <= j < self.cursor implies used.contains(
                            #[trigger] self.order@[j],
                        ) by {
                            if j < self.cursor - 1 {
                                let k = choose|k: int|
                                    0 <= k < old_used.len() && old_used[k] == self.order@[j];
                                assert(used[k] == self.order@[j]);
                            } else {
                                assert(used[used.len() - 1] == self.order@[j]);
                            }
                        }
                    } else {
                        assert(used =~= first_order.subrange(start, self.cursor as int));
                    }
                }
            } else {
                proof {
                    if !reshuffled {
                        let k = choose|k: int| 0 <= k < used.len() && used[k] == index;
                        assert(first_order[start + k] == index);
                        assert(false);
                    }
                    let nu = self.order@;
                    assert(up.contains(index)) by {
                        assert(seen@[index as int]);
                        let k = choose|k: int| 0 <= k < used.len() && used[k] == index;
                        if k >= up.len() {
                            assert(used[k] != nu[c]);
                        }
                        assert(used.take(up.len() as int)[k] == index);
                    }
                    assert(picked(nu, up, w, c) == picked(nu, up, w, c + 1));
                    assert(scan_end(nu, up, w, c) == scan_end(nu, up, w, c + 1));
                    assert forall|j: int| 0 <= j < self.cursor implies used.contains(
                        #[trigger] self.order@[j],
                    ) by {
                        if j == self.cursor - 1 {
                            assert(seen@[index as int]);
                        }
                    }
                }
            }
        }
        proof {
            assert forall|k: int| 0 <= k < offered@.len() implies pool.contains(
                #[trigger] offered@[k]@,
            ) by {
                assert(pool[used[k] as int] == offered@[k]@);
            }
            assert forall|k: int, l: int|
                0 <= k < offered@.len() && 0 <= l < offered@.len() && k != l implies normalized(
                #[trigger] offered@[k]@,
            ) != normalized(#[trigger] offered@[l]@) by {
                assert(offered@[k]@ == pool[used[k] as int]);
                assert(offered@[l]@ == pool[used[l] as int]);
                assert(used[k] != used[l]);
            }
            if !reshuffled {
                assert(texts(offered@) =~= words_at(pool, up.take(offered@.len() as int)));
                assert(self.upcoming() =~= up.skip(offered@.len() as int));
            } else {
                let nu = self.order@;
                assert(picked(nu, up, 0, self.cursor as int) =~= Seq::<usize>::empty());
                assert(used.skip(up.len() as int) =~= picked(nu, up, want, 0));
                assert(used =~= up + picked(nu, up, want, 0)) by {
                    assert forall|k: int| 0 <= k < up.len() implies used[k] == up[k] by {
                        assert(used.take(up.len() as int)[k] == up[k]);
                    }
                }
                assert(texts(offered@) =~= words_at(pool, used));
                assert(self.upcoming() =~= nu.skip(scan_end(nu, up, want, 0)));
            }
        }
        offered
    }
}

} // verus!
