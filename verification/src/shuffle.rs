//! The seeded generator of a word deck: the standard generator made from the
//! deck's seed and advanced only by shuffles of the deck's length, so that
//! every order it makes is a function of the seed and of how many shuffles
//! came before.

use vstd::prelude::*;

verus! {

#[verifier::external_type_specification]
#[verifier::external_body]
pub struct ExStdRng(rand::rngs::StdRng);

/// The indices `0..n` in order.
pub open spec fn identity(n: nat) -> Seq<usize> {
    Seq::new(n, |i: int| i as usize)
}

/// `order` after `rand::seq::SliceRandom::shuffle` with the standard
/// generator made by `rand::SeedableRng::from_seed(seed)` that has already
/// made `earlier` shuffles of slices of the same length.
pub uninterp spec fn seeded_shuffle(seed: Seq<u8>, earlier: nat, order: Seq<usize>) -> Seq<usize>;

/// The order of `0..n` after `k` shuffles with one generator made from
/// `seed`.
pub open spec fn seeded_order(seed: Seq<u8>, k: nat, n: nat) -> Seq<usize>
    decreases k,
{
    if k == 0 {
        identity(n)
    } else {
        seeded_shuffle(seed, (k - 1) as nat, seeded_order(seed, (k - 1) as nat, n))
    }
}

/// A generator made from `seed` for shuffles of `len` indices, with the
/// number of shuffles it has made. Only `Shuffler::new` makes one and only
/// `Shuffler::shuffle` advances it, each time by one shuffle of `len`
/// indices, so `rng` is always the generator made from `seed` after
/// `shuffles` such shuffles.
pub struct Shuffler {
    rng: rand::rngs::StdRng,
    seed: [u8; 32],
    len: usize,
    shuffles: Ghost<nat>,
}

impl Shuffler {
    /// The seed the generator was made from.
    pub closed spec fn seed(&self) -> Seq<u8> {
        self.seed@
    }

    /// The length of the slices it shuffles.
    pub closed spec fn len(&self) -> nat {
        self.len as nat
    }

    /// The number of shuffles made so far.
    pub closed spec fn shuffles(&self) -> nat {
        self.shuffles@
    }

    /// `rand::SeedableRng::from_seed` for the standard generator: a new
    /// generator made from `seed`, which has made no shuffle yet.
    #[verifier::external_body]
    pub(crate) fn new(seed: [u8; 32], len: usize) -> (s: Shuffler)
        ensures
            s.seed() == seed@,
            s.len() == len,
            s.shuffles() == 0,
    {
        Shuffler { rng: rand::SeedableRng::from_seed(seed), seed, len, shuffles: Ghost(0) }
    }

    /// `rand::seq::SliceRandom::shuffle` with this generator: a permutation
    /// of the order, and which one is the named seeded result for the
    /// generator's seed and the shuffles it made before; the shuffle is
    /// counted.
    #[verifier::external_body]
    pub(crate) fn shuffle(&mut self, order: &mut Vec<usize>)
        requires
            old(order)@.len() == old(self).len(),
        ensures
            final(self).seed() == old(self).seed(),
            final(self).len() == old(self).len(),
            final(self).shuffles() == old(self).shuffles() + 1,
            final(order)@ == seeded_shuffle(old(self).seed(), old(self).shuffles(), old(order)@),
            final(order)@.to_multiset() == old(order)@.to_multiset(),
    {
        rand::seq::SliceRandom::shuffle(order.as_mut_slice(), &mut self.rng)
    }
}

} // verus!
