use rand::distributions::Distribution;
use rand::seq::SliceRandom;
use rand::SeedableRng;
use rand_xoshiro::Xoshiro512StarStar;
use vstd::prelude::*;

verus! {

#[verifier::external_type_specification]
#[verifier::external_body]
pub struct ExXoshiro512StarStar(Xoshiro512StarStar);

/// One request made of a random source.
pub enum Request {
    /// A value in the closed range `[lo, hi]`.
    Between(u32, u32),
    /// A permutation of a sequence of the given length.
    Shuffle(usize),
}

/// The value that a generator seeded with `seed` returns for a request of a
/// value in `[lo, hi]`, after it has answered the requests `earlier`.
pub uninterp spec fn drawn_between(seed: u64, earlier: Seq<Request>, lo: u32, hi: u32) -> u32;

/// The order into which a generator seeded with `seed` shuffles `items`,
/// after it has answered the requests `earlier`.
pub uninterp spec fn shuffled(seed: u64, earlier: Seq<Request>, items: Seq<usize>) -> Seq<usize>;

/// Relies on rand's `random`, which draws from the thread's generator seeded
/// by the operating system: nothing is known of the value.
pub assume_specification<T>[ rand::random::<T> ]() -> T
    where
        rand::distributions::Standard: rand::distributions::Distribution<T>,
;

/// The randomness source of a generation run: one generator, borrowed
/// exclusively by each call that draws from it.
///
/// Besides the generator it records, as ghost state, the seed it was made
/// with and every request answered so far. Each value it hands out is fixed
/// by those two, so that runs from one seed repeat each other.
pub struct RandomSource {
    rng: Xoshiro512StarStar,
    seed: Ghost<u64>,
    trail: Ghost<Seq<Request>>,
}

impl RandomSource {
    /// The seed the generator was made with.
    pub closed spec fn seed(&self) -> u64 {
        self.seed@
    }

    /// The requests answered so far, the first first.
    pub closed spec fn trail(&self) -> Seq<Request> {
        self.trail@
    }

    /// Relies on rand_xoshiro's `Xoshiro512StarStar::seed_from_u64`: the
    /// generator's state is fixed by the seed.
    #[verifier::external_body]
    fn seeded_generator(seed: u64) -> (r: RandomSource)
        ensures
            r.seed() == seed,
            r.trail() == Seq::<Request>::empty(),
    {
        RandomSource {
            rng: Xoshiro512StarStar::seed_from_u64(seed),
            seed: Ghost(seed),
            trail: Ghost(Seq::empty()),
        }
    }

    /// Relies on rand's `Uniform::new_inclusive(lo, hi)`, sampled from the
    /// generator: a value in `[lo, hi]`, fixed by the state that the seed and
    /// the earlier requests left.
    #[verifier::external_body]
    pub(crate) fn between(&mut self, lo: u32, hi: u32) -> (r: u32)
        requires
            lo <= hi,
        ensures
            lo <= r <= hi,
            r == drawn_between(old(self).seed(), old(self).trail(), lo, hi),
            final(self).seed() == old(self).seed(),
            final(self).trail() == old(self).trail().push(Request::Between(lo, hi)),
    {
        let r = rand::distributions::Uniform::new_inclusive(lo, hi).sample(&mut self.rng);
        self.trail = Ghost(self.trail@.push(Request::Between(lo, hi)));
        r
    }

    /// Relies on rand's `SliceRandom::shuffle`, which only swaps items, so the
    /// same items come out, in an order fixed by the generator's state.
    #[verifier::external_body]
    pub(crate) fn shuffle(&mut self, items: &mut Vec<usize>)
        ensures
            final(items)@ == shuffled(old(self).seed(), old(self).trail(), old(items)@),
            final(items)@.to_multiset() == old(items)@.to_multiset(),
            final(self).seed() == old(self).seed(),
            final(self).trail() == old(self).trail().push(Request::Shuffle(old(items)@.len() as usize)),
    {
        let len = items.len();
        items.shuffle(&mut self.rng);
        self.trail = Ghost(self.trail@.push(Request::Shuffle(len)));
    }

    /// A source seeded with `seed`, 0 included, that has answered nothing yet.
    pub fn from_seed(seed: u64) -> (r: RandomSource)
        ensures
            r.seed() == seed,
            r.trail() == Seq::<Request>::empty(),
    {
        RandomSource::seeded_generator(seed)
    }

    /// A source for a run: seeded with `seed`, or, where `seed` is 0, with a
    /// seed drawn from the operating system.
    pub fn new(seed: u64) -> (r: RandomSource)
        ensures
            seed != 0 ==> r.seed() == seed,
            r.trail() == Seq::<Request>::empty(),
    {
        if seed == 0 {
            RandomSource::from_seed(rand::random::<u64>())
        } else {
            RandomSource::from_seed(seed)
        }
    }
}

} // verus!
