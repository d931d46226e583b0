//! The random source of a policy: a small generator, seeded from a number
//! where one is given and from the operating system where none is.
use crate::double::Double;
use rand::rngs::SmallRng;
use rand::seq::IteratorRandom;
use rand::SeedableRng;
use vstd::prelude::*;

verus! {

/// The generator of the `rand` crate that the policies use. Nothing is known
/// of its state.
#[verifier::external_type_specification]
#[verifier::external_body]
pub struct ExSmallRng(SmallRng);

/// `SmallRng::seed_from_u64`: a generator made from the seed. Nothing is
/// claimed of it.
#[verifier::external_body]
fn seeded_generator(seed: u64) -> SmallRng {
    SmallRng::seed_from_u64(seed)
}

/// `SmallRng::from_os_rng`: a generator seeded from the operating system's
/// entropy. Nothing is claimed of it. The call panics if the system cannot
/// provide entropy.
#[verifier::external_body]
fn fresh_generator() -> SmallRng {
    SmallRng::from_os_rng()
}

/// `Clone::clone` of `SmallRng`: a copy of the generator. Nothing is claimed
/// of it.
#[verifier::external_body]
fn same_generator(generator: &SmallRng) -> SmallRng {
    generator.clone()
}

/// `IteratorRandom::choose` over the candidates. Claimed: it returns none
/// exactly if there is no candidate, and else one of the candidates. Which
/// one is up to the generator.
#[verifier::external_body]
fn choose_with(generator: &mut SmallRng, candidates: &Vec<usize>) -> (chosen: Option<usize>)
    ensures
        chosen is None <==> candidates@.len() == 0,
        chosen matches Some(handle) ==> candidates@.contains(handle),
{
    candidates.iter().copied().choose(generator)
}

/// Whether the kernel may answer with the number when it is handed a
/// generator.
pub open spec fn rolled<U: Fn(&mut SmallRng) -> Double>(kernel: U, number: Double) -> bool {
    exists|generator: &mut SmallRng| call_ensures(kernel, (generator,), number)
}

/// Whether the kernel may give the answer to the question when it is handed
/// a generator.
pub open spec fn sampled<Q, R, S: Fn(&mut SmallRng, Q) -> R>(
    kernel: S,
    question: Q,
    answer: R,
) -> bool {
    exists|generator: &mut SmallRng| call_ensures(kernel, (generator, question), answer)
}

/// A generator together with the seed it was made from, if any.
pub struct MaybeSeededRng {
    seed: Option<u64>,
    rng: SmallRng,
}

impl MaybeSeededRng {
    /// The seed that the generator was made from, if any.
    pub closed spec fn seed_of(&self) -> Option<u64> {
        self.seed
    }

    /// The seed that the generator was made from, if any.
    pub fn seed(&self) -> (seed: Option<u64>)
        ensures
            seed == self.seed_of(),
    {
        self.seed
    }

    /// A generator for the seed, or one seeded by the system.
    pub fn new(seed: Option<u64>) -> (made: Self)
        ensures
            made.seed_of() == seed,
    {
        let rng = match seed {
            Some(seed) => seeded_generator(seed),
            None => fresh_generator(),
        };
        Self { seed, rng }
    }

    /// The generator itself, for the caller to draw from.
    pub fn get_rng(&mut self) -> (rng: &mut SmallRng)
        ensures
            *rng == old(self).generator_of(),
            final(self).generator_of() == *final(rng),
            final(self).seed_of() == old(self).seed_of(),
    {
        &mut self.rng
    }

    /// The generator, in the state it is in. `get_rng` hands it out as it
    /// stands; what the caller leaves of it is the generator afterwards.
    pub closed spec fn generator_of(&self) -> SmallRng {
        self.rng
    }

    /// One of the candidates, picked by the generator; none if there is
    /// none.
    pub fn pick(&mut self, candidates: &Vec<usize>) -> (chosen: Option<usize>)
        ensures
            final(self).seed_of() == old(self).seed_of(),
            chosen is None <==> candidates@.len() == 0,
            chosen matches Some(handle) ==> candidates@.contains(handle),
    {
        choose_with(&mut self.rng, candidates)
    }

    /// A number that the kernel draws with the generator.
    pub fn roll<U: Fn(&mut SmallRng) -> Double>(&mut self, kernel: &U) -> (number: Double)
        requires
            forall|generator: &mut SmallRng| call_requires(kernel, (generator,)),
        ensures
            final(self).seed_of() == old(self).seed_of(),
            rolled(kernel, number),
    {
        kernel(&mut self.rng)
    }

    /// The kernel's answer to a question, drawn with the generator.
    pub fn sample<Q, R, S: Fn(&mut SmallRng, Q) -> R>(&mut self, kernel: &S, question: Q) -> (answer:
        R)
        requires
            forall|generator: &mut SmallRng| call_requires(kernel, (generator, question)),
        ensures
            final(self).seed_of() == old(self).seed_of(),
            sampled(kernel, question, answer),
    {
        kernel(&mut self.rng, question)
    }

    /// A copy with the same seed and a generator in the same state.
    pub fn duplicate(&self) -> (copy: Self)
        ensures
            copy.seed_of() == self.seed_of(),
    {
        Self { seed: self.seed, rng: same_generator(&self.rng) }
    }
}

} // verus!
