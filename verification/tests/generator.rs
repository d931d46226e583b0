use bandits::policies::rng::MaybeSeededRng;
use rand::rngs::SmallRng;
use rand::{Rng, SeedableRng};

#[test]
fn the_generator_handed_out_is_the_one_that_is_kept() {
    let mut source = MaybeSeededRng::new(Some(7));
    let mut reference = SmallRng::seed_from_u64(7);

    // what is drawn through the handle moves the generator that is kept
    for _ in 0..5 {
        let drawn: u64 = source.get_rng().random();
        assert_eq!(drawn, reference.random::<u64>());
    }
    assert_eq!(source.seed(), Some(7));

    // a copy goes on from the same state, and the source with it
    let mut copy = source.duplicate();
    let next: u64 = reference.random();
    assert_eq!(copy.get_rng().random::<u64>(), next);
    assert_eq!(source.get_rng().random::<u64>(), next);
    assert_eq!(copy.seed(), Some(7));
}

#[test]
fn a_generator_without_a_seed_has_none() {
    let mut source = MaybeSeededRng::new(None);
    let _: u64 = source.get_rng().random();
    assert_eq!(source.seed(), None);
}
