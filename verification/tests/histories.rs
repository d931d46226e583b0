use bandits::double::Double;
use bandits::errors::PolicyError;
use bandits::policies::arm::MeanStep;
use bandits::policies::epsilon_greedy::{Decay, EpsilonGreedy};
use bandits::policies::policy::{DecayType, PolicyType};
use bandits::policies::ucb::Ucb;
use bandits::table::ArmTable;
use rand::rngs::SmallRng;
use rand::Rng;

const SEED: u64 = 1234;

fn d(x: f64) -> Double {
    Double::from_bits(x.to_bits())
}

fn f(x: Double) -> f64 {
    f64::from_bits(x.to_bits())
}

fn uniform(rng: &mut SmallRng) -> Double {
    d(rng.random::<f64>())
}

fn decayed(question: Decay) -> Double {
    let total = question.total_count as f64;
    let epsilon = f(question.epsilon);
    d(match question.decay {
        DecayType::Exponential { decay } => epsilon * (-f(decay) * total).exp(),
        DecayType::Inverse { decay } => epsilon / (1.0 + f(decay) * total),
        DecayType::Linear { decay, .. } => epsilon - f(decay) * total,
    })
}

fn running_mean(step: MeanStep) -> Double {
    d(f(step.mean) + (f(step.reward) - f(step.mean)) / (step.count as f64))
}

fn epsilon_with_decay(policy: &EpsilonGreedy) -> f64 {
    f(policy.epsilon_with_decay(&decayed))
}

fn draw(policy: &mut EpsilonGreedy) -> Result<usize, PolicyError> {
    policy.draw(d(0.0), &uniform, &decayed).map(|drawn| drawn.arm_id)
}

fn update(policy: &mut EpsilonGreedy, at: f64, arm_id: usize, reward: f64) -> Result<(), PolicyError> {
    policy.update(d(at), arm_id, d(reward), &running_mean)
}

fn update_all(policy: &mut EpsilonGreedy, updates: &[(f64, usize, f64)]) -> Result<(), PolicyError> {
    let batch: Vec<(Double, usize, Double)> =
        updates.iter().map(|(at, arm, reward)| (d(*at), *arm, d(*reward))).collect();
    policy.update_batch(&batch, &running_mean)
}

#[test]
fn a_greedy_policy_draws_the_best_arm() {
    let mut policy = EpsilonGreedy::new(d(0.0), None, Some(SEED));
    let best = policy.add_arm(d(0.0), 0);
    let _ = policy.add_arm(d(0.0), 0);
    assert!(update(&mut policy, 0.0, best, 1.0).is_ok());
    for _ in 0..50 {
        assert_eq!(draw(&mut policy).ok(), Some(best));
    }
}

#[test]
fn a_greedy_policy_keeps_running_means() {
    let mut policy = EpsilonGreedy::new(d(0.0), None, Some(SEED));
    let a1 = policy.add_arm(d(0.0), 0);
    let a2 = policy.add_arm(d(0.0), 0);
    assert!(update_all(&mut policy, &[(0.0, a2, 0.0), (1.0, a1, 1.0), (2.0, a2, 0.0)]).is_ok());
    let one = *policy.arms().get(a1).unwrap();
    let two = *policy.arms().get(a2).unwrap();
    assert_eq!((one.count, f(one.reward)), (1, 1.0));
    assert_eq!((two.count, f(two.reward)), (2, 0.0));
}

#[test]
fn a_batch_is_applied_in_ascending_order_of_time() {
    // A kernel that keeps the last reward shows the order: applied as
    // given, the arm would be left with the reward of time 2; applied by
    // time, it is left with the one of time 3.
    let last = |step: MeanStep| step.reward;
    let mut policy = EpsilonGreedy::new(d(0.0), None, Some(SEED));
    let arm = policy.add_arm(d(0.0), 0);
    let updates = vec![(d(3.0), arm, d(33.0)), (d(1.0), arm, d(11.0)), (d(2.0), arm, d(22.0))];
    assert!(policy.update_batch(&updates, &last).is_ok());
    let state = *policy.arms().get(arm).unwrap();
    assert_eq!((state.count, f(state.reward)), (3, 33.0));

    // The running mean depends on the order too: 1, 0, 4 in this order give
    // ((1 + 0) / 2 * 2 + 4) / 3.
    let mut by_time = EpsilonGreedy::new(d(0.0), None, Some(SEED));
    let arm = by_time.add_arm(d(0.0), 0);
    assert!(update_all(&mut by_time, &[(3.0, arm, 4.0), (1.0, arm, 1.0), (2.0, arm, 0.0)]).is_ok());
    let mut one_by_one = EpsilonGreedy::new(d(0.0), None, Some(SEED));
    let arm = one_by_one.add_arm(d(0.0), 0);
    for (at, reward) in [(1.0, 1.0), (2.0, 0.0), (3.0, 4.0)] {
        assert!(update(&mut one_by_one, at, arm, reward).is_ok());
    }
    assert_eq!(
        f(by_time.arms().get(arm).unwrap().reward),
        f(one_by_one.arms().get(arm).unwrap().reward)
    );
    assert_eq!(f(by_time.arms().get(arm).unwrap().reward), 0.5 + (4.0 - 0.5) / 3.0);
}

#[test]
fn the_kernel_is_asked_with_the_arms_mean_the_reward_and_the_new_count() {
    let mut policy = EpsilonGreedy::new(d(0.0), None, Some(SEED));
    let arm = policy.add_arm(d(0.25), 7);
    let echo = |step: MeanStep| {
        assert_eq!((f(step.mean), f(step.reward), step.count), (0.25, 3.0, 8));
        d(0.75)
    };
    assert!(policy.update(d(9.0), arm, d(3.0), &echo).is_ok());
    let state = *policy.arms().get(arm).unwrap();
    assert_eq!((state.count, f(state.reward)), (8, 0.75));
    assert!(policy.update_given(d(9.0), arm, d(0.5)).is_ok());
    let state = *policy.arms().get(arm).unwrap();
    assert_eq!((state.count, f(state.reward)), (9, 0.5));
}

#[test]
fn an_empty_batch_succeeds_and_changes_nothing() {
    let mut policy = EpsilonGreedy::new(d(0.1), None, Some(SEED));
    let arm = policy.add_arm(d(0.5), 3);
    assert!(policy.update_batch(&Vec::new(), &running_mean).is_ok());
    let state = *policy.arms().get(arm).unwrap();
    assert_eq!((state.count, f(state.reward), state.is_active), (3, 0.5, true));
    assert_eq!(policy.arms().len(), 1);
}

#[test]
fn a_batch_stops_at_the_first_missing_arm() {
    let mut policy = EpsilonGreedy::new(d(0.1), None, Some(SEED));
    let arm = policy.add_arm(d(0.0), 0);
    let updates = vec![(d(5.0), arm, d(0.5)), (d(4.0), 8, d(0.0)), (d(3.0), arm, d(1.0))];
    assert!(matches!(
        policy.update_batch(&updates, &running_mean),
        Err(PolicyError::ArmNotFound(8))
    ));
    let state = *policy.arms().get(arm).unwrap();
    assert_eq!((state.count, f(state.reward)), (1, 1.0));
}

#[test]
fn linear_decay_falls_to_its_floor() {
    let decay = DecayType::Linear { decay: d(0.01), min_epsilon: d(0.01) };
    let mut policy = EpsilonGreedy::new(d(0.1), Some(decay), Some(SEED));
    let first = policy.add_arm(d(0.0), 0);
    let second = policy.add_arm(d(0.0), 0);
    for n in 0..3 {
        assert!(update(&mut policy, n as f64, if n % 2 == 0 { first } else { second }, 1.0).is_ok());
    }
    assert_eq!(policy.total_count(), Some(3));
    assert!((epsilon_with_decay(&policy) - 0.07).abs() < 1e-12);
    for n in 3..13 {
        assert!(update(&mut policy, n as f64, if n % 2 == 0 { first } else { second }, 1.0).is_ok());
    }
    assert_eq!(policy.total_count(), Some(13));
    assert_eq!(epsilon_with_decay(&policy), 0.01);
}

#[test]
fn a_batch_is_taken_while_no_count_runs_over() {
    let mut policy = EpsilonGreedy::new(d(0.0), None, Some(SEED));
    let full = policy.add_arm(d(0.0), u64::MAX);
    let nearly = policy.add_arm(d(0.0), u64::MAX - 2);
    let fresh = policy.add_arm(d(0.0), 0);

    // rewards for other arms do not touch a full count
    let batch = vec![(d(1.0), fresh, d(1.0)), (d(2.0), nearly, d(1.0)), (d(3.0), nearly, d(1.0))];
    assert!(policy.can_take(&batch));
    assert!(policy.can_take(&Vec::new()));
    // a third reward would run the count over, a reward for the full arm does at once
    let mut over = batch.clone();
    over.push((d(0.5), nearly, d(1.0)));
    assert!(!policy.can_take(&over));
    assert!(!policy.can_take(&vec![(d(0.0), full, d(1.0))]));
    // what stands behind the first missing arm is not taken in
    let stopped = vec![(d(9.0), full, d(1.0)), (d(8.0), 77, d(1.0)), (d(7.0), fresh, d(1.0))];
    assert!(policy.can_take(&stopped));
    let early = vec![(d(7.5), full, d(1.0)), (d(8.0), 77, d(1.0)), (d(7.0), fresh, d(1.0))];
    assert!(!policy.can_take(&early));

    assert!(policy.update_batch(&batch, &running_mean).is_ok());
    assert_eq!(policy.arms().get(nearly).unwrap().count, u64::MAX);
    assert!(matches!(
        policy.update_batch(&stopped, &running_mean),
        Err(PolicyError::ArmNotFound(77))
    ));
    assert_eq!(policy.arms().get(fresh).unwrap().count, 2);
    assert_eq!(policy.arms().get(full).unwrap().count, u64::MAX);
}

#[test]
fn pulls_count_the_updates_since_creation_or_reset() {
    let mut policy = EpsilonGreedy::new(d(0.1), None, Some(SEED));
    let arm = policy.add_arm(d(0.0), 0);
    let other = policy.add_arm(d(0.0), 0);
    for n in 0..5 {
        assert!(update(&mut policy, n as f64, arm, 1.0).is_ok());
    }
    assert!(update(&mut policy, 9.0, 42, 1.0).is_err());
    assert_eq!(policy.stats().arms[&arm].pulls, 5);
    assert_eq!(policy.stats().arms[&other].pulls, 0);
    assert!(policy.reset(Some(arm), None, None).is_ok());
    assert_eq!(policy.stats().arms[&arm].pulls, 0);
    assert!(update(&mut policy, 10.0, arm, 1.0).is_ok());
    assert_eq!(policy.stats().arms[&arm].pulls, 1);
    assert!(policy.reset(None, Some(d(9.0)), Some(9)).is_ok());
    assert_eq!(policy.stats().arms[&arm].pulls, 0);
    assert_eq!(f(policy.stats().arms[&arm].mean_reward), 0.0);
}

#[test]
fn a_disabled_arm_is_never_drawn() {
    let mut policy = EpsilonGreedy::new(d(1.0), None, Some(SEED));
    let off = policy.add_arm(d(9.0), 1);
    let on = policy.add_arm(d(0.0), 1);
    let also_on = policy.add_arm(d(0.0), 1);
    assert!(policy.disable_arm(off).is_ok());
    let mut seen = [false; 3];
    for _ in 0..200 {
        let arm = draw(&mut policy).unwrap();
        assert_ne!(arm, off);
        seen[arm] = true;
    }
    assert!(seen[on] && seen[also_on]);
    assert!(policy.enable_arm(off).is_ok());
    let mut back = false;
    for _ in 0..200 {
        back = back || draw(&mut policy).unwrap() == off;
    }
    assert!(back);
}

#[test]
fn a_draw_succeeds_while_an_arm_is_active() {
    let mut policy = EpsilonGreedy::new(d(0.5), None, None);
    assert!(matches!(draw(&mut policy), Err(PolicyError::NoArmsAvailable)));
    let arm = policy.add_arm(d(0.0), 0);
    for _ in 0..50 {
        assert_eq!(draw(&mut policy).unwrap(), arm);
    }
    assert!(policy.disable_arm(arm).is_ok());
    for _ in 0..50 {
        assert!(matches!(draw(&mut policy), Err(PolicyError::NoArmsAvailable)));
    }
}

#[test]
fn deleting_a_missing_arm_is_refused() {
    let mut policy = EpsilonGreedy::new(d(0.5), None, None);
    assert!(matches!(policy.delete_arm(0), Err(PolicyError::ArmNotFound(0))));
    assert!(matches!(policy.disable_arm(4), Err(PolicyError::ArmNotFound(4))));
    assert!(matches!(policy.enable_arm(4), Err(PolicyError::ArmNotFound(4))));
    assert!(matches!(policy.reset(Some(4), None, None), Err(PolicyError::ArmNotFound(4))));
    assert!(matches!(
        policy.update(d(0.0), 4, d(1.0), &running_mean),
        Err(PolicyError::ArmNotFound(4))
    ));
    assert!(matches!(policy.update_given(d(0.0), 4, d(1.0)), Err(PolicyError::ArmNotFound(4))));
}

#[test]
fn the_same_seed_gives_the_same_draws() {
    let mut one = EpsilonGreedy::new(d(0.5), None, Some(SEED));
    let mut two = EpsilonGreedy::new(d(0.5), None, Some(SEED));
    for policy in [&mut one, &mut two] {
        for n in 0..4 {
            policy.add_arm(d(n as f64 / 10.0), n);
        }
    }
    for n in 0..100 {
        let a = draw(&mut one).unwrap();
        let b = draw(&mut two).unwrap();
        assert_eq!(a, b);
        assert!(update(&mut one, n as f64, a, 1.0).is_ok());
        assert!(update(&mut two, n as f64, b, 1.0).is_ok());
    }
    assert_eq!(one.stats().arms, two.stats().arms);

    let mut first = Ucb::new(d(1.0), Some(SEED));
    let mut second = Ucb::new(d(1.0), Some(SEED));
    for policy in [&mut first, &mut second] {
        for _ in 0..6 {
            policy.add_arm(d(0.0), 0);
        }
    }
    let none: ArmTable<Double> = ArmTable::new();
    for _ in 0..6 {
        let a = first.draw_given(d(0.0), &none).unwrap().arm_id;
        let b = second.draw_given(d(0.0), &none).unwrap().arm_id;
        assert_eq!(a, b);
        assert!(first.update_given(d(0.0), a, d(1.0)).is_ok());
        assert!(second.update_given(d(0.0), b, d(1.0)).is_ok());
    }
    assert_eq!(first.total_count(), Some(6));
}

#[test]
fn a_restored_policy_reports_what_its_source_reports() {
    let mut policy = EpsilonGreedy::new(d(0.1), None, Some(SEED));
    let first = policy.add_arm(d(0.25), 4);
    let _ = policy.add_arm(d(0.75), 2);
    assert!(policy.disable_arm(first).is_ok());

    let snapshot = policy.clone_snapshot();
    let described = snapshot.policy_type();
    let mut written: Vec<(usize, u64, u64, bool)> = Vec::new();
    for place in 0..snapshot.arms().len() {
        let arm = snapshot.arms().value_at(place);
        written.push((snapshot.arms().key_at(place), arm.reward.to_bits(), arm.count, arm.is_active));
    }

    let mut arms = ArmTable::new();
    for (id, reward, count, is_active) in written {
        arms.put(id, bandits::policies::arm::MeanArm {
            reward: Double::from_bits(reward),
            count,
            is_active,
        });
    }
    let restored = match described {
        PolicyType::EpsilonGreedy { epsilon, epsilon_decay, seed } => {
            EpsilonGreedy::restore(epsilon, epsilon_decay, seed, arms)
        }
        _ => unreachable!(),
    };
    assert_eq!(restored.stats().arms, policy.stats().arms);
    assert_eq!(restored.policy_type(), policy.policy_type());
}
