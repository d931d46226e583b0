use bandits::double::Double;
use bandits::errors::PolicyError;
use bandits::policies::policy::{DrawResult, PolicyType};
use bandits::policies::arm::MeanStep;
use bandits::policies::ucb::{Bound, Ucb};
use bandits::table::ArmTable;
use std::time::{SystemTime, UNIX_EPOCH};

const SEED: u64 = 1234;

fn d(x: f64) -> Double {
    Double::from_bits(x.to_bits())
}

fn f(x: Double) -> f64 {
    f64::from_bits(x.to_bits())
}

fn now() -> f64 {
    SystemTime::now().duration_since(UNIX_EPOCH).unwrap_or_default().as_secs_f64()
}

fn bound(question: Bound) -> Double {
    let spread = f(question.alpha) * (question.total_count as f64).ln()
        / (2.0 * (question.count as f64));
    d(f(question.mean) + spread.sqrt())
}

fn running_mean(step: MeanStep) -> Double {
    d(f(step.mean) + (f(step.reward) - f(step.mean)) / (step.count as f64))
}

fn draw(policy: &mut Ucb) -> Result<DrawResult, PolicyError> {
    policy.draw(d(now()), &bound)
}

fn update(policy: &mut Ucb, timestamp: f64, arm_id: usize, reward: f64) -> Result<(), PolicyError> {
    policy.update(d(timestamp), arm_id, d(reward), &running_mean)
}

fn update_all(policy: &mut Ucb, updates: &[(f64, usize, f64)]) -> Result<(), PolicyError> {
    let batch: Vec<(Double, usize, Double)> =
        updates.iter().map(|(at, arm, reward)| (d(*at), *arm, d(*reward))).collect();
    policy.update_batch(&batch, &running_mean)
}

fn active_count(policy: &Ucb) -> usize {
    policy.stats().arms.values().filter(|arm| arm.is_active).count()
}

#[test]
fn ucb_create_arm() {
    let mut policy = Ucb::new(d(1.0), Some(SEED));
    assert!(policy.arms().len() == 0);

    let arm_id = policy.add_arm(d(0.0), 0);
    assert!(policy.arms().contains(arm_id))
}

#[test]
fn ucb_disable_arm() {
    let mut policy = Ucb::new(d(1.0), Some(SEED));
    let arm_id = policy.add_arm(d(0.0), 0);

    assert!(policy.disable_arm(arm_id).is_ok());
    assert_eq!(active_count(&policy), 0);
}

#[test]
fn ucb_enable_arm() {
    let mut policy = Ucb::new(d(1.0), Some(SEED));
    let arm_id = policy.add_arm(d(0.0), 0);

    assert!(policy.disable_arm(arm_id).is_ok());
    assert_eq!(active_count(&policy), 0);
    assert!(policy.enable_arm(arm_id).is_ok());
    assert_eq!(active_count(&policy), 1);
}

#[test]
fn ucb_delete_arm() {
    let mut policy = Ucb::new(d(1.0), Some(SEED));
    let arm_id = policy.add_arm(d(0.0), 0);
    assert!(policy.delete_arm(arm_id).is_ok());
    assert!(!policy.arms().contains(arm_id));
    assert!(policy.delete_arm(arm_id).is_err());
}

#[test]
fn ucb_draw() {
    let mut policy = Ucb::new(d(1.0), Some(SEED));
    let arm_id = policy.add_arm(d(0.0), 0);
    let result = draw(&mut policy).ok().map(|DrawResult { arm_id, .. }| arm_id);
    assert_eq!(result, Some(arm_id));
}

#[test]
fn ucb_draw_best() {
    let mut policy = Ucb::new(d(1.0), Some(SEED));
    let arm_1 = policy.add_arm(d(0.0), 0);
    let arm_2 = policy.add_arm(d(0.0), 0);

    assert!(policy.reset(Some(arm_1), Some(d(1.0)), Some(1)).is_ok());
    assert!(policy.reset(Some(arm_2), Some(d(0.0)), Some(1)).is_ok());

    let result = draw(&mut policy).ok().map(|DrawResult { arm_id, .. }| arm_id);
    assert_eq!(result, Some(arm_1));
}

#[test]
fn ucb_draw_empty() {
    let mut policy = Ucb::new(d(1.0), Some(SEED));
    assert!(draw(&mut policy).is_err());
}

#[test]
fn ucb_update() {
    let mut policy = Ucb::new(d(1.0), Some(SEED));
    let _ = policy.add_arm(d(0.0), 0);
    let _ = policy.add_arm(d(0.0), 0);

    let DrawResult { timestamp, arm_id } = draw(&mut policy).unwrap();

    assert!(update(&mut policy, f(timestamp) + 1.0, arm_id, 1.0).is_ok());
    assert_eq!(policy.arms().get(arm_id).map(|arm| f(arm.reward)), Some(1.0));
}

#[test]
fn ucb_update_batch() {
    let mut policy = Ucb::new(d(1.0), Some(SEED));
    let _ = policy.add_arm(d(0.0), 0);
    let _ = policy.add_arm(d(0.0), 0);

    let draws = (0..3).map(|_| draw(&mut policy).unwrap()).collect::<Vec<DrawResult>>();
    let updates = draws
        .iter()
        .map(|draw| (f(draw.timestamp) + 1.0, draw.arm_id, 1.0))
        .collect::<Vec<(f64, usize, f64)>>();

    assert!(update_all(&mut policy, &updates).is_ok());
    updates.iter().for_each(|(_, arm_id, reward)| {
        assert_eq!(f(policy.arms().get(*arm_id).unwrap().reward), *reward);
    });
}

#[test]
fn ucb_warm_up_picks_among_the_unpulled_arms() {
    let mut policy = Ucb::new(d(1.0), Some(SEED));
    let first = policy.add_arm(d(0.0), 0);
    let second = policy.add_arm(d(0.0), 0);
    assert!(update(&mut policy, 1.0, first, 1.0).is_ok());

    for _ in 0..20 {
        assert_eq!(draw(&mut policy).unwrap().arm_id, second);
    }
}

#[test]
fn ucb_after_warm_up_the_better_arm_dominates() {
    let mut policy = Ucb::new(d(1.0), Some(SEED));
    let first = policy.add_arm(d(0.0), 0);
    let second = policy.add_arm(d(0.0), 0);
    assert!(update(&mut policy, 1.0, first, 1.0).is_ok());
    assert!(update(&mut policy, 2.0, second, 0.0).is_ok());

    // N = 2, count = 1 each: the bounds are equal, so the means decide.
    let given = policy.scores(&bound);
    let spread = (2.0f64.ln() / 2.0).sqrt();
    assert_eq!(f(*given.get(first).unwrap()), 1.0 + spread);
    assert_eq!(f(*given.get(second).unwrap()), 0.0 + spread);
    for _ in 0..3 {
        assert_eq!(draw(&mut policy).unwrap().arm_id, first);
    }
}

#[test]
fn ucb_ties_go_to_the_first_arm_in_table_order() {
    let mut policy = Ucb::new(d(1.0), None);
    let first = policy.add_arm(d(0.5), 3);
    let second = policy.add_arm(d(0.5), 3);
    let mut given = ArmTable::new();
    given.put(second, d(2.0));
    given.put(first, d(2.0));
    let drawn = policy.draw_given(d(7.0), &given).unwrap();
    assert_eq!(drawn.arm_id, first);
    assert_eq!(f(drawn.timestamp), 7.0);
}

#[test]
fn ucb_an_arm_without_a_score_is_passed_over() {
    let mut policy = Ucb::new(d(1.0), None);
    let first = policy.add_arm(d(0.9), 3);
    let second = policy.add_arm(d(0.1), 3);
    let mut given = ArmTable::new();
    given.put(second, d(0.1));
    assert_eq!(policy.draw_given(d(0.0), &given).unwrap().arm_id, second);

    let nothing: ArmTable<Double> = ArmTable::new();
    assert!(matches!(policy.draw_given(d(0.0), &nothing), Err(PolicyError::NoArmsAvailable)));
    assert!(policy.arms().contains(first));
}

#[test]
fn ucb_a_nan_score_never_takes_over() {
    let mut policy = Ucb::new(d(1.0), None);
    let first = policy.add_arm(d(0.0), 1);
    let second = policy.add_arm(d(0.0), 1);
    let mut given = ArmTable::new();
    given.put(first, d(0.25));
    given.put(second, d(f64::NAN));
    assert_eq!(policy.draw_given(d(0.0), &given).unwrap().arm_id, first);
}

#[test]
fn ucb_describes_itself() {
    let policy = Ucb::new(d(2.5), Some(7));
    assert_eq!(policy.policy_type(), PolicyType::Ucb { alpha: d(2.5), seed: Some(7) });
}

#[test]
fn ucb_total_count_leaves_out_disabled_arms_and_reports_overflow() {
    let mut policy = Ucb::new(d(1.0), None);
    let first = policy.add_arm(d(0.0), 4);
    let _ = policy.add_arm(d(0.0), 6);
    assert_eq!(policy.total_count(), Some(10));
    assert!(policy.disable_arm(first).is_ok());
    assert_eq!(policy.total_count(), Some(6));
    let _ = policy.add_arm(d(0.0), u64::MAX);
    assert_eq!(policy.total_count(), None);
}
