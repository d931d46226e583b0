use bandits::double::Double;
use bandits::errors::PolicyError;
use bandits::policies::policy::{DrawResult, PolicyType};
use bandits::policies::thomson_sampling::{
    Aging, Posterior, PosteriorStep, ThomsonSampling, ThomsonSamplingArm,
};
use bandits::table::ArmTable;
use rand::rngs::SmallRng;
use rand_distr::{Beta, Distribution};
use std::time::{SystemTime, UNIX_EPOCH};

const EPS: f64 = 1e-6;
const DEFAULT_SEED: Option<u64> = Some(1234);

fn d(x: f64) -> Double {
    Double::from_bits(x.to_bits())
}

fn f(x: Double) -> f64 {
    f64::from_bits(x.to_bits())
}

fn now() -> f64 {
    SystemTime::now().duration_since(UNIX_EPOCH).unwrap_or_default().as_secs_f64()
}

fn posterior(alpha: f64, beta: f64) -> Posterior {
    Posterior { alpha: d(alpha), beta: d(beta), mean: d(alpha / (alpha + beta)) }
}

fn prior(reward: Double, count: u64) -> Posterior {
    posterior(1.0 + f(reward), 1.0 + (count as f64) - f(reward))
}

fn discounted(question: Aging) -> Posterior {
    let decay = match question.halflife_seconds {
        Some(halflife) => {
            (-(f(question.at) - f(question.last_ts)) * std::f64::consts::LN_2 / f(halflife)).exp()
        }
        None => 1.0,
    };
    posterior(
        (f(question.posterior.alpha) * decay).max(EPS),
        (f(question.posterior.beta) * decay).max(EPS),
    )
}

fn learned(step: PosteriorStep) -> Posterior {
    let aged = discounted(step.aging);
    posterior(f(aged.alpha) + f(step.reward), f(aged.beta) + 1.0 - f(step.reward))
}

fn sampler(rng: &mut SmallRng, posterior: Posterior) -> Option<Double> {
    Beta::new(f(posterior.alpha), f(posterior.beta)).ok().map(|beta| d(beta.sample(rng)))
}

fn apply_discount(arm: &mut ThomsonSamplingArm, timestamp: f64) {
    let aged = discounted(arm.aging_at(d(timestamp)));
    arm.apply_discount(d(timestamp), aged);
}

fn make_policy() -> ThomsonSampling {
    ThomsonSampling::new(None, DEFAULT_SEED)
}

fn add_arm(policy: &mut ThomsonSampling, reward: f64, count: u64) -> usize {
    policy.add_arm(d(reward), count, d(now()), &prior)
}

fn draw(policy: &mut ThomsonSampling) -> Result<DrawResult, PolicyError> {
    policy.draw(d(now()), &discounted, &sampler)
}

fn update(
    policy: &mut ThomsonSampling,
    timestamp: f64,
    arm_id: usize,
    reward: f64,
) -> Result<(), PolicyError> {
    policy.update(d(timestamp), arm_id, d(reward), &learned)
}

fn update_all(
    policy: &mut ThomsonSampling,
    updates: &[(f64, usize, f64)],
) -> Result<(), PolicyError> {
    let batch: Vec<(Double, usize, Double)> =
        updates.iter().map(|(at, arm, reward)| (d(*at), *arm, d(*reward))).collect();
    policy.update_batch(&batch, &learned)
}

fn active_count(policy: &ThomsonSampling) -> usize {
    policy.stats().arms.values().filter(|arm| arm.is_active).count()
}

fn test_arm(halflife_seconds: Option<f64>, last_ts: f64) -> ThomsonSamplingArm {
    ThomsonSamplingArm {
        alpha: d(1.0),
        beta: d(1.0),
        mean: d(0.5),
        count: 0,
        halflife_seconds: halflife_seconds.map(d),
        last_ts: d(last_ts),
        is_active: true,
    }
}

#[test]
fn thomson_sampling_create_arm() {
    let mut policy = make_policy();
    assert!(policy.arms().len() == 0);

    let arm_id = add_arm(&mut policy, 0.0, 0);
    assert!(policy.arms().contains(arm_id))
}

#[test]
fn thomson_sampling_disable_arm() {
    let mut policy = make_policy();
    let arm_id = add_arm(&mut policy, 0.0, 0);

    assert!(policy.disable_arm(arm_id).is_ok());
    assert_eq!(active_count(&policy), 0);
}

#[test]
fn thomson_sampling_enable_arm() {
    let mut policy = make_policy();
    let arm_id = add_arm(&mut policy, 0.0, 0);

    assert!(policy.disable_arm(arm_id).is_ok());
    assert_eq!(active_count(&policy), 0);
    assert!(policy.enable_arm(arm_id).is_ok());
    assert_eq!(active_count(&policy), 1);
}

#[test]
fn thomson_sampling_delete_arm() {
    let mut policy = make_policy();
    let arm_id = add_arm(&mut policy, 0.0, 0);
    assert!(policy.delete_arm(arm_id).is_ok());
    assert!(!policy.arms().contains(arm_id));
    assert!(policy.delete_arm(arm_id).is_err());
}

#[test]
fn thomson_sampling_draw() {
    let mut policy = make_policy();
    let arm_id = add_arm(&mut policy, 0.0, 0);
    let result = draw(&mut policy).ok().map(|DrawResult { arm_id, .. }| arm_id);
    assert_eq!(result, Some(arm_id));
}

#[test]
fn thomson_sampling_draw_best() {
    let mut policy = make_policy();
    let arm_1 = add_arm(&mut policy, 0.0, 0);
    let _ = add_arm(&mut policy, 0.0, 0);

    let raised = posterior(1.0 + 100.0, 1.0);
    assert!(policy.reset_given(Some(arm_1), Some((raised, 0)), d(now())).is_ok());
    let result = draw(&mut policy).ok().map(|DrawResult { arm_id, .. }| arm_id);
    assert_eq!(result, Some(arm_1));
}

#[test]
fn thomson_sampling_draw_empty() {
    let mut policy = make_policy();
    assert!(draw(&mut policy).is_err());
}

#[test]
fn thomson_sampling_update() {
    let mut policy = make_policy();
    let _ = add_arm(&mut policy, 0.0, 0);
    let _ = add_arm(&mut policy, 0.0, 0);

    let DrawResult { timestamp, arm_id } = draw(&mut policy).unwrap();

    assert!(update(&mut policy, f(timestamp) + 1.0, arm_id, 1.0).is_ok());
    println!("{:?}", policy.stats());
    assert_eq!(policy.arms().get(arm_id).map(|arm| f(arm.alpha)), Some(2.0));
    assert_eq!(policy.arms().get(arm_id).map(|arm| f(arm.beta)), Some(1.0));
}

#[test]
fn thomson_sampling_update_batch() {
    let mut policy = make_policy();
    let _ = add_arm(&mut policy, 0.0, 0);
    let _ = add_arm(&mut policy, 0.0, 0);

    let draws = (0..3).map(|_| draw(&mut policy).unwrap()).collect::<Vec<DrawResult>>();
    let updates = draws
        .iter()
        .map(|draw| (f(draw.timestamp) + 1.0, draw.arm_id, 1.0))
        .collect::<Vec<(f64, usize, f64)>>();

    assert!(update_all(&mut policy, &updates).is_ok());
}

#[test]
fn no_discount() {
    let mut arm = test_arm(None, 0.0);
    apply_discount(&mut arm, 1.0); // dt = 1s
    assert!((f(arm.alpha) - 1.0).abs() < EPS);
    assert!((f(arm.beta) - 1.0).abs() < EPS);
}

#[test]
fn no_time_discount() {
    let mut arm = test_arm(Some(60.0), 0.0);
    apply_discount(&mut arm, 0.0); // dt = 0s
    assert!((f(arm.alpha) - 1.0).abs() < EPS);
    assert!((f(arm.beta) - 1.0).abs() < EPS);
}

#[test]
fn discount() {
    let mut arm = test_arm(Some(60.0), 0.0);
    apply_discount(&mut arm, 60.0); // dt = 60s
    assert!((f(arm.alpha) - 0.5).abs() < EPS);
    assert!((f(arm.beta) - 0.5).abs() < EPS);
    assert_eq!(f(arm.last_ts), 60.0);
    assert_eq!(arm.count, 0);
}

#[test]
fn thomson_sampling_add_arm_keeps_the_prior() {
    let mut policy = ThomsonSampling::new(Some(d(60.0)), None);
    let arm_id = policy.add_arm(d(3.0), 5, d(12.0), &prior);
    let arm = *policy.arms().get(arm_id).unwrap();
    assert_eq!(arm.halflife_seconds, Some(d(60.0)));
    assert_eq!(f(arm.alpha), 4.0);
    assert_eq!(f(arm.beta), 3.0);
    assert_eq!(arm.count, 5);
    assert_eq!(f(arm.last_ts), 12.0);
    assert!(arm.is_active);
    let stats = policy.stats();
    assert_eq!(stats.arms[&arm_id].pulls, 5);
    assert_eq!(f(stats.arms[&arm_id].mean_reward), 4.0 / 7.0);
}

#[test]
fn thomson_sampling_reset_without_prior_gives_the_flat_posterior() {
    let mut policy = make_policy();
    let arm_id = policy.add_arm(d(3.0), 5, d(1.0), &prior);
    assert!(policy.disable_arm(arm_id).is_ok());
    assert!(policy.reset(Some(arm_id), None, Some(4), d(2.0), &prior).is_ok());
    let arm = *policy.arms().get(arm_id).unwrap();
    assert_eq!(f(arm.alpha), 1.0);
    assert_eq!(f(arm.beta), 1.0);
    assert_eq!(f(arm.mean), 0.5);
    assert_eq!(arm.count, 0);
    assert_eq!(f(arm.last_ts), 2.0);
    assert!(!arm.is_active);
    assert_eq!(Posterior::uniform(), posterior(1.0, 1.0));
    assert!(matches!(
        policy.reset(Some(9), Some(d(1.0)), Some(1), d(2.0), &prior),
        Err(PolicyError::ArmNotFound(9))
    ));
    assert!(policy.reset(Some(arm_id), Some(d(2.0)), Some(6), d(3.0), &prior).is_ok());
    let arm = *policy.arms().get(arm_id).unwrap();
    assert_eq!((f(arm.alpha), f(arm.beta), arm.count, f(arm.last_ts)), (3.0, 5.0, 6, 3.0));
    assert!(!arm.is_active);
    assert!(policy.reset(None, Some(d(2.0)), Some(6), d(4.0), &prior).is_ok());
    let arm = *policy.arms().get(arm_id).unwrap();
    assert_eq!((f(arm.alpha), f(arm.beta), arm.count, f(arm.last_ts)), (1.0, 1.0, 0, 4.0));
}

#[test]
fn thomson_sampling_draw_discounts_only_active_arms() {
    let mut policy = ThomsonSampling::new(Some(d(60.0)), None);
    let first = policy.add_arm(d(0.0), 0, d(0.0), &prior);
    let second = policy.add_arm(d(0.0), 0, d(0.0), &prior);
    assert!(policy.disable_arm(second).is_ok());

    let drawn = policy.draw(d(60.0), &discounted, &sampler).unwrap();
    assert_eq!(drawn.arm_id, first);
    assert_eq!(f(drawn.timestamp), 60.0);

    let one = *policy.arms().get(first).unwrap();
    assert!((f(one.alpha) - 0.5).abs() < EPS && (f(one.beta) - 0.5).abs() < EPS);
    assert_eq!(f(one.last_ts), 60.0);
    let two = *policy.arms().get(second).unwrap();
    assert_eq!((f(two.alpha), f(two.beta), f(two.last_ts)), (1.0, 1.0, 0.0));
}

#[test]
fn thomson_sampling_given_posteriors_and_samples_are_taken_as_they_are() {
    let mut policy = ThomsonSampling::new(Some(d(60.0)), None);
    let first = policy.add_arm_given(posterior(1.0, 1.0), 0, d(0.0));
    let second = policy.add_arm_given(posterior(1.0, 1.0), 0, d(0.0));
    let third = policy.add_arm_given(posterior(1.0, 1.0), 0, d(0.0));
    assert!(policy.disable_arm(second).is_ok());

    let mut posteriors = ArmTable::new();
    posteriors.put(first, posterior(0.5, 0.5));
    posteriors.put(second, posterior(0.5, 0.5));
    policy.apply_discount_given(d(60.0), &posteriors);
    let one = *policy.arms().get(first).unwrap();
    assert_eq!((f(one.alpha), f(one.beta), f(one.last_ts)), (0.5, 0.5, 60.0));
    let two = *policy.arms().get(second).unwrap();
    assert_eq!((f(two.alpha), f(two.beta), f(two.last_ts)), (1.0, 1.0, 0.0));
    let three = *policy.arms().get(third).unwrap();
    assert_eq!((f(three.alpha), f(three.beta), f(three.last_ts)), (1.0, 1.0, 0.0));

    let mut samples = ArmTable::new();
    samples.put(first, d(0.3));
    samples.put(second, d(0.9));
    assert_eq!(policy.draw_given(d(60.0), &samples).unwrap().arm_id, first);
    samples.put(third, d(0.3));
    assert_eq!(policy.draw_given(d(60.0), &samples).unwrap().arm_id, first);
    samples.put(third, d(0.4));
    assert_eq!(policy.draw_given(d(60.0), &samples).unwrap().arm_id, third);
    let nothing: ArmTable<Double> = ArmTable::new();
    assert!(matches!(policy.draw_given(d(60.0), &nothing), Err(PolicyError::NoArmsAvailable)));
}

#[test]
fn thomson_sampling_an_arm_without_a_sample_is_passed_over() {
    // A posterior with a parameter that is not positive cannot be sampled.
    let mut policy = make_policy();
    let broken = policy.add_arm_given(posterior(-4.0, 1.0), 0, d(0.0));
    assert!(matches!(
        policy.draw(d(0.0), &|aging: Aging| aging.posterior, &sampler),
        Err(PolicyError::NoArmsAvailable)
    ));
    let sound = policy.add_arm_given(posterior(1.0, 1.0), 0, d(0.0));
    for _ in 0..20 {
        let drawn = policy.draw(d(0.0), &|aging: Aging| aging.posterior, &sampler).unwrap();
        assert_eq!(drawn.arm_id, sound);
    }
    assert!(policy.arms().contains(broken));
}

#[test]
fn thomson_sampling_update_after_one_halflife() {
    let mut policy = ThomsonSampling::new(Some(d(60.0)), None);
    let arm_id = policy.add_arm(d(0.0), 0, d(0.0), &prior);
    assert!(update(&mut policy, 60.0, arm_id, 1.0).is_ok());
    let arm = *policy.arms().get(arm_id).unwrap();
    assert!((f(arm.alpha) - 1.5).abs() < EPS);
    assert!((f(arm.beta) - 0.5).abs() < EPS);
    assert_eq!(arm.count, 1);
    assert_eq!(f(arm.last_ts), 60.0);
}

#[test]
fn thomson_sampling_batch_stops_at_the_first_missing_arm() {
    let mut policy = make_policy();
    let arm_id = policy.add_arm(d(0.0), 0, d(0.0), &prior);
    let updates = vec![(d(3.0), arm_id, d(0.0)), (d(2.0), 17, d(1.0)), (d(1.0), arm_id, d(1.0))];
    assert!(matches!(policy.update_batch(&updates, &learned), Err(PolicyError::ArmNotFound(17))));
    let arm = *policy.arms().get(arm_id).unwrap();
    assert_eq!((f(arm.alpha), f(arm.beta), arm.count, f(arm.last_ts)), (2.0, 1.0, 1, 1.0));
}

#[test]
fn thomson_sampling_update_given_takes_the_posterior_as_it_is() {
    let mut policy = make_policy();
    let arm_id = policy.add_arm(d(0.0), 0, d(0.0), &prior);
    assert!(policy.update_given(d(5.0), arm_id, posterior(9.0, 3.0)).is_ok());
    let arm = *policy.arms().get(arm_id).unwrap();
    assert_eq!((f(arm.alpha), f(arm.beta), f(arm.mean)), (9.0, 3.0, 0.75));
    assert_eq!((arm.count, f(arm.last_ts)), (1, 5.0));
    assert!(matches!(
        policy.update_given(d(5.0), 3, posterior(9.0, 3.0)),
        Err(PolicyError::ArmNotFound(3))
    ));
}

#[test]
fn thomson_sampling_describes_itself() {
    let policy = ThomsonSampling::new(Some(d(60.0)), Some(5));
    assert_eq!(
        policy.policy_type(),
        PolicyType::ThomsonSampling { halflife_seconds: Some(d(60.0)), seed: Some(5) }
    );
}
