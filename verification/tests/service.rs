use bandits::accountant::Accountant;
use bandits::config::{AccountantConfig, AppConfig, ExperimentCacheConfig, ExperimentConfig};
use bandits::double::Double;
use bandits::errors::{
    ApiError, ExperimentError, MailboxFailure, PersistenceError, PolicyError, RepositoryError,
};
use bandits::experiment::{DeleteState, Experiment, LoadState, SaveState};
use bandits::policies::arm::MeanStep;
use bandits::policies::epsilon_greedy::{Decay, EpsilonGreedy};
use bandits::policies::thomson_sampling::{Aging, Posterior, PosteriorStep};
use bandits::policies::ucb::Bound;
use bandits::policies::ledger::PolicyStats;
use bandits::policies::policy::{DrawResult, Policy, PolicyType};
use bandits::repository::Repository;
use bandits::requests::{experiment_id, named};
use bandits::responses::{AddExperimentArmResponse, DrawResponse};
use bandits::state_store::StateStore;
use bandits::table::Table;
use rand::rngs::SmallRng;
use rand::Rng;
use std::cell::RefCell;
use std::rc::Rc;
use uuid::Uuid;

const EPSILON: f64 = 0.01;
const DEFAULT_SEED: Option<u64> = Some(1234);

type Address = Rc<RefCell<Experiment>>;

fn d(x: f64) -> Double {
    Double::from_bits(x.to_bits())
}

fn f(x: Double) -> f64 {
    f64::from_bits(x.to_bits())
}

fn make_policy() -> Policy {
    PolicyType::EpsilonGreedy { epsilon: d(EPSILON), epsilon_decay: None, seed: DEFAULT_SEED }
        .into_inner()
}

fn greedy(policy: &mut Policy) -> &mut EpsilonGreedy {
    match policy {
        Policy::EpsilonGreedy(policy) => policy,
        _ => unreachable!(),
    }
}

fn start(id: u128, policy: Policy, save_every: u64) -> Address {
    Rc::new(RefCell::new(Experiment::new(id, Some(policy), save_every)))
}

fn store_config() -> ExperimentCacheConfig {
    ExperimentCacheConfig { path: String::from("state-store.json"), persist_every: 86_400 }
}

fn new_repository() -> Repository<Address> {
    Repository::new(ExperimentConfig { save_every: 86_400 })
}

fn send<T>(
    repository: &Repository<Address>,
    id: u128,
    command: impl FnOnce(&mut Experiment) -> Result<T, ExperimentError>,
) -> Result<T, RepositoryError> {
    let address = repository.get_experiment_address(id)?;
    let answer = command(&mut address.borrow_mut());
    Repository::<Address>::settle(id, Ok(answer))
}

fn ping(repository: &Repository<Address>, id: u128) -> Result<(), RepositoryError> {
    send(repository, id, |experiment| {
        experiment.ping();
        Ok(())
    })
}

fn posterior(alpha: f64, beta: f64) -> Posterior {
    Posterior { alpha: d(alpha), beta: d(beta), mean: d(alpha / (alpha + beta)) }
}

fn prior(reward: Double, count: u64) -> Posterior {
    posterior(1.0 + f(reward), 1.0 + (count as f64) - f(reward))
}

fn uniform(rng: &mut SmallRng) -> Double {
    d(rng.random::<f64>())
}

fn decayed(question: Decay) -> Double {
    question.epsilon
}

fn bound(question: Bound) -> Double {
    let spread = f(question.alpha) * (question.total_count as f64).ln()
        / (2.0 * (question.count as f64));
    d(f(question.mean) + spread.sqrt())
}

fn discounted(question: Aging) -> Posterior {
    question.posterior
}

fn sampler(_: &mut SmallRng, posterior: Posterior) -> Option<Double> {
    Some(posterior.mean)
}

fn running_mean(step: MeanStep) -> Double {
    d(f(step.mean) + (f(step.reward) - f(step.mean)) / (step.count as f64))
}

fn rewarded(step: PosteriorStep) -> Posterior {
    posterior(
        f(step.aging.posterior.alpha) + f(step.reward),
        f(step.aging.posterior.beta) + 1.0 - f(step.reward),
    )
}

fn add_arm(
    repository: &Repository<Address>,
    id: u128,
    reward: Option<f64>,
    count: Option<u64>,
) -> Result<usize, RepositoryError> {
    send(repository, id, |experiment| experiment.add_arm(reward.map(d), count, d(0.0), &prior))
}

fn stats(repository: &Repository<Address>, id: u128) -> Result<PolicyStats, RepositoryError> {
    send(repository, id, |experiment| experiment.get_stats())
}

fn draw_from(experiment: &mut Experiment) -> Result<DrawResult, ExperimentError> {
    experiment.draw(d(0.0), &uniform, &decayed, &bound, &discounted, &sampler)
}

fn draw(repository: &Repository<Address>, id: u128) -> Result<DrawResult, RepositoryError> {
    send(repository, id, draw_from)
}

fn update(
    repository: &Repository<Address>,
    id: u128,
    timestamp: f64,
    arm_id: usize,
    reward: f64,
) -> Result<(), RepositoryError> {
    send(repository, id, |experiment| {
        experiment.update(d(timestamp), arm_id, d(reward), &running_mean, &rewarded)
    })
}

fn batch_update(
    repository: &Repository<Address>,
    id: u128,
    updates: Vec<(f64, usize, f64)>,
) -> Result<(), RepositoryError> {
    let batch: Vec<(Double, usize, Double)> =
        updates.iter().map(|(at, arm, reward)| (d(*at), *arm, d(*reward))).collect();
    send(repository, id, |experiment| experiment.update_batch(&batch, &running_mean, &rewarded))
}

#[test]
fn create_and_ping_experiment() {
    let mut repository = new_repository();
    let experiment_id = repository.create_experiment(None, make_policy(), &start);

    ping(&repository, experiment_id).expect("experiment should respond to ping");

    assert!(repository.iter_experiments().iter().any(|(id, policy)| {
        *id == experiment_id
            && matches!(policy, PolicyType::EpsilonGreedy { epsilon, .. } if f(*epsilon) == EPSILON)
    }));
}

#[test]
fn manages_arm_lifecycle() {
    let mut repository = new_repository();
    let experiment_id = repository.create_experiment(None, make_policy(), &start);

    let arm_id = add_arm(&repository, experiment_id, Some(1.0), Some(1))
        .expect("arm creation should succeed");

    let mut stats_now = stats(&repository, experiment_id).expect("stats should be available");
    let arm_stats = stats_now.arms.get(&arm_id).expect("arm should exist");
    assert_eq!(arm_stats.pulls, 1);
    assert!(arm_stats.is_active);

    send(&repository, experiment_id, |experiment| experiment.disable_arm(arm_id))
        .expect("disable should succeed");
    stats_now = stats(&repository, experiment_id).expect("stats after disable");
    assert!(!stats_now.arms[&arm_id].is_active);

    send(&repository, experiment_id, |experiment| experiment.enable_arm(arm_id))
        .expect("enable should succeed");
    stats_now = stats(&repository, experiment_id).expect("stats after enable");
    assert!(stats_now.arms[&arm_id].is_active);

    let drawn = draw(&repository, experiment_id).expect("draw should succeed");
    assert_eq!(drawn.arm_id, arm_id);

    update(&repository, experiment_id, 42.0, arm_id, 2.0).expect("update should succeed");
    batch_update(&repository, experiment_id, vec![(1.0, arm_id, 3.0), (2.0, arm_id, 1.0)])
        .expect("batch update should succeed");

    stats_now = stats(&repository, experiment_id).expect("stats after updates");
    assert_eq!(stats_now.arms[&arm_id].pulls, 4);
    assert!((f(stats_now.arms[&arm_id].mean_reward) - 1.75).abs() < 1e-6);

    send(&repository, experiment_id, |experiment| {
        experiment.reset(Some(arm_id), Some(d(0.0)), Some(0), d(0.0), &prior)
    })
    .expect("reset should succeed");
    stats_now = stats(&repository, experiment_id).expect("stats after reset");
    let arm_stats = stats_now.arms.get(&arm_id).expect("arm present after reset");
    assert_eq!(arm_stats.pulls, 0);
    assert_eq!(f(arm_stats.mean_reward), 0.0);

    send(&repository, experiment_id, |experiment| experiment.delete_arm(arm_id))
        .expect("delete arm should succeed");
    stats_now = stats(&repository, experiment_id).expect("stats after delete");
    assert!(stats_now.arms.get(&arm_id).is_none());

    let address =
        repository.delete_experiment(experiment_id).expect("delete experiment should succeed");
    assert_eq!(address.borrow().delete(), DeleteState { experiment_id });
    assert!(!repository.iter_experiments().iter().any(|(id, _)| *id == experiment_id));

    let err = ping(&repository, experiment_id).expect_err("ping should fail after deletion");
    match err {
        RepositoryError::ExperimentNotFound(id) => {
            assert_eq!(id, experiment_id)
        }
        other => panic!("unexpected error: {other:?}"),
    }
}

#[test]
fn loads_experiments_from_state_store() {
    let mut repository = new_repository();
    let mut state_store = StateStore::new(store_config(), None);
    let experiment_id = Uuid::new_v4().as_u128();

    let mut saved_policy = make_policy();
    greedy(&mut saved_policy).add_arm(d(5.0), 2);

    state_store.save(SaveState { experiment_id, policy: saved_policy });

    repository
        .load_experiments(Ok(state_store.load_all()), &start)
        .expect("loading from state store should succeed");

    assert!(repository.iter_experiments().iter().any(|(id, _)| *id == experiment_id));

    let stats_now = stats(&repository, experiment_id).expect("stats should be retrievable");
    assert_eq!(stats_now.arms.len(), 1);
    let arm = stats_now.arms.values().next().expect("arm data present");
    assert_eq!(arm.pulls, 2);
    assert_eq!(f(arm.mean_reward), 5.0);
}

#[test]
fn an_experiment_reloads_its_policy_after_a_restart() {
    let experiment_id: u128 = 0xa1a2a3a4b1b2c1c2d1d2d3d4d5d6d7d8;
    let mut state_store = StateStore::new(store_config(), None);
    let mut experiment = Experiment::new(experiment_id, Some(make_policy()), 30);
    assert_eq!(experiment.started(), None);
    greedy(experiment.with_policy_mut().unwrap()).add_arm(d(5.0), 2);

    let save = experiment.persist().expect("an experiment with a policy has a snapshot");
    assert_eq!(save.experiment_id, experiment_id);
    state_store.save(save);

    let mut restarted = Experiment::new(experiment_id, None, 30);
    restarted.ping();
    assert!(matches!(restarted.get_stats(), Err(ExperimentError::NoPolicy)));
    assert!(matches!(restarted.disable_arm(0), Err(ExperimentError::NoPolicy)));
    assert!(matches!(restarted.enable_arm(0), Err(ExperimentError::NoPolicy)));
    assert!(matches!(restarted.delete_arm(0), Err(ExperimentError::NoPolicy)));
    assert!(matches!(restarted.with_policy_mut(), Err(ExperimentError::NoPolicy)));
    assert!(matches!(draw_from(&mut restarted), Err(ExperimentError::NoPolicy)));
    assert!(matches!(
        restarted.add_arm(None, None, d(0.0), &prior),
        Err(ExperimentError::NoPolicy)
    ));
    assert!(matches!(
        restarted.reset(None, None, None, d(0.0), &prior),
        Err(ExperimentError::NoPolicy)
    ));
    assert!(matches!(
        restarted.update(d(0.0), 0, d(1.0), &running_mean, &rewarded),
        Err(ExperimentError::NoPolicy)
    ));
    assert!(matches!(
        restarted.update_batch(&Vec::new(), &running_mean, &rewarded),
        Err(ExperimentError::NoPolicy)
    ));
    assert!(matches!(restarted.with_policy(), Err(ExperimentError::NoPolicy)));
    assert!(restarted.persist().is_none());

    let request = restarted.started().expect("an experiment without a policy asks for one");
    assert_eq!(request, LoadState { experiment_id });
    restarted.reloaded(state_store.load(request));

    let stats_now = restarted.get_stats().expect("the policy is back");
    assert_eq!(stats_now.arms.len(), 1);
    assert_eq!(stats_now.arms[&0].pulls, 2);
    assert_eq!(f(stats_now.arms[&0].mean_reward), 5.0);
    assert!(stats_now.arms[&0].is_active);
    assert_eq!(restarted.id(), experiment_id);
    assert_eq!(restarted.save_every(), 30);
}

#[test]
fn a_reload_without_a_snapshot_changes_nothing() {
    let state_store = StateStore::new(store_config(), None);
    let mut experiment = Experiment::new(7, None, 30);
    experiment.reloaded(state_store.load(LoadState { experiment_id: 7 }));
    assert!(matches!(experiment.get_stats(), Err(ExperimentError::NoPolicy)));
}

#[test]
fn an_experiment_passes_the_policys_errors_on() {
    let mut experiment = Experiment::new(7, Some(make_policy()), 30);
    assert!(matches!(
        experiment.delete_arm(3),
        Err(ExperimentError::PolicyError(PolicyError::ArmNotFound(3)))
    ));
    assert!(matches!(
        experiment.disable_arm(3),
        Err(ExperimentError::PolicyError(PolicyError::ArmNotFound(3)))
    ));
    assert!(matches!(
        experiment.enable_arm(3),
        Err(ExperimentError::PolicyError(PolicyError::ArmNotFound(3)))
    ));
    assert!(matches!(
        experiment.update(d(0.0), 3, d(1.0), &running_mean, &rewarded),
        Err(ExperimentError::PolicyError(PolicyError::ArmNotFound(3)))
    ));
    assert!(matches!(
        experiment.reset(Some(3), None, None, d(0.0), &prior),
        Err(ExperimentError::PolicyError(PolicyError::ArmNotFound(3)))
    ));
    assert!(matches!(
        draw_from(&mut experiment),
        Err(ExperimentError::PolicyError(PolicyError::NoArmsAvailable))
    ));
    assert!(experiment.reset(None, None, None, d(0.0), &prior).is_ok());
}

#[test]
fn an_experiment_runs_each_algorithm_with_its_kernels() {
    let described = [
        PolicyType::EpsilonGreedy { epsilon: d(0.0), epsilon_decay: None, seed: Some(1) },
        PolicyType::Ucb { alpha: d(1.0), seed: Some(1) },
        PolicyType::ThomsonSampling { halflife_seconds: None, seed: Some(1) },
    ];
    for policy_type in described {
        let mut experiment = Experiment::new(1, Some(policy_type.into_inner()), 30);
        let poor = experiment.add_arm(None, None, d(0.0), &prior).unwrap();
        let rich = experiment.add_arm(Some(d(0.0)), Some(0), d(0.0), &prior).unwrap();
        assert_eq!((poor, rich), (0, 1));
        let batch = vec![(d(2.0), rich, d(1.0)), (d(1.0), poor, d(0.0))];
        assert!(experiment.update_batch(&batch, &running_mean, &rewarded).is_ok());
        assert!(experiment.update(d(3.0), rich, d(1.0), &running_mean, &rewarded).is_ok());
        let report = experiment.get_stats().unwrap();
        assert_eq!((report.arms[&poor].pulls, report.arms[&rich].pulls), (1, 2));
        assert!(f(report.arms[&rich].mean_reward) > f(report.arms[&poor].mean_reward));
        for _ in 0..10 {
            assert_eq!(draw_from(&mut experiment).unwrap().arm_id, rich);
        }
        assert!(experiment.reset(Some(rich), None, None, d(4.0), &prior).is_ok());
        assert_eq!(experiment.get_stats().unwrap().arms[&rich].pulls, 0);
        assert_eq!(experiment.with_policy().unwrap().policy_type(), policy_type);
        assert_eq!(experiment.with_policy().unwrap().total_count(), Some(1));
        assert!(experiment.with_policy().unwrap().can_take(&batch));
    }
}

#[test]
fn the_state_store_saves_loads_and_deletes() {
    let mut store = StateStore::new(store_config(), None);
    assert_eq!(store.len(), 0);
    assert!(store.persist().is_none());
    assert_eq!(store.config().persist_every, 86_400);

    let mut policy = make_policy();
    greedy(&mut policy).add_arm(d(0.25), 4);
    store.save(SaveState { experiment_id: 1, policy });
    store.save(SaveState { experiment_id: 2, policy: make_policy() });
    assert_eq!(store.len(), 2);

    let loaded = store.load(LoadState { experiment_id: 1 }).expect("saved");
    assert_eq!(loaded.stats().arms[&0].pulls, 4);
    assert!(store.load(LoadState { experiment_id: 3 }).is_none());

    // a later snapshot takes the place of the earlier one
    store.save(SaveState { experiment_id: 1, policy: make_policy() });
    assert_eq!(store.len(), 2);
    assert!(store.load(LoadState { experiment_id: 1 }).unwrap().stats().arms.is_empty());

    let written = store.persist().expect("a store with entries is written");
    assert_eq!(written.len(), 2);
    assert_eq!(store.load_all().len(), 2);

    store.delete(DeleteState { experiment_id: 1 });
    store.delete(DeleteState { experiment_id: 1 });
    assert_eq!(store.len(), 1);
    assert!(store.load(LoadState { experiment_id: 1 }).is_none());
    assert!(store.load(LoadState { experiment_id: 2 }).is_some());
}

#[test]
fn the_state_store_starts_with_what_was_read() {
    let mut read: Table<u128, Policy> = Table::new();
    read.put(11, make_policy());
    let store = StateStore::new(store_config(), Some(read));
    assert_eq!(store.len(), 1);
    assert!(store.load(LoadState { experiment_id: 11 }).is_some());
}

#[test]
fn a_snapshot_is_independent_of_the_policy() {
    let mut policy = make_policy();
    greedy(&mut policy).add_arm(d(1.0), 1);
    let snapshot = policy.clone_snapshot();
    greedy(&mut policy).add_arm(d(2.0), 2);
    assert!(policy.delete_arm(0).is_ok());
    assert_eq!(snapshot.stats().arms.len(), 1);
    assert_eq!(snapshot.stats().arms[&0].pulls, 1);
    assert_eq!(snapshot.policy_type(), policy.policy_type());
}

#[test]
fn a_command_to_a_missing_experiment_is_not_found() {
    let mut repository = new_repository();
    assert!(matches!(
        repository.get_experiment_address(5),
        Err(RepositoryError::ExperimentNotFound(5))
    ));
    assert!(matches!(
        repository.delete_experiment(5),
        Err(RepositoryError::ExperimentNotFound(5))
    ));
    let id = repository.create_experiment(Some(5), make_policy(), &start);
    assert_eq!(id, 5);
    assert!(repository.get_experiment_address(5).is_ok());
    assert!(repository.delete_experiment(5).is_ok());
    assert!(matches!(
        repository.delete_experiment(5),
        Err(RepositoryError::ExperimentNotFound(5))
    ));
}

#[test]
fn the_repository_lists_and_clears() {
    let mut repository = new_repository();
    assert_eq!(repository.experiment_config(), ExperimentConfig { save_every: 86_400 });
    repository.create_experiment(Some(9), make_policy(), &start);
    let ucb = PolicyType::Ucb { alpha: d(1.0), seed: None };
    repository.create_experiment(Some(3), ucb.into_inner(), &start);
    let listed = repository.iter_experiments();
    assert_eq!(listed.len(), 2);
    assert_eq!(listed[0].0, 9);
    assert_eq!(listed[1], (3, ucb));
    repository.register(9, ucb, start(9, ucb.into_inner(), 1));
    assert_eq!(repository.iter_experiments()[0], (9, ucb));
    repository.clear();
    assert!(repository.iter_experiments().is_empty());
}

#[test]
fn new_identifiers_differ() {
    let mut repository = new_repository();
    let one = repository.create_experiment(None, make_policy(), &start);
    let two = repository.create_experiment(None, make_policy(), &start);
    assert_ne!(one, two);
    assert_eq!(repository.iter_experiments().len(), 2);
    assert_eq!(Uuid::from_u128(one).get_version_num(), 4);
}

#[test]
fn an_unanswered_load_is_reported_as_unavailable_storage() {
    let mut repository = new_repository();
    repository.create_experiment(Some(1), make_policy(), &start);
    let done = repository.load_experiments(Err(MailboxFailure::Closed), &start);
    assert!(matches!(done, Err(RepositoryError::StorageUnavailable)));
    assert_eq!(repository.iter_experiments().len(), 1);
}

#[test]
fn a_failed_dispatch_is_reported_as_an_unavailable_experiment() {
    let timeout: Result<Result<(), ExperimentError>, MailboxFailure> =
        Err(MailboxFailure::Timeout);
    assert!(matches!(
        Repository::<Address>::settle(4, timeout),
        Err(RepositoryError::ExperimentUnavailable(4))
    ));
    let refused: Result<Result<(), ExperimentError>, MailboxFailure> =
        Ok(Err(ExperimentError::NoPolicy));
    assert!(matches!(
        Repository::<Address>::settle(4, refused),
        Err(RepositoryError::Experiment(ExperimentError::NoPolicy))
    ));
    let fine: Result<Result<u8, ExperimentError>, MailboxFailure> = Ok(Ok(3));
    assert!(matches!(Repository::<Address>::settle(4, fine), Ok(3)));
    assert!(matches!(
        Repository::<Address>::unavailable(8, MailboxFailure::Closed),
        RepositoryError::ExperimentUnavailable(8)
    ));
}

fn api(error: RepositoryError) -> ApiError {
    ApiError::from(error)
}

#[test]
fn every_error_has_its_status_and_kind() {
    let invalid = ApiError::InvalidUuid(String::from("bad"));
    assert_eq!((invalid.status_code(), invalid.kind()), (400, "InvalidUuid"));

    let missing = api(RepositoryError::ExperimentNotFound(1));
    assert_eq!((missing.status_code(), missing.kind()), (404, "RepositoryError"));

    let unreachable = api(RepositoryError::ExperimentUnavailable(1));
    assert_eq!((unreachable.status_code(), unreachable.kind()), (503, "MailboxError"));

    let storage = api(RepositoryError::StorageUnavailable);
    assert_eq!((storage.status_code(), storage.kind()), (503, "MailboxError"));

    let no_policy = api(RepositoryError::from(ExperimentError::NoPolicy));
    assert_eq!((no_policy.status_code(), no_policy.kind()), (400, "RepositoryError"));

    for policy_error in [
        PolicyError::NoArmsAvailable,
        PolicyError::ArmNotFound(2),
        PolicyError::SamplingError(String::from("alpha")),
    ] {
        let refused = api(RepositoryError::from(ExperimentError::from(policy_error)));
        assert_eq!((refused.status_code(), refused.kind()), (400, "RepositoryError"));
    }

    for persistence in [
        PersistenceError::Io(String::from("disk")),
        PersistenceError::Serialization(String::from("text")),
    ] {
        let failed = ApiError::from(persistence);
        assert_eq!((failed.status_code(), failed.kind()), (500, "PersistenceError"));
    }
}

#[test]
fn a_request_names_its_experiment_by_a_uuid() {
    let id = experiment_id("a1a2a3a4-b1b2-c1c2-d1d2-d3d4d5d6d7d8").expect("a UUID");
    assert_eq!(id, 0xa1a2a3a4b1b2c1c2d1d2d3d4d5d6d7d8);
    assert_eq!(experiment_id("a1a2a3a4b1b2c1c2d1d2d3d4d5d6d7d8").ok(), Some(id));
    assert_eq!(experiment_id(&Uuid::from_u128(7).to_string()).ok(), Some(7));
    assert_eq!(named(Ok(9)).ok(), Some(9));
    assert!(matches!(
        named(Err(String::from("odd"))),
        Err(ApiError::InvalidUuid(cause)) if cause == "odd"
    ));
    for text in ["", "seven", "a1a2a3a4-b1b2-c1c2-d1d2-d3d4d5d6d7d", "7"] {
        let refused = experiment_id(text).expect_err("no UUID");
        assert!(matches!(&refused, ApiError::InvalidUuid(cause) if !cause.is_empty()));
        assert_eq!((refused.status_code(), refused.kind()), (400, "InvalidUuid"));
    }
}

#[test]
fn the_settings_are_put_together() {
    let config = AppConfig::from_env(
        String::from("info"),
        String::from("127.0.0.1"),
        8080,
        String::from("state.json"),
        60,
        30,
    );
    assert_eq!(config.server.log_level, "info");
    assert_eq!(config.server.host, "127.0.0.1");
    assert_eq!(config.server.port, 8080);
    assert_eq!(config.experiment_cache.path, "state.json");
    assert_eq!(config.experiment_cache.persist_every, 60);
    assert_eq!(config.experiment.save_every, 30);
    assert_eq!(Accountant::new(config.accountant).config(), AccountantConfig {});
}

#[test]
fn answers_carry_what_the_policy_returned() {
    let drawn = DrawResult { timestamp: d(12.5), arm_id: 3 };
    assert_eq!(DrawResponse::from(drawn), DrawResponse { timestamp: d(12.5), arm_id: 3 });
    assert_eq!(AddExperimentArmResponse { arm_id: 2 }.arm_id, 2);
}
