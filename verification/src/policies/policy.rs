//! What a draw returns and how a policy is described.
use crate::double::Double;
use crate::errors::PolicyError;
use crate::policies::arm::{ArmStats, MeanArm, MeanStep};
use crate::policies::epsilon_greedy::{Decay, EpsilonGreedy, EpsilonGreedyState};
use crate::policies::ledger;
use crate::policies::ledger::PolicyStats;
use crate::policies::thomson_sampling::{
    Aging, Posterior, PosteriorStep, ThomsonSampling, ThomsonSamplingState,
};
use crate::policies::ucb::{Bound, Ucb, UcbState};
use crate::table::{distinct_keys, keys_of};
use rand::rngs::SmallRng;
use vstd::prelude::*;

verus! {

/// The outcome of a draw: the arm chosen and the time of the draw.
#[derive(Clone, Copy, Debug, PartialEq, Eq, Structural)]
pub struct DrawResult {
    /// Seconds since the epoch, as the caller's clock gave them.
    pub timestamp: Double,
    /// The handle of the arm.
    pub arm_id: usize,
}

/// How the exploration rate of an epsilon-greedy policy falls as the pulls
/// of its active arms add up to `n`.
#[derive(Clone, Copy, Debug, PartialEq, Eq, Structural)]
pub enum DecayType {
    /// `epsilon * exp(-decay * n)`.
    Exponential { decay: Double },
    /// `epsilon / (1 + decay * n)`.
    Inverse { decay: Double },
    /// `max(epsilon - decay * n, min_epsilon)`.
    Linear { decay: Double, min_epsilon: Double },
}

/// The description of a policy: the algorithm and its parameters, without
/// any arm.
#[derive(Clone, Copy, Debug, PartialEq, Eq, Structural)]
pub enum PolicyType {
    EpsilonGreedy { epsilon: Double, epsilon_decay: Option<DecayType>, seed: Option<u64> },
    ThomsonSampling { halflife_seconds: Option<Double>, seed: Option<u64> },
    Ucb { alpha: Double, seed: Option<u64> },
}

} // verus!

verus! {

/// A live policy: one of the three algorithms with its arms.
pub enum Policy {
    EpsilonGreedy(EpsilonGreedy),
    ThomsonSampling(ThomsonSampling),
    Ucb(Ucb),
}

/// What a policy is, but for the state of its generator.
pub enum PolicyState {
    EpsilonGreedy(EpsilonGreedyState),
    ThomsonSampling(ThomsonSamplingState),
    Ucb(UcbState),
}

impl PolicyState {
    /// The description of the policy.
    pub open spec fn described(self) -> PolicyType {
        match self {
            PolicyState::EpsilonGreedy(state) => PolicyType::EpsilonGreedy {
                epsilon: state.epsilon,
                epsilon_decay: state.epsilon_decay,
                seed: state.seed,
            },
            PolicyState::ThomsonSampling(state) => PolicyType::ThomsonSampling {
                halflife_seconds: state.halflife_seconds,
                seed: state.seed,
            },
            PolicyState::Ucb(state) => PolicyType::Ucb { alpha: state.alpha, seed: state.seed },
        }
    }

    /// The policy of that description before it has any arm.
    pub open spec fn empty(described: PolicyType) -> PolicyState {
        match described {
            PolicyType::EpsilonGreedy { epsilon, epsilon_decay, seed } => PolicyState::EpsilonGreedy(
                EpsilonGreedyState { arms: Seq::empty(), epsilon, epsilon_decay, seed },
            ),
            PolicyType::ThomsonSampling { halflife_seconds, seed } => PolicyState::ThomsonSampling(
                ThomsonSamplingState { halflife_seconds, arms: Seq::empty(), seed },
            ),
            PolicyType::Ucb { alpha, seed } => PolicyState::Ucb(
                UcbState { arms: Seq::empty(), alpha, seed },
            ),
        }
    }

    /// Whether no handle occurs twice among the arms.
    pub open spec fn distinct(self) -> bool {
        match self {
            PolicyState::EpsilonGreedy(state) => distinct_keys(state.arms),
            PolicyState::ThomsonSampling(state) => distinct_keys(state.arms),
            PolicyState::Ucb(state) => distinct_keys(state.arms),
        }
    }

    /// The handles of the arms.
    pub open spec fn handles(self) -> Set<usize> {
        match self {
            PolicyState::EpsilonGreedy(state) => keys_of(state.arms),
            PolicyState::ThomsonSampling(state) => keys_of(state.arms),
            PolicyState::Ucb(state) => keys_of(state.arms),
        }
    }

    /// The reports on the arms, by handle.
    pub open spec fn reports(self) -> Map<usize, ArmStats> {
        match self {
            PolicyState::EpsilonGreedy(state) => ledger::reports(state.arms),
            PolicyState::ThomsonSampling(state) => ledger::reports(state.arms),
            PolicyState::Ucb(state) => ledger::reports(state.arms),
        }
    }

    /// The handles that a draw may return: those of the arms switched on.
    pub open spec fn drawable(self) -> Seq<usize> {
        match self {
            PolicyState::EpsilonGreedy(state) => ledger::active_ids(state.arms),
            PolicyState::ThomsonSampling(state) => ledger::active_ids(state.arms),
            PolicyState::Ucb(state) => ledger::active_ids(state.arms),
        }
    }

    /// The policy after the arm under the handle is switched on or off.
    pub open spec fn switched(self, id: usize, on: bool) -> PolicyState {
        match self {
            PolicyState::EpsilonGreedy(state) => PolicyState::EpsilonGreedy(
                EpsilonGreedyState { arms: ledger::switch(state.arms, id, on), ..state },
            ),
            PolicyState::ThomsonSampling(state) => PolicyState::ThomsonSampling(
                ThomsonSamplingState { arms: ledger::switch(state.arms, id, on), ..state },
            ),
            PolicyState::Ucb(state) => PolicyState::Ucb(
                UcbState { arms: ledger::switch(state.arms, id, on), ..state },
            ),
        }
    }

    /// The policy after the arm under the handle is deleted.
    pub open spec fn without(self, id: usize) -> PolicyState {
        match self {
            PolicyState::EpsilonGreedy(state) => PolicyState::EpsilonGreedy(
                EpsilonGreedyState { arms: ledger::without(state.arms, id), ..state },
            ),
            PolicyState::ThomsonSampling(state) => PolicyState::ThomsonSampling(
                ThomsonSamplingState { arms: ledger::without(state.arms, id), ..state },
            ),
            PolicyState::Ucb(state) => PolicyState::Ucb(
                UcbState { arms: ledger::without(state.arms, id), ..state },
            ),
        }
    }

    /// Whether a draw can add up the pulls it needs: see the algorithms.
    pub open spec fn can_draw(self) -> bool {
        match self {
            PolicyState::EpsilonGreedy(state) => state.can_draw(),
            PolicyState::ThomsonSampling(_) => true,
            PolicyState::Ucb(state) => state.can_draw(),
        }
    }

    /// Whether the policy can take the batch of rewards in: no count runs
    /// over while the rewards are taken in, in ascending order of their
    /// timestamps, up to the first for a handle without an arm.
    pub open spec fn can_take(self, updates: Seq<(Double, usize, Double)>) -> bool {
        match self {
            PolicyState::EpsilonGreedy(state) => ledger::can_take(state.arms, updates),
            PolicyState::ThomsonSampling(state) => ledger::can_take(state.arms, updates),
            PolicyState::Ucb(state) => ledger::can_take(state.arms, updates),
        }
    }

    /// The pulls of the active arms, added up.
    pub open spec fn active_pulls(self) -> int {
        match self {
            PolicyState::EpsilonGreedy(state) => ledger::active_pulls(state.arms),
            PolicyState::ThomsonSampling(state) => ledger::active_pulls(state.arms),
            PolicyState::Ucb(state) => ledger::active_pulls(state.arms),
        }
    }

    /// The number of arms: the handle that the next arm gets.
    pub open spec fn next_handle(self) -> nat {
        match self {
            PolicyState::EpsilonGreedy(state) => state.arms.len(),
            PolicyState::ThomsonSampling(state) => state.arms.len(),
            PolicyState::Ucb(state) => state.arms.len(),
        }
    }

    /// Whether the policy `after` is this policy after an arm with the given
    /// reward and count is added under the handle. Under Thompson sampling
    /// the kernel computes the arm's posterior, and the arm's clock is set
    /// to `now`.
    pub open spec fn adds_by<P: Fn(Double, u64) -> Posterior>(
        self,
        prior: P,
        initial_reward: Double,
        initial_count: u64,
        now: Double,
        arm_id: usize,
        after: PolicyState,
    ) -> bool {
        match self {
            PolicyState::EpsilonGreedy(state) => after == PolicyState::EpsilonGreedy(
                EpsilonGreedyState {
                    arms: ledger::with_arm(
                        state.arms,
                        arm_id,
                        MeanArm { reward: initial_reward, count: initial_count, is_active: true },
                    ),
                    ..state
                },
            ),
            PolicyState::ThomsonSampling(state) => after is ThomsonSampling && state.adds_by(
                prior,
                initial_reward,
                initial_count,
                now,
                arm_id,
                after->ThomsonSampling_0,
            ),
            PolicyState::Ucb(state) => after == PolicyState::Ucb(
                UcbState {
                    arms: ledger::with_arm(
                        state.arms,
                        arm_id,
                        MeanArm { reward: initial_reward, count: initial_count, is_active: true },
                    ),
                    ..state
                },
            ),
        }
    }

    /// Whether the policy `after` and the outcome are those of a reset of
    /// one arm, or without a handle of all arms. Under Thompson sampling the
    /// kernel computes the posterior, and the clocks are set to `now`.
    pub open spec fn resets_by<P: Fn(Double, u64) -> Posterior>(
        self,
        prior: P,
        arm_id: Option<usize>,
        cumulative_reward: Option<Double>,
        count: Option<u64>,
        now: Double,
        after: PolicyState,
        done: Result<(), PolicyError>,
    ) -> bool {
        match self {
            PolicyState::EpsilonGreedy(state) => after == PolicyState::EpsilonGreedy(
                EpsilonGreedyState {
                    arms: ledger::reset_arms(
                        state.arms,
                        arm_id,
                        MeanArm::reset_values(cumulative_reward, count),
                        MeanArm::reset_values(None, None),
                    ),
                    ..state
                },
            ) && ledger::reset_done(state.arms, arm_id, done),
            PolicyState::ThomsonSampling(state) => after is ThomsonSampling && state.resets_by(
                prior,
                arm_id,
                cumulative_reward,
                count,
                now,
                after->ThomsonSampling_0,
                done,
            ),
            PolicyState::Ucb(state) => after == PolicyState::Ucb(
                UcbState {
                    arms: ledger::reset_arms(
                        state.arms,
                        arm_id,
                        MeanArm::reset_values(cumulative_reward, count),
                        MeanArm::reset_values(None, None),
                    ),
                    ..state
                },
            ) && ledger::reset_done(state.arms, arm_id, done),
        }
    }

    /// Whether the policy `after` and the outcome are those of a draw at the
    /// given time, each algorithm with its kernels.
    pub open spec fn draws_by<
        U: Fn(&mut SmallRng) -> Double,
        D: Fn(Decay) -> Double,
        B: Fn(Bound) -> Double,
        G: Fn(Aging) -> Posterior,
        S: Fn(&mut SmallRng, Posterior) -> Option<Double>,
    >(
        self,
        uniform: U,
        decayed: D,
        bound: B,
        discount: G,
        sampler: S,
        timestamp: Double,
        after: PolicyState,
        drawn: Result<DrawResult, PolicyError>,
    ) -> bool {
        match self {
            PolicyState::EpsilonGreedy(state) => after == self && state.draws_by(
                uniform,
                decayed,
                timestamp,
                drawn,
            ),
            PolicyState::ThomsonSampling(state) => after is ThomsonSampling && state.draws_by(
                discount,
                sampler,
                timestamp,
                after->ThomsonSampling_0,
                drawn,
            ),
            PolicyState::Ucb(state) => after == self && state.draws_by(bound, timestamp, drawn),
        }
    }

    /// Whether the policy `after` and the outcome are those of taking a
    /// reward in, each algorithm with its kernel. Nothing but the arms
    /// changes.
    pub open spec fn rewards_by<M: Fn(MeanStep) -> Double, L: Fn(PosteriorStep) -> Posterior>(
        self,
        mean: M,
        learned: L,
        timestamp: Double,
        arm_id: usize,
        reward: Double,
        after: PolicyState,
        done: Result<(), PolicyError>,
    ) -> bool {
        &&& after.described() == self.described()
        &&& match self {
            PolicyState::EpsilonGreedy(state) => after is EpsilonGreedy && ledger::reward_outcome(
                mean,
                state.arms,
                timestamp,
                arm_id,
                reward,
                after->EpsilonGreedy_0.arms,
                done,
            ),
            PolicyState::ThomsonSampling(state) => after is ThomsonSampling
                && ledger::reward_outcome(
                learned,
                state.arms,
                timestamp,
                arm_id,
                reward,
                after->ThomsonSampling_0.arms,
                done,
            ),
            PolicyState::Ucb(state) => after is Ucb && ledger::reward_outcome(
                mean,
                state.arms,
                timestamp,
                arm_id,
                reward,
                after->Ucb_0.arms,
                done,
            ),
        }
    }

    /// Whether the policy `after` and the outcome are those of taking a
    /// batch of rewards in, each algorithm with its kernel. Nothing but the
    /// arms changes.
    pub open spec fn batch_rewards_by<M: Fn(MeanStep) -> Double, L: Fn(PosteriorStep) -> Posterior>(
        self,
        mean: M,
        learned: L,
        updates: Seq<(Double, usize, Double)>,
        after: PolicyState,
        done: Result<(), PolicyError>,
    ) -> bool {
        &&& after.described() == self.described()
        &&& match self {
            PolicyState::EpsilonGreedy(state) => after is EpsilonGreedy && ledger::batch_outcome(
                mean,
                state.arms,
                updates,
                after->EpsilonGreedy_0.arms,
                done,
            ),
            PolicyState::ThomsonSampling(state) => after is ThomsonSampling
                && ledger::batch_outcome(
                learned,
                state.arms,
                updates,
                after->ThomsonSampling_0.arms,
                done,
            ),
            PolicyState::Ucb(state) => after is Ucb && ledger::batch_outcome(
                mean,
                state.arms,
                updates,
                after->Ucb_0.arms,
                done,
            ),
        }
    }
}

impl View for Policy {
    type V = PolicyState;

    open spec fn view(&self) -> PolicyState {
        match self {
            Policy::EpsilonGreedy(policy) => PolicyState::EpsilonGreedy(policy@),
            Policy::ThomsonSampling(policy) => PolicyState::ThomsonSampling(policy@),
            Policy::Ucb(policy) => PolicyState::Ucb(policy@),
        }
    }
}

impl PolicyType {
    /// A live policy of this description, without arms.
    pub fn into_inner(self) -> (policy: Policy)
        ensures
            policy.wf(),
            policy@ == PolicyState::empty(self),
    {
        match self {
            PolicyType::EpsilonGreedy { epsilon, epsilon_decay, seed } => Policy::EpsilonGreedy(
                EpsilonGreedy::new(epsilon, epsilon_decay, seed),
            ),
            PolicyType::ThomsonSampling { halflife_seconds, seed } => Policy::ThomsonSampling(
                ThomsonSampling::new(halflife_seconds, seed),
            ),
            PolicyType::Ucb { alpha, seed } => Policy::Ucb(Ucb::new(alpha, seed)),
        }
    }
}

impl Policy {
    /// What holds of every policy: no handle occurs twice.
    pub open spec fn wf(&self) -> bool {
        match self {
            Policy::EpsilonGreedy(policy) => policy.wf(),
            Policy::ThomsonSampling(policy) => policy.wf(),
            Policy::Ucb(policy) => policy.wf(),
        }
    }

    /// The invariant, stated over the view.
    pub proof fn wf_means_distinct(&self)
        requires
            self.wf(),
        ensures
            self@.distinct(),
    {
        match self {
            Policy::EpsilonGreedy(policy) => policy.wf_means_distinct(),
            Policy::ThomsonSampling(policy) => policy.wf_means_distinct(),
            Policy::Ucb(policy) => policy.wf_means_distinct(),
        }
    }

    /// The description of the policy.
    pub fn policy_type(&self) -> (described: PolicyType)
        ensures
            described == self@.described(),
    {
        match self {
            Policy::EpsilonGreedy(policy) => policy.policy_type(),
            Policy::ThomsonSampling(policy) => policy.policy_type(),
            Policy::Ucb(policy) => policy.policy_type(),
        }
    }

    /// An independent copy of the policy, as it is handed to the state store.
    pub fn clone_snapshot(&self) -> (copy: Policy)
        requires
            self.wf(),
        ensures
            copy.wf(),
            copy@ == self@,
    {
        match self {
            Policy::EpsilonGreedy(policy) => Policy::EpsilonGreedy(policy.clone_snapshot()),
            Policy::ThomsonSampling(policy) => Policy::ThomsonSampling(policy.clone_snapshot()),
            Policy::Ucb(policy) => Policy::Ucb(policy.clone_snapshot()),
        }
    }

    /// The pulls of the active arms, added up. None if the sum is beyond
    /// the range of the counter.
    pub fn total_count(&self) -> (total: Option<u64>)
        ensures
            self@.active_pulls() <= u64::MAX ==> total == Some(self@.active_pulls() as u64),
            self@.active_pulls() > u64::MAX ==> total is None,
    {
        match self {
            Policy::EpsilonGreedy(policy) => policy.total_count(),
            Policy::ThomsonSampling(policy) => policy.total_count(),
            Policy::Ucb(policy) => policy.total_count(),
        }
    }

    /// Whether the policy can take the batch of rewards in without a count
    /// running over.
    pub fn can_take(&self, updates: &Vec<(Double, usize, Double)>) -> (enough: bool)
        requires
            self.wf(),
        ensures
            enough == self@.can_take(updates@),
    {
        match self {
            Policy::EpsilonGreedy(policy) => policy.can_take(updates),
            Policy::ThomsonSampling(policy) => policy.can_take(updates),
            Policy::Ucb(policy) => policy.can_take(updates),
        }
    }

    /// Adds an arm with the given reward and count under the next handle,
    /// the number of arms held, and returns the handle. Under Thompson
    /// sampling the kernel is asked for the arm's posterior.
    pub fn add_arm<P: Fn(Double, u64) -> Posterior>(
        &mut self,
        initial_reward: Double,
        initial_count: u64,
        now: Double,
        prior: &P,
    ) -> (arm_id: usize)
        requires
            old(self).wf(),
            forall|reward: Double, pulls: u64| call_requires(prior, (reward, pulls)),
        ensures
            final(self).wf(),
            arm_id == old(self)@.next_handle(),
            old(self)@.adds_by(prior, initial_reward, initial_count, now, arm_id, final(self)@),
            final(self)@.handles() == old(self)@.handles().insert(arm_id),
    {
        match self {
            Policy::EpsilonGreedy(policy) => policy.add_arm(initial_reward, initial_count),
            Policy::ThomsonSampling(policy) => policy.add_arm(
                initial_reward,
                initial_count,
                now,
                prior,
            ),
            Policy::Ucb(policy) => policy.add_arm(initial_reward, initial_count),
        }
    }

    /// Resets one arm to the given reward and count, or without a handle
    /// all arms to no evidence. Switches stay as they are.
    pub fn reset<P: Fn(Double, u64) -> Posterior>(
        &mut self,
        arm_id: Option<usize>,
        cumulative_reward: Option<Double>,
        count: Option<u64>,
        now: Double,
        prior: &P,
    ) -> (done: Result<(), PolicyError>)
        requires
            old(self).wf(),
            forall|reward: Double, pulls: u64| call_requires(prior, (reward, pulls)),
        ensures
            final(self).wf(),
            old(self)@.resets_by(prior, arm_id, cumulative_reward, count, now, final(self)@, done),
            final(self)@.handles() == old(self)@.handles(),
    {
        match self {
            Policy::EpsilonGreedy(policy) => policy.reset(arm_id, cumulative_reward, count),
            Policy::ThomsonSampling(policy) => policy.reset(
                arm_id,
                cumulative_reward,
                count,
                now,
                prior,
            ),
            Policy::Ucb(policy) => policy.reset(arm_id, cumulative_reward, count),
        }
    }

    /// Draws an arm at the given time, each algorithm with its kernels.
    pub fn draw<
        U: Fn(&mut SmallRng) -> Double,
        D: Fn(Decay) -> Double,
        B: Fn(Bound) -> Double,
        G: Fn(Aging) -> Posterior,
        S: Fn(&mut SmallRng, Posterior) -> Option<Double>,
    >(
        &mut self,
        timestamp: Double,
        uniform: &U,
        decayed: &D,
        bound: &B,
        discount: &G,
        sampler: &S,
    ) -> (drawn: Result<DrawResult, PolicyError>)
        requires
            old(self).wf(),
            old(self)@.can_draw(),
            forall|generator: &mut SmallRng| call_requires(uniform, (generator,)),
            forall|question: Decay| call_requires(decayed, (question,)),
            forall|question: Bound| call_requires(bound, (question,)),
            forall|question: Aging| call_requires(discount, (question,)),
            forall|generator: &mut SmallRng, posterior: Posterior|
                call_requires(sampler, (generator, posterior)),
        ensures
            final(self).wf(),
            old(self)@.draws_by(
                uniform,
                decayed,
                bound,
                discount,
                sampler,
                timestamp,
                final(self)@,
                drawn,
            ),
            final(self)@.handles() == old(self)@.handles(),
            drawn matches Ok(result) ==> result.timestamp == timestamp && old(
                self,
            )@.drawable().contains(result.arm_id),
    {
        match self {
            Policy::EpsilonGreedy(policy) => policy.draw(timestamp, uniform, decayed),
            Policy::ThomsonSampling(policy) => policy.draw(timestamp, discount, sampler),
            Policy::Ucb(policy) => policy.draw(timestamp, bound),
        }
    }

    /// Takes the reward for an arm in, each algorithm with its kernel.
    pub fn update<M: Fn(MeanStep) -> Double, L: Fn(PosteriorStep) -> Posterior>(
        &mut self,
        timestamp: Double,
        arm_id: usize,
        reward: Double,
        mean: &M,
        learned: &L,
    ) -> (done: Result<(), PolicyError>)
        requires
            old(self).wf(),
            old(self)@.handles().contains(arm_id) ==> old(self)@.reports()[arm_id].pulls < u64::MAX,
            forall|question: MeanStep| call_requires(mean, (question,)),
            forall|question: PosteriorStep| call_requires(learned, (question,)),
        ensures
            final(self).wf(),
            old(self)@.rewards_by(mean, learned, timestamp, arm_id, reward, final(self)@, done),
            final(self)@.handles() == old(self)@.handles(),
    {
        match self {
            Policy::EpsilonGreedy(policy) => policy.update(timestamp, arm_id, reward, mean),
            Policy::ThomsonSampling(policy) => policy.update(timestamp, arm_id, reward, learned),
            Policy::Ucb(policy) => policy.update(timestamp, arm_id, reward, mean),
        }
    }

    /// Takes a batch of rewards (time, handle, reward) in, in ascending
    /// order of the timestamps, each algorithm with its kernel.
    pub fn update_batch<M: Fn(MeanStep) -> Double, L: Fn(PosteriorStep) -> Posterior>(
        &mut self,
        updates: &Vec<(Double, usize, Double)>,
        mean: &M,
        learned: &L,
    ) -> (done: Result<(), PolicyError>)
        requires
            old(self).wf(),
            old(self)@.can_take(updates@),
            forall|question: MeanStep| call_requires(mean, (question,)),
            forall|question: PosteriorStep| call_requires(learned, (question,)),
        ensures
            final(self).wf(),
            old(self)@.batch_rewards_by(mean, learned, updates@, final(self)@, done),
            final(self)@.handles() == old(self)@.handles(),
    {
        match self {
            Policy::EpsilonGreedy(policy) => policy.update_batch(updates, mean),
            Policy::ThomsonSampling(policy) => policy.update_batch(updates, learned),
            Policy::Ucb(policy) => policy.update_batch(updates, mean),
        }
    }

    /// Switches an arm off: draws pass it over until it is switched on again.
    pub fn disable_arm(&mut self, arm_id: usize) -> (done: Result<(), PolicyError>)
        requires
            old(self).wf(),
        ensures
            final(self).wf(),
            old(self)@.handles().contains(arm_id) ==> done is Ok && final(self)@ == old(
                self,
            )@.switched(arm_id, false),
            !old(self)@.handles().contains(arm_id) ==> done == Err::<(), PolicyError>(
                PolicyError::ArmNotFound(arm_id),
            ) && final(self)@ == old(self)@,
            final(self)@.handles() == old(self)@.handles(),
    {
        match self {
            Policy::EpsilonGreedy(policy) => policy.disable_arm(arm_id),
            Policy::ThomsonSampling(policy) => policy.disable_arm(arm_id),
            Policy::Ucb(policy) => policy.disable_arm(arm_id),
        }
    }

    /// Switches an arm on.
    pub fn enable_arm(&mut self, arm_id: usize) -> (done: Result<(), PolicyError>)
        requires
            old(self).wf(),
        ensures
            final(self).wf(),
            old(self)@.handles().contains(arm_id) ==> done is Ok && final(self)@ == old(
                self,
            )@.switched(arm_id, true),
            !old(self)@.handles().contains(arm_id) ==> done == Err::<(), PolicyError>(
                PolicyError::ArmNotFound(arm_id),
            ) && final(self)@ == old(self)@,
            final(self)@.handles() == old(self)@.handles(),
    {
        match self {
            Policy::EpsilonGreedy(policy) => policy.enable_arm(arm_id),
            Policy::ThomsonSampling(policy) => policy.enable_arm(arm_id),
            Policy::Ucb(policy) => policy.enable_arm(arm_id),
        }
    }

    /// Deletes an arm. The other arms keep their handles.
    pub fn delete_arm(&mut self, arm_id: usize) -> (done: Result<(), PolicyError>)
        requires
            old(self).wf(),
        ensures
            final(self).wf(),
            old(self)@.handles().contains(arm_id) ==> done is Ok && final(self)@ == old(
                self,
            )@.without(arm_id) && final(self)@.handles() == old(self)@.handles().remove(arm_id),
            !old(self)@.handles().contains(arm_id) ==> done == Err::<(), PolicyError>(
                PolicyError::ArmNotFound(arm_id),
            ) && final(self)@ == old(self)@,
    {
        match self {
            Policy::EpsilonGreedy(policy) => policy.delete_arm(arm_id),
            Policy::ThomsonSampling(policy) => policy.delete_arm(arm_id),
            Policy::Ucb(policy) => policy.delete_arm(arm_id),
        }
    }

    /// The report on every arm, by handle.
    pub fn stats(&self) -> (stats: PolicyStats)
        requires
            self.wf(),
        ensures
            stats.arms@ == self@.reports(),
            stats.arms@.dom() == self@.handles(),
    {
        match self {
            Policy::EpsilonGreedy(policy) => policy.stats(),
            Policy::ThomsonSampling(policy) => policy.stats(),
            Policy::Ucb(policy) => policy.stats(),
        }
    }
}

} // verus!
