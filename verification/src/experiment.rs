//! The experiment: the single owner of one policy. Commands reach the policy
//! through it one at a time; it hands out copies and results, never the
//! policy itself. After a restart it has no policy until its snapshot comes
//! back from the state store, and refuses commands until then.
use crate::double::Double;
use crate::errors::{ExperimentError, PolicyError};
use crate::policies::arm::MeanStep;
use crate::policies::epsilon_greedy::Decay;
use crate::policies::ledger::PolicyStats;
use crate::policies::policy::{DrawResult, Policy, PolicyState};
use crate::policies::thomson_sampling::{Aging, Posterior, PosteriorStep};
use crate::policies::ucb::Bound;
use rand::rngs::SmallRng;
use vstd::prelude::*;

verus! {

/// The request to keep a snapshot of a policy under an experiment's
/// identifier.
pub struct SaveState {
    pub experiment_id: u128,
    pub policy: Policy,
}

/// The request to forget the snapshot of an experiment.
#[derive(Clone, Copy, Debug, PartialEq, Eq, Structural)]
pub struct DeleteState {
    pub experiment_id: u128,
}

/// The request for the snapshot of an experiment.
#[derive(Clone, Copy, Debug, PartialEq, Eq, Structural)]
pub struct LoadState {
    pub experiment_id: u128,
}

/// An experiment.
pub struct Experiment {
    id: u128,
    policy: Option<Policy>,
    save_every: u64,
}

/// What an experiment is, but for the state of its policy's generator.
pub struct ExperimentState {
    /// The identifier of the experiment.
    pub id: u128,
    /// The policy, once there is one.
    pub policy: Option<PolicyState>,
    /// The seconds between two snapshots.
    pub save_every: u64,
}

/// The outcome of the policy behind the outcome of an experiment's command,
/// where the experiment had a policy to ask.
pub open spec fn policy_outcome<T>(done: Result<T, ExperimentError>) -> Result<T, PolicyError> {
    match done {
        Ok(value) => Ok(value),
        Err(ExperimentError::PolicyError(error)) => Err(error),
        Err(ExperimentError::NoPolicy) => Err(PolicyError::NoArmsAvailable),
    }
}

impl ExperimentState {
    /// Whether the state `after` and the outcome are those of a command
    /// that an experiment without a policy refuses and nothing else stops
    /// from reaching the policy: `reaches` says whether the policy `q` and
    /// the outcome `inner` are those of the command on the policy `p`.
    pub open spec fn passes_on<T>(
        self,
        after: ExperimentState,
        done: Result<T, ExperimentError>,
        reaches: spec_fn(PolicyState, PolicyState, Result<T, PolicyError>) -> bool,
    ) -> bool {
        match self.policy {
            None => done == Err::<T, ExperimentError>(ExperimentError::NoPolicy) && after == self,
            Some(policy) => {
                &&& !(done matches Err(ExperimentError::NoPolicy))
                &&& after.policy is Some
                &&& after == (ExperimentState { policy: after.policy, ..self })
                &&& reaches(policy, after.policy->Some_0, policy_outcome(done))
            },
        }
    }
}

impl View for Experiment {
    type V = ExperimentState;

    closed spec fn view(&self) -> ExperimentState {
        ExperimentState {
            id: self.id,
            policy: match self.policy {
                Some(policy) => Some(policy@),
                None => None,
            },
            save_every: self.save_every,
        }
    }
}

impl Experiment {
    /// What holds of every experiment: its policy, if it has one, is well
    /// formed.
    pub closed spec fn wf(&self) -> bool {
        self.policy matches Some(policy) ==> policy.wf()
    }

    /// An experiment with the given policy, or with none after a restart.
    pub fn new(id: u128, policy: Option<Policy>, save_every: u64) -> (experiment: Self)
        requires
            policy matches Some(p) ==> p.wf(),
        ensures
            experiment.wf(),
            experiment@ == (ExperimentState {
                id,
                policy: match policy {
                    Some(p) => Some(p@),
                    None => None,
                },
                save_every,
            }),
    {
        Experiment { id, policy, save_every }
    }

    /// The identifier of the experiment.
    pub fn id(&self) -> (id: u128)
        ensures
            id == self@.id,
    {
        self.id
    }

    /// The seconds between two snapshots.
    pub fn save_every(&self) -> (seconds: u64)
        ensures
            seconds == self@.save_every,
    {
        self.save_every
    }

    /// What the experiment asks of the state store when it starts: its
    /// snapshot, if it has no policy.
    pub fn started(&self) -> (request: Option<LoadState>)
        ensures
            request == match self@.policy {
                Some(_) => None::<LoadState>,
                None => Some(LoadState { experiment_id: self@.id }),
            },
    {
        match &self.policy {
            Some(_) => None,
            None => Some(LoadState { experiment_id: self.id }),
        }
    }

    /// Takes in the state store's answer to the request made at the start: a
    /// snapshot becomes the policy, no snapshot changes nothing.
    pub fn reloaded(&mut self, snapshot: Option<Policy>)
        requires
            old(self).wf(),
            snapshot matches Some(p) ==> p.wf(),
        ensures
            final(self).wf(),
            final(self)@ == (ExperimentState {
                policy: match snapshot {
                    Some(p) => Some(p@),
                    None => old(self)@.policy,
                },
                ..old(self)@
            }),
    {
        match snapshot {
            Some(policy) => {
                self.policy = Some(policy);
            },
            None => {},
        }
    }

    /// What the experiment hands to the state store when its timer fires: a
    /// copy of the policy, if it has one.
    pub fn persist(&self) -> (request: Option<SaveState>)
        requires
            self.wf(),
        ensures
            request is Some <==> self@.policy is Some,
            request matches Some(save) ==> save.experiment_id == self@.id && save.policy.wf()
                && Some(save.policy@) == self@.policy,
    {
        match &self.policy {
            Some(policy) => Some(SaveState { experiment_id: self.id, policy: policy.clone_snapshot() }),
            None => None,
        }
    }

    /// The policy, for a command that reads it.
    pub fn with_policy(&self) -> (policy: Result<&Policy, ExperimentError>)
        requires
            self.wf(),
        ensures
            match policy {
                Ok(p) => p.wf() && self@.policy == Some(p@),
                Err(error) => error == ExperimentError::NoPolicy && self@.policy is None,
            },
    {
        match &self.policy {
            Some(policy) => Ok(policy),
            None => Err(ExperimentError::NoPolicy),
        }
    }

    /// The policy, for a command that changes it. Whatever the caller makes
    /// of the policy is the experiment's policy afterwards.
    pub fn with_policy_mut(&mut self) -> (policy: Result<&mut Policy, ExperimentError>)
        requires
            old(self).wf(),
        ensures
            match policy {
                Ok(p) => (*p).wf() && old(self)@.policy == Some((*p)@) && final(self)@ == (
                ExperimentState { policy: Some((*final(p))@), ..old(self)@ }) && ((*final(p)).wf()
                    ==> final(self).wf()),
                Err(error) => error == ExperimentError::NoPolicy && old(self)@.policy is None
                    && final(self)@ == old(self)@ && final(self).wf(),
            },
    {
        match &mut self.policy {
            Some(policy) => Ok(policy),
            None => Err(ExperimentError::NoPolicy),
        }
    }

    /// Answers a ping. An experiment answers whether or not it has a policy.
    pub fn ping(&self) {
    }

    /// Ends the experiment: what it asks of the state store before it stops.
    pub fn delete(&self) -> (request: DeleteState)
        ensures
            request == (DeleteState { experiment_id: self@.id }),
    {
        DeleteState { experiment_id: self.id }
    }

    /// Adds an arm to the policy: see [`Policy::add_arm`]. A reward or a
    /// count that is not given is zero.
    pub fn add_arm<P: Fn(Double, u64) -> Posterior>(
        &mut self,
        initial_reward: Option<Double>,
        initial_count: Option<u64>,
        now: Double,
        prior: &P,
    ) -> (added: Result<usize, ExperimentError>)
        requires
            old(self).wf(),
            forall|reward: Double, pulls: u64| call_requires(prior, (reward, pulls)),
        ensures
            final(self).wf(),
            old(self)@.passes_on(
                final(self)@,
                added,
                |p: PolicyState, q: PolicyState, inner: Result<usize, PolicyError>|
                    inner matches Ok(arm_id) && arm_id == p.next_handle() && p.adds_by(
                        prior,
                        match initial_reward {
                            Some(reward) => reward,
                            None => Double { bits: 0 },
                        },
                        match initial_count {
                            Some(count) => count,
                            None => 0,
                        },
                        now,
                        arm_id,
                        q,
                    ),
            ),
    {
        let reward = match initial_reward {
            Some(reward) => reward,
            None => Double::zero(),
        };
        let count = match initial_count {
            Some(count) => count,
            None => 0,
        };
        match &mut self.policy {
            Some(policy) => Ok(policy.add_arm(reward, count, now, prior)),
            None => Err(ExperimentError::NoPolicy),
        }
    }

    /// Resets one arm of the policy, or without a handle all arms: see
    /// [`Policy::reset`].
    pub fn reset<P: Fn(Double, u64) -> Posterior>(
        &mut self,
        arm_id: Option<usize>,
        cumulative_reward: Option<Double>,
        count: Option<u64>,
        now: Double,
        prior: &P,
    ) -> (done: Result<(), ExperimentError>)
        requires
            old(self).wf(),
            forall|reward: Double, pulls: u64| call_requires(prior, (reward, pulls)),
        ensures
            final(self).wf(),
            old(self)@.passes_on(
                final(self)@,
                done,
                |p: PolicyState, q: PolicyState, inner: Result<(), PolicyError>|
                    p.resets_by(prior, arm_id, cumulative_reward, count, now, q, inner),
            ),
    {
        match &mut self.policy {
            Some(policy) => match policy.reset(arm_id, cumulative_reward, count, now, prior) {
                Ok(()) => Ok(()),
                Err(error) => Err(ExperimentError::PolicyError(error)),
            },
            None => Err(ExperimentError::NoPolicy),
        }
    }

    /// Draws an arm from the policy: see [`Policy::draw`].
    pub fn draw<
        U: Fn(&mut SmallRng) -> Double,
        D: Fn(Decay) -> Double,
        B: Fn(Bound) -> Double,
        G: Fn(Aging) -> Posterior,
        S: Fn(&mut SmallRng, Posterior) -> Option<Double>,
    >(
        &mut self,
        timestamp: Double,
        uniform: &U,
        decayed: &D,
        bound: &B,
        discount: &G,
        sampler: &S,
    ) -> (drawn: Result<DrawResult, ExperimentError>)
        requires
            old(self).wf(),
            old(self)@.policy matches Some(policy) ==> policy.can_draw(),
            forall|generator: &mut SmallRng| call_requires(uniform, (generator,)),
            forall|question: Decay| call_requires(decayed, (question,)),
            forall|question: Bound| call_requires(bound, (question,)),
            forall|question: Aging| call_requires(discount, (question,)),
            forall|generator: &mut SmallRng, posterior: Posterior|
                call_requires(sampler, (generator, posterior)),
        ensures
            final(self).wf(),
            old(self)@.passes_on(
                final(self)@,
                drawn,
                |p: PolicyState, q: PolicyState, inner: Result<DrawResult, PolicyError>|
                    p.draws_by(uniform, decayed, bound, discount, sampler, timestamp, q, inner),
            ),
            drawn matches Ok(result) ==> result.timestamp == timestamp && old(
                self,
            )@.policy->Some_0.drawable().contains(result.arm_id),
    {
        match &mut self.policy {
            Some(policy) => match policy.draw(timestamp, uniform, decayed, bound, discount, sampler) {
                Ok(result) => Ok(result),
                Err(error) => Err(ExperimentError::PolicyError(error)),
            },
            None => Err(ExperimentError::NoPolicy),
        }
    }

    /// Takes the reward for an arm of the policy in: see [`Policy::update`].
    pub fn update<M: Fn(MeanStep) -> Double, L: Fn(PosteriorStep) -> Posterior>(
        &mut self,
        timestamp: Double,
        arm_id: usize,
        reward: Double,
        mean: &M,
        learned: &L,
    ) -> (done: Result<(), ExperimentError>)
        requires
            old(self).wf(),
            old(self)@.policy matches Some(policy) ==> (policy.handles().contains(arm_id)
                ==> policy.reports()[arm_id].pulls < u64::MAX),
            forall|question: MeanStep| call_requires(mean, (question,)),
            forall|question: PosteriorStep| call_requires(learned, (question,)),
        ensures
            final(self).wf(),
            old(self)@.passes_on(
                final(self)@,
                done,
                |p: PolicyState, q: PolicyState, inner: Result<(), PolicyError>|
                    p.rewards_by(mean, learned, timestamp, arm_id, reward, q, inner),
            ),
    {
        match &mut self.policy {
            Some(policy) => match policy.update(timestamp, arm_id, reward, mean, learned) {
                Ok(()) => Ok(()),
                Err(error) => Err(ExperimentError::PolicyError(error)),
            },
            None => Err(ExperimentError::NoPolicy),
        }
    }

    /// Takes a batch of rewards for the policy in, in ascending order of
    /// their timestamps: see [`Policy::update_batch`].
    pub fn update_batch<M: Fn(MeanStep) -> Double, L: Fn(PosteriorStep) -> Posterior>(
        &mut self,
        updates: &Vec<(Double, usize, Double)>,
        mean: &M,
        learned: &L,
    ) -> (done: Result<(), ExperimentError>)
        requires
            old(self).wf(),
            old(self)@.policy matches Some(policy) ==> policy.can_take(updates@),
            forall|question: MeanStep| call_requires(mean, (question,)),
            forall|question: PosteriorStep| call_requires(learned, (question,)),
        ensures
            final(self).wf(),
            old(self)@.passes_on(
                final(self)@,
                done,
                |p: PolicyState, q: PolicyState, inner: Result<(), PolicyError>|
                    p.batch_rewards_by(mean, learned, updates@, q, inner),
            ),
    {
        match &mut self.policy {
            Some(policy) => match policy.update_batch(updates, mean, learned) {
                Ok(()) => Ok(()),
                Err(error) => Err(ExperimentError::PolicyError(error)),
            },
            None => Err(ExperimentError::NoPolicy),
        }
    }

    /// Switches an arm of the policy off.
    pub fn disable_arm(&mut self, arm_id: usize) -> (done: Result<(), ExperimentError>)
        requires
            old(self).wf(),
        ensures
            final(self).wf(),
            match old(self)@.policy {
                Some(policy) => if policy.handles().contains(arm_id) {
                    done is Ok && final(self)@ == (ExperimentState {
                        policy: Some(policy.switched(arm_id, false)),
                        ..old(self)@
                    })
                } else {
                    done == Err::<(), ExperimentError>(
                        ExperimentError::PolicyError(PolicyError::ArmNotFound(arm_id)),
                    ) && final(self)@ == old(self)@
                },
                None => done == Err::<(), ExperimentError>(ExperimentError::NoPolicy) && final(self)@
                    == old(self)@,
            },
    {
        match &mut self.policy {
            Some(policy) => match policy.disable_arm(arm_id) {
                Ok(()) => Ok(()),
                Err(error) => Err(ExperimentError::PolicyError(error)),
            },
            None => Err(ExperimentError::NoPolicy),
        }
    }

    /// Switches an arm of the policy on.
    pub fn enable_arm(&mut self, arm_id: usize) -> (done: Result<(), ExperimentError>)
        requires
            old(self).wf(),
        ensures
            final(self).wf(),
            match old(self)@.policy {
                Some(policy) => if policy.handles().contains(arm_id) {
                    done is Ok && final(self)@ == (ExperimentState {
                        policy: Some(policy.switched(arm_id, true)),
                        ..old(self)@
                    })
                } else {
                    done == Err::<(), ExperimentError>(
                        ExperimentError::PolicyError(PolicyError::ArmNotFound(arm_id)),
                    ) && final(self)@ == old(self)@
                },
                None => done == Err::<(), ExperimentError>(ExperimentError::NoPolicy) && final(self)@
                    == old(self)@,
            },
    {
        match &mut self.policy {
            Some(policy) => match policy.enable_arm(arm_id) {
                Ok(()) => Ok(()),
                Err(error) => Err(ExperimentError::PolicyError(error)),
            },
            None => Err(ExperimentError::NoPolicy),
        }
    }

    /// Deletes an arm of the policy.
    pub fn delete_arm(&mut self, arm_id: usize) -> (done: Result<(), ExperimentError>)
        requires
            old(self).wf(),
        ensures
            final(self).wf(),
            match old(self)@.policy {
                Some(policy) => if policy.handles().contains(arm_id) {
                    done is Ok && final(self)@ == (ExperimentState {
                        policy: Some(policy.without(arm_id)),
                        ..old(self)@
                    })
                } else {
                    done == Err::<(), ExperimentError>(
                        ExperimentError::PolicyError(PolicyError::ArmNotFound(arm_id)),
                    ) && final(self)@ == old(self)@
                },
                None => done == Err::<(), ExperimentError>(ExperimentError::NoPolicy) && final(self)@
                    == old(self)@,
            },
    {
        match &mut self.policy {
            Some(policy) => match policy.delete_arm(arm_id) {
                Ok(()) => Ok(()),
                Err(error) => Err(ExperimentError::PolicyError(error)),
            },
            None => Err(ExperimentError::NoPolicy),
        }
    }

    /// The report on every arm of the policy, by handle.
    pub fn get_stats(&self) -> (stats: Result<PolicyStats, ExperimentError>)
        requires
            self.wf(),
        ensures
            match self@.policy {
                Some(policy) => stats is Ok && stats->Ok_0.arms@ == policy.reports()
                    && stats->Ok_0.arms@.dom() == policy.handles(),
                None => stats is Err && stats->Err_0 == ExperimentError::NoPolicy,
            },
    {
        match &self.policy {
            Some(policy) => Ok(policy.stats()),
            None => Err(ExperimentError::NoPolicy),
        }
    }
}

} // verus!
