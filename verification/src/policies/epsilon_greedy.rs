//! The epsilon-greedy policy: with the exploration rate as probability a
//! draw picks any active arm, otherwise the one with the best mean reward.
use crate::double::Double;
use crate::errors::PolicyError;
use crate::policies::arm::{Arm, MeanArm, MeanStep};
use crate::policies::ledger;
use crate::policies::ledger::PolicyStats;
use crate::policies::policy::{DecayType, DrawResult, PolicyType};
use crate::policies::rng::{rolled, MaybeSeededRng};
use crate::policies::select;
use crate::table::{has_key, keys_of, value_of, ArmTable};
use rand::rngs::SmallRng;
use vstd::prelude::*;

verus! {

/// The state of an arm of an epsilon-greedy policy.
pub type EpsilonGreedyArm = MeanArm;

/// What the decayed exploration rate is computed from: the rate before
/// decay, the form of the decay, and the pulls of the active arms added up.
/// The rate after decay is `epsilon * exp(-decay * n)` for the exponential
/// form, `epsilon / (1 + decay * n)` for the inverse form, and
/// `epsilon - decay * n` for the linear form, whose floor the policy applies
/// itself.
#[derive(Clone, Copy, Debug, PartialEq, Eq, Structural)]
pub struct Decay {
    pub epsilon: Double,
    pub decay: DecayType,
    pub total_count: u64,
}

/// An epsilon-greedy policy.
pub struct EpsilonGreedy {
    arms: ArmTable<EpsilonGreedyArm>,
    epsilon: Double,
    epsilon_decay: Option<DecayType>,
    rng: MaybeSeededRng,
}

/// What an epsilon-greedy policy is, but for the state of its generator.
pub struct EpsilonGreedyState {
    /// The arms under their handles, in the order of first use.
    pub arms: Seq<(usize, EpsilonGreedyArm)>,
    /// The exploration rate before any decay.
    pub epsilon: Double,
    /// How the rate decays, if it does.
    pub epsilon_decay: Option<DecayType>,
    /// The seed of the generator, if it has one.
    pub seed: Option<u64>,
}

impl EpsilonGreedyState {
    /// The exploration rate in force, given what the caller's arithmetic
    /// answered for the decay: the rate itself where nothing decays, the
    /// answer for the exponential and the inverse form, and for the linear
    /// form the larger of the answer and the floor.
    pub open spec fn in_force(self, answered: Double) -> Double {
        match self.epsilon_decay {
            None => self.epsilon,
            Some(DecayType::Linear { decay, min_epsilon }) => answered.larger(min_epsilon),
            Some(_) => answered,
        }
    }

    /// Whether the exploration rate is what the policy has in force when its
    /// decay is computed by the kernel.
    pub open spec fn decays_to<D: Fn(Decay) -> Double>(self, kernel: D, rate: Double) -> bool {
        match self.epsilon_decay {
            None => rate == self.epsilon,
            Some(decay) => exists|answered: Double|
                call_ensures(
                    kernel,
                    (Decay {
                        epsilon: self.epsilon,
                        decay,
                        total_count: ledger::active_pulls(self.arms) as u64,
                    },),
                    answered,
                ) && rate == self.in_force(answered),
        }
    }

    /// Whether the outcome is that of a draw at the given time, with the
    /// number drawn from [0, 1) and the exploration rate in force: an error
    /// exactly if no arm is active; else an active arm, and the one with the
    /// best mean, the first of them in table order, unless the number is
    /// below the rate.
    pub open spec fn draws(
        self,
        timestamp: Double,
        number: Double,
        rate: Double,
        drawn: Result<DrawResult, PolicyError>,
    ) -> bool {
        &&& !ledger::any_active(self.arms) ==> drawn == Err::<DrawResult, PolicyError>(
            PolicyError::NoArmsAvailable,
        )
        &&& ledger::any_active(self.arms) ==> drawn is Ok
        &&& drawn matches Ok(result) ==> result.timestamp == timestamp && ledger::active_ids(
            self.arms,
        ).contains(result.arm_id)
        &&& drawn matches Ok(result) ==> number.less(rate) || Some(result.arm_id)
            == select::handle_at(self.arms, select::best_place(select::mean_scores(self.arms)))
    }
}

impl EpsilonGreedyState {
    /// Whether the outcome is that of a draw at the given time when the
    /// kernel `decayed` computes the decay of the exploration rate and the
    /// kernel `uniform` draws the number from [0, 1).
    pub open spec fn draws_by<U: Fn(&mut SmallRng) -> Double, D: Fn(Decay) -> Double>(
        self,
        uniform: U,
        decayed: D,
        timestamp: Double,
        drawn: Result<DrawResult, PolicyError>,
    ) -> bool {
        exists|number: Double, rate: Double|
            rolled(uniform, number) && self.decays_to(decayed, rate) && #[trigger] self.draws(
                timestamp,
                number,
                rate,
                drawn,
            )
    }

    /// Whether a draw can add up the pulls it needs: the decay of the
    /// exploration rate goes by the pulls of the active arms, whose sum must
    /// be in the range of the counter.
    pub open spec fn can_draw(self) -> bool {
        self.epsilon_decay is Some ==> ledger::active_pulls(self.arms) <= u64::MAX
    }
}

impl View for EpsilonGreedy {
    type V = EpsilonGreedyState;

    closed spec fn view(&self) -> EpsilonGreedyState {
        EpsilonGreedyState {
            arms: self.arms@,
            epsilon: self.epsilon,
            epsilon_decay: self.epsilon_decay,
            seed: self.rng.seed_of(),
        }
    }
}

impl EpsilonGreedy {
    /// What holds of every policy: no handle occurs twice.
    pub closed spec fn wf(&self) -> bool {
        self.arms.wf()
    }

    /// The invariant, stated over the view.
    pub proof fn wf_means_distinct(&self)
        requires
            self.wf(),
        ensures
            crate::table::distinct_keys(self@.arms),
    {
    }

    /// A policy without arms.
    pub fn new(epsilon: Double, epsilon_decay: Option<DecayType>, seed: Option<u64>) -> (policy:
        Self)
        ensures
            policy.wf(),
            policy@ == (EpsilonGreedyState { arms: Seq::empty(), epsilon, epsilon_decay, seed }),
    {
        EpsilonGreedy {
            arms: ArmTable::new(),
            epsilon,
            epsilon_decay,
            rng: MaybeSeededRng::new(seed),
        }
    }

    /// A policy with the given arms, as when a snapshot is loaded. The
    /// generator starts anew from the seed.
    pub fn restore(
        epsilon: Double,
        epsilon_decay: Option<DecayType>,
        seed: Option<u64>,
        arms: ArmTable<EpsilonGreedyArm>,
    ) -> (policy: Self)
        requires
            arms.wf(),
        ensures
            policy.wf(),
            policy@ == (EpsilonGreedyState { arms: arms@, epsilon, epsilon_decay, seed }),
    {
        EpsilonGreedy { arms, epsilon, epsilon_decay, rng: MaybeSeededRng::new(seed) }
    }

    /// An independent copy of the policy.
    pub fn clone_snapshot(&self) -> (copy: Self)
        requires
            self.wf(),
        ensures
            copy.wf(),
            copy@ == self@,
    {
        EpsilonGreedy {
            arms: self.arms.duplicate(),
            epsilon: self.epsilon,
            epsilon_decay: self.epsilon_decay,
            rng: self.rng.duplicate(),
        }
    }

    /// The exploration rate before any decay.
    pub fn epsilon(&self) -> (epsilon: Double)
        ensures
            epsilon == self@.epsilon,
    {
        self.epsilon
    }

    /// How the rate decays, if it does.
    pub fn epsilon_decay(&self) -> (decay: Option<DecayType>)
        ensures
            decay == self@.epsilon_decay,
    {
        self.epsilon_decay
    }

    /// The arms under their handles.
    pub fn arms(&self) -> (arms: &ArmTable<EpsilonGreedyArm>)
        requires
            self.wf(),
        ensures
            arms.wf(),
            arms@ == self@.arms,
    {
        &self.arms
    }

    /// The pulls of the active arms, added up: the `n` of the decay
    /// formulas. None if the sum is beyond the range of the counter.
    pub fn total_count(&self) -> (total: Option<u64>)
        ensures
            ledger::active_pulls(self@.arms) <= u64::MAX ==> total == Some(
                ledger::active_pulls(self@.arms) as u64,
            ),
            ledger::active_pulls(self@.arms) > u64::MAX ==> total is None,
    {
        ledger::total_count(&self.arms)
    }

    /// Whether the policy can take the batch of rewards in without a count
    /// running over.
    pub fn can_take(&self, updates: &Vec<(Double, usize, Double)>) -> (enough: bool)
        requires
            self.wf(),
        ensures
            enough == ledger::can_take(self@.arms, updates@),
    {
        ledger::can_take_batch(&self.arms, updates)
    }

    /// The exploration rate in force. Where the rate decays, the kernel is
    /// asked once, for the rate after decay.
    pub fn epsilon_with_decay<D: Fn(Decay) -> Double>(&self, decayed: &D) -> (rate: Double)
        requires
            self@.epsilon_decay is Some ==> ledger::active_pulls(self@.arms) <= u64::MAX,
            forall|question: Decay| call_requires(decayed, (question,)),
        ensures
            self@.decays_to(decayed, rate),
    {
        match self.epsilon_decay {
            None => self.epsilon,
            Some(decay) => {
                let total_count = match ledger::total_count(&self.arms) {
                    Some(total) => total,
                    None => 0,
                };
                proof {
                    ledger::active_pulls_nonnegative(self@.arms);
                }
                let question = Decay { epsilon: self.epsilon, decay, total_count };
                let answered = decayed(question);
                let rate = match decay {
                    DecayType::Linear { decay: _, min_epsilon } => answered.max(min_epsilon),
                    _ => answered,
                };
                proof {
                    assert(call_ensures(decayed, (question,), answered));
                    assert(rate == self@.in_force(answered));
                }
                rate
            },
        }
    }

    /// The description of the policy.
    pub fn policy_type(&self) -> (described: PolicyType)
        ensures
            described == (PolicyType::EpsilonGreedy {
                epsilon: self@.epsilon,
                epsilon_decay: self@.epsilon_decay,
                seed: self@.seed,
            }),
    {
        PolicyType::EpsilonGreedy {
            epsilon: self.epsilon,
            epsilon_decay: self.epsilon_decay,
            seed: self.rng.seed(),
        }
    }

    /// Resets one arm to the given mean and count, zero for each that is not
    /// given; or, without a handle, all arms to zero. Switches stay as they
    /// are.
    pub fn reset(
        &mut self,
        arm_id: Option<usize>,
        cumulative_reward: Option<Double>,
        count: Option<u64>,
    ) -> (done: Result<(), PolicyError>)
        requires
            old(self).wf(),
        ensures
            final(self).wf(),
            final(self)@ == (EpsilonGreedyState {
                arms: ledger::reset_arms(
                    old(self)@.arms,
                    arm_id,
                    MeanArm::reset_values(cumulative_reward, count),
                    MeanArm::reset_values(None, None),
                ),
                ..old(self)@
            }),
            ledger::reset_done(old(self)@.arms, arm_id, done),
            keys_of(final(self)@.arms) == keys_of(old(self)@.arms),
    {
        match arm_id {
            Some(id) => {
                let mut fresh = MeanArm::new(Double::zero(), 0);
                fresh.reset(cumulative_reward, count);
                ledger::reset_one(&mut self.arms, id, fresh)
            },
            None => {
                ledger::reset_all(&mut self.arms, MeanArm::new(Double::zero(), 0));
                Ok(())
            },
        }
    }

    /// Adds an arm with the given mean and count under the next handle, the
    /// number of arms held, and returns the handle.
    pub fn add_arm(&mut self, initial_reward: Double, initial_count: u64) -> (arm_id: usize)
        requires
            old(self).wf(),
        ensures
            final(self).wf(),
            arm_id == old(self)@.arms.len(),
            final(self)@ == (EpsilonGreedyState {
                arms: ledger::with_arm(
                    old(self)@.arms,
                    arm_id,
                    MeanArm { reward: initial_reward, count: initial_count, is_active: true },
                ),
                ..old(self)@
            }),
            keys_of(final(self)@.arms) == keys_of(old(self)@.arms).insert(arm_id),
            has_key(final(self)@.arms, arm_id),
            forall|other: usize|
                other != arm_id && #[trigger] has_key(old(self)@.arms, other) ==> has_key(
                    final(self)@.arms,
                    other,
                ) && value_of(final(self)@.arms, other) == value_of(old(self)@.arms, other),
    {
        ledger::add(&mut self.arms, MeanArm::new(initial_reward, initial_count))
    }

    /// Switches an arm off: draws pass it over until it is switched on again.
    pub fn disable_arm(&mut self, arm_id: usize) -> (done: Result<(), PolicyError>)
        requires
            old(self).wf(),
        ensures
            final(self).wf(),
            has_key(old(self)@.arms, arm_id) ==> done is Ok && final(self)@ == (EpsilonGreedyState {
                arms: ledger::switch(old(self)@.arms, arm_id, false),
                ..old(self)@
            }),
            !has_key(old(self)@.arms, arm_id) ==> done == Err::<(), PolicyError>(
                PolicyError::ArmNotFound(arm_id),
            ) && final(self)@ == old(self)@,
            keys_of(final(self)@.arms) == keys_of(old(self)@.arms),
    {
        ledger::set_active(&mut self.arms, arm_id, false)
    }

    /// Switches an arm on.
    pub fn enable_arm(&mut self, arm_id: usize) -> (done: Result<(), PolicyError>)
        requires
            old(self).wf(),
        ensures
            final(self).wf(),
            has_key(old(self)@.arms, arm_id) ==> done is Ok && final(self)@ == (EpsilonGreedyState {
                arms: ledger::switch(old(self)@.arms, arm_id, true),
                ..old(self)@
            }),
            !has_key(old(self)@.arms, arm_id) ==> done == Err::<(), PolicyError>(
                PolicyError::ArmNotFound(arm_id),
            ) && final(self)@ == old(self)@,
            keys_of(final(self)@.arms) == keys_of(old(self)@.arms),
    {
        ledger::set_active(&mut self.arms, arm_id, true)
    }

    /// Deletes an arm. The other arms keep their handles.
    pub fn delete_arm(&mut self, arm_id: usize) -> (done: Result<(), PolicyError>)
        requires
            old(self).wf(),
        ensures
            final(self).wf(),
            has_key(old(self)@.arms, arm_id) ==> done is Ok && final(self)@ == (EpsilonGreedyState {
                arms: ledger::without(old(self)@.arms, arm_id),
                ..old(self)@
            }) && keys_of(final(self)@.arms) == keys_of(old(self)@.arms).remove(arm_id),
            !has_key(old(self)@.arms, arm_id) ==> done == Err::<(), PolicyError>(
                PolicyError::ArmNotFound(arm_id),
            ) && final(self)@ == old(self)@,
    {
        ledger::delete(&mut self.arms, arm_id)
    }

    /// Draws an arm, given the number drawn uniformly from [0, 1) and the
    /// exploration rate in force. Where the number is below the rate the
    /// draw explores: the generator picks one of the active arms. Otherwise
    /// it exploits: the active arm with the best mean wins, the first of
    /// them in table order.
    pub fn draw_given(&mut self, timestamp: Double, number: Double, rate: Double) -> (drawn: Result<
        DrawResult,
        PolicyError,
    >)
        requires
            old(self).wf(),
        ensures
            final(self).wf(),
            final(self)@ == old(self)@,
            old(self)@.draws(timestamp, number, rate, drawn),
    {
        proof {
            ledger::active_ids_are_the_active_arms(self@.arms);
            select::best_place_is_a_candidate(select::mean_scores(self@.arms));
        }
        let chosen = if number.lt(rate) {
            let candidates = ledger::active_handles(&self.arms);
            self.rng.pick(&candidates)
        } else {
            let best = select::best_by_mean(&self.arms);
            proof {
                let scores = select::mean_scores(self@.arms);
                if ledger::any_active(self@.arms) {
                    let i = choose|i: int|
                        0 <= i < self@.arms.len() && (#[trigger] self@.arms[i]).1.report().is_active;
                    assert(scores[i] is Some);
                }
                if select::best_place(scores) is Some {
                    let p = select::best_place(scores).unwrap();
                    assert(scores[p] is Some);
                    assert(self@.arms[p].1.report().is_active);
                }
            }
            best
        };
        match chosen {
            Some(arm_id) => Ok(DrawResult { timestamp, arm_id }),
            None => Err(PolicyError::NoArmsAvailable),
        }
    }

    /// Draws an arm at the given time. The kernel `decayed` is asked for the
    /// exploration rate after decay, as in `epsilon_with_decay`; then the
    /// kernel `uniform` draws a number from [0, 1) with the policy's
    /// generator; then the draw goes on as in `draw_given`.
    pub fn draw<U: Fn(&mut SmallRng) -> Double, D: Fn(Decay) -> Double>(
        &mut self,
        timestamp: Double,
        uniform: &U,
        decayed: &D,
    ) -> (drawn: Result<DrawResult, PolicyError>)
        requires
            old(self).wf(),
            old(self)@.can_draw(),
            forall|generator: &mut SmallRng| call_requires(uniform, (generator,)),
            forall|question: Decay| call_requires(decayed, (question,)),
        ensures
            final(self).wf(),
            final(self)@ == old(self)@,
            old(self)@.draws_by(uniform, decayed, timestamp, drawn),
    {
        let rate = self.epsilon_with_decay(decayed);
        let number = self.rng.roll(uniform);
        self.draw_given(timestamp, number, rate)
    }

    /// Takes the reward for an arm in, given the new mean: the arm gets one
    /// more pull and that mean.
    pub fn update_given(&mut self, timestamp: Double, arm_id: usize, mean: Double) -> (done: Result<
        (),
        PolicyError,
    >)
        requires
            old(self).wf(),
            has_key(old(self)@.arms, arm_id) ==> value_of(old(self)@.arms, arm_id).count < u64::MAX,
        ensures
            final(self).wf(),
            has_key(old(self)@.arms, arm_id) ==> done is Ok && final(self)@ == (EpsilonGreedyState {
                arms: ledger::taught(old(self)@.arms, timestamp, arm_id, mean),
                ..old(self)@
            }),
            !has_key(old(self)@.arms, arm_id) ==> done == Err::<(), PolicyError>(
                PolicyError::ArmNotFound(arm_id),
            ) && final(self)@ == old(self)@,
            keys_of(final(self)@.arms) == keys_of(old(self)@.arms),
    {
        ledger::update(&mut self.arms, timestamp, arm_id, mean)
    }

    /// Takes the reward for an arm in: the arm gets one more pull and the
    /// new mean, for which the kernel is asked with the arm's mean, the
    /// reward and the new count.
    pub fn update<M: Fn(MeanStep) -> Double>(
        &mut self,
        timestamp: Double,
        arm_id: usize,
        reward: Double,
        mean: &M,
    ) -> (done: Result<(), PolicyError>)
        requires
            old(self).wf(),
            has_key(old(self)@.arms, arm_id) ==> value_of(old(self)@.arms, arm_id).count < u64::MAX,
            forall|question: MeanStep| call_requires(mean, (question,)),
        ensures
            final(self).wf(),
            final(self)@ == (EpsilonGreedyState { arms: final(self)@.arms, ..old(self)@ }),
            ledger::reward_outcome(
                mean,
                old(self)@.arms,
                timestamp,
                arm_id,
                reward,
                final(self)@.arms,
                done,
            ),
            keys_of(final(self)@.arms) == keys_of(old(self)@.arms),
    {
        ledger::take_reward(&mut self.arms, timestamp, arm_id, reward, mean)
    }

    /// Takes a batch of rewards (time, handle, reward) in, in ascending
    /// order of the timestamps, and stops at the first that names a handle
    /// without an arm; the rewards before it stay applied. The kernel is
    /// asked for each new mean as in `update`.
    pub fn update_batch<M: Fn(MeanStep) -> Double>(
        &mut self,
        updates: &Vec<(Double, usize, Double)>,
        mean: &M,
    ) -> (done: Result<(), PolicyError>)
        requires
            old(self).wf(),
            ledger::can_take(old(self)@.arms, updates@),
            forall|question: MeanStep| call_requires(mean, (question,)),
        ensures
            final(self).wf(),
            final(self)@ == (EpsilonGreedyState { arms: final(self)@.arms, ..old(self)@ }),
            ledger::batch_outcome(mean, old(self)@.arms, updates@, final(self)@.arms, done),
            keys_of(final(self)@.arms) == keys_of(old(self)@.arms),
    {
        ledger::take_rewards(&mut self.arms, updates, mean)
    }

    /// The report on every arm, by handle.
    pub fn stats(&self) -> (stats: PolicyStats)
        requires
            self.wf(),
        ensures
            stats.arms@ == ledger::reports(self@.arms),
            stats.arms@.dom() == keys_of(self@.arms),
    {
        ledger::stats(&self.arms)
    }
}

} // verus!
