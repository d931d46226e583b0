//! The UCB1 policy: while an active arm has no pull, a draw picks among
//! those; afterwards the active arm with the best upper confidence bound
//! wins.
use crate::table::{as_map, distinct_keys, has_key, keys_of, value_of, ArmTable};
use crate::double::Double;
use crate::errors::PolicyError;
use crate::policies::arm::{Arm, MeanArm, MeanStep};
use crate::policies::ledger;
use crate::policies::ledger::PolicyStats;
use crate::policies::policy::{DrawResult, PolicyType};
use crate::policies::rng::MaybeSeededRng;
use crate::policies::select;
use vstd::prelude::*;

verus! {

/// The state of an arm of a UCB policy.
pub type UcbArm = MeanArm;

/// A UCB1 policy.
pub struct Ucb {
    arms: ArmTable<UcbArm>,
    alpha: Double,
    rng: MaybeSeededRng,
}

/// What a UCB policy is, but for the state of its generator.
pub struct UcbState {
    /// The arms under their handles, in the order of first use.
    pub arms: Seq<(usize, UcbArm)>,
    /// The exploration coefficient.
    pub alpha: Double,
    /// The seed of the generator, if it has one.
    pub seed: Option<u64>,
}

/// What the upper confidence bound of an arm is computed from: the arm's
/// mean and count, the exploration coefficient, and the pulls of the active
/// arms added up. The bound is
/// `mean + sqrt(alpha * ln(total_count) / (2 * count))`.
#[derive(Clone, Copy, Debug, PartialEq, Eq, Structural)]
pub struct Bound {
    pub mean: Double,
    pub count: u64,
    pub alpha: Double,
    pub total_count: u64,
}

impl UcbState {
    /// The question for the bound of an arm.
    pub open spec fn bound_of(self, arm: UcbArm) -> Bound {
        Bound {
            mean: arm.reward,
            count: arm.count,
            alpha: self.alpha,
            total_count: ledger::active_pulls(self.arms) as u64,
        }
    }

    /// Whether the scores hold, for every active arm, a bound that the
    /// kernel has answered for it.
    pub open spec fn bounds<B: Fn(Bound) -> Double>(
        self,
        kernel: B,
        scores: Seq<(usize, Double)>,
    ) -> bool {
        forall|i: int|
            0 <= i < self.arms.len() && (#[trigger] self.arms[i]).1.is_active ==> has_key(
                scores,
                self.arms[i].0,
            ) && call_ensures(
                kernel,
                (self.bound_of(self.arms[i].1),),
                value_of(scores, self.arms[i].0),
            )
    }

    /// Whether the outcome is that of a draw at the given time with the
    /// given scores. While some active arm has no pull, the draw returns one
    /// of those. Afterwards the active arm with the best score wins, the
    /// first of them in table order, and an active arm without a score is
    /// passed over; there is an error exactly if no active arm has a score.
    pub open spec fn draws(
        self,
        timestamp: Double,
        scores: Seq<(usize, Double)>,
        drawn: Result<DrawResult, PolicyError>,
    ) -> bool {
        &&& ledger::unpulled_ids(self.arms).len() > 0 ==> drawn is Ok && ledger::unpulled_ids(
            self.arms,
        ).contains(drawn->Ok_0.arm_id)
        &&& ledger::unpulled_ids(self.arms).len() == 0 ==> match select::handle_at(
            self.arms,
            select::best_place(select::given_scores(self.arms, scores)),
        ) {
            Some(arm_id) => drawn == Ok::<DrawResult, PolicyError>(DrawResult { timestamp, arm_id }),
            None => drawn == Err::<DrawResult, PolicyError>(PolicyError::NoArmsAvailable),
        }
        &&& drawn matches Ok(result) ==> result.timestamp == timestamp && ledger::active_ids(
            self.arms,
        ).contains(result.arm_id)
        &&& drawn matches Err(error) ==> error == PolicyError::NoArmsAvailable
        &&& select::any_scored(self.arms, scores) ==> drawn is Ok
    }
}

impl UcbState {
    /// Whether the outcome is that of a draw at the given time when the
    /// kernel computes the upper confidence bounds.
    pub open spec fn draws_by<B: Fn(Bound) -> Double>(
        self,
        bound: B,
        timestamp: Double,
        drawn: Result<DrawResult, PolicyError>,
    ) -> bool {
        exists|scores: Seq<(usize, Double)>|
            (ledger::unpulled_ids(self.arms).len() == 0 ==> self.bounds(bound, scores))
                && #[trigger] self.draws(timestamp, scores, drawn)
    }

    /// Whether a draw can add up the pulls it needs: once every active arm
    /// has a pull, the bounds go by the pulls of the active arms, whose sum
    /// must be in the range of the counter.
    pub open spec fn can_draw(self) -> bool {
        ledger::unpulled_ids(self.arms).len() == 0 ==> ledger::active_pulls(self.arms) <= u64::MAX
    }
}

impl View for Ucb {
    type V = UcbState;

    closed spec fn view(&self) -> UcbState {
        UcbState { arms: self.arms@, alpha: self.alpha, seed: self.rng.seed_of() }
    }
}

impl Ucb {
    /// What holds of every policy: no handle occurs twice.
    pub closed spec fn wf(&self) -> bool {
        self.arms.wf()
    }

    /// The invariant, stated over the view.
    pub proof fn wf_means_distinct(&self)
        requires
            self.wf(),
        ensures
            crate::table::distinct_keys(self@.arms),
    {
    }

    /// A policy without arms.
    pub fn new(alpha: Double, seed: Option<u64>) -> (policy: Self)
        ensures
            policy.wf(),
            policy@ == (UcbState { arms: Seq::empty(), alpha, seed }),
    {
        Ucb { arms: ArmTable::new(), alpha, rng: MaybeSeededRng::new(seed) }
    }

    /// A policy with the given arms, as when a snapshot is loaded. The
    /// generator starts anew from the seed.
    pub fn restore(alpha: Double, seed: Option<u64>, arms: ArmTable<UcbArm>) -> (policy: Self)
        requires
            arms.wf(),
        ensures
            policy.wf(),
            policy@ == (UcbState { arms: arms@, alpha, seed }),
    {
        Ucb { arms, alpha, rng: MaybeSeededRng::new(seed) }
    }

    /// An independent copy of the policy.
    pub fn clone_snapshot(&self) -> (copy: Self)
        requires
            self.wf(),
        ensures
            copy.wf(),
            copy@ == self@,
    {
        Ucb { arms: self.arms.duplicate(), alpha: self.alpha, rng: self.rng.duplicate() }
    }

    /// The exploration coefficient.
    pub fn alpha(&self) -> (alpha: Double)
        ensures
            alpha == self@.alpha,
    {
        self.alpha
    }

    /// The arms under their handles.
    pub fn arms(&self) -> (arms: &ArmTable<UcbArm>)
        requires
            self.wf(),
        ensures
            arms.wf(),
            arms@ == self@.arms,
    {
        &self.arms
    }

    /// The pulls of the active arms, added up: the `N` of the confidence
    /// bound. None if the sum is beyond the range of the counter.
    pub fn total_count(&self) -> (total: Option<u64>)
        ensures
            ledger::active_pulls(self@.arms) <= u64::MAX ==> total == Some(
                ledger::active_pulls(self@.arms) as u64,
            ),
            ledger::active_pulls(self@.arms) > u64::MAX ==> total is None,
    {
        ledger::total_count(&self.arms)
    }

    /// Whether the policy can take the batch of rewards in without a count
    /// running over.
    pub fn can_take(&self, updates: &Vec<(Double, usize, Double)>) -> (enough: bool)
        requires
            self.wf(),
        ensures
            enough == ledger::can_take(self@.arms, updates@),
    {
        ledger::can_take_batch(&self.arms, updates)
    }

    /// The description of the policy.
    pub fn policy_type(&self) -> (described: PolicyType)
        ensures
            described == (PolicyType::Ucb { alpha: self@.alpha, seed: self@.seed }),
    {
        PolicyType::Ucb { alpha: self.alpha, seed: self.rng.seed() }
    }

    /// Resets one arm to the given mean and count, zero for each that is not
    /// given; or, without a handle, all arms to zero. Switches stay as they
    /// are.
    pub fn reset(
        &mut self,
        arm_id: Option<usize>,
        cumulative_reward: Option<Double>,
        count: Option<u64>,
    ) -> (done: Result<(), PolicyError>)
        requires
            old(self).wf(),
        ensures
            final(self).wf(),
            final(self)@ == (UcbState {
                arms: ledger::reset_arms(
                    old(self)@.arms,
                    arm_id,
                    MeanArm::reset_values(cumulative_reward, count),
                    MeanArm::reset_values(None, None),
                ),
                ..old(self)@
            }),
            ledger::reset_done(old(self)@.arms, arm_id, done),
            keys_of(final(self)@.arms) == keys_of(old(self)@.arms),
    {
        match arm_id {
            Some(id) => {
                let mut fresh = MeanArm::new(Double::zero(), 0);
                fresh.reset(cumulative_reward, count);
                ledger::reset_one(&mut self.arms, id, fresh)
            },
            None => {
                ledger::reset_all(&mut self.arms, MeanArm::new(Double::zero(), 0));
                Ok(())
            },
        }
    }

    /// Adds an arm with the given mean and count under the next handle, the
    /// number of arms held, and returns the handle.
    pub fn add_arm(&mut self, initial_reward: Double, initial_count: u64) -> (arm_id: usize)
        requires
            old(self).wf(),
        ensures
            final(self).wf(),
            arm_id == old(self)@.arms.len(),
            final(self)@ == (UcbState {
                arms: ledger::with_arm(
                    old(self)@.arms,
                    arm_id,
                    MeanArm { reward: initial_reward, count: initial_count, is_active: true },
                ),
                ..old(self)@
            }),
            keys_of(final(self)@.arms) == keys_of(old(self)@.arms).insert(arm_id),
            has_key(final(self)@.arms, arm_id),
            forall|other: usize|
                other != arm_id && #[trigger] has_key(old(self)@.arms, other) ==> has_key(
                    final(self)@.arms,
                    other,
                ) && value_of(final(self)@.arms, other) == value_of(old(self)@.arms, other),
    {
        ledger::add(&mut self.arms, MeanArm::new(initial_reward, initial_count))
    }

    /// Switches an arm off: draws pass it over until it is switched on again.
    pub fn disable_arm(&mut self, arm_id: usize) -> (done: Result<(), PolicyError>)
        requires
            old(self).wf(),
        ensures
            final(self).wf(),
            has_key(old(self)@.arms, arm_id) ==> done is Ok && final(self)@ == (UcbState {
                arms: ledger::switch(old(self)@.arms, arm_id, false),
                ..old(self)@
            }),
            !has_key(old(self)@.arms, arm_id) ==> done == Err::<(), PolicyError>(
                PolicyError::ArmNotFound(arm_id),
            ) && final(self)@ == old(self)@,
            keys_of(final(self)@.arms) == keys_of(old(self)@.arms),
    {
        ledger::set_active(&mut self.arms, arm_id, false)
    }

    /// Switches an arm on.
    pub fn enable_arm(&mut self, arm_id: usize) -> (done: Result<(), PolicyError>)
        requires
            old(self).wf(),
        ensures
            final(self).wf(),
            has_key(old(self)@.arms, arm_id) ==> done is Ok && final(self)@ == (UcbState {
                arms: ledger::switch(old(self)@.arms, arm_id, true),
                ..old(self)@
            }),
            !has_key(old(self)@.arms, arm_id) ==> done == Err::<(), PolicyError>(
                PolicyError::ArmNotFound(arm_id),
            ) && final(self)@ == old(self)@,
            keys_of(final(self)@.arms) == keys_of(old(self)@.arms),
    {
        ledger::set_active(&mut self.arms, arm_id, true)
    }

    /// Deletes an arm. The other arms keep their handles.
    pub fn delete_arm(&mut self, arm_id: usize) -> (done: Result<(), PolicyError>)
        requires
            old(self).wf(),
        ensures
            final(self).wf(),
            has_key(old(self)@.arms, arm_id) ==> done is Ok && final(self)@ == (UcbState {
                arms: ledger::without(old(self)@.arms, arm_id),
                ..old(self)@
            }) && keys_of(final(self)@.arms) == keys_of(old(self)@.arms).remove(arm_id),
            !has_key(old(self)@.arms, arm_id) ==> done == Err::<(), PolicyError>(
                PolicyError::ArmNotFound(arm_id),
            ) && final(self)@ == old(self)@,
    {
        ledger::delete(&mut self.arms, arm_id)
    }

    /// Draws an arm, given the scores of the arms by handle: see
    /// [`UcbState::draws`].
    pub fn draw_given(&mut self, timestamp: Double, scores: &ArmTable<Double>) -> (drawn: Result<
        DrawResult,
        PolicyError,
    >)
        requires
            old(self).wf(),
            scores.wf(),
        ensures
            final(self).wf(),
            final(self)@ == old(self)@,
            old(self)@.draws(timestamp, scores@, drawn),
    {
        proof {
            ledger::active_ids_are_the_active_arms(self@.arms);
            ledger::unpulled_ids_are_active(self@.arms);
            ledger::eligible_ids_are_the_eligible_arms(self@.arms, true);
            select::given_scores_are_of_active_arms(self@.arms, scores@);
        }
        let unpulled = ledger::eligible_handles(&self.arms, true);
        let chosen = match self.rng.pick(&unpulled) {
            Some(arm_id) => {
                proof {
                    let k = choose|k: int| 0 <= k < unpulled@.len() && unpulled@[k] == arm_id;
                    assert(ledger::active_ids(self@.arms).contains(unpulled@[k]));
                }
                Some(arm_id)
            },
            None => select::best_by_score(&self.arms, scores),
        };
        match chosen {
            Some(arm_id) => Ok(DrawResult { timestamp, arm_id }),
            None => Err(PolicyError::NoArmsAvailable),
        }
    }

    /// The scores of the active arms: for each, the kernel is asked for its
    /// upper confidence bound.
    pub fn scores<B: Fn(Bound) -> Double>(&self, bound: &B) -> (scores: ArmTable<Double>)
        requires
            self.wf(),
            ledger::active_pulls(self@.arms) <= u64::MAX,
            forall|question: Bound| call_requires(bound, (question,)),
        ensures
            scores.wf(),
            self@.bounds(bound, scores@),
    {
        let total_count = match ledger::total_count(&self.arms) {
            Some(total) => total,
            None => 0,
        };
        proof {
            ledger::active_pulls_nonnegative(self@.arms);
        }
        let mut scores: ArmTable<Double> = ArmTable::new();
        let mut place: usize = 0;
        while place < self.arms.len()
            invariant
                self.wf(),
                scores.wf(),
                place <= self@.arms.len(),
                total_count == ledger::active_pulls(self@.arms),
                forall|question: Bound| call_requires(bound, (question,)),
                forall|id: usize| #[trigger]
                    as_map(scores@).contains_key(id) ==> exists|k: int|
                        0 <= k < place && #[trigger] self@.arms[k].0 == id,
                forall|k: int|
                    0 <= k < place && (#[trigger] self@.arms[k]).1.is_active ==> as_map(
                        scores@,
                    ).contains_key(self@.arms[k].0) && call_ensures(
                        bound,
                        (self@.bound_of(self@.arms[k].1),),
                        as_map(scores@)[self@.arms[k].0],
                    ),
            decreases self@.arms.len() - place,
        {
            let arm = *self.arms.value_at(place);
            let id = self.arms.key_at(place);
            if arm.is_active {
                let ghost before = scores@;
                let score = bound(
                    Bound { mean: arm.reward, count: arm.count, alpha: self.alpha, total_count },
                );
                scores.put(id, score);
                proof {
                    assert(self@.arms[place as int].0 == id);
                    assert forall|k: int|
                        0 <= k < place + 1 && (#[trigger] self@.arms[k]).1.is_active implies as_map(
                        scores@,
                    ).contains_key(self@.arms[k].0) && call_ensures(
                        bound,
                        (self@.bound_of(self@.arms[k].1),),
                        as_map(scores@)[self@.arms[k].0],
                    ) by {
                        if k < place {
                            assert(self@.arms[k].0 != self@.arms[place as int].0);
                            assert(as_map(before).contains_key(self@.arms[k].0));
                        }
                    }
                }
            }
            place += 1;
        }
        proof {
            assert forall|i: int|
                0 <= i < self@.arms.len() && (#[trigger] self@.arms[i]).1.is_active implies has_key(
                scores@,
                self@.arms[i].0,
            ) && call_ensures(
                bound,
                (self@.bound_of(self@.arms[i].1),),
                value_of(scores@, self@.arms[i].0),
            ) by {
                assert(as_map(scores@).contains_key(self@.arms[i].0));
            }
        }
        scores
    }

    /// Draws an arm at the given time. While some active arm has no pull,
    /// the generator picks one of those. Afterwards the kernel is asked for
    /// the upper confidence bound of every active arm, and the arm with the
    /// best bound wins, the first of them in table order.
    pub fn draw<B: Fn(Bound) -> Double>(&mut self, timestamp: Double, bound: &B) -> (drawn: Result<
        DrawResult,
        PolicyError,
    >)
        requires
            old(self).wf(),
            old(self)@.can_draw(),
            forall|question: Bound| call_requires(bound, (question,)),
        ensures
            final(self).wf(),
            final(self)@ == old(self)@,
            old(self)@.draws_by(bound, timestamp, drawn),
    {
        let unpulled = ledger::eligible_handles(&self.arms, true);
        let scores = if unpulled.len() > 0 {
            ArmTable::new()
        } else {
            self.scores(bound)
        };
        self.draw_given(timestamp, &scores)
    }

    /// Takes the reward for an arm in, given the new mean: the arm gets one
    /// more pull and that mean.
    pub fn update_given(&mut self, timestamp: Double, arm_id: usize, mean: Double) -> (done: Result<
        (),
        PolicyError,
    >)
        requires
            old(self).wf(),
            has_key(old(self)@.arms, arm_id) ==> value_of(old(self)@.arms, arm_id).count < u64::MAX,
        ensures
            final(self).wf(),
            has_key(old(self)@.arms, arm_id) ==> done is Ok && final(self)@ == (UcbState {
                arms: ledger::taught(old(self)@.arms, timestamp, arm_id, mean),
                ..old(self)@
            }),
            !has_key(old(self)@.arms, arm_id) ==> done == Err::<(), PolicyError>(
                PolicyError::ArmNotFound(arm_id),
            ) && final(self)@ == old(self)@,
            keys_of(final(self)@.arms) == keys_of(old(self)@.arms),
    {
        ledger::update(&mut self.arms, timestamp, arm_id, mean)
    }

    /// Takes the reward for an arm in: the arm gets one more pull and the
    /// new mean, for which the kernel is asked with the arm's mean, the
    /// reward and the new count.
    pub fn update<M: Fn(MeanStep) -> Double>(
        &mut self,
        timestamp: Double,
        arm_id: usize,
        reward: Double,
        mean: &M,
    ) -> (done: Result<(), PolicyError>)
        requires
            old(self).wf(),
            has_key(old(self)@.arms, arm_id) ==> value_of(old(self)@.arms, arm_id).count < u64::MAX,
            forall|question: MeanStep| call_requires(mean, (question,)),
        ensures
            final(self).wf(),
            final(self)@ == (UcbState { arms: final(self)@.arms, ..old(self)@ }),
            ledger::reward_outcome(
                mean,
                old(self)@.arms,
                timestamp,
                arm_id,
                reward,
                final(self)@.arms,
                done,
            ),
            keys_of(final(self)@.arms) == keys_of(old(self)@.arms),
    {
        ledger::take_reward(&mut self.arms, timestamp, arm_id, reward, mean)
    }

    /// Takes a batch of rewards (time, handle, reward) in, in ascending
    /// order of the timestamps, and stops at the first that names a handle
    /// without an arm; the rewards before it stay applied. The kernel is
    /// asked for each new mean as in `update`.
    pub fn update_batch<M: Fn(MeanStep) -> Double>(
        &mut self,
        updates: &Vec<(Double, usize, Double)>,
        mean: &M,
    ) -> (done: Result<(), PolicyError>)
        requires
            old(self).wf(),
            ledger::can_take(old(self)@.arms, updates@),
            forall|question: MeanStep| call_requires(mean, (question,)),
        ensures
            final(self).wf(),
            final(self)@ == (UcbState { arms: final(self)@.arms, ..old(self)@ }),
            ledger::batch_outcome(mean, old(self)@.arms, updates@, final(self)@.arms, done),
            keys_of(final(self)@.arms) == keys_of(old(self)@.arms),
    {
        ledger::take_rewards(&mut self.arms, updates, mean)
    }

    /// The report on every arm, by handle.
    pub fn stats(&self) -> (stats: PolicyStats)
        requires
            self.wf(),
        ensures
            stats.arms@ == ledger::reports(self@.arms),
            stats.arms@.dom() == keys_of(self@.arms),
    {
        ledger::stats(&self.arms)
    }
}

} // verus!
