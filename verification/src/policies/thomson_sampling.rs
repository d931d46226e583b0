//! Thompson sampling over Beta posteriors, with optional discounting of old
//! evidence: a draw samples each active arm's posterior and the best sample
//! wins.
use crate::double::{Double, ONE_BITS};
use crate::errors::PolicyError;
use crate::policies::arm::{Arm, ArmStats};
use crate::policies::ledger;
use crate::policies::ledger::PolicyStats;
use crate::policies::policy::{DrawResult, PolicyType};
use crate::policies::rng::{sampled, MaybeSeededRng};
use crate::policies::select;
use crate::table::{as_map, has_key, keys_of, value_of, ArmTable};
use rand::rngs::SmallRng;
use vstd::prelude::*;

verus! {

/// The bit pattern of 0.5.
pub const HALF_BITS: u64 = 0x3fe0_0000_0000_0000;

/// A Beta posterior with its mean `alpha / (alpha + beta)`.
#[derive(Clone, Copy, Debug, PartialEq, Eq, Structural)]
pub struct Posterior {
    pub alpha: Double,
    pub beta: Double,
    pub mean: Double,
}

impl Posterior {
    /// The posterior before any evidence: Beta(1, 1), with mean 0.5.
    pub open spec fn flat() -> Posterior {
        Posterior {
            alpha: Double { bits: ONE_BITS },
            beta: Double { bits: ONE_BITS },
            mean: Double { bits: HALF_BITS },
        }
    }

    /// The posterior before any evidence: Beta(1, 1), with mean 0.5.
    pub fn uniform() -> (posterior: Posterior)
        ensures
            posterior == Self::flat(),
    {
        Posterior { alpha: Double::one(), beta: Double::one(), mean: Double::from_bits(HALF_BITS) }
    }
}

/// What a discounted posterior is computed from: the posterior, the
/// halflife of the evidence, the time up to which the evidence is discounted
/// already, and the time to discount it to. Both parameters are scaled by
/// `exp(-(at - last_ts) * ln 2 / halflife)`, or left alone without a
/// halflife, and kept at or above 1e-6.
#[derive(Clone, Copy, Debug, PartialEq, Eq, Structural)]
pub struct Aging {
    pub posterior: Posterior,
    pub halflife_seconds: Option<Double>,
    pub last_ts: Double,
    pub at: Double,
}

/// What the posterior of an arm after a reward is computed from: what the
/// discount to the time of the reward is computed from, and the reward. The
/// evidence is first discounted to that time; then the reward is added to
/// `alpha` and one minus the reward to `beta`.
#[derive(Clone, Copy, Debug, PartialEq, Eq, Structural)]
pub struct PosteriorStep {
    pub aging: Aging,
    pub reward: Double,
}

/// The state of an arm under Thompson sampling.
#[derive(Clone, Copy, Debug, PartialEq, Eq, Structural)]
pub struct ThomsonSamplingArm {
    /// The first parameter of the posterior.
    pub alpha: Double,
    /// The second parameter of the posterior.
    pub beta: Double,
    /// The mean of the posterior.
    pub mean: Double,
    /// The number of rewards so far.
    pub count: u64,
    /// The halflife of the evidence, if it is discounted.
    pub halflife_seconds: Option<Double>,
    /// The time up to which the evidence is discounted.
    pub last_ts: Double,
    /// Whether draws may choose the arm.
    pub is_active: bool,
}

impl ThomsonSamplingArm {
    /// A new arm with the given posterior and count, switched on.
    pub open spec fn fresh(
        prior: Posterior,
        initial_count: u64,
        halflife_seconds: Option<Double>,
        now: Double,
    ) -> Self {
        ThomsonSamplingArm {
            alpha: prior.alpha,
            beta: prior.beta,
            mean: prior.mean,
            count: initial_count,
            halflife_seconds,
            last_ts: now,
            is_active: true,
        }
    }

    /// A new arm with the given posterior and count, switched on.
    pub fn new(
        prior: Posterior,
        initial_count: u64,
        halflife_seconds: Option<Double>,
        now: Double,
    ) -> (arm: Self)
        ensures
            arm == Self::fresh(prior, initial_count, halflife_seconds, now),
    {
        ThomsonSamplingArm {
            alpha: prior.alpha,
            beta: prior.beta,
            mean: prior.mean,
            count: initial_count,
            halflife_seconds,
            last_ts: now,
            is_active: true,
        }
    }

    /// The posterior of the arm.
    pub open spec fn law(self) -> Posterior {
        Posterior { alpha: self.alpha, beta: self.beta, mean: self.mean }
    }

    /// The posterior of the arm.
    pub fn posterior(&self) -> (posterior: Posterior)
        ensures
            posterior == self.law(),
    {
        Posterior { alpha: self.alpha, beta: self.beta, mean: self.mean }
    }

    /// The question for the arm's posterior discounted to the given time.
    pub open spec fn aging(self, at: Double) -> Aging {
        Aging {
            posterior: self.law(),
            halflife_seconds: self.halflife_seconds,
            last_ts: self.last_ts,
            at,
        }
    }

    /// The question for the arm's posterior discounted to the given time.
    pub fn aging_at(&self, at: Double) -> (question: Aging)
        ensures
            question == self.aging(at),
    {
        Aging {
            posterior: self.posterior(),
            halflife_seconds: self.halflife_seconds,
            last_ts: self.last_ts,
            at,
        }
    }

    /// The arm with its evidence discounted up to the given time.
    pub open spec fn aged(self, at: Double, posterior: Posterior) -> Self {
        ThomsonSamplingArm {
            alpha: posterior.alpha,
            beta: posterior.beta,
            mean: posterior.mean,
            last_ts: at,
            ..self
        }
    }

    /// Discounts the evidence up to the given time: the arm takes the given
    /// posterior and the time.
    pub fn apply_discount(&mut self, at: Double, posterior: Posterior)
        ensures
            *final(self) == old(self).aged(at, posterior),
    {
        self.alpha = posterior.alpha;
        self.beta = posterior.beta;
        self.mean = posterior.mean;
        self.last_ts = at;
    }

    /// What a reset sets: the given posterior and count, or the flat
    /// posterior and no pull; the clock is set to `now`.
    pub open spec fn reset_values(
        prior: Option<(Posterior, u64)>,
        halflife_seconds: Option<Double>,
        now: Double,
    ) -> Self {
        match prior {
            Some((posterior, count)) => Self::fresh(posterior, count, halflife_seconds, now),
            None => Self::fresh(Posterior::flat(), 0, halflife_seconds, now),
        }
    }

    /// Resets the arm to the given posterior and count, or to the flat
    /// posterior and no pull. The switch and the halflife stay as they are.
    pub fn reset(&mut self, prior: Option<(Posterior, u64)>, now: Double)
        ensures
            *final(self) == (ThomsonSamplingArm {
                is_active: old(self).is_active,
                ..Self::reset_values(prior, old(self).halflife_seconds, now)
            }),
    {
        let on = self.is_active;
        *self =
        match prior {
            Some((posterior, count)) => Self::new(posterior, count, self.halflife_seconds, now),
            None => Self::new(Posterior::uniform(), 0, self.halflife_seconds, now),
        };
        self.is_active = on;
    }

    /// Takes one reward in at the given time: one more pull, the given
    /// posterior and the time.
    pub fn update(&mut self, posterior: Posterior, at: Double)
        requires
            old(self).count < u64::MAX,
        ensures
            *final(self) == (ThomsonSamplingArm {
                count: (old(self).count + 1) as u64,
                ..old(self).aged(at, posterior)
            }),
    {
        self.apply_discount(at, posterior);
        self.count = self.count + 1;
    }
}

impl Arm for ThomsonSamplingArm {
    type Evidence = Posterior;

    type Question = PosteriorStep;

    open spec fn report(self) -> ArmStats {
        ArmStats { pulls: self.count, mean_reward: self.mean, is_active: self.is_active }
    }

    open spec fn asked(self, at: Double, reward: Double) -> PosteriorStep {
        PosteriorStep { aging: self.aging(at), reward }
    }

    fn ask(&self, at: Double, reward: Double) -> (question: PosteriorStep) {
        PosteriorStep { aging: self.aging_at(at), reward }
    }

    open spec fn learned(self, at: Double, evidence: Posterior) -> Self {
        ThomsonSamplingArm { count: (self.count + 1) as u64, ..self.aged(at, evidence) }
    }

    proof fn learned_report(self, at: Double, evidence: Posterior) {
    }

    fn learn(self, at: Double, evidence: Posterior) -> (arm: Self) {
        let mut arm = self;
        arm.update(evidence, at);
        arm
    }

    open spec fn switched(self, on: bool) -> Self {
        ThomsonSamplingArm { is_active: on, ..self }
    }

    proof fn switched_report(self, on: bool) {
    }

    fn stats(&self) -> (stats: ArmStats) {
        ArmStats { pulls: self.count, mean_reward: self.mean, is_active: self.is_active }
    }

    fn with_active(self, on: bool) -> (arm: Self) {
        ThomsonSamplingArm { is_active: on, ..self }
    }
}

/// The arms after a discount up to the given time: each arm that is switched
/// on and has a posterior among the given ones takes it and the time; the
/// others stay as they are.
pub open spec fn discounted(
    s: Seq<(usize, ThomsonSamplingArm)>,
    at: Double,
    given: Seq<(usize, Posterior)>,
) -> Seq<(usize, ThomsonSamplingArm)> {
    Seq::new(
        s.len(),
        |i: int|
            if s[i].1.is_active && has_key(given, s[i].0) {
                (s[i].0, s[i].1.aged(at, value_of(given, s[i].0)))
            } else {
                s[i]
            },
    )
}

/// Whether the posteriors hold, for every active arm, what the kernel has
/// answered for the arm's posterior discounted to the given time.
pub open spec fn ages<D: Fn(Aging) -> Posterior>(
    kernel: D,
    s: Seq<(usize, ThomsonSamplingArm)>,
    at: Double,
    posteriors: Seq<(usize, Posterior)>,
) -> bool {
    forall|i: int|
        0 <= i < s.len() && (#[trigger] s[i]).1.is_active ==> has_key(posteriors, s[i].0)
            && call_ensures(kernel, (s[i].1.aging(at),), value_of(posteriors, s[i].0))
}

/// The sample held for a handle, if one is.
pub open spec fn sample_of(samples: Seq<(usize, Double)>, id: usize) -> Option<Double> {
    if has_key(samples, id) {
        Some(value_of(samples, id))
    } else {
        None
    }
}

/// Whether the samples hold, for every active arm, what the kernel has
/// sampled from the arm's posterior, and nothing for an arm where the kernel
/// had no sample.
pub open spec fn samples_from<S: Fn(&mut SmallRng, Posterior) -> Option<Double>>(
    kernel: S,
    s: Seq<(usize, ThomsonSamplingArm)>,
    samples: Seq<(usize, Double)>,
) -> bool {
    forall|i: int|
        0 <= i < s.len() && (#[trigger] s[i]).1.is_active ==> sampled(
            kernel,
            s[i].1.law(),
            sample_of(samples, s[i].0),
        )
}

/// Whether the outcome is that of a draw at the given time with the given
/// samples: the active arm with the best sample, the first of them in table
/// order; an active arm without a sample is passed over, and there is an
/// error exactly if no active arm has a sample.
pub open spec fn draws(
    s: Seq<(usize, ThomsonSamplingArm)>,
    timestamp: Double,
    samples: Seq<(usize, Double)>,
    drawn: Result<DrawResult, PolicyError>,
) -> bool {
    &&& match select::handle_at(s, select::best_place(select::given_scores(s, samples))) {
        Some(arm_id) => drawn == Ok::<DrawResult, PolicyError>(DrawResult { timestamp, arm_id }),
        None => drawn == Err::<DrawResult, PolicyError>(PolicyError::NoArmsAvailable),
    }
    &&& drawn matches Ok(result) ==> ledger::active_ids(s).contains(result.arm_id)
    &&& select::any_scored(s, samples) <==> drawn is Ok
}

/// Arms with the same handles and switches, place by place, have the same
/// active handles.
pub proof fn same_switches_same_active(
    a: Seq<(usize, ThomsonSamplingArm)>,
    b: Seq<(usize, ThomsonSamplingArm)>,
)
    requires
        a.len() == b.len(),
        forall|i: int|
            0 <= i < a.len() ==> (#[trigger] a[i]).0 == b[i].0 && a[i].1.is_active
                == b[i].1.is_active,
    ensures
        ledger::active_ids(a) == ledger::active_ids(b),
    decreases a.len(),
{
    if a.len() > 0 {
        assert(a[a.len() - 1].0 == b[b.len() - 1].0);
        assert forall|i: int| 0 <= i < a.drop_last().len() implies (#[trigger] a.drop_last()[i]).0
            == b.drop_last()[i].0 && a.drop_last()[i].1.is_active == b.drop_last()[i].1.is_active by {
            assert(a[i].0 == b[i].0);
        }
        same_switches_same_active(a.drop_last(), b.drop_last());
    }
}

/// An arm that a draw returns was active before the draw: discounting
/// changes no switch.
pub proof fn drawn_was_active<
    D: Fn(Aging) -> Posterior,
    S: Fn(&mut SmallRng, Posterior) -> Option<Double>,
>(
    before: ThomsonSamplingState,
    after: ThomsonSamplingState,
    discount: D,
    sampler: S,
    timestamp: Double,
    drawn: Result<DrawResult, PolicyError>,
)
    requires
        before.draws_by(discount, sampler, timestamp, after, drawn),
    ensures
        drawn matches Ok(result) ==> result.timestamp == timestamp && ledger::active_ids(
            before.arms,
        ).contains(result.arm_id),
{
    if drawn is Ok {
        let posteriors = choose|posteriors: Seq<(usize, Posterior)>| #[trigger]
            ages(discount, before.arms, timestamp, posteriors) && after == (ThomsonSamplingState {
                arms: discounted(before.arms, timestamp, posteriors),
                ..before
            });
        same_switches_same_active(before.arms, after.arms);
    }
}

/// A Thompson-sampling policy.
pub struct ThomsonSampling {
    halflife_seconds: Option<Double>,
    arms: ArmTable<ThomsonSamplingArm>,
    rng: MaybeSeededRng,
}

/// What a Thompson-sampling policy is, but for the state of its generator.
pub struct ThomsonSamplingState {
    /// The time after which evidence counts half, if evidence is discounted.
    pub halflife_seconds: Option<Double>,
    /// The arms under their handles, in the order of first use.
    pub arms: Seq<(usize, ThomsonSamplingArm)>,
    /// The seed of the generator, if it has one.
    pub seed: Option<u64>,
}

impl ThomsonSamplingState {
    /// The state after an arm with the given posterior and count is added
    /// under the handle.
    pub open spec fn with_arm(
        self,
        arm_id: usize,
        prior: Posterior,
        initial_count: u64,
        now: Double,
    ) -> Self {
        ThomsonSamplingState {
            arms: ledger::with_arm(
                self.arms,
                arm_id,
                ThomsonSamplingArm::fresh(prior, initial_count, self.halflife_seconds, now),
            ),
            ..self
        }
    }

    /// Whether the state `after` is this state after an arm is added under
    /// the handle, with the posterior that the kernel has answered for the
    /// initial reward and count.
    pub open spec fn adds_by<P: Fn(Double, u64) -> Posterior>(
        self,
        prior: P,
        initial_reward: Double,
        initial_count: u64,
        now: Double,
        arm_id: usize,
        after: Self,
    ) -> bool {
        exists|posterior: Posterior|
            call_ensures(prior, (initial_reward, initial_count), posterior) && after
                == #[trigger] self.with_arm(arm_id, posterior, initial_count, now)
    }

    /// The state after a reset with the given posterior and count: one arm,
    /// if it exists, or without a handle all arms.
    pub open spec fn reset_to(
        self,
        arm_id: Option<usize>,
        prior: Option<(Posterior, u64)>,
        now: Double,
    ) -> Self {
        ThomsonSamplingState {
            arms: ledger::reset_arms(
                self.arms,
                arm_id,
                ThomsonSamplingArm::reset_values(prior, self.halflife_seconds, now),
                ThomsonSamplingArm::reset_values(None, self.halflife_seconds, now),
            ),
            ..self
        }
    }

    /// Whether the state `after` and the outcome are those of a reset with
    /// the given posterior and count.
    pub open spec fn resets(
        self,
        arm_id: Option<usize>,
        prior: Option<(Posterior, u64)>,
        now: Double,
        after: Self,
        done: Result<(), PolicyError>,
    ) -> bool {
        after == self.reset_to(arm_id, prior, now) && ledger::reset_done(self.arms, arm_id, done)
    }

    /// Whether the state `after` and the outcome are those of a reset when
    /// the kernel computes the posterior. Where a handle, a reward and a
    /// count are given, the arm is reset to the kernel's posterior for that
    /// reward and count; otherwise to the flat posterior.
    pub open spec fn resets_by<P: Fn(Double, u64) -> Posterior>(
        self,
        prior: P,
        arm_id: Option<usize>,
        cumulative_reward: Option<Double>,
        count: Option<u64>,
        now: Double,
        after: Self,
        done: Result<(), PolicyError>,
    ) -> bool {
        &&& ledger::reset_done(self.arms, arm_id, done)
        &&& match (arm_id, cumulative_reward, count) {
            (Some(id), Some(reward), Some(pulls)) => exists|posterior: Posterior|
                call_ensures(prior, (reward, pulls), posterior) && after
                    == #[trigger] self.reset_to(arm_id, Some((posterior, pulls)), now),
            _ => after == self.reset_to(arm_id, None, now),
        }
    }

    /// Whether the state `after` is this state with the evidence of the
    /// active arms discounted to the given time by the kernel.
    pub open spec fn discounts_by<D: Fn(Aging) -> Posterior>(
        self,
        discount: D,
        timestamp: Double,
        after: Self,
    ) -> bool {
        exists|posteriors: Seq<(usize, Posterior)>| #[trigger]
            ages(discount, self.arms, timestamp, posteriors) && after == (ThomsonSamplingState {
                arms: discounted(self.arms, timestamp, posteriors),
                ..self
            })
    }

    /// Whether the state `after` and the outcome are those of a draw at the
    /// given time when the kernel `discount` discounts the evidence and the
    /// kernel `sampler` samples the posteriors.
    pub open spec fn draws_by<
        D: Fn(Aging) -> Posterior,
        S: Fn(&mut SmallRng, Posterior) -> Option<Double>,
    >(
        self,
        discount: D,
        sampler: S,
        timestamp: Double,
        after: Self,
        drawn: Result<DrawResult, PolicyError>,
    ) -> bool {
        &&& self.discounts_by(discount, timestamp, after)
        &&& exists|samples: Seq<(usize, Double)>| #[trigger]
            samples_from(sampler, after.arms, samples) && draws(
                after.arms,
                timestamp,
                samples,
                drawn,
            )
    }
}

impl View for ThomsonSampling {
    type V = ThomsonSamplingState;

    closed spec fn view(&self) -> ThomsonSamplingState {
        ThomsonSamplingState {
            halflife_seconds: self.halflife_seconds,
            arms: self.arms@,
            seed: self.rng.seed_of(),
        }
    }
}

impl ThomsonSampling {
    /// What holds of every policy: no handle occurs twice.
    pub closed spec fn wf(&self) -> bool {
        self.arms.wf()
    }

    /// The invariant, stated over the view.
    pub proof fn wf_means_distinct(&self)
        requires
            self.wf(),
        ensures
            crate::table::distinct_keys(self@.arms),
    {
    }

    /// A policy without arms. With a halflife, evidence is discounted: after
    /// that many seconds it counts half.
    pub fn new(halflife_seconds: Option<Double>, seed: Option<u64>) -> (policy: Self)
        ensures
            policy.wf(),
            policy@ == (ThomsonSamplingState { halflife_seconds, arms: Seq::empty(), seed }),
    {
        ThomsonSampling { halflife_seconds, arms: ArmTable::new(), rng: MaybeSeededRng::new(seed) }
    }

    /// A policy with the given arms, as when a snapshot is loaded. The
    /// generator starts anew from the seed.
    pub fn restore(
        halflife_seconds: Option<Double>,
        seed: Option<u64>,
        arms: ArmTable<ThomsonSamplingArm>,
    ) -> (policy: Self)
        requires
            arms.wf(),
        ensures
            policy.wf(),
            policy@ == (ThomsonSamplingState { halflife_seconds, arms: arms@, seed }),
    {
        ThomsonSampling { halflife_seconds, arms, rng: MaybeSeededRng::new(seed) }
    }

    /// An independent copy of the policy.
    pub fn clone_snapshot(&self) -> (copy: Self)
        requires
            self.wf(),
        ensures
            copy.wf(),
            copy@ == self@,
    {
        ThomsonSampling {
            halflife_seconds: self.halflife_seconds,
            arms: self.arms.duplicate(),
            rng: self.rng.duplicate(),
        }
    }

    /// The halflife of the evidence, if it is discounted.
    pub fn halflife_seconds(&self) -> (halflife: Option<Double>)
        ensures
            halflife == self@.halflife_seconds,
    {
        self.halflife_seconds
    }

    /// The arms under their handles.
    pub fn arms(&self) -> (arms: &ArmTable<ThomsonSamplingArm>)
        requires
            self.wf(),
        ensures
            arms.wf(),
            arms@ == self@.arms,
    {
        &self.arms
    }

    /// The pulls of the active arms, added up. None if the sum is beyond
    /// the range of the counter.
    pub fn total_count(&self) -> (total: Option<u64>)
        ensures
            ledger::active_pulls(self@.arms) <= u64::MAX ==> total == Some(
                ledger::active_pulls(self@.arms) as u64,
            ),
            ledger::active_pulls(self@.arms) > u64::MAX ==> total is None,
    {
        ledger::total_count(&self.arms)
    }

    /// Whether the policy can take the batch of rewards in without a count
    /// running over.
    pub fn can_take(&self, updates: &Vec<(Double, usize, Double)>) -> (enough: bool)
        requires
            self.wf(),
        ensures
            enough == ledger::can_take(self@.arms, updates@),
    {
        ledger::can_take_batch(&self.arms, updates)
    }

    /// The description of the policy.
    pub fn policy_type(&self) -> (described: PolicyType)
        ensures
            described == (PolicyType::ThomsonSampling {
                halflife_seconds: self@.halflife_seconds,
                seed: self@.seed,
            }),
    {
        PolicyType::ThomsonSampling {
            halflife_seconds: self.halflife_seconds,
            seed: self.rng.seed(),
        }
    }

    /// Resets one arm to the given posterior and count, or to the flat
    /// posterior and no pull where none is given; or, without a handle, all
    /// arms to the flat posterior. Switches stay as they are; the arms'
    /// clocks are set to `now`.
    pub fn reset_given(
        &mut self,
        arm_id: Option<usize>,
        prior: Option<(Posterior, u64)>,
        now: Double,
    ) -> (done: Result<(), PolicyError>)
        requires
            old(self).wf(),
        ensures
            final(self).wf(),
            old(self)@.resets(arm_id, prior, now, final(self)@, done),
            keys_of(final(self)@.arms) == keys_of(old(self)@.arms),
    {
        match arm_id {
            Some(id) => {
                let mut fresh = ThomsonSamplingArm::new(
                    Posterior::uniform(),
                    0,
                    self.halflife_seconds,
                    now,
                );
                fresh.reset(prior, now);
                ledger::reset_one(&mut self.arms, id, fresh)
            },
            None => {
                ledger::reset_all(
                    &mut self.arms,
                    ThomsonSamplingArm::new(Posterior::uniform(), 0, self.halflife_seconds, now),
                );
                Ok(())
            },
        }
    }

    /// Resets one arm, or without a handle all arms, as `reset_given` does.
    /// Where a handle, a reward and a count are given, the kernel is asked
    /// for the posterior of that reward and count, `alpha = 1 + reward` and
    /// `beta = 1 + count - reward`; otherwise the posterior is the flat one.
    pub fn reset<P: Fn(Double, u64) -> Posterior>(
        &mut self,
        arm_id: Option<usize>,
        cumulative_reward: Option<Double>,
        count: Option<u64>,
        now: Double,
        prior: &P,
    ) -> (done: Result<(), PolicyError>)
        requires
            old(self).wf(),
            forall|reward: Double, pulls: u64| call_requires(prior, (reward, pulls)),
        ensures
            final(self).wf(),
            old(self)@.resets_by(prior, arm_id, cumulative_reward, count, now, final(self)@, done),
            keys_of(final(self)@.arms) == keys_of(old(self)@.arms),
    {
        match (arm_id, cumulative_reward, count) {
            (Some(_), Some(reward), Some(pulls)) => {
                let posterior = prior(reward, pulls);
                let done = self.reset_given(arm_id, Some((posterior, pulls)), now);
                proof {
                    assert(call_ensures(prior, (reward, pulls), posterior));
                    assert(old(self)@.resets(arm_id, Some((posterior, pulls)), now, self@, done));
                }
                done
            },
            _ => self.reset_given(arm_id, None, now),
        }
    }

    /// Adds an arm with the given posterior and count under the next handle,
    /// the number of arms held, and returns the handle.
    pub fn add_arm_given(&mut self, prior: Posterior, initial_count: u64, now: Double) -> (arm_id:
        usize)
        requires
            old(self).wf(),
        ensures
            final(self).wf(),
            arm_id == old(self)@.arms.len(),
            final(self)@ == old(self)@.with_arm(arm_id, prior, initial_count, now),
            keys_of(final(self)@.arms) == keys_of(old(self)@.arms).insert(arm_id),
            has_key(final(self)@.arms, arm_id),
            forall|other: usize|
                other != arm_id && #[trigger] has_key(old(self)@.arms, other) ==> has_key(
                    final(self)@.arms,
                    other,
                ) && value_of(final(self)@.arms, other) == value_of(old(self)@.arms, other),
    {
        ledger::add(
            &mut self.arms,
            ThomsonSamplingArm::new(prior, initial_count, self.halflife_seconds, now),
        )
    }

    /// Adds an arm under the next handle, the number of arms held, and
    /// returns the handle. The kernel is asked for the posterior of the
    /// initial reward and count, `alpha = 1 + reward` and
    /// `beta = 1 + count - reward`.
    pub fn add_arm<P: Fn(Double, u64) -> Posterior>(
        &mut self,
        initial_reward: Double,
        initial_count: u64,
        now: Double,
        prior: &P,
    ) -> (arm_id: usize)
        requires
            old(self).wf(),
            forall|reward: Double, pulls: u64| call_requires(prior, (reward, pulls)),
        ensures
            final(self).wf(),
            arm_id == old(self)@.arms.len(),
            old(self)@.adds_by(prior, initial_reward, initial_count, now, arm_id, final(self)@),
            keys_of(final(self)@.arms) == keys_of(old(self)@.arms).insert(arm_id),
            has_key(final(self)@.arms, arm_id),
            forall|other: usize|
                other != arm_id && #[trigger] has_key(old(self)@.arms, other) ==> has_key(
                    final(self)@.arms,
                    other,
                ) && value_of(final(self)@.arms, other) == value_of(old(self)@.arms, other),
    {
        let posterior = prior(initial_reward, initial_count);
        self.add_arm_given(posterior, initial_count, now)
    }

    /// Switches an arm off: draws pass it over until it is switched on again.
    pub fn disable_arm(&mut self, arm_id: usize) -> (done: Result<(), PolicyError>)
        requires
            old(self).wf(),
        ensures
            final(self).wf(),
            has_key(old(self)@.arms, arm_id) ==> done is Ok && final(self)@ == (ThomsonSamplingState {
                arms: ledger::switch(old(self)@.arms, arm_id, false),
                ..old(self)@
            }),
            !has_key(old(self)@.arms, arm_id) ==> done == Err::<(), PolicyError>(
                PolicyError::ArmNotFound(arm_id),
            ) && final(self)@ == old(self)@,
            keys_of(final(self)@.arms) == keys_of(old(self)@.arms),
    {
        ledger::set_active(&mut self.arms, arm_id, false)
    }

    /// Switches an arm on.
    pub fn enable_arm(&mut self, arm_id: usize) -> (done: Result<(), PolicyError>)
        requires
            old(self).wf(),
        ensures
            final(self).wf(),
            has_key(old(self)@.arms, arm_id) ==> done is Ok && final(self)@ == (ThomsonSamplingState {
                arms: ledger::switch(old(self)@.arms, arm_id, true),
                ..old(self)@
            }),
            !has_key(old(self)@.arms, arm_id) ==> done == Err::<(), PolicyError>(
                PolicyError::ArmNotFound(arm_id),
            ) && final(self)@ == old(self)@,
            keys_of(final(self)@.arms) == keys_of(old(self)@.arms),
    {
        ledger::set_active(&mut self.arms, arm_id, true)
    }

    /// Deletes an arm. The other arms keep their handles.
    pub fn delete_arm(&mut self, arm_id: usize) -> (done: Result<(), PolicyError>)
        requires
            old(self).wf(),
        ensures
            final(self).wf(),
            has_key(old(self)@.arms, arm_id) ==> done is Ok && final(self)@ == (ThomsonSamplingState {
                arms: ledger::without(old(self)@.arms, arm_id),
                ..old(self)@
            }) && keys_of(final(self)@.arms) == keys_of(old(self)@.arms).remove(arm_id),
            !has_key(old(self)@.arms, arm_id) ==> done == Err::<(), PolicyError>(
                PolicyError::ArmNotFound(arm_id),
            ) && final(self)@ == old(self)@,
    {
        ledger::delete(&mut self.arms, arm_id)
    }

    /// Discounts the evidence of the active arms up to the given time. Each
    /// active arm takes the posterior given for its handle; an active arm
    /// without one stays as it is.
    pub fn apply_discount_given(&mut self, timestamp: Double, posteriors: &ArmTable<Posterior>)
        requires
            old(self).wf(),
            posteriors.wf(),
        ensures
            final(self).wf(),
            final(self)@ == (ThomsonSamplingState {
                arms: discounted(old(self)@.arms, timestamp, posteriors@),
                ..old(self)@
            }),
            keys_of(final(self)@.arms) == keys_of(old(self)@.arms),
    {
        let mut place: usize = 0;
        while place < self.arms.len()
            invariant
                self.arms.wf(),
                posteriors.wf(),
                place <= self.arms@.len(),
                self.arms@.len() == old(self).arms@.len(),
                self.halflife_seconds == old(self).halflife_seconds,
                self.rng.seed_of() == old(self).rng.seed_of(),
                keys_of(self.arms@) == keys_of(old(self).arms@),
                forall|k: int|
                    0 <= k < place ==> self.arms@[k] == discounted(
                        old(self).arms@,
                        timestamp,
                        posteriors@,
                    )[k],
                forall|k: int| place <= k < self.arms@.len() ==> self.arms@[k] == old(self).arms@[k],
            decreases self.arms@.len() - place,
        {
            let arm = *self.arms.value_at(place);
            if arm.is_active {
                match posteriors.get(self.arms.key_at(place)) {
                    Some(posterior) => {
                        let mut aged = arm;
                        aged.apply_discount(timestamp, *posterior);
                        self.arms.set_at(place, aged);
                    },
                    None => {},
                }
            }
            place += 1;
        }
        proof {
            assert(self.arms@ =~= discounted(old(self).arms@, timestamp, posteriors@));
        }
    }

    /// The posteriors of the active arms discounted to the given time: for
    /// each, the kernel is asked.
    pub fn discounts<D: Fn(Aging) -> Posterior>(&self, timestamp: Double, discount: &D) -> (posteriors:
        ArmTable<Posterior>)
        requires
            self.wf(),
            forall|question: Aging| call_requires(discount, (question,)),
        ensures
            posteriors.wf(),
            ages(discount, self@.arms, timestamp, posteriors@),
    {
        let mut posteriors: ArmTable<Posterior> = ArmTable::new();
        let mut place: usize = 0;
        while place < self.arms.len()
            invariant
                self.wf(),
                posteriors.wf(),
                place <= self@.arms.len(),
                forall|question: Aging| call_requires(discount, (question,)),
                forall|id: usize| #[trigger]
                    as_map(posteriors@).contains_key(id) ==> exists|k: int|
                        0 <= k < place && #[trigger] self@.arms[k].0 == id,
                forall|k: int|
                    0 <= k < place && (#[trigger] self@.arms[k]).1.is_active ==> as_map(
                        posteriors@,
                    ).contains_key(self@.arms[k].0) && call_ensures(
                        discount,
                        (self@.arms[k].1.aging(timestamp),),
                        as_map(posteriors@)[self@.arms[k].0],
                    ),
            decreases self@.arms.len() - place,
        {
            let arm = *self.arms.value_at(place);
            let id = self.arms.key_at(place);
            if arm.is_active {
                let ghost before = posteriors@;
                let posterior = discount(arm.aging_at(timestamp));
                posteriors.put(id, posterior);
                proof {
                    assert(self@.arms[place as int].0 == id);
                    assert forall|k: int|
                        0 <= k < place + 1 && (#[trigger] self@.arms[k]).1.is_active implies as_map(
                        posteriors@,
                    ).contains_key(self@.arms[k].0) && call_ensures(
                        discount,
                        (self@.arms[k].1.aging(timestamp),),
                        as_map(posteriors@)[self@.arms[k].0],
                    ) by {
                        if k < place {
                            assert(self@.arms[k].0 != self@.arms[place as int].0);
                            assert(as_map(before).contains_key(self@.arms[k].0));
                        }
                    }
                }
            }
            place += 1;
        }
        proof {
            assert forall|i: int|
                0 <= i < self@.arms.len() && (#[trigger] self@.arms[i]).1.is_active implies has_key(
                posteriors@,
                self@.arms[i].0,
            ) && call_ensures(
                discount,
                (self@.arms[i].1.aging(timestamp),),
                value_of(posteriors@, self@.arms[i].0),
            ) by {
                assert(as_map(posteriors@).contains_key(self@.arms[i].0));
            }
        }
        posteriors
    }

    /// Discounts the evidence of the active arms up to the given time: for
    /// each of them the kernel is asked for the discounted posterior.
    pub fn apply_discount<D: Fn(Aging) -> Posterior>(&mut self, timestamp: Double, discount: &D)
        requires
            old(self).wf(),
            forall|question: Aging| call_requires(discount, (question,)),
        ensures
            final(self).wf(),
            old(self)@.discounts_by(discount, timestamp, final(self)@),
            keys_of(final(self)@.arms) == keys_of(old(self)@.arms),
    {
        let posteriors = self.discounts(timestamp, discount);
        self.apply_discount_given(timestamp, &posteriors);
    }

    /// Samples of the posteriors of the active arms: for each, the kernel
    /// draws with the policy's generator; an arm for which it has no sample
    /// gets none.
    pub fn samples<S: Fn(&mut SmallRng, Posterior) -> Option<Double>>(
        &mut self,
        sampler: &S,
    ) -> (samples: ArmTable<Double>)
        requires
            old(self).wf(),
            forall|generator: &mut SmallRng, posterior: Posterior|
                call_requires(sampler, (generator, posterior)),
        ensures
            final(self).wf(),
            final(self)@ == old(self)@,
            samples.wf(),
            samples_from(sampler, old(self)@.arms, samples@),
    {
        let mut samples: ArmTable<Double> = ArmTable::new();
        let mut place: usize = 0;
        while place < self.arms.len()
            invariant
                self.wf(),
                self@ == old(self)@,
                samples.wf(),
                place <= self@.arms.len(),
                forall|generator: &mut SmallRng, posterior: Posterior|
                    call_requires(sampler, (generator, posterior)),
                forall|id: usize| #[trigger]
                    as_map(samples@).contains_key(id) ==> exists|k: int|
                        0 <= k < place && #[trigger] self@.arms[k].0 == id,
                forall|k: int|
                    0 <= k < place && (#[trigger] self@.arms[k]).1.is_active ==> sampled(
                        sampler,
                        self@.arms[k].1.law(),
                        if as_map(samples@).contains_key(self@.arms[k].0) {
                            Some(as_map(samples@)[self@.arms[k].0])
                        } else {
                            None
                        },
                    ),
            decreases self@.arms.len() - place,
        {
            let arm = *self.arms.value_at(place);
            let id = self.arms.key_at(place);
            if arm.is_active {
                let ghost before = samples@;
                let sample = self.rng.sample(sampler, arm.posterior());
                proof {
                    assert(self@.arms[place as int].0 == id);
                    if as_map(before).contains_key(id) {
                        let k = choose|k: int| 0 <= k < place && #[trigger] self@.arms[k].0 == id;
                        assert(self@.arms[k].0 != self@.arms[place as int].0);
                    }
                }
                match sample {
                    Some(value) => {
                        samples.put(id, value);
                    },
                    None => {},
                }
                proof {
                    assert forall|k: int|
                        0 <= k < place + 1 && (#[trigger] self@.arms[k]).1.is_active implies sampled(
                        sampler,
                        self@.arms[k].1.law(),
                        if as_map(samples@).contains_key(self@.arms[k].0) {
                            Some(as_map(samples@)[self@.arms[k].0])
                        } else {
                            None
                        },
                    ) by {
                        if k < place {
                            assert(self@.arms[k].0 != self@.arms[place as int].0);
                        }
                    }
                }
            }
            place += 1;
        }
        proof {
            assert forall|i: int|
                0 <= i < self@.arms.len() && (#[trigger] self@.arms[i]).1.is_active implies sampled(
                sampler,
                self@.arms[i].1.law(),
                sample_of(samples@, self@.arms[i].0),
            ) by {
                assert(as_map(samples@).contains_key(self@.arms[i].0) == has_key(
                    samples@,
                    self@.arms[i].0,
                ));
            }
        }
        samples
    }

    /// Draws an arm, given the samples of the arms by handle: see [`draws`].
    pub fn draw_given(&self, timestamp: Double, samples: &ArmTable<Double>) -> (drawn: Result<
        DrawResult,
        PolicyError,
    >)
        requires
            self.wf(),
            samples.wf(),
        ensures
            draws(self@.arms, timestamp, samples@, drawn),
    {
        proof {
            select::given_scores_are_of_active_arms(self@.arms, samples@);
            ledger::active_ids_are_the_active_arms(self@.arms);
        }
        match select::best_by_score(&self.arms, samples) {
            Some(arm_id) => Ok(DrawResult { timestamp, arm_id }),
            None => Err(PolicyError::NoArmsAvailable),
        }
    }

    /// Draws an arm at the given time. First the evidence of the active arms
    /// is discounted up to that time, as `apply_discount` does. Then the
    /// kernel `sampler` samples the posterior of each active arm with the
    /// policy's generator, and the arm with the best sample wins, the first
    /// of them in table order. An arm for which the kernel has no sample is
    /// passed over.
    pub fn draw<D: Fn(Aging) -> Posterior, S: Fn(&mut SmallRng, Posterior) -> Option<Double>>(
        &mut self,
        timestamp: Double,
        discount: &D,
        sampler: &S,
    ) -> (drawn: Result<DrawResult, PolicyError>)
        requires
            old(self).wf(),
            forall|question: Aging| call_requires(discount, (question,)),
            forall|generator: &mut SmallRng, posterior: Posterior|
                call_requires(sampler, (generator, posterior)),
        ensures
            final(self).wf(),
            old(self)@.draws_by(discount, sampler, timestamp, final(self)@, drawn),
            keys_of(final(self)@.arms) == keys_of(old(self)@.arms),
            drawn matches Ok(result) ==> result.timestamp == timestamp && ledger::active_ids(
                old(self)@.arms,
            ).contains(result.arm_id),
    {
        self.apply_discount(timestamp, discount);
        let samples = self.samples(sampler);
        let drawn = self.draw_given(timestamp, &samples);
        proof {
            drawn_was_active(old(self)@, self@, discount, sampler, timestamp, drawn);
        }
        drawn
    }

    /// Takes the reward for an arm in at the given time, given the new
    /// posterior: the arm gets one more pull, that posterior and the time.
    pub fn update_given(&mut self, timestamp: Double, arm_id: usize, posterior: Posterior) -> (done:
        Result<(), PolicyError>)
        requires
            old(self).wf(),
            has_key(old(self)@.arms, arm_id) ==> value_of(old(self)@.arms, arm_id).count < u64::MAX,
        ensures
            final(self).wf(),
            has_key(old(self)@.arms, arm_id) ==> done is Ok && final(self)@ == (ThomsonSamplingState {
                arms: ledger::taught(old(self)@.arms, timestamp, arm_id, posterior),
                ..old(self)@
            }),
            !has_key(old(self)@.arms, arm_id) ==> done == Err::<(), PolicyError>(
                PolicyError::ArmNotFound(arm_id),
            ) && final(self)@ == old(self)@,
            keys_of(final(self)@.arms) == keys_of(old(self)@.arms),
    {
        ledger::update(&mut self.arms, timestamp, arm_id, posterior)
    }

    /// Takes the reward for an arm in at the given time: the arm gets one
    /// more pull, the time, and the new posterior, for which the kernel is
    /// asked with the arm's posterior, its halflife and clock, the time and
    /// the reward.
    pub fn update<L: Fn(PosteriorStep) -> Posterior>(
        &mut self,
        timestamp: Double,
        arm_id: usize,
        reward: Double,
        learned: &L,
    ) -> (done: Result<(), PolicyError>)
        requires
            old(self).wf(),
            has_key(old(self)@.arms, arm_id) ==> value_of(old(self)@.arms, arm_id).count < u64::MAX,
            forall|question: PosteriorStep| call_requires(learned, (question,)),
        ensures
            final(self).wf(),
            final(self)@ == (ThomsonSamplingState { arms: final(self)@.arms, ..old(self)@ }),
            ledger::reward_outcome(
                learned,
                old(self)@.arms,
                timestamp,
                arm_id,
                reward,
                final(self)@.arms,
                done,
            ),
            keys_of(final(self)@.arms) == keys_of(old(self)@.arms),
    {
        ledger::take_reward(&mut self.arms, timestamp, arm_id, reward, learned)
    }

    /// Takes a batch of rewards (time, handle, reward) in, in ascending
    /// order of the timestamps, and stops at the first that names a handle
    /// without an arm; the rewards before it stay applied. The kernel is
    /// asked for each new posterior as in `update`.
    pub fn update_batch<L: Fn(PosteriorStep) -> Posterior>(
        &mut self,
        updates: &Vec<(Double, usize, Double)>,
        learned: &L,
    ) -> (done: Result<(), PolicyError>)
        requires
            old(self).wf(),
            ledger::can_take(old(self)@.arms, updates@),
            forall|question: PosteriorStep| call_requires(learned, (question,)),
        ensures
            final(self).wf(),
            final(self)@ == (ThomsonSamplingState { arms: final(self)@.arms, ..old(self)@ }),
            ledger::batch_outcome(learned, old(self)@.arms, updates@, final(self)@.arms, done),
            keys_of(final(self)@.arms) == keys_of(old(self)@.arms),
    {
        ledger::take_rewards(&mut self.arms, updates, learned)
    }

    /// The report on every arm, by handle.
    pub fn stats(&self) -> (stats: PolicyStats)
        requires
            self.wf(),
        ensures
            stats.arms@ == ledger::reports(self@.arms),
            stats.arms@.dom() == keys_of(self@.arms),
    {
        ledger::stats(&self.arms)
    }
}

} // verus!
