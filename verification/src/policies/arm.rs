//! What every arm state offers, whatever the algorithm: its report and its
//! switch.
use crate::double::Double;
use vstd::prelude::*;

verus! {

/// The report on one arm.
#[derive(Clone, Copy, Debug, PartialEq, Eq, Structural)]
pub struct ArmStats {
    /// The number of rewards applied so far.
    pub pulls: u64,
    /// The mean reward, as the algorithm estimates it.
    pub mean_reward: Double,
    /// Whether draws may choose the arm.
    pub is_active: bool,
}

/// The state of one arm. The algorithms differ in what an arm remembers;
/// this is what the bookkeeping needs of any of them.
pub trait Arm: Copy {
    /// What one update brings to an arm: the numbers that the arm holds once
    /// the reward is taken in, computed by the caller.
    type Evidence: Copy;

    /// What is asked of the caller's arithmetic when the arm takes a reward
    /// in: the numbers of the arm that the new ones are computed from, with
    /// the reward and the time.
    type Question;

    /// The report on the arm.
    spec fn report(self) -> ArmStats;

    /// The question for a reward at the given time.
    spec fn asked(self, at: Double, reward: Double) -> Self::Question;

    /// The question for a reward at the given time.
    fn ask(&self, at: Double, reward: Double) -> (question: Self::Question)
        requires
            self.report().pulls < u64::MAX,
        ensures
            question == self.asked(at, reward),
    ;

    /// The arm after an update at the given time: one more pull, and the
    /// numbers of the evidence.
    spec fn learned(self, at: Double, evidence: Self::Evidence) -> Self;

    /// An update adds one pull and leaves the switch alone.
    proof fn learned_report(self, at: Double, evidence: Self::Evidence)
        requires
            self.report().pulls < u64::MAX,
        ensures
            self.learned(at, evidence).report().pulls == self.report().pulls + 1,
            self.learned(at, evidence).report().is_active == self.report().is_active,
    ;

    /// The arm after an update at the given time.
    fn learn(self, at: Double, evidence: Self::Evidence) -> (arm: Self)
        requires
            self.report().pulls < u64::MAX,
        ensures
            arm == self.learned(at, evidence),
    ;

    /// The same arm, switched on or off.
    spec fn switched(self, on: bool) -> Self;

    /// Switching changes the flag of the report and nothing else in it.
    proof fn switched_report(self, on: bool)
        ensures
            self.switched(on).report() == (ArmStats { is_active: on, ..self.report() }),
    ;

    /// The report on the arm.
    fn stats(&self) -> (stats: ArmStats)
        ensures
            stats == self.report(),
    ;

    /// The same arm, switched on or off.
    fn with_active(self, on: bool) -> (arm: Self)
        ensures
            arm == self.switched(on),
    ;
}

} // verus!

verus! {

/// An arm that remembers the running mean of its rewards.
#[derive(Clone, Copy, Debug, PartialEq, Eq, Structural)]
pub struct MeanArm {
    /// The mean of the rewards so far.
    pub reward: Double,
    /// The number of rewards so far.
    pub count: u64,
    /// Whether draws may choose the arm.
    pub is_active: bool,
}

impl MeanArm {
    /// A new arm with the given mean and count, switched on.
    pub fn new(initial_reward: Double, initial_count: u64) -> (arm: Self)
        ensures
            arm == (MeanArm { reward: initial_reward, count: initial_count, is_active: true }),
    {
        MeanArm { reward: initial_reward, count: initial_count, is_active: true }
    }

    /// The mean and the count that a reset sets: the given ones, and zero for
    /// each that is not given.
    pub open spec fn reset_values(cumulative_reward: Option<Double>, count: Option<u64>) -> MeanArm {
        MeanArm {
            reward: match cumulative_reward {
                Some(reward) => reward,
                None => Double { bits: 0 },
            },
            count: match count {
                Some(count) => count,
                None => 0,
            },
            is_active: true,
        }
    }

    /// Resets the mean and the count; the switch stays as it is.
    pub fn reset(&mut self, cumulative_reward: Option<Double>, count: Option<u64>)
        ensures
            *final(self) == (MeanArm {
                is_active: old(self).is_active,
                ..Self::reset_values(cumulative_reward, count)
            }),
    {
        self.reward =
        match cumulative_reward {
            Some(reward) => reward,
            None => Double::zero(),
        };
        self.count =
        match count {
            Some(count) => count,
            None => 0,
        };
    }

    /// The score of the arm in a greedy choice: its mean.
    pub fn sample(&self) -> (score: Double)
        ensures
            score == self.reward,
    {
        self.reward
    }

    /// Takes one reward in: one more pull, and the new mean, which the caller
    /// has computed as `mean + (reward - mean) / count` for the new count.
    pub fn update(&mut self, mean: Double)
        requires
            old(self).count < u64::MAX,
        ensures
            *final(self) == (MeanArm {
                reward: mean,
                count: (old(self).count + 1) as u64,
                ..*old(self)
            }),
    {
        self.count = self.count + 1;
        self.reward = mean;
    }
}

/// What the running mean of an arm is computed from: the mean so far, the
/// reward, and the number of rewards with this one. The new mean is
/// `mean + (reward - mean) / count`.
#[derive(Clone, Copy, Debug, PartialEq, Eq, Structural)]
pub struct MeanStep {
    pub mean: Double,
    pub reward: Double,
    pub count: u64,
}

impl Arm for MeanArm {
    type Evidence = Double;

    type Question = MeanStep;

    open spec fn asked(self, at: Double, reward: Double) -> MeanStep {
        MeanStep { mean: self.reward, reward, count: (self.count + 1) as u64 }
    }

    fn ask(&self, at: Double, reward: Double) -> (question: MeanStep) {
        MeanStep { mean: self.reward, reward, count: self.count + 1 }
    }

    open spec fn report(self) -> ArmStats {
        ArmStats { pulls: self.count, mean_reward: self.reward, is_active: self.is_active }
    }

    open spec fn learned(self, at: Double, evidence: Double) -> Self {
        MeanArm { reward: evidence, count: (self.count + 1) as u64, is_active: self.is_active }
    }

    proof fn learned_report(self, at: Double, evidence: Double) {
    }

    fn learn(self, at: Double, evidence: Double) -> (arm: Self) {
        let mut arm = self;
        arm.update(evidence);
        arm
    }

    open spec fn switched(self, on: bool) -> Self {
        MeanArm { is_active: on, ..self }
    }

    proof fn switched_report(self, on: bool) {
    }

    fn stats(&self) -> (stats: ArmStats) {
        ArmStats { pulls: self.count, mean_reward: self.reward, is_active: self.is_active }
    }

    fn with_active(self, on: bool) -> (arm: Self) {
        MeanArm { is_active: on, ..self }
    }
}

} // verus!
