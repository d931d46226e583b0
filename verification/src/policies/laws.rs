//! What follows from the bookkeeping for whole histories of a policy: which
//! handles are alive after arms were added and deleted, how many pulls an arm
//! has after rewards, that an arm switched off is not drawn, when a draw
//! finds an arm, and how far the arms determine what a command leaves.
use crate::double::Double;
use crate::errors::PolicyError;
use crate::policies::arm::Arm;
use crate::policies::batch::sorted_by_time;
use crate::policies::epsilon_greedy::{Decay, EpsilonGreedyState};
use crate::policies::ledger::{
    active_ids, active_ids_are_the_active_arms, all_renewed, all_rewarded, eligible_at,
    eligible_ids_are_the_eligible_arms, pulls_of, renewed, reports, rewarded, room_in, switch,
    taught, taught_counts_one_pull, unpulled_ids, with_arm, without,
};
use crate::policies::policy::{DrawResult, PolicyState, PolicyType};
use crate::policies::select::{any_scored, given_scores};
use crate::policies::thomson_sampling::{
    ages, discounted, draws, samples_from, Aging, Posterior, ThomsonSamplingState,
};
use crate::policies::ucb::{Bound, UcbState};
use rand::rngs::SmallRng;
use crate::table::{
    distinct_keys, has_key, keys_of, place_is_unique, place_of, remove_as_map, update_as_map,
    update_or_push_keeps_others, value_of,
};
use vstd::prelude::*;

verus! {

/// One step in the life of a policy's arms: an arm is added, or the arm
/// under a handle is deleted.
pub enum Change<A> {
    Add(A),
    Delete(usize),
}

/// The arms after one step. A new arm gets the number of arms as its handle;
/// deleting under a handle without an arm changes nothing.
pub open spec fn changed<A>(s: Seq<(usize, A)>, change: Change<A>) -> Seq<(usize, A)> {
    match change {
        Change::Add(arm) => with_arm(s, s.len() as usize, arm),
        Change::Delete(id) => if has_key(s, id) {
            without(s, id)
        } else {
            s
        },
    }
}

/// The arms after the steps, one after the other.
pub open spec fn history<A>(s: Seq<(usize, A)>, changes: Seq<Change<A>>) -> Seq<(usize, A)>
    decreases changes.len(),
{
    if changes.len() == 0 {
        s
    } else {
        changed(history(s, changes.drop_last()), changes.last())
    }
}

/// The handles that are alive after the steps: those of the start, each
/// handle given out by an addition, less each handle deleted since.
pub open spec fn live<A>(s: Seq<(usize, A)>, changes: Seq<Change<A>>) -> Set<usize>
    decreases changes.len(),
{
    if changes.len() == 0 {
        keys_of(s)
    } else {
        let before = live(s, changes.drop_last());
        match changes.last() {
            Change::Add(_) => before.insert(history(s, changes.drop_last()).len() as usize),
            Change::Delete(id) => before.remove(id),
        }
    }
}

/// After any sequence of additions and deletions, the report of a policy has
/// an entry for exactly the handles that are alive.
pub proof fn report_covers_the_live_handles<A: Arm>(s: Seq<(usize, A)>, changes: Seq<Change<A>>)
    requires
        distinct_keys(s),
        s.len() + changes.len() <= usize::MAX,
    ensures
        distinct_keys(history(s, changes)),
        history(s, changes).len() <= s.len() + changes.len(),
        keys_of(history(s, changes)) == live(s, changes),
        reports(history(s, changes)).dom() == live(s, changes),
    decreases changes.len(),
{
    if changes.len() > 0 {
        let earlier = changes.drop_last();
        report_covers_the_live_handles(s, earlier);
        let before = history(s, earlier);
        match changes.last() {
            Change::Add(arm) => {
                update_or_push_keeps_others(before, before.len() as usize, arm);
            },
            Change::Delete(id) => {
                if has_key(before, id) {
                    let p = place_of(before, id);
                    remove_as_map(before, p);
                } else {
                    assert(keys_of(before).remove(id) =~= keys_of(before));
                }
            },
        }
    }
    assert(reports(history(s, changes)).dom() =~= keys_of(history(s, changes)));
}

/// The number of rewards in the sequence that name the handle.
pub open spec fn targeting(rewards: Seq<(Double, usize, Double)>, id: usize) -> nat
    decreases rewards.len(),
{
    if rewards.len() == 0 {
        0
    } else {
        targeting(rewards.drop_first(), id) + if rewards[0].1 == id {
            1nat
        } else {
            0nat
        }
    }
}

/// An update gives its arm one more pull and leaves the pulls and switches
/// of the others, and all handles, as they are.
pub proof fn update_counts_one_pull<A: Arm>(
    s: Seq<(usize, A)>,
    at: Double,
    id: usize,
    evidence: A::Evidence,
    other: usize,
)
    requires
        distinct_keys(s),
        has_key(s, id),
        has_key(s, other),
        value_of(s, id).report().pulls < u64::MAX,
    ensures
        distinct_keys(taught(s, at, id, evidence)),
        keys_of(taught(s, at, id, evidence)) == keys_of(s),
        has_key(taught(s, at, id, evidence), other),
        value_of(taught(s, at, id, evidence), other).report().pulls == value_of(
            s,
            other,
        ).report().pulls + if other == id {
            1int
        } else {
            0int
        },
        value_of(taught(s, at, id, evidence), other).report().is_active == value_of(
            s,
            other,
        ).report().is_active,
{
    let p = place_of(s, id);
    let arm = value_of(s, id).learned(at, evidence);
    value_of(s, id).learned_report(at, evidence);
    update_as_map(s, p, arm);
    update_or_push_keeps_others(s, id, arm);
}

/// After a run of rewards that all find their arms, the pulls of an arm are
/// those it had before plus the number of rewards that named it, whatever
/// the caller's arithmetic answered. So an arm created or reset with no pull
/// has as many pulls as rewards were applied to it since.
pub proof fn pulls_count_the_rewards<A: Arm, F: Fn(A::Question) -> A::Evidence>(
    kernel: F,
    s: Seq<(usize, A)>,
    rewards: Seq<(Double, usize, Double)>,
    t: Seq<(usize, A)>,
    id: usize,
)
    requires
        distinct_keys(s),
        has_key(s, id),
        room_in(pulls_of(s), rewards),
        all_rewarded(kernel, s, rewards, t, None),
    ensures
        has_key(t, id),
        value_of(t, id).report().pulls == value_of(s, id).report().pulls + targeting(rewards, id),
        value_of(t, id).report().is_active == value_of(s, id).report().is_active,
        keys_of(t) == keys_of(s),
    decreases rewards.len(),
{
    if rewards.len() > 0 {
        let (at, target, reward) = rewards[0];
        let next = choose|next: Seq<(usize, A)>|
            #[trigger] rewarded(kernel, s, at, target, reward, next) && all_rewarded(
                kernel,
                next,
                rewards.drop_first(),
                t,
                None,
            );
        let evidence = choose|evidence: A::Evidence|
            call_ensures(kernel, (value_of(s, target).asked(at, reward),), evidence) && next
                == taught(s, at, target, evidence);
        assert(pulls_of(s).contains_key(target));
        update_counts_one_pull(s, at, target, evidence, id);
        taught_counts_one_pull(s, at, target, evidence);
        pulls_count_the_rewards(kernel, next, rewards.drop_first(), t, id);
    }
}

/// An empty batch changes nothing and succeeds.
pub proof fn empty_batch_changes_nothing<A: Arm, F: Fn(A::Question) -> A::Evidence>(
    kernel: F,
    s: Seq<(usize, A)>,
    t: Seq<(usize, A)>,
    missing: Option<usize>,
)
    requires
        all_rewarded(kernel, s, sorted_by_time(Seq::<(Double, usize, Double)>::empty()), t, missing),
    ensures
        t == s,
        missing is None,
{
}

/// An arm that is switched off is not among the arms that a draw may return.
pub proof fn switched_off_is_not_drawn<A: Arm>(s: Seq<(usize, A)>, id: usize)
    requires
        distinct_keys(s),
        has_key(s, id),
        !value_of(s, id).report().is_active,
    ensures
        !active_ids(s).contains(id),
{
    if active_ids(s).contains(id) {
        crate::policies::ledger::eligible_handle_is_eligible_arm(s, id, false);
    }
}

/// Switching an arm off takes it from the arms that a draw may return, and
/// switching it on puts it among them.
pub proof fn switch_decides_what_is_drawn<A: Arm>(s: Seq<(usize, A)>, id: usize, on: bool)
    requires
        distinct_keys(s),
        has_key(s, id),
    ensures
        distinct_keys(switch(s, id, on)),
        has_key(switch(s, id, on), id),
        value_of(switch(s, id, on), id).report().is_active == on,
        active_ids(switch(s, id, on)).contains(id) == on,
{
    let p = place_of(s, id);
    let arm = value_of(s, id).switched(on);
    value_of(s, id).switched_report(on);
    update_as_map(s, p, arm);
    update_or_push_keeps_others(s, id, arm);
    let t = switch(s, id, on);
    if on {
        eligible_ids_are_the_eligible_arms(t, false);
        assert(t[p].0 == id);
        assert(eligible_at(t, p, false));
    } else {
        switched_off_is_not_drawn(t, id);
    }
}

/// Once an arm of a policy is switched off, a draw cannot return it; once it
/// is switched on, a draw can.
pub proof fn the_switch_decides_what_a_policy_draws(policy: PolicyState, arm_id: usize)
    requires
        policy.distinct(),
        policy.handles().contains(arm_id),
    ensures
        policy.switched(arm_id, false).distinct(),
        policy.switched(arm_id, true).distinct(),
        !policy.switched(arm_id, false).drawable().contains(arm_id),
        policy.switched(arm_id, true).drawable().contains(arm_id),
        policy.switched(arm_id, false).handles() == policy.handles(),
{
    match policy {
        PolicyState::EpsilonGreedy(state) => {
            switch_decides_what_is_drawn(state.arms, arm_id, false);
            switch_decides_what_is_drawn(state.arms, arm_id, true);
            update_as_map(
                state.arms,
                place_of(state.arms, arm_id),
                value_of(state.arms, arm_id).switched(false),
            );
        },
        PolicyState::ThomsonSampling(state) => {
            switch_decides_what_is_drawn(state.arms, arm_id, false);
            switch_decides_what_is_drawn(state.arms, arm_id, true);
            update_as_map(
                state.arms,
                place_of(state.arms, arm_id),
                value_of(state.arms, arm_id).switched(false),
            );
        },
        PolicyState::Ucb(state) => {
            switch_decides_what_is_drawn(state.arms, arm_id, false);
            switch_decides_what_is_drawn(state.arms, arm_id, true);
            update_as_map(
                state.arms,
                place_of(state.arms, arm_id),
                value_of(state.arms, arm_id).switched(false),
            );
        },
    }
}

/// An arm that is switched off stays so, whatever else happens to the
/// policy short of switching it on: an update or a reset of any arm, the
/// switching or deletion of another arm, and the addition of an arm under
/// another handle.
pub proof fn switched_off_stays_off<A: Arm>(
    s: Seq<(usize, A)>,
    id: usize,
    other: usize,
    on: bool,
    at: Double,
    evidence: A::Evidence,
    fresh: A,
)
    requires
        distinct_keys(s),
        has_key(s, id),
        !value_of(s, id).report().is_active,
    ensures
        has_key(s, other) && value_of(s, other).report().pulls < u64::MAX ==> !active_ids(
            taught(s, at, other, evidence),
        ).contains(id),
        has_key(s, other) ==> !active_ids(renewed(s, other, fresh)).contains(id),
        !active_ids(all_renewed(s, fresh)).contains(id),
        has_key(s, other) && other != id ==> !active_ids(switch(s, other, on)).contains(id),
        has_key(s, other) && other != id ==> !active_ids(without(s, other)).contains(id),
        other != id ==> !active_ids(with_arm(s, other, fresh)).contains(id),
{
    if has_key(s, other) && value_of(s, other).report().pulls < u64::MAX {
        update_counts_one_pull(s, at, other, evidence, id);
        switched_off_is_not_drawn(taught(s, at, other, evidence), id);
    }
    if has_key(s, other) {
        let p = place_of(s, other);
        let arm = fresh.switched(value_of(s, other).report().is_active);
        fresh.switched_report(value_of(s, other).report().is_active);
        update_as_map(s, p, arm);
        update_or_push_keeps_others(s, other, arm);
        switched_off_is_not_drawn(renewed(s, other, fresh), id);
    }
    {
        let t = all_renewed(s, fresh);
        let p = place_of(s, id);
        assert forall|i: int, j: int| 0 <= i < j < t.len() implies t[i].0 != t[j].0 by {
            assert(s[i].0 != s[j].0);
        }
        assert(t[p].0 == id);
        place_is_unique(t, p);
        fresh.switched_report(s[p].1.report().is_active);
        switched_off_is_not_drawn(t, id);
    }
    if has_key(s, other) && other != id {
        let p = place_of(s, other);
        let arm = value_of(s, other).switched(on);
        update_as_map(s, p, arm);
        update_or_push_keeps_others(s, other, arm);
        switched_off_is_not_drawn(switch(s, other, on), id);
        remove_as_map(s, p);
        let t = without(s, other);
        assert(crate::table::as_map(t).contains_key(id));
        assert(crate::table::as_map(t)[id] == crate::table::as_map(s)[id]);
        switched_off_is_not_drawn(t, id);
    }
    if other != id {
        update_or_push_keeps_others(s, other, fresh);
        switched_off_is_not_drawn(with_arm(s, other, fresh), id);
    }
}

} // verus!

verus! {

/// A draw on a policy without arms finds no arm, whatever the kernels
/// answer, and leaves the policy as it is.
pub proof fn nothing_to_draw_without_arms<
    U: Fn(&mut SmallRng) -> Double,
    D: Fn(Decay) -> Double,
    B: Fn(Bound) -> Double,
    G: Fn(Aging) -> Posterior,
    S: Fn(&mut SmallRng, Posterior) -> Option<Double>,
>(
    described: PolicyType,
    uniform: U,
    decayed: D,
    bound: B,
    discount: G,
    sampler: S,
    timestamp: Double,
    after: PolicyState,
    drawn: Result<DrawResult, PolicyError>,
)
    requires
        PolicyState::empty(described).draws_by(
            uniform,
            decayed,
            bound,
            discount,
            sampler,
            timestamp,
            after,
            drawn,
        ),
    ensures
        drawn == Err::<DrawResult, PolicyError>(PolicyError::NoArmsAvailable),
        after == PolicyState::empty(described),
{
    match PolicyState::empty(described) {
        PolicyState::EpsilonGreedy(state) => {},
        PolicyState::Ucb(state) => {
            let scores = choose|scores: Seq<(usize, Double)>|
                (unpulled_ids(state.arms).len() == 0 ==> state.bounds(bound, scores))
                    && #[trigger] state.draws(timestamp, scores, drawn);
            assert(given_scores(state.arms, scores) =~= Seq::<Option<Double>>::empty());
        },
        PolicyState::ThomsonSampling(state) => {
            let end = after->ThomsonSampling_0;
            let posteriors = choose|posteriors: Seq<(usize, Posterior)>| #[trigger]
                ages(discount, state.arms, timestamp, posteriors) && end == (ThomsonSamplingState {
                    arms: discounted(state.arms, timestamp, posteriors),
                    ..state
                });
            assert(end.arms =~= state.arms);
            let samples = choose|samples: Seq<(usize, Double)>| #[trigger]
                samples_from(sampler, end.arms, samples) && draws(
                    end.arms,
                    timestamp,
                    samples,
                    drawn,
                );
            assert(given_scores(end.arms, samples) =~= Seq::<Option<Double>>::empty());
        },
    }
}

/// A draw on an epsilon-greedy or a UCB policy with an active arm returns an
/// arm, whatever the kernels answer. Under Thompson sampling a draw passes
/// over the arms whose posterior cannot be sampled, so it may find none.
pub proof fn a_draw_finds_an_active_arm<
    U: Fn(&mut SmallRng) -> Double,
    D: Fn(Decay) -> Double,
    B: Fn(Bound) -> Double,
    G: Fn(Aging) -> Posterior,
    S: Fn(&mut SmallRng, Posterior) -> Option<Double>,
>(
    policy: PolicyState,
    uniform: U,
    decayed: D,
    bound: B,
    discount: G,
    sampler: S,
    timestamp: Double,
    after: PolicyState,
    drawn: Result<DrawResult, PolicyError>,
)
    requires
        !(policy is ThomsonSampling),
        policy.drawable().len() > 0,
        policy.draws_by(uniform, decayed, bound, discount, sampler, timestamp, after, drawn),
    ensures
        drawn is Ok,
        policy.drawable().contains(drawn->Ok_0.arm_id),
        after == policy,
{
    match policy {
        PolicyState::EpsilonGreedy(state) => {
            active_ids_are_the_active_arms(state.arms);
        },
        PolicyState::Ucb(state) => {
            active_ids_are_the_active_arms(state.arms);
            let scores = choose|scores: Seq<(usize, Double)>|
                (unpulled_ids(state.arms).len() == 0 ==> state.bounds(bound, scores))
                    && #[trigger] state.draws(timestamp, scores, drawn);
            if unpulled_ids(state.arms).len() == 0 {
                let i = choose|i: int|
                    0 <= i < state.arms.len() && (#[trigger] state.arms[i]).1.report().is_active;
                assert(state.arms[i].1.is_active);
                assert(has_key(scores, state.arms[i].0));
                assert(any_scored(state.arms, scores));
            }
        },
        PolicyState::ThomsonSampling(state) => {},
    }
}

} // verus!

verus! {

/// Whether a kernel gives one answer only to each question.
pub open spec fn single_valued<Q, R, F: Fn(Q) -> R>(kernel: F) -> bool {
    forall|question: Q, a: R, b: R|
        #[trigger] call_ensures(kernel, (question,), a) && #[trigger] call_ensures(
            kernel,
            (question,),
            b,
        ) ==> a == b
}

/// Where the kernel gives one answer only to each question, what taking a
/// reward in leaves is determined by the arms, the time, the handle and the
/// reward.
pub proof fn a_reward_leaves_one_state<A: Arm, F: Fn(A::Question) -> A::Evidence>(
    kernel: F,
    s: Seq<(usize, A)>,
    at: Double,
    id: usize,
    reward: Double,
    first: Seq<(usize, A)>,
    second: Seq<(usize, A)>,
)
    requires
        single_valued::<A::Question, A::Evidence, F>(kernel),
        rewarded(kernel, s, at, id, reward, first),
        rewarded(kernel, s, at, id, reward, second),
    ensures
        first == second,
{
    let question = value_of(s, id).asked(at, reward);
    let a = choose|evidence: A::Evidence|
        call_ensures(kernel, (question,), evidence) && first == taught(s, at, id, evidence);
    let b = choose|evidence: A::Evidence|
        call_ensures(kernel, (question,), evidence) && second == taught(s, at, id, evidence);
    assert(a == b);
}

/// Where the kernel gives one answer only to each question, what taking a
/// sequence of rewards in leaves is determined by the arms and the rewards:
/// two policies with the same arms that take the same rewards in have the
/// same arms afterwards, and so the same report.
pub proof fn rewards_leave_one_state<A: Arm, F: Fn(A::Question) -> A::Evidence>(
    kernel: F,
    s: Seq<(usize, A)>,
    rewards: Seq<(Double, usize, Double)>,
    first: Seq<(usize, A)>,
    first_missing: Option<usize>,
    second: Seq<(usize, A)>,
    second_missing: Option<usize>,
)
    requires
        single_valued::<A::Question, A::Evidence, F>(kernel),
        all_rewarded(kernel, s, rewards, first, first_missing),
        all_rewarded(kernel, s, rewards, second, second_missing),
    ensures
        first == second,
        first_missing == second_missing,
        reports(first) == reports(second),
    decreases rewards.len(),
{
    if rewards.len() > 0 && has_key(s, rewards[0].1) {
        let (at, id, reward) = rewards[0];
        let a = choose|next: Seq<(usize, A)>|
            #[trigger] rewarded(kernel, s, at, id, reward, next) && all_rewarded(
                kernel,
                next,
                rewards.drop_first(),
                first,
                first_missing,
            );
        let b = choose|next: Seq<(usize, A)>|
            #[trigger] rewarded(kernel, s, at, id, reward, next) && all_rewarded(
                kernel,
                next,
                rewards.drop_first(),
                second,
                second_missing,
            );
        a_reward_leaves_one_state(kernel, s, at, id, reward, a, b);
        rewards_leave_one_state(
            kernel,
            a,
            rewards.drop_first(),
            first,
            first_missing,
            second,
            second_missing,
        );
    }
}

/// A draw of an epsilon-greedy policy that does not explore is determined
/// by the arms: two such draws on the same arms return the same arm.
pub proof fn an_exploiting_draw_has_one_outcome(
    policy: EpsilonGreedyState,
    timestamp: Double,
    number: Double,
    rate: Double,
    drawn: Result<DrawResult, PolicyError>,
    other_number: Double,
    other_rate: Double,
    other_drawn: Result<DrawResult, PolicyError>,
)
    requires
        policy.draws(timestamp, number, rate, drawn),
        policy.draws(timestamp, other_number, other_rate, other_drawn),
        !number.less(rate),
        !other_number.less(other_rate),
    ensures
        drawn == other_drawn,
{
}

/// Once every active arm of a UCB policy has a pull, a draw is determined by
/// the arms, where the kernel gives one answer only to each question: two
/// such draws on the same arms return the same arm.
pub proof fn a_draw_by_bounds_has_one_outcome<B: Fn(Bound) -> Double>(
    policy: UcbState,
    bound: B,
    timestamp: Double,
    drawn: Result<DrawResult, PolicyError>,
    other_drawn: Result<DrawResult, PolicyError>,
)
    requires
        single_valued::<Bound, Double, B>(bound),
        unpulled_ids(policy.arms).len() == 0,
        policy.draws_by(bound, timestamp, drawn),
        policy.draws_by(bound, timestamp, other_drawn),
    ensures
        drawn == other_drawn,
{
    let a = choose|scores: Seq<(usize, Double)>|
        (unpulled_ids(policy.arms).len() == 0 ==> policy.bounds(bound, scores))
            && #[trigger] policy.draws(timestamp, scores, drawn);
    let b = choose|scores: Seq<(usize, Double)>|
        (unpulled_ids(policy.arms).len() == 0 ==> policy.bounds(bound, scores))
            && #[trigger] policy.draws(timestamp, scores, other_drawn);
    assert forall|i: int| 0 <= i < policy.arms.len() implies given_scores(policy.arms, a)[i]
        == given_scores(policy.arms, b)[i] by {
        if policy.arms[i].1.report().is_active {
            assert(policy.arms[i].1.is_active);
            assert(call_ensures(
                bound,
                (policy.bound_of(policy.arms[i].1),),
                value_of(a, policy.arms[i].0),
            ));
            assert(call_ensures(
                bound,
                (policy.bound_of(policy.arms[i].1),),
                value_of(b, policy.arms[i].0),
            ));
        }
    }
    assert(given_scores(policy.arms, a) =~= given_scores(policy.arms, b));
}

} // verus!
