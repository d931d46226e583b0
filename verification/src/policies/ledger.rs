//! The bookkeeping that the three algorithms share: adding, switching and
//! deleting arms, counting pulls, and reporting.
use crate::table::{
    distinct_keys, has_key, keys_of, place_of, update_or_push_keeps_others, value_of, with_entry,
    ArmTable,
};
use crate::double::Double;
use crate::errors::PolicyError;
use crate::policies::arm::{Arm, ArmStats};
use crate::policies::batch::{sort_by_time, sorted_by_time};
use std::collections::HashMap;
use vstd::prelude::*;

verus! {

/// The report on a policy: the report on each of its arms, by handle.
#[derive(Clone, Debug)]
pub struct PolicyStats {
    pub arms: HashMap<usize, ArmStats>,
}

/// The arms after one is put under a handle: a handle in use keeps its place
/// and gets the new arm, a new handle goes to the end.
pub open spec fn with_arm<A>(s: Seq<(usize, A)>, id: usize, arm: A) -> Seq<(usize, A)> {
    with_entry(s, id, arm)
}

/// The arms after the one under the handle is switched on or off.
pub open spec fn switch<A: Arm>(s: Seq<(usize, A)>, id: usize, on: bool) -> Seq<(usize, A)> {
    s.update(place_of(s, id), (id, value_of(s, id).switched(on)))
}

/// The arms after the one under the handle is deleted. The others keep their
/// handles and their order.
pub open spec fn without<A>(s: Seq<(usize, A)>, id: usize) -> Seq<(usize, A)> {
    s.remove(place_of(s, id))
}

/// The arms after the one under the handle is reset: it takes the numbers of
/// the fresh arm and keeps its own switch.
pub open spec fn renewed<A: Arm>(s: Seq<(usize, A)>, id: usize, fresh: A) -> Seq<(usize, A)> {
    s.update(place_of(s, id), (id, fresh.switched(value_of(s, id).report().is_active)))
}

/// The arms after all are reset: each takes the numbers of the fresh arm and
/// keeps its own switch.
pub open spec fn all_renewed<A: Arm>(s: Seq<(usize, A)>, fresh: A) -> Seq<(usize, A)> {
    Seq::new(s.len(), |i: int| (s[i].0, fresh.switched(s[i].1.report().is_active)))
}

/// The arms after a reset: with a handle, the arm under it is reset to the
/// arm `fresh`, if there is such an arm; without a handle, every arm is reset
/// to the arm `blank`. Switches stay as they are.
pub open spec fn reset_arms<A: Arm>(
    s: Seq<(usize, A)>,
    arm_id: Option<usize>,
    fresh: A,
    blank: A,
) -> Seq<(usize, A)> {
    match arm_id {
        Some(id) => if has_key(s, id) {
            renewed(s, id, fresh)
        } else {
            s
        },
        None => all_renewed(s, blank),
    }
}

/// Whether the outcome is that of a reset: an error exactly if a handle is
/// given under which there is no arm.
pub open spec fn reset_done<A>(
    s: Seq<(usize, A)>,
    arm_id: Option<usize>,
    done: Result<(), PolicyError>,
) -> bool {
    match arm_id {
        Some(id) if !has_key(s, id) => done == Err::<(), PolicyError>(PolicyError::ArmNotFound(id)),
        _ => done is Ok,
    }
}

/// The arms after the one under the handle takes an update in.
pub open spec fn taught<A: Arm>(
    s: Seq<(usize, A)>,
    at: Double,
    id: usize,
    evidence: A::Evidence,
) -> Seq<(usize, A)> {
    s.update(place_of(s, id), (id, value_of(s, id).learned(at, evidence)))
}

/// The pulls of the arms, by handle.
pub open spec fn pulls_of<A: Arm>(s: Seq<(usize, A)>) -> Map<usize, int> {
    Map::new(|id: usize| has_key(s, id), |id: usize| value_of(s, id).report().pulls as int)
}

/// Whether the counts have room for the rewards when these are taken in one
/// after the other, up to the first for a handle without a count: each
/// reward finds the count of its arm below the end of the range.
pub open spec fn room_in(counts: Map<usize, int>, rewards: Seq<(Double, usize, Double)>) -> bool
    decreases rewards.len(),
{
    if rewards.len() == 0 || !counts.contains_key(rewards[0].1) {
        true
    } else {
        counts[rewards[0].1] < u64::MAX && room_in(
            counts.insert(rewards[0].1, counts[rewards[0].1] + 1),
            rewards.drop_first(),
        )
    }
}

/// Whether the arms can take the batch of rewards in: no count runs over
/// while the rewards are taken in, in ascending order of their timestamps,
/// up to the first for a handle without an arm.
pub open spec fn can_take<A: Arm>(s: Seq<(usize, A)>, rewards: Seq<(Double, usize, Double)>) -> bool {
    room_in(pulls_of(s), sorted_by_time(rewards))
}

/// The reports on all arms, by handle.
pub open spec fn reports<A: Arm>(s: Seq<(usize, A)>) -> Map<usize, ArmStats> {
    Map::new(|id: usize| has_key(s, id), |id: usize| value_of(s, id).report())
}

/// Whether some arm is switched on.
pub open spec fn any_active<A: Arm>(s: Seq<(usize, A)>) -> bool {
    exists|i: int| 0 <= i < s.len() && (#[trigger] s[i]).1.report().is_active
}

/// The pulls of the arms that are switched on, added up.
pub open spec fn active_pulls<A: Arm>(s: Seq<(usize, A)>) -> int
    decreases s.len(),
{
    if s.len() == 0 {
        0
    } else {
        let last = s.last().1.report();
        active_pulls(s.drop_last()) + if last.is_active {
            last.pulls as int
        } else {
            0
        }
    }
}

/// Whether a draw may pick the arm: it is switched on and, where only arms
/// without a pull are wanted, has none.
pub open spec fn eligible(report: ArmStats, unpulled_only: bool) -> bool {
    report.is_active && (unpulled_only ==> report.pulls == 0)
}

/// The handles of the eligible arms, in table order.
pub open spec fn eligible_ids<A: Arm>(s: Seq<(usize, A)>, unpulled_only: bool) -> Seq<usize>
    decreases s.len(),
{
    if s.len() == 0 {
        Seq::empty()
    } else if eligible(s.last().1.report(), unpulled_only) {
        eligible_ids(s.drop_last(), unpulled_only).push(s.last().0)
    } else {
        eligible_ids(s.drop_last(), unpulled_only)
    }
}

/// The handles of the arms that are switched on, in table order.
pub open spec fn active_ids<A: Arm>(s: Seq<(usize, A)>) -> Seq<usize> {
    eligible_ids(s, false)
}

/// The handles of the arms that are switched on and have no pull yet, in
/// table order.
pub open spec fn unpulled_ids<A: Arm>(s: Seq<(usize, A)>) -> Seq<usize> {
    eligible_ids(s, true)
}

/// Whether the arm at a place is eligible.
pub open spec fn eligible_at<A: Arm>(s: Seq<(usize, A)>, place: int, unpulled_only: bool) -> bool {
    0 <= place < s.len() && eligible(s[place].1.report(), unpulled_only)
}

/// Whether the handle is that of an eligible arm.
pub open spec fn eligible_handle<A: Arm>(s: Seq<(usize, A)>, id: usize, unpulled_only: bool) -> bool {
    exists|i: int| #[trigger] eligible_at(s, i, unpulled_only) && s[i].0 == id
}

/// The eligible handles are those of the eligible arms: each such arm has
/// its handle among them, and each of them is the handle of such an arm.
pub proof fn eligible_ids_are_the_eligible_arms<A: Arm>(s: Seq<(usize, A)>, unpulled_only: bool)
    ensures
        forall|i: int| #[trigger]
            eligible_at(s, i, unpulled_only) ==> eligible_ids(s, unpulled_only).contains(s[i].0),
        forall|k: int|
            0 <= k < eligible_ids(s, unpulled_only).len() ==> eligible_handle(
                s,
                #[trigger] eligible_ids(s, unpulled_only)[k],
                unpulled_only,
            ),
    decreases s.len(),
{
    if s.len() > 0 {
        let front = s.drop_last();
        eligible_ids_are_the_eligible_arms(front, unpulled_only);
        let ids = eligible_ids(s, unpulled_only);
        let inner = eligible_ids(front, unpulled_only);
        assert forall|i: int| #[trigger] eligible_at(s, i, unpulled_only) implies ids.contains(
            s[i].0,
        ) by {
            if i < s.len() - 1 {
                assert(front[i] == s[i]);
                assert(eligible_at(front, i, unpulled_only));
                assert(inner.contains(s[i].0));
                let k = choose|k: int| 0 <= k < inner.len() && inner[k] == s[i].0;
                assert(ids[k] == s[i].0);
            } else {
                assert(ids[ids.len() - 1] == s[i].0);
            }
        }
        assert forall|k: int| 0 <= k < ids.len() implies eligible_handle(
            s,
            #[trigger] ids[k],
            unpulled_only,
        ) by {
            if k < inner.len() {
                assert(ids[k] == inner[k]);
                assert(eligible_handle(front, inner[k], unpulled_only));
                let i = choose|i: int| #[trigger]
                    eligible_at(front, i, unpulled_only) && front[i].0 == inner[k];
                assert(s[i] == front[i]);
                assert(eligible_at(s, i, unpulled_only));
            } else {
                assert(eligible_at(s, s.len() - 1, unpulled_only));
                assert(s[s.len() - 1].0 == ids[k]);
            }
        }
    }
}

/// A draw has an active arm to pick exactly if some arm is switched on.
pub proof fn active_ids_are_the_active_arms<A: Arm>(s: Seq<(usize, A)>)
    ensures
        forall|i: int|
            0 <= i < s.len() && (#[trigger] s[i]).1.report().is_active ==> active_ids(s).contains(
                s[i].0,
            ),
        active_ids(s).len() == 0 <==> !any_active(s),
{
    eligible_ids_are_the_eligible_arms(s, false);
    let ids = active_ids(s);
    assert(ids == eligible_ids(s, false));
    assert forall|i: int| 0 <= i < s.len() && (#[trigger] s[i]).1.report().is_active implies ids.contains(
        s[i].0,
    ) by {
        assert(eligible_at(s, i, false));
    }
    if any_active(s) {
        let i = choose|i: int| 0 <= i < s.len() && (#[trigger] s[i]).1.report().is_active;
        assert(ids.contains(s[i].0));
    }
    if ids.len() > 0 {
        assert(eligible_handle(s, ids[0], false));
        let i = choose|i: int| #[trigger] eligible_at(s, i, false) && s[i].0 == ids[0];
        assert(s[i].1.report().is_active);
    }
}

/// In a table without repeated handles, a handle among the active ones is
/// that of an arm which is switched on; one among the unpulled ones is that
/// of an arm without a pull.
pub proof fn eligible_handle_is_eligible_arm<A: Arm>(
    s: Seq<(usize, A)>,
    id: usize,
    unpulled_only: bool,
)
    requires
        distinct_keys(s),
        eligible_ids(s, unpulled_only).contains(id),
    ensures
        has_key(s, id),
        eligible(value_of(s, id).report(), unpulled_only),
{
    eligible_ids_are_the_eligible_arms(s, unpulled_only);
    let ids = eligible_ids(s, unpulled_only);
    let k = choose|k: int| 0 <= k < ids.len() && ids[k] == id;
    assert(eligible_handle(s, ids[k], unpulled_only));
    let i = choose|i: int| #[trigger] eligible_at(s, i, unpulled_only) && s[i].0 == id;
    crate::table::place_is_unique(s, i);
}

/// Every arm without a pull that is switched on is an active arm.
pub proof fn unpulled_ids_are_active<A: Arm>(s: Seq<(usize, A)>)
    ensures
        forall|k: int|
            0 <= k < unpulled_ids(s).len() ==> active_ids(s).contains(#[trigger] unpulled_ids(s)[k]),
{
    eligible_ids_are_the_eligible_arms(s, true);
    eligible_ids_are_the_eligible_arms(s, false);
    let ids = unpulled_ids(s);
    assert(ids == eligible_ids(s, true));
    assert forall|k: int| 0 <= k < ids.len() implies active_ids(s).contains(#[trigger] ids[k]) by {
        assert(eligible_handle(s, ids[k], true));
        let i = choose|i: int| #[trigger] eligible_at(s, i, true) && s[i].0 == ids[k];
        assert(eligible_at(s, i, false));
    }
}

/// Adds an arm under the next handle, which is the number of arms held.
/// After a deletion that handle may be in use: its arm is then replaced.
pub fn add<A: Arm>(table: &mut ArmTable<A>, arm: A) -> (id: usize)
    requires
        old(table).wf(),
    ensures
        final(table).wf(),
        id == old(table)@.len(),
        final(table)@ == with_arm(old(table)@, id, arm),
        keys_of(final(table)@) == keys_of(old(table)@).insert(id),
        has_key(final(table)@, id),
        value_of(final(table)@, id) == arm,
        forall|other: usize|
            other != id && #[trigger] has_key(old(table)@, other) ==> has_key(final(table)@, other)
                && value_of(final(table)@, other) == value_of(old(table)@, other),
{
    let id = table.len();
    table.put(id, arm);
    proof {
        update_or_push_keeps_others(old(table)@, id, arm);
    }
    id
}

/// Switches the arm under the handle on or off.
pub fn set_active<A: Arm>(table: &mut ArmTable<A>, id: usize, on: bool) -> (done: Result<
    (),
    PolicyError,
>)
    requires
        old(table).wf(),
    ensures
        final(table).wf(),
        has_key(old(table)@, id) ==> done is Ok && final(table)@ == switch(old(table)@, id, on),
        !has_key(old(table)@, id) ==> done == Err::<(), PolicyError>(PolicyError::ArmNotFound(id))
            && final(table)@ == old(table)@,
        keys_of(final(table)@) == keys_of(old(table)@),
{
    match table.position(id) {
        Some(place) => {
            let arm = table.value_at(place).with_active(on);
            table.set_at(place, arm);
            Ok(())
        },
        None => Err(PolicyError::ArmNotFound(id)),
    }
}

/// Deletes the arm under the handle.
pub fn delete<A: Arm>(table: &mut ArmTable<A>, id: usize) -> (done: Result<(), PolicyError>)
    requires
        old(table).wf(),
    ensures
        final(table).wf(),
        has_key(old(table)@, id) ==> done is Ok && final(table)@ == without(old(table)@, id)
            && keys_of(final(table)@) == keys_of(old(table)@).remove(id),
        !has_key(old(table)@, id) ==> done == Err::<(), PolicyError>(PolicyError::ArmNotFound(id))
            && final(table)@ == old(table)@,
{
    match table.remove(id) {
        Some(_) => Ok(()),
        None => Err(PolicyError::ArmNotFound(id)),
    }
}

/// Resets the arm under the handle to the numbers of the fresh arm. Its
/// switch stays as it is.
pub fn reset_one<A: Arm>(table: &mut ArmTable<A>, id: usize, fresh: A) -> (done: Result<
    (),
    PolicyError,
>)
    requires
        old(table).wf(),
    ensures
        final(table).wf(),
        has_key(old(table)@, id) ==> done is Ok && final(table)@ == renewed(old(table)@, id, fresh),
        !has_key(old(table)@, id) ==> done == Err::<(), PolicyError>(PolicyError::ArmNotFound(id))
            && final(table)@ == old(table)@,
        keys_of(final(table)@) == keys_of(old(table)@),
{
    match table.position(id) {
        Some(place) => {
            let on = table.value_at(place).stats().is_active;
            let arm = fresh.with_active(on);
            table.set_at(place, arm);
            Ok(())
        },
        None => Err(PolicyError::ArmNotFound(id)),
    }
}

/// Resets every arm to the numbers of the fresh arm. The switches stay as
/// they are.
pub fn reset_all<A: Arm>(table: &mut ArmTable<A>, fresh: A)
    requires
        old(table).wf(),
    ensures
        final(table).wf(),
        final(table)@ == all_renewed(old(table)@, fresh),
        keys_of(final(table)@) == keys_of(old(table)@),
{
    let mut place: usize = 0;
    while place < table.len()
        invariant
            table.wf(),
            place <= table@.len(),
            table@.len() == old(table)@.len(),
            forall|k: int| 0 <= k < place ==> table@[k] == all_renewed(old(table)@, fresh)[k],
            forall|k: int| place <= k < table@.len() ==> table@[k] == old(table)@[k],
            forall|k: int| 0 <= k < table@.len() ==> (#[trigger] table@[k]).0 == old(table)@[k].0,
        decreases table@.len() - place,
    {
        let on = table.value_at(place).stats().is_active;
        table.set_at(place, fresh.with_active(on));
        place += 1;
    }
    proof {
        let before = old(table)@;
        let after = table@;
        assert(after =~= all_renewed(before, fresh));
        assert forall|x: usize| has_key(after, x) <==> has_key(before, x) by {
            if has_key(after, x) {
                let i = place_of(after, x);
                assert(before[i].0 == x);
            }
            if has_key(before, x) {
                let i = place_of(before, x);
                assert(after[i].0 == x);
            }
        }
        assert(keys_of(after) =~= keys_of(before));
    }
}

/// Lets the arm under the handle take an update in, with the new numbers as
/// given.
pub fn update<A: Arm>(table: &mut ArmTable<A>, at: Double, id: usize, evidence: A::Evidence) -> (done:
    Result<(), PolicyError>)
    requires
        old(table).wf(),
        has_key(old(table)@, id) ==> value_of(old(table)@, id).report().pulls < u64::MAX,
    ensures
        final(table).wf(),
        has_key(old(table)@, id) ==> done is Ok && final(table)@ == taught(
            old(table)@,
            at,
            id,
            evidence,
        ),
        !has_key(old(table)@, id) ==> done == Err::<(), PolicyError>(PolicyError::ArmNotFound(id))
            && final(table)@ == old(table)@,
        keys_of(final(table)@) == keys_of(old(table)@),
{
    match table.position(id) {
        Some(place) => {
            let arm = table.value_at(place).learn(at, evidence);
            table.set_at(place, arm);
            Ok(())
        },
        None => Err(PolicyError::ArmNotFound(id)),
    }
}

/// An update gives its arm one more pull and leaves the pulls of the others
/// as they are.
pub proof fn taught_counts_one_pull<A: Arm>(
    s: Seq<(usize, A)>,
    at: Double,
    id: usize,
    evidence: A::Evidence,
)
    requires
        distinct_keys(s),
        has_key(s, id),
        value_of(s, id).report().pulls < u64::MAX,
    ensures
        distinct_keys(taught(s, at, id, evidence)),
        keys_of(taught(s, at, id, evidence)) == keys_of(s),
        pulls_of(taught(s, at, id, evidence)) == pulls_of(s).insert(id, pulls_of(s)[id] + 1),
{
    let p = place_of(s, id);
    let arm = value_of(s, id).learned(at, evidence);
    let t = taught(s, at, id, evidence);
    value_of(s, id).learned_report(at, evidence);
    crate::table::update_as_map(s, p, arm);
    assert forall|x: usize| has_key(t, x) <==> has_key(s, x) by {
        assert(keys_of(t).contains(x) == keys_of(s).contains(x));
    }
    assert forall|x: usize| has_key(t, x) implies value_of(t, x) == if x == id {
        arm
    } else {
        value_of(s, x)
    } by {
        assert(crate::table::as_map(t).contains_key(x));
        assert(crate::table::as_map(t)[x] == crate::table::as_map(s).insert(id, arm)[x]);
    }
    assert(pulls_of(t) =~= pulls_of(s).insert(id, pulls_of(s)[id] + 1));
}

/// Whether the arms `t` are the arms `s` after the arm under the handle has
/// taken a reward in, with the new numbers as the caller's arithmetic has
/// answered them.
pub open spec fn rewarded<A: Arm, F: Fn(A::Question) -> A::Evidence>(
    kernel: F,
    s: Seq<(usize, A)>,
    at: Double,
    id: usize,
    reward: Double,
    t: Seq<(usize, A)>,
) -> bool {
    exists|evidence: A::Evidence|
        call_ensures(kernel, (value_of(s, id).asked(at, reward),), evidence) && t == taught(
            s,
            at,
            id,
            evidence,
        )
}

/// Whether the arms `t` and the handle `missing` are what is left after the
/// rewards were taken in one after the other, each with the numbers that the
/// caller's arithmetic answered for the arm as it stood then, up to the
/// first reward for a handle without an arm.
pub open spec fn all_rewarded<A: Arm, F: Fn(A::Question) -> A::Evidence>(
    kernel: F,
    s: Seq<(usize, A)>,
    rewards: Seq<(Double, usize, Double)>,
    t: Seq<(usize, A)>,
    missing: Option<usize>,
) -> bool
    decreases rewards.len(),
{
    if rewards.len() == 0 {
        t == s && missing is None
    } else if !has_key(s, rewards[0].1) {
        t == s && missing == Some(rewards[0].1)
    } else {
        exists|next: Seq<(usize, A)>|
            #[trigger] rewarded(kernel, s, rewards[0].0, rewards[0].1, rewards[0].2, next) && all_rewarded(
                kernel,
                next,
                rewards.drop_first(),
                t,
                missing,
            )
    }
}

/// Whether the arms `t` and the outcome are what taking the reward in
/// leaves: the arm under the handle has taken it in, or there is no such arm
/// and nothing has changed.
pub open spec fn reward_outcome<A: Arm, F: Fn(A::Question) -> A::Evidence>(
    kernel: F,
    s: Seq<(usize, A)>,
    at: Double,
    id: usize,
    reward: Double,
    t: Seq<(usize, A)>,
    done: Result<(), PolicyError>,
) -> bool {
    if has_key(s, id) {
        done is Ok && rewarded(kernel, s, at, id, reward, t)
    } else {
        done == Err::<(), PolicyError>(PolicyError::ArmNotFound(id)) && t == s
    }
}

/// Whether the arms `t` and the outcome are what taking the batch of rewards
/// in leaves: the rewards were taken in one after the other in ascending
/// order of their timestamps, up to the first for a handle without an arm,
/// which the error names.
pub open spec fn batch_outcome<A: Arm, F: Fn(A::Question) -> A::Evidence>(
    kernel: F,
    s: Seq<(usize, A)>,
    rewards: Seq<(Double, usize, Double)>,
    t: Seq<(usize, A)>,
    done: Result<(), PolicyError>,
) -> bool {
    &&& all_rewarded(
        kernel,
        s,
        sorted_by_time(rewards),
        t,
        match done {
            Ok(_) => None,
            Err(PolicyError::ArmNotFound(id)) => Some(id),
            Err(_) => None,
        },
    )
    &&& done matches Err(error) ==> error is ArmNotFound
}

/// Lets the arm under the handle take a reward in. The caller's arithmetic
/// is asked once, for the numbers of that arm.
pub fn take_reward<A: Arm, F: Fn(A::Question) -> A::Evidence>(
    table: &mut ArmTable<A>,
    at: Double,
    id: usize,
    reward: Double,
    kernel: &F,
) -> (done: Result<(), PolicyError>)
    requires
        old(table).wf(),
        has_key(old(table)@, id) ==> value_of(old(table)@, id).report().pulls < u64::MAX,
        forall|question: A::Question| call_requires(kernel, (question,)),
    ensures
        final(table).wf(),
        reward_outcome(kernel, old(table)@, at, id, reward, final(table)@, done),
        keys_of(final(table)@) == keys_of(old(table)@),
{
    match table.position(id) {
        Some(place) => {
            let arm = *table.value_at(place);
            let evidence = kernel(arm.ask(at, reward));
            table.set_at(place, arm.learn(at, evidence));
            proof {
                assert(call_ensures(kernel, (value_of(old(table)@, id).asked(at, reward),), evidence));
                assert(table@ == taught(old(table)@, at, id, evidence));
            }
            Ok(())
        },
        None => Err(PolicyError::ArmNotFound(id)),
    }
}

/// Lets the arms take a batch of rewards (time, handle, reward) in, in
/// ascending order of the timestamps, and stops at the first that names a
/// handle without an arm. The rewards before it stay applied. The caller's
/// arithmetic is asked once for each reward, for the numbers of its arm as
/// the rewards before it have left them.
pub fn take_rewards<A: Arm, F: Fn(A::Question) -> A::Evidence>(
    table: &mut ArmTable<A>,
    rewards: &Vec<(Double, usize, Double)>,
    kernel: &F,
) -> (done: Result<(), PolicyError>)
    requires
        old(table).wf(),
        can_take(old(table)@, rewards@),
        forall|question: A::Question| call_requires(kernel, (question,)),
    ensures
        final(table).wf(),
        batch_outcome(kernel, old(table)@, rewards@, final(table)@, done),
        keys_of(final(table)@) == keys_of(old(table)@),
{
    let ordered = sort_by_time(rewards);
    proof {
        crate::policies::batch::sorted_by_time_is_ordered(rewards@);
        assert(ordered@.skip(0) =~= ordered@);
    }
    let mut next: usize = 0;
    while next < ordered.len()
        invariant
            table.wf(),
            next <= ordered@.len(),
            ordered@ == sorted_by_time(rewards@),
            room_in(pulls_of(table@), ordered@.skip(next as int)),
            keys_of(table@) == keys_of(old(table)@),
            forall|question: A::Question| call_requires(kernel, (question,)),
            forall|t: Seq<(usize, A)>, missing: Option<usize>| #[trigger]
                all_rewarded(kernel, table@, ordered@.skip(next as int), t, missing) ==> all_rewarded(
                    kernel,
                    old(table)@,
                    ordered@,
                    t,
                    missing,
                ),
        decreases ordered@.len() - next,
    {
        let (at, id, reward) = ordered[next];
        let ghost before = table@;
        let ghost rest = ordered@.skip(next as int);
        proof {
            assert(rest[0] == ordered@[next as int]);
            assert(rest.drop_first() =~= ordered@.skip(next + 1));
            assert(has_key(before, id) == pulls_of(before).contains_key(id));
        }
        match take_reward(table, at, id, reward, kernel) {
            Ok(()) => {},
            Err(error) => {
                proof {
                    assert(all_rewarded(kernel, before, rest, before, Some(id)));
                }
                return Err(error);
            },
        }
        proof {
            let after = table@;
            let evidence = choose|evidence: A::Evidence|
                call_ensures(kernel, (value_of(before, id).asked(at, reward),), evidence) && after
                    == taught(before, at, id, evidence);
            taught_counts_one_pull(before, at, id, evidence);
            assert forall|t: Seq<(usize, A)>, missing: Option<usize>| #[trigger]
                all_rewarded(kernel, after, ordered@.skip(next + 1), t, missing) implies all_rewarded(
                kernel,
                old(table)@,
                ordered@,
                t,
                missing,
            ) by {
                assert(rest.len() > 0 && has_key(before, rest[0].1));
                assert(rewarded(kernel, before, rest[0].0, rest[0].1, rest[0].2, after));
                assert(all_rewarded(kernel, after, rest.drop_first(), t, missing));
                assert(all_rewarded(kernel, before, rest, t, missing));
            }
        }
        next += 1;
    }
    proof {
        assert(ordered@.skip(next as int) =~= Seq::empty());
        assert(all_rewarded(kernel, table@, ordered@.skip(next as int), table@, None));
    }
    Ok(())
}

/// Whether the arms can take the batch of rewards in without a count
/// running over.
pub fn can_take_batch<A: Arm>(table: &ArmTable<A>, rewards: &Vec<(Double, usize, Double)>) -> (enough:
    bool)
    requires
        table.wf(),
    ensures
        enough == can_take(table@, rewards@),
{
    let ordered = sort_by_time(rewards);
    let mut counts: Vec<u64> = Vec::new();
    let mut place: usize = 0;
    while place < table.len()
        invariant
            place <= table@.len(),
            counts@.len() == place,
            forall|k: int| 0 <= k < place ==> counts@[k] == (#[trigger] table@[k]).1.report().pulls,
        decreases table@.len() - place,
    {
        counts.push(table.value_at(place).stats().pulls);
        place += 1;
    }
    let ghost mut held = pulls_of(table@);
    proof {
        assert(ordered@.skip(0) =~= ordered@);
        assert forall|k: int| 0 <= k < table@.len() implies held.contains_key(
            (#[trigger] table@[k]).0,
        ) && held[table@[k].0] == counts@[k] by {
            crate::table::place_is_unique(table@, k);
        }
    }
    let mut next: usize = 0;
    while next < ordered.len()
        invariant
            table.wf(),
            next <= ordered@.len(),
            ordered@ == sorted_by_time(rewards@),
            counts@.len() == table@.len(),
            forall|id: usize| held.contains_key(id) <==> has_key(table@, id),
            forall|k: int|
                0 <= k < table@.len() ==> held.contains_key((#[trigger] table@[k]).0)
                    && held[table@[k].0] == counts@[k],
            can_take(table@, rewards@) == room_in(held, ordered@.skip(next as int)),
        decreases ordered@.len() - next,
    {
        let id = ordered[next].1;
        proof {
            let rest = ordered@.skip(next as int);
            assert(rest[0] == ordered@[next as int]);
            assert(rest.drop_first() =~= ordered@.skip(next + 1));
        }
        match table.position(id) {
            None => {
                return true;
            },
            Some(found) => {
                let count = counts[found];
                if count == u64::MAX {
                    return false;
                }
                counts.set(found, count + 1);
                proof {
                    let before = held;
                    held = held.insert(id, held[id] + 1);
                    assert forall|k: int| 0 <= k < table@.len() implies held.contains_key(
                        (#[trigger] table@[k]).0,
                    ) && held[table@[k].0] == counts@[k] by {
                        assert(before.contains_key(table@[k].0));
                        if k != found {
                            assert(table@[k].0 != table@[found as int].0);
                        }
                    }
                }
            },
        }
        next += 1;
    }
    proof {
        assert(ordered@.skip(next as int) =~= Seq::empty());
    }
    true
}

/// The pulls of the active arms, added up, unless the sum is beyond the
/// range of the counter.
pub fn total_count<A: Arm>(table: &ArmTable<A>) -> (total: Option<u64>)
    ensures
        active_pulls(table@) <= u64::MAX ==> total == Some(active_pulls(table@) as u64),
        active_pulls(table@) > u64::MAX ==> total is None,
{
    let mut sum: u64 = 0;
    let mut place: usize = 0;
    while place < table.len()
        invariant
            place <= table@.len(),
            sum == active_pulls(table@.take(place as int)),
        decreases table@.len() - place,
    {
        let stats = table.value_at(place).stats();
        proof {
            assert(table@.take(place + 1).drop_last() =~= table@.take(place as int));
        }
        if stats.is_active {
            match sum.checked_add(stats.pulls) {
                Some(next) => {
                    sum = next;
                },
                None => {
                    proof {
                        active_pulls_grow(table@, place + 1);
                    }
                    return None;
                },
            }
        }
        place += 1;
    }
    proof {
        assert(table@.take(place as int) =~= table@);
    }
    Some(sum)
}

/// The sum over a front part of the table is no more than the sum over all.
pub proof fn active_pulls_grow<A: Arm>(s: Seq<(usize, A)>, n: int)
    requires
        0 <= n <= s.len(),
    ensures
        0 <= active_pulls(s.take(n)) <= active_pulls(s),
    decreases s.len() - n,
{
    if n == s.len() {
        assert(s.take(n) =~= s);
        active_pulls_nonnegative(s);
    } else {
        active_pulls_grow(s, n + 1);
        assert(s.take(n + 1).drop_last() =~= s.take(n));
        active_pulls_nonnegative(s.take(n));
    }
}

/// A sum of pulls is never negative.
pub proof fn active_pulls_nonnegative<A: Arm>(s: Seq<(usize, A)>)
    ensures
        0 <= active_pulls(s),
    decreases s.len(),
{
    if s.len() > 0 {
        active_pulls_nonnegative(s.drop_last());
    }
}

/// The handles of the arms that a draw may pick, in table order: those that
/// are switched on, or only those of them without a pull.
pub fn eligible_handles<A: Arm>(table: &ArmTable<A>, unpulled_only: bool) -> (handles: Vec<usize>)
    ensures
        handles@ == eligible_ids(table@, unpulled_only),
{
    let mut handles: Vec<usize> = Vec::new();
    let mut place: usize = 0;
    while place < table.len()
        invariant
            place <= table@.len(),
            handles@ == eligible_ids(table@.take(place as int), unpulled_only),
        decreases table@.len() - place,
    {
        proof {
            assert(table@.take(place + 1).drop_last() =~= table@.take(place as int));
        }
        let report = table.value_at(place).stats();
        if report.is_active && (!unpulled_only || report.pulls == 0) {
            handles.push(table.key_at(place));
        }
        place += 1;
    }
    proof {
        assert(table@.take(place as int) =~= table@);
    }
    handles
}

/// The handles of the arms that are switched on, in table order.
pub fn active_handles<A: Arm>(table: &ArmTable<A>) -> (handles: Vec<usize>)
    ensures
        handles@ == active_ids(table@),
{
    eligible_handles(table, false)
}

/// The report on every arm, by handle.
pub fn stats<A: Arm>(table: &ArmTable<A>) -> (stats: PolicyStats)
    requires
        table.wf(),
    ensures
        stats.arms@ == reports(table@),
        stats.arms@.dom() == keys_of(table@),
{
    let mut arms: HashMap<usize, ArmStats> = HashMap::new();
    let mut place: usize = 0;
    while place < table.len()
        invariant
            place <= table@.len(),
            table.wf(),
            forall|id: usize|
                arms@.contains_key(id) <==> exists|k: int|
                    0 <= k < place && #[trigger] table@[k].0 == id,
            forall|k: int| 0 <= k < place ==> arms@[(#[trigger] table@[k]).0] == table@[k].1.report(),
        decreases table@.len() - place,
    {
        let id = table.key_at(place);
        let report = table.value_at(place).stats();
        arms.insert(id, report);
        proof {
            assert(table@[place as int].0 == id);
        }
        place += 1;
    }
    proof {
        let s = table@;
        assert forall|id: usize| arms@.contains_key(id) <==> has_key(s, id) by {
            if has_key(s, id) {
                let p = place_of(s, id);
                assert(s[p].0 == id);
            }
        }
        assert forall|id: usize| has_key(s, id) implies arms@[id] == value_of(s, id).report() by {
            let p = place_of(s, id);
            assert(arms@[s[p].0] == s[p].1.report());
        }
        assert(arms@ =~= reports(s));
        assert(reports(s).dom() =~= keys_of(s));
    }
    PolicyStats { arms }
}

} // verus!
