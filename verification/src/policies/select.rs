//! Choosing the arm with the best score. Candidates are scanned in table
//! order and the first of the best wins: a later candidate takes over only
//! if its score is greater in the numeric order.
use crate::table::{value_of, has_key, ArmTable};
use crate::double::Double;
use crate::policies::arm::Arm;
use vstd::prelude::*;

verus! {

/// The place of the best score. An entry without a score is no candidate.
/// Scanning from the front, the place held so far is given up only for a
/// score that is greater; a comparison with a NaN never is.
pub open spec fn best_place(scores: Seq<Option<Double>>) -> Option<int>
    decreases scores.len(),
{
    if scores.len() == 0 {
        None
    } else {
        let before = best_place(scores.drop_last());
        match (scores.last(), before) {
            (None, _) => before,
            (Some(_), None) => Some(scores.len() - 1),
            (Some(score), Some(held)) => if scores[held].unwrap().less(score) {
                Some(scores.len() - 1)
            } else {
                before
            },
        }
    }
}

/// A place is chosen exactly if there is a candidate, and the chosen place
/// holds one.
pub proof fn best_place_is_a_candidate(scores: Seq<Option<Double>>)
    ensures
        best_place(scores) is None <==> forall|i: int| 0 <= i < scores.len() ==> scores[i] is None,
        best_place(scores) matches Some(best) ==> 0 <= best < scores.len() && scores[best] is Some,
    decreases scores.len(),
{
    if scores.len() > 0 {
        let front = scores.drop_last();
        best_place_is_a_candidate(front);
        if best_place(scores) is None {
            assert forall|i: int| 0 <= i < scores.len() implies scores[i] is None by {
                if i < front.len() {
                    assert(front[i] is None);
                }
            }
        } else {
            let best = best_place(scores).unwrap();
            if best < front.len() {
                assert(front[best] == scores[best]);
            }
        }
        if forall|i: int| 0 <= i < scores.len() ==> scores[i] is None {
            assert forall|i: int| 0 <= i < front.len() implies front[i] is None by {
                assert(scores[i] is None);
            }
        }
    }
}

/// Where no score is a NaN, the chosen place holds a maximum, and the first
/// one: no candidate is greater, and every candidate before it is less.
pub proof fn best_place_is_first_maximum(scores: Seq<Option<Double>>)
    requires
        forall|i: int| 0 <= i < scores.len() && scores[i] is Some ==> !scores[i].unwrap().nan(),
    ensures
        best_place(scores) matches Some(best) ==> {
            &&& forall|j: int|
                0 <= j < scores.len() && scores[j] is Some ==> !scores[best].unwrap().less(
                    scores[j].unwrap(),
                )
            &&& forall|j: int|
                0 <= j < best && scores[j] is Some ==> scores[j].unwrap().less(
                    scores[best].unwrap(),
                )
        },
    decreases scores.len(),
{
    if scores.len() > 0 {
        let front = scores.drop_last();
        assert forall|i: int| 0 <= i < front.len() && front[i] is Some implies !front[i].unwrap().nan() by {
            assert(front[i] == scores[i]);
        }
        best_place_is_first_maximum(front);
        best_place_is_a_candidate(front);
        best_place_is_a_candidate(scores);
        if best_place(scores) is Some {
            let best = best_place(scores).unwrap();
            let top = scores[best].unwrap();
            assert forall|j: int| 0 <= j < scores.len() && scores[j] is Some implies !top.less(
                scores[j].unwrap(),
            ) by {
                if j < front.len() {
                    assert(front[j] == scores[j]);
                    if best_place(front) is Some {
                        let held = best_place(front).unwrap();
                        assert(front[held] == scores[held]);
                    }
                }
            }
            assert forall|j: int| 0 <= j < best && scores[j] is Some implies scores[j].unwrap().less(
                top,
            ) by {
                assert(front[j] == scores[j]);
                if best_place(front) is Some {
                    let held = best_place(front).unwrap();
                    assert(front[held] == scores[held]);
                    if best == scores.len() - 1 && j != held {
                        if j < held {
                            assert(front[j].unwrap().less(front[held].unwrap()));
                        } else {
                            assert(!front[held].unwrap().less(front[j].unwrap()));
                        }
                    }
                } else {
                    assert(front[j] is None);
                }
            }
        }
    }
}

/// The place of the best score among the given ones.
pub fn pick_best(scores: &Vec<Option<Double>>) -> (best: Option<usize>)
    ensures
        best is Some <==> best_place(scores@) is Some,
        best matches Some(place) ==> best_place(scores@) == Some(place as int),
{
    let mut best: Option<usize> = None;
    let mut place: usize = 0;
    while place < scores.len()
        invariant
            place <= scores@.len(),
            best is Some <==> best_place(scores@.take(place as int)) is Some,
            best matches Some(held) ==> held < place && scores@[held as int] is Some && best_place(
                scores@.take(place as int),
            ) == Some(held as int),
        decreases scores@.len() - place,
    {
        proof {
            assert(scores@.take(place + 1).drop_last() =~= scores@.take(place as int));
        }
        match scores[place] {
            None => {},
            Some(score) => {
                match best {
                    None => {
                        best = Some(place);
                    },
                    Some(held) => {
                        let top = scores[held].unwrap();
                        if top.lt(score) {
                            best = Some(place);
                        }
                    },
                }
            },
        }
        place += 1;
    }
    proof {
        assert(scores@.take(place as int) =~= scores@);
    }
    best
}

/// For each arm in table order its mean reward, if the arm is switched on.
pub open spec fn mean_scores<A: Arm>(s: Seq<(usize, A)>) -> Seq<Option<Double>> {
    Seq::new(
        s.len(),
        |i: int|
            if s[i].1.report().is_active {
                Some(s[i].1.report().mean_reward)
            } else {
                None
            },
    )
}

/// For each arm in table order the score given for its handle, if the arm is
/// switched on and a score is given.
pub open spec fn given_scores<A: Arm>(s: Seq<(usize, A)>, given: Seq<(usize, Double)>) -> Seq<
    Option<Double>,
> {
    Seq::new(
        s.len(),
        |i: int|
            if s[i].1.report().is_active && has_key(given, s[i].0) {
                Some(value_of(given, s[i].0))
            } else {
                None
            },
    )
}

/// Whether some arm that is switched on has a score among the given ones.
pub open spec fn any_scored<A: Arm>(s: Seq<(usize, A)>, given: Seq<(usize, Double)>) -> bool {
    exists|i: int| 0 <= i < s.len() && (#[trigger] s[i]).1.report().is_active && has_key(given, s[i].0)
}

/// A choice by given scores falls on an arm that is switched on, and there
/// is one exactly if some such arm has a score.
pub proof fn given_scores_are_of_active_arms<A: Arm>(s: Seq<(usize, A)>, given: Seq<(usize, Double)>)
    ensures
        best_place(given_scores(s, given)) is Some <==> any_scored(s, given),
        best_place(given_scores(s, given)) matches Some(place) ==> 0 <= place < s.len()
            && s[place].1.report().is_active && has_key(given, s[place].0),
{
    let scores = given_scores(s, given);
    best_place_is_a_candidate(scores);
    if any_scored(s, given) {
        let i = choose|i: int|
            0 <= i < s.len() && (#[trigger] s[i]).1.report().is_active && has_key(given, s[i].0);
        assert(scores[i] is Some);
    }
    if best_place(scores) is Some {
        let place = best_place(scores).unwrap();
        assert(scores[place] is Some);
        assert(s[place].1.report().is_active);
    }
}

/// The handle at the chosen place, if a place is chosen.
pub open spec fn handle_at<A>(s: Seq<(usize, A)>, place: Option<int>) -> Option<usize> {
    match place {
        Some(p) => Some(s[p].0),
        None => None,
    }
}

/// The active arm with the best mean reward, the first of them in table
/// order.
pub fn best_by_mean<A: Arm>(table: &ArmTable<A>) -> (best: Option<usize>)
    ensures
        best == handle_at(table@, best_place(mean_scores(table@))),
{
    let mut scores: Vec<Option<Double>> = Vec::new();
    let mut place: usize = 0;
    while place < table.len()
        invariant
            place <= table@.len(),
            scores@ == mean_scores(table@).take(place as int),
        decreases table@.len() - place,
    {
        let stats = table.value_at(place).stats();
        if stats.is_active {
            scores.push(Some(stats.mean_reward));
        } else {
            scores.push(None);
        }
        place += 1;
        proof {
            assert(scores@ =~= mean_scores(table@).take(place as int));
        }
    }
    proof {
        assert(scores@ =~= mean_scores(table@));
        best_place_is_a_candidate(scores@);
    }
    match pick_best(&scores) {
        Some(chosen) => Some(table.key_at(chosen)),
        None => None,
    }
}

/// The active arm with the best of the given scores, the first of them in
/// table order. An arm without a score is passed over.
pub fn best_by_score<A: Arm>(table: &ArmTable<A>, given: &ArmTable<Double>) -> (best: Option<
    usize,
>)
    requires
        given.wf(),
    ensures
        best == handle_at(table@, best_place(given_scores(table@, given@))),
{
    let mut scores: Vec<Option<Double>> = Vec::new();
    let mut place: usize = 0;
    while place < table.len()
        invariant
            place <= table@.len(),
            given.wf(),
            scores@ == given_scores(table@, given@).take(place as int),
        decreases table@.len() - place,
    {
        let stats = table.value_at(place).stats();
        let mut score: Option<Double> = None;
        if stats.is_active {
            score =
            match given.get(table.key_at(place)) {
                Some(value) => Some(*value),
                None => None,
            };
        }
        scores.push(score);
        place += 1;
        proof {
            assert(scores@ =~= given_scores(table@, given@).take(place as int));
        }
    }
    proof {
        assert(scores@ =~= given_scores(table@, given@));
        best_place_is_a_candidate(scores@);
    }
    match pick_best(&scores) {
        Some(chosen) => Some(table.key_at(chosen)),
        None => None,
    }
}

} // verus!
