use bandits::double::Double;
use bandits::policies::arm::{Arm, ArmStats, MeanArm};
use bandits::policies::batch::sort_by_time;
use bandits::policies::ledger;
use bandits::policies::select::{best_by_mean, best_by_score, pick_best};
use bandits::table::{ArmTable, Table};

fn d(x: f64) -> Double {
    Double::from_bits(x.to_bits())
}

fn f(x: Double) -> f64 {
    f64::from_bits(x.to_bits())
}

fn times(batch: &[(Double, usize, u8)]) -> Vec<(f64, usize, u8)> {
    batch.iter().map(|(at, arm, tag)| (f(*at), *arm, *tag)).collect()
}

#[test]
fn an_empty_batch_stays_empty() {
    let batch: Vec<(Double, usize, u8)> = Vec::new();
    assert!(sort_by_time(&batch).is_empty());
}

#[test]
fn a_batch_is_put_in_ascending_order_of_time() {
    let batch = vec![(d(2.0), 1, 0), (d(0.0), 1, 1), (d(1.0), 0, 2), (d(-3.5), 4, 3)];
    assert_eq!(
        times(&sort_by_time(&batch)),
        vec![(-3.5, 4, 3), (0.0, 1, 1), (1.0, 0, 2), (2.0, 1, 0)]
    );
}

#[test]
fn updates_of_one_time_keep_their_order() {
    let batch =
        vec![(d(1.0), 0, 0), (d(0.0), 0, 1), (d(1.0), 0, 2), (d(0.0), 0, 3), (d(1.0), 0, 4)];
    assert_eq!(
        times(&sort_by_time(&batch)),
        vec![(0.0, 0, 1), (0.0, 0, 3), (1.0, 0, 0), (1.0, 0, 2), (1.0, 0, 4)]
    );
}

#[test]
fn an_ordered_batch_is_left_as_it_is() {
    let batch = vec![(d(0.0), 3, 0), (d(0.5), 2, 1), (d(0.5), 1, 2), (d(9.0), 0, 3)];
    assert_eq!(sort_by_time(&batch), batch);
}

#[test]
fn nans_and_zeros_take_their_place_in_the_total_order() {
    let batch = vec![
        (d(f64::NAN), 0, 0),
        (d(0.0), 0, 1),
        (d(f64::NEG_INFINITY), 0, 2),
        (d(-0.0), 0, 3),
        (d(-f64::NAN), 0, 4),
        (d(f64::INFINITY), 0, 5),
    ];
    let tags: Vec<u8> = sort_by_time(&batch).iter().map(|update| update.2).collect();
    assert_eq!(tags, vec![4, 2, 3, 1, 5, 0]);

    let mut expected: Vec<(f64, u8)> = batch.iter().map(|u| (f(u.0), u.2)).collect();
    expected.sort_by(|a, b| a.0.total_cmp(&b.0));
    assert_eq!(tags, expected.iter().map(|e| e.1).collect::<Vec<u8>>());
}

#[test]
fn sorting_agrees_with_the_standard_stable_sort() {
    let mut state: u64 = 0x9e37_79b9_7f4a_7c15;
    let mut batch: Vec<(Double, usize, u8)> = Vec::new();
    for tag in 0..200u8 {
        state = state.wrapping_mul(6364136223846793005).wrapping_add(1442695040888963407);
        let at = ((state >> 33) % 17) as f64 - 8.0;
        batch.push((d(at), (state % 5) as usize, tag));
    }
    let mut expected = times(&batch);
    expected.sort_by(|a, b| a.0.total_cmp(&b.0));
    assert_eq!(times(&sort_by_time(&batch)), expected);
}

#[test]
fn the_best_score_is_the_first_maximum() {
    assert_eq!(pick_best(&vec![]), None);
    assert_eq!(pick_best(&vec![None, None]), None);
    assert_eq!(pick_best(&vec![None, Some(d(0.1)), None]), Some(1));
    assert_eq!(pick_best(&vec![Some(d(0.1)), Some(d(0.7)), Some(d(0.7)), Some(d(0.2))]), Some(1));
    assert_eq!(pick_best(&vec![Some(d(-1.0)), Some(d(-3.0))]), Some(0));
    assert_eq!(pick_best(&vec![Some(d(0.0)), Some(d(-0.0))]), Some(0));
    assert_eq!(pick_best(&vec![Some(d(-0.0)), Some(d(0.0))]), Some(0));
}

#[test]
fn a_nan_neither_takes_over_nor_gives_way() {
    assert_eq!(pick_best(&vec![Some(d(0.1)), Some(d(f64::NAN)), Some(d(0.05))]), Some(0));
    assert_eq!(pick_best(&vec![Some(d(f64::NAN)), Some(d(9.0))]), Some(0));
}

#[test]
fn the_best_mean_is_taken_among_active_arms_only() {
    let mut table: ArmTable<MeanArm> = Table::new();
    assert_eq!(best_by_mean(&table), None);
    let low = ledger::add(&mut table, MeanArm::new(d(0.2), 1));
    let high = ledger::add(&mut table, MeanArm::new(d(0.9), 1));
    let middle = ledger::add(&mut table, MeanArm::new(d(0.5), 1));
    assert_eq!((low, high, middle), (0, 1, 2));
    assert_eq!(best_by_mean(&table), Some(high));
    assert!(ledger::set_active(&mut table, high, false).is_ok());
    assert_eq!(best_by_mean(&table), Some(middle));
    assert!(ledger::set_active(&mut table, middle, false).is_ok());
    assert!(ledger::set_active(&mut table, low, false).is_ok());
    assert_eq!(best_by_mean(&table), None);
}

#[test]
fn the_best_score_goes_by_table_order_not_by_the_order_of_the_scores() {
    let mut table: ArmTable<MeanArm> = Table::new();
    let first = ledger::add(&mut table, MeanArm::new(d(0.0), 1));
    let second = ledger::add(&mut table, MeanArm::new(d(0.0), 1));
    let mut given: ArmTable<Double> = Table::new();
    given.put(second, d(1.0));
    given.put(first, d(1.0));
    given.put(77, d(5.0));
    assert_eq!(best_by_score(&table, &given), Some(first));
}

#[test]
fn handles_are_the_number_of_arms_and_may_replace_an_arm() {
    let mut table: ArmTable<MeanArm> = Table::new();
    assert_eq!(ledger::add(&mut table, MeanArm::new(d(0.0), 0)), 0);
    assert_eq!(ledger::add(&mut table, MeanArm::new(d(1.0), 1)), 1);
    assert_eq!(ledger::add(&mut table, MeanArm::new(d(2.0), 2)), 2);
    assert!(ledger::delete(&mut table, 0).is_ok());
    assert_eq!(table.len(), 2);
    // two arms are left, so the next handle is 2: the arm under it is replaced
    assert_eq!(ledger::add(&mut table, MeanArm::new(d(7.0), 7)), 2);
    assert_eq!(table.len(), 2);
    assert_eq!(table.get(2).map(|arm| arm.count), Some(7));
    assert_eq!(table.key_at(0), 1);
    assert_eq!(table.key_at(1), 2);
    assert!(ledger::delete(&mut table, 1).is_ok());
    // one arm is left, under handle 2: the next handle is 1 and goes behind it
    assert_eq!(ledger::add(&mut table, MeanArm::new(d(3.0), 3)), 1);
    assert_eq!((table.key_at(0), table.key_at(1)), (2, 1));
}

#[test]
fn the_report_has_the_live_handles_as_keys() {
    let mut table: ArmTable<MeanArm> = Table::new();
    for n in 0..5u64 {
        ledger::add(&mut table, MeanArm::new(d(n as f64), n));
    }
    assert!(ledger::delete(&mut table, 3).is_ok());
    assert!(ledger::delete(&mut table, 0).is_ok());
    assert!(ledger::delete(&mut table, 3).is_err());
    let stats = ledger::stats(&table);
    let mut keys: Vec<usize> = stats.arms.keys().copied().collect();
    keys.sort();
    assert_eq!(keys, vec![1, 2, 4]);
    assert_eq!(
        stats.arms[&4],
        ArmStats { pulls: 4, mean_reward: d(4.0), is_active: true }
    );
}

#[test]
fn eligible_handles_are_active_and_if_asked_unpulled() {
    let mut table: ArmTable<MeanArm> = Table::new();
    ledger::add(&mut table, MeanArm::new(d(0.0), 0));
    ledger::add(&mut table, MeanArm::new(d(0.0), 2));
    ledger::add(&mut table, MeanArm::new(d(0.0), 0));
    ledger::add(&mut table, MeanArm::new(d(0.0), 0));
    assert!(ledger::set_active(&mut table, 2, false).is_ok());
    assert_eq!(ledger::active_handles(&table), vec![0, 1, 3]);
    assert_eq!(ledger::eligible_handles(&table, false), vec![0, 1, 3]);
    assert_eq!(ledger::eligible_handles(&table, true), vec![0, 3]);
}

#[test]
fn a_reset_keeps_the_switch() {
    let mut table: ArmTable<MeanArm> = Table::new();
    ledger::add(&mut table, MeanArm::new(d(0.4), 4));
    ledger::add(&mut table, MeanArm::new(d(0.6), 6));
    assert!(ledger::set_active(&mut table, 1, false).is_ok());
    ledger::reset_all(&mut table, MeanArm::new(d(0.0), 0));
    assert_eq!(*table.get(0).unwrap(), MeanArm { reward: d(0.0), count: 0, is_active: true });
    assert_eq!(*table.get(1).unwrap(), MeanArm { reward: d(0.0), count: 0, is_active: false });
    assert!(ledger::reset_one(&mut table, 1, MeanArm::new(d(5.0), 2)).is_ok());
    assert_eq!(*table.get(1).unwrap(), MeanArm { reward: d(5.0), count: 2, is_active: false });
    assert!(ledger::reset_one(&mut table, 9, MeanArm::new(d(5.0), 2)).is_err());
}

#[test]
fn an_arm_learns_one_pull_at_a_time() {
    let arm = MeanArm::new(d(0.0), 0).learn(d(1.0), d(1.0)).learn(d(2.0), d(0.5));
    assert_eq!(arm, MeanArm { reward: d(0.5), count: 2, is_active: true });
    assert_eq!(arm.with_active(false).stats(), ArmStats {
        pulls: 2,
        mean_reward: d(0.5),
        is_active: false
    });
    assert_eq!(f(arm.sample()), 0.5);
}

#[test]
fn a_table_keeps_the_order_of_first_use() {
    let mut table: Table<u128, &str> = Table::new();
    assert!(table.is_empty());
    table.put(30, "c");
    table.put(10, "a");
    table.put(20, "b");
    table.put(10, "A");
    assert_eq!(table.len(), 3);
    assert_eq!(table.position(10), Some(1));
    assert_eq!(table.get(10), Some(&"A"));
    assert_eq!(table.remove(30), Some("c"));
    assert_eq!(table.remove(30), None);
    assert_eq!((table.key_at(0), table.key_at(1)), (10, 20));
    table.set_at(1, "B");
    assert_eq!(*table.value_at(1), "B");
    let copy = table.duplicate();
    table.clear();
    assert!(table.is_empty());
    assert_eq!(copy.len(), 2);
    assert!(copy.contains(20));
    assert!(!copy.contains(30));
}
