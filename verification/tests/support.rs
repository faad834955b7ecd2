use std::collections::HashMap;

use rainmetal_goap::ai_driver::{
    cancel_trading_action, discovery_finished, handle_exit_city, handle_find_trade_plans,
    handle_go_to_destination_finish, handle_remove_trading_goal, handle_set_destination_to_fuel_station,
    handle_set_trading_goal, new_state, update_state_fuel, update_state_memory, update_state_money,
    update_state_trading_plans, State,
};
use rainmetal_goap::distance::Distance;
use rainmetal_goap::goal::DistanceCalculator;
use rainmetal_goap::memory::{share_memory_map, Memo};
use rainmetal_goap::naming::to_snake_case;
use rainmetal_goap::radar::scan_changes;

#[test]
fn integer_distances_are_absolute_differences() {
    assert_eq!(3usize.distance(&10), 7);
    assert_eq!(10u64.distance(&3), 7);
    assert_eq!(5u32.distance(&5), 0);
    assert_eq!(0u16.distance(&65535), 65535);
    assert_eq!(200u8.distance(&10), 190);
    assert_eq!((-4i64).distance(&6), 10);
    assert_eq!(6i32.distance(&-4), 10);
    assert_eq!((-7i16).distance(&-2), 5);
    assert_eq!((-100i8).distance(&27), 127);
}

#[test]
fn sequence_distance_pairs_sorted_elements() {
    // Sorted: [1, 5, 9] against [2, 4]: |1-2| + |5-4| + |9-0| = 11.
    let a: Vec<u32> = vec![9, 1, 5];
    let b: Vec<u32> = vec![4, 2];
    assert_eq!(a.distance(&b), 11);
    assert_eq!(b.distance(&a), 11);
    assert_eq!(a.distance(&a), 0);
    let empty: Vec<u32> = Vec::new();
    assert_eq!(empty.distance(&empty), 0);
    assert_eq!(empty.distance(&a), 15);
    // Reordering a collection does not change its distance.
    let c: Vec<u32> = vec![5, 9, 1];
    assert_eq!(c.distance(&b), a.distance(&b));
}

#[test]
fn map_distance_sums_over_the_first_maps_keys() {
    let mut a: HashMap<u64, u64> = HashMap::new();
    a.insert(1, 5);
    a.insert(2, 3);
    let mut b: HashMap<u64, u64> = HashMap::new();
    b.insert(1, 2);
    b.insert(3, 9);
    // |5 - 2| + |3 - 0|; key 3 of `b` adds nothing.
    assert_eq!(a.distance(&b), 6);
    // |2 - 5| + |9 - 0|.
    assert_eq!(b.distance(&a), 12);
    assert_eq!(a.distance(&a), 0);
    let empty: HashMap<u64, u64> = HashMap::new();
    assert_eq!(empty.distance(&a), 0);
    assert_eq!(a.distance(&empty), 8);
}

#[test]
fn distance_calculator_accumulates() {
    let d = DistanceCalculator::new();
    assert_eq!(d.value, 0);
    let d = d.add(&3u64, &10u64).add(&2usize, &2usize);
    assert_eq!(d.value, 7);
    let d = d.add_eq(&1u8, &2u8).add_eq(&"a", &"a");
    assert_eq!(d.value, 8);
}

#[test]
fn snake_case_names() {
    assert_eq!(to_snake_case("RefuelAction"), "refuel_action");
    assert_eq!(to_snake_case("ChiloutAction"), "chilout_action");
    assert_eq!(to_snake_case("SetTradeGoalToHugeAction"), "set_trade_goal_to_huge_action");
    assert_eq!(to_snake_case(""), "");
    assert_eq!(to_snake_case("ABC"), "a_b_c");
    assert_eq!(to_snake_case("already_snake"), "already_snake");
    assert_eq!(to_snake_case("x1Y"), "x1_y");
    assert_eq!(to_snake_case("AB"), "a_b");
    // The snake-case form of a snake-case name is itself.
    assert_eq!(to_snake_case(&to_snake_case("SetTradeGoalToHugeAction")), "set_trade_goal_to_huge_action");
}

#[test]
fn memo_compares_times() {
    let old = Memo::new(1u8, 5);
    let new = Memo::new(2u8, 9);
    assert!(old.is_newer_than(&new));
    assert!(!new.is_newer_than(&old));
    assert!(old.is_newer_than(&old));
    assert_eq!(new.value, 2);
    assert_eq!(new.time, 9);
}

#[test]
fn shared_memory_keeps_the_later_memo() {
    let mut target: HashMap<u64, Memo<&str>> = HashMap::new();
    target.insert(1, Memo::new("target-new", 10));
    target.insert(2, Memo::new("target-old", 1));
    target.insert(3, Memo::new("target-same", 4));
    target.insert(4, Memo::new("target-only", 4));
    let mut source: HashMap<u64, Memo<&str>> = HashMap::new();
    source.insert(1, Memo::new("source-old", 3));
    source.insert(2, Memo::new("source-new", 8));
    source.insert(3, Memo::new("source-same", 4));
    source.insert(5, Memo::new("source-only", 2));
    share_memory_map(&mut target, &source);
    assert_eq!(target.len(), 5);
    assert_eq!(target[&1].value, "target-new");
    assert_eq!(target[&2].value, "source-new");
    assert_eq!(target[&3].value, "source-same");
    assert_eq!(target[&4].value, "target-only");
    assert_eq!(target[&5].value, "source-only");
    assert_eq!(target[&5].time, 2);
}

#[test]
fn radar_reports_who_entered_and_who_left() {
    let previous: Vec<u64> = vec![1, 2, 3];
    let found: Vec<u64> = vec![3, 4, 1, 5];
    let (entered, exited) = scan_changes(&previous, &found);
    assert_eq!(entered, vec![4, 5]);
    assert_eq!(exited, vec![2]);
    let (entered, exited) = scan_changes(&Vec::new(), &vec![7]);
    assert_eq!((entered, exited), (vec![7], vec![]));
    let (entered, exited) = scan_changes(&vec![7], &Vec::new());
    assert_eq!((entered, exited), (vec![], vec![7]));
    // A second sighting in one scan counts as an arrival.
    let (entered, _) = scan_changes(&vec![7], &vec![7, 7]);
    assert_eq!(entered, vec![7]);
}

fn driver() -> State {
    new_state(4, 2500, 900)
}

#[test]
fn destination_handlers() {
    let mut s = driver();
    assert!(!handle_set_destination_to_fuel_station(&mut s));
    assert_eq!(s, driver());
    s.fuel_station = Some(8);
    assert!(handle_set_destination_to_fuel_station(&mut s));
    assert_eq!(s.travel_destination, Some(8));
    assert!(!handle_go_to_destination_finish(&mut s, false));
    assert_eq!(s.inside_city, None);
    assert!(handle_go_to_destination_finish(&mut s, true));
    assert_eq!(s.inside_city, Some(8));
    handle_exit_city(&mut s);
    assert_eq!(s.inside_city, None);
    let mut lost = driver();
    assert!(!handle_go_to_destination_finish(&mut lost, true));
}

#[test]
fn discovery_ends_on_a_new_location_or_when_all_are_known() {
    let mut s = driver();
    s.know_locations = 2;
    assert!(!discovery_finished(&s, 2));
    assert!(discovery_finished(&s, 1));
    s.know_locations = 4;
    assert!(discovery_finished(&s, 4));
}

#[test]
fn trading_state_handlers() {
    let mut s = driver();
    assert!(!handle_find_trade_plans(&mut s, false, false, false, false));
    assert!(handle_find_trade_plans(&mut s, false, true, false, false));
    assert!(s.has_medium_trade_plan && !s.has_small_trade_plan);
    handle_set_trading_goal(&mut s, 150);
    assert_eq!(s.trading_goal, Some(150));
    update_state_trading_plans(&mut s, true, false, false, false);
    assert!(s.has_small_trade_plan && !s.has_medium_trade_plan);
    assert!(s.has_updated_trading_path);
    assert_eq!(s.trading_goal, Some(150));
    update_state_trading_plans(&mut s, false, false, false, false);
    assert_eq!(s.trading_goal, None);
    assert!(!s.has_updated_trading_path);
    handle_set_trading_goal(&mut s, 30);
    handle_remove_trading_goal(&mut s);
    assert_eq!(s.trading_goal, None);
    s.has_big_trade_plan = true;
    s.trading_goal = Some(500);
    cancel_trading_action(&mut s);
    assert_eq!(s.trading_goal, None);
    assert!(!s.has_big_trade_plan);
}

#[test]
fn state_follows_memory_money_and_fuel() {
    let mut s = driver();
    update_state_memory(&mut s, Some((12, 6)), 3, 5);
    assert_eq!((s.fuel_cost, s.fuel_station, s.know_locations, s.all_locations), (Some(12), Some(6), 3, 5));
    update_state_memory(&mut s, None, 4, 5);
    assert_eq!((s.fuel_cost, s.fuel_station, s.know_locations), (Some(12), Some(6), 4));
    update_state_money(&mut s, 77);
    assert_eq!(s.money, 77);
    update_state_money(&mut s, -1);
    assert_eq!(s.money, u64::MAX);
    update_state_fuel(&mut s, 1234);
    assert_eq!(s.fuel, 1234);
}

#[test]
fn state_queries() {
    let mut s = driver();
    assert!(s.has_money(&None));
    assert!(s.has_money(&Some(900)));
    assert!(!s.has_money(&Some(901)));
    assert!(!s.inside_city(&None));
    s.inside_city = Some(3);
    assert!(s.inside_city(&Some(3)));
    assert!(!s.inside_city(&Some(4)));
    assert!(!s.can_go_to(&None));
    assert!(s.can_go_to(&Some(3)));
    s.travel_destination = Some(3);
    assert!(!s.can_go_to(&Some(3)));
    assert_eq!(State::default(), new_state(0, 0, 0));
}
