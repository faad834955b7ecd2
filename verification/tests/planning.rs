use rainmetal_goap::action::{Action, ActionComponent, ActionState, Weight};
use rainmetal_goap::ai_driver::{
    driver_actions, driver_goals, driver_planner, new_state, DriverAction, DriverCondition, DriverGap,
    DriverMeasure, RefuelAction, State, FUEL_RESERVE, FUEL_UNIT, PLACEHOLDER_LOCATION,
};
use rainmetal_goap::goal::{DistanceCalculator, Goal};
use rainmetal_goap::planner::{
    get_action_names_from_plan, heuristic, is_goal, make_plan, select_plan, successors, Node, PlanStep,
    Planner,
};
use rainmetal_goap::state::PlannerState;

fn names(path: &Vec<Node<State>>) -> Vec<String> {
    get_action_names_from_plan(path).into_iter().collect()
}

#[test]
fn driver_actions_have_snake_case_keys_and_costs() {
    let actions = driver_actions();
    let keys: Vec<&str> = actions.iter().map(|a| a.key.as_str()).collect();
    assert_eq!(
        keys,
        vec![
            "discover_action",
            "refuel_action",
            "go_to_destination",
            "set_destination_to_fuel_station",
            "exit_city_action",
            "find_trade_plans_action",
            "update_trading_path_action",
            "remove_trading_goal_action",
            "set_trade_goal_to_small_action",
            "set_trade_goal_to_medium_action",
            "set_trade_goal_to_big_action",
            "set_trade_goal_to_huge_action",
            "do_trading_action",
            "chilout_action",
        ]
    );
    assert_eq!(actions[0].cost, Weight::Fixed(10));
    assert_eq!(actions[8].cost, Weight::Fixed(20));
    assert_eq!(actions[1].effect, Some(DriverAction::Refuel));
    assert_eq!(actions[1].preconditions, Some(DriverCondition::Enabled(DriverAction::Refuel)));
}

#[test]
fn action_builders_replace_one_part() {
    let a: Action<State> = Action::new("noop");
    assert_eq!(a.key, "noop");
    assert_eq!(a.cost, Weight::Fixed(0));
    assert!(a.effect.is_none());
    assert!(a.preconditions.is_none());
    let a = a.with_static_cost(4).with_effect(DriverAction::ExitCity);
    assert_eq!(a.cost, Weight::Fixed(4));
    assert_eq!(a.effect, Some(DriverAction::ExitCity));
    let a = a.with_cost(DriverMeasure::Zero).with_precondition(DriverCondition::Chilling);
    assert_eq!(a.cost, Weight::Computed(DriverMeasure::Zero));
    assert_eq!(a.preconditions, Some(DriverCondition::Chilling));
    let r: Action<State> = RefuelAction::new();
    assert_eq!(r.key, "refuel_action");
    assert!(matches!(RefuelAction(ActionState::PROGRESS).get_state(), ActionState::PROGRESS));
    assert!(matches!(ActionState::default(), ActionState::INIT));
}

#[test]
fn goal_builders_replace_one_part() {
    let g: Goal<State> = Goal::new("g");
    assert_eq!(g.key, "g");
    assert_eq!(g.priority, Weight::Fixed(0));
    assert!(g.distance.is_none() && g.requirements.is_none());
    let s = new_state(2, 0, 0);
    // A goal with no requirement is met everywhere; with no distance rule it adds nothing.
    assert!(g.is_reached(&s));
    assert_eq!(g.distance_from(&s, DistanceCalculator { value: 7 }).value, 7);
    let g = g.with_static_priority(9).with_requirement(DriverCondition::Chilling).with_distance(DriverGap::UnknownLocations);
    assert_eq!(g.priority_of(&s), 9);
    assert!(!g.is_reached(&s));
    assert_eq!(g.distance_from(&s, DistanceCalculator::new()).value, 1);
    let g = g.with_priority(DriverMeasure::Zero);
    assert_eq!(g.priority, Weight::Computed(DriverMeasure::Zero));
    assert_eq!(g.priority_of(&s), 0);
}

#[test]
fn successors_follow_enabled_actions_in_order() {
    let actions = driver_actions();
    let start = Node::State(new_state(3, 0, 0));
    let next = successors(&start, &actions);
    // Only discovering is possible at first.
    assert_eq!(next.len(), 1);
    match &next[0].0 {
        Node::Action(key, s) => {
            assert_eq!(key, "discover_action");
            assert_eq!(s.know_locations, 1);
            assert_eq!(s.fuel_station, Some(PLACEHOLDER_LOCATION));
        }
        Node::State(_) => panic!("expected an action node"),
    }
    assert_eq!(next[0].1, 10);
}

#[test]
fn heuristic_and_goal_test_read_the_goal() {
    let goals = driver_goals();
    let s = new_state(3, 2 * FUEL_UNIT + 500, 100);
    let node = Node::State(s);
    // fuel: |2.5 - 10| = 7 whole units
    assert_eq!(heuristic(&node, &goals[2]), 7);
    // rent: |100 - 600|
    assert_eq!(heuristic(&node, &goals[1]), 500);
    assert_eq!(heuristic(&node, &goals[0]), 1);
    assert!(!is_goal(&node, &goals[0]));
    let rich = Node::State(new_state(3, FUEL_RESERVE, 600));
    assert!(is_goal(&rich, &goals[1]));
    assert!(is_goal(&rich, &goals[2]));
}

#[test]
fn plan_for_fuel_discovers_travels_and_refuels() {
    let actions = driver_actions();
    let goals = driver_goals();
    let start = new_state(3, 7 * FUEL_UNIT, 0);
    let (path, _cost) = make_plan(&start, &actions, &goals[2]).expect("a plan exists");
    assert_eq!(path[0], Node::State(start));
    let keys = names(&path);
    assert_eq!(keys.len(), path.len() - 1);
    assert_eq!(keys[0], "discover_action");
    assert_eq!(keys[1], "set_destination_to_fuel_station");
    assert_eq!(keys[2], "go_to_destination");
    assert_eq!(keys.iter().filter(|k| k.as_str() == "refuel_action").count(), 3);
    assert!(path.last().unwrap().state().fuel >= FUEL_RESERVE);
}

#[test]
fn plan_for_met_goal_is_the_start_alone() {
    let actions = driver_actions();
    let goals = driver_goals();
    let start = new_state(0, FUEL_RESERVE, 0);
    let (path, cost) = make_plan(&start, &actions, &goals[2]).expect("met already");
    assert_eq!(path.len(), 1);
    assert_eq!(cost, 0);
}

#[test]
fn no_plan_when_no_action_leads_to_the_goal() {
    let actions = driver_actions();
    let goals = driver_goals();
    // no location exists, so no fuel station can be found
    let start = new_state(0, 0, 0);
    assert!(make_plan(&start, &actions, &goals[2]).is_none());
}

#[test]
fn sort_goals_orders_by_priority_stably() {
    let mut planner = driver_planner();
    let s = new_state(3, 0, 0);
    planner.sort_goals(&s);
    let keys: Vec<&str> = planner.all_goals.iter().map(|g| g.key.as_str()).collect();
    assert_eq!(keys, vec!["fuel", "rent", "discover", "chillout"]);

    let mut p: Planner<State> = Planner::new(
        vec![
            Goal::new("a").with_static_priority(1),
            Goal::new("b").with_static_priority(2),
            Goal::new("c").with_static_priority(1),
            Goal::new("d").with_static_priority(2),
        ],
        vec![],
    );
    p.sort_goals(&s);
    let keys: Vec<&str> = p.all_goals.iter().map(|g| g.key.as_str()).collect();
    assert_eq!(keys, vec!["b", "d", "a", "c"]);
}

#[test]
fn select_plan_takes_first_unmet_reachable_goal() {
    let mut planner = driver_planner();
    let s = new_state(0, 0, 700);
    planner.sort_goals(&s);
    // fuel cannot be planned for (no locations), rent is met, discover is met, chillout cannot be planned for
    let (plan, goal) = select_plan(&s, &planner.all_actions, &planner.all_goals);
    assert!(plan.is_none());
    assert!(goal.is_none());

    let s = new_state(3, 0, 0);
    planner.sort_goals(&s);
    let (plan, goal) = select_plan(&s, &planner.all_actions, &planner.all_goals);
    assert_eq!(goal.unwrap().key, "fuel");
    assert!(plan.is_some());
}

#[test]
fn take_plan_result_starts_first_action() {
    let mut planner = driver_planner();
    let s = new_state(3, 0, 0);
    planner.sort_goals(&s);
    let (plan, goal) = select_plan(&s, &planner.all_actions, &planner.all_goals);
    let step = planner.take_plan_result(plan, goal);
    assert_eq!(step, PlanStep::Start { key: "discover_action".to_string(), replace_current: false });
    assert_eq!(planner.goal.as_ref().unwrap().key, "fuel");
    assert_eq!(planner.action.as_ref().unwrap().key, "discover_action");
    assert_eq!(planner.plan[0], "discover_action");
    assert!(planner.is_current_action(&driver_actions()[0]));
    assert!(!planner.is_current_action(&driver_actions()[1]));

    // A new plan whose first action differs withdraws the current one.
    let path = vec![
        Node::State(s),
        Node::Action("refuel_action".to_string(), s),
    ];
    let step = planner.take_plan_result(Some((path, 1)), None);
    assert_eq!(step, PlanStep::Start { key: "refuel_action".to_string(), replace_current: true });
    assert!(planner.goal.is_none());

    assert_eq!(planner.take_plan_result(None, None), PlanStep::NoPlan);
    assert_eq!(planner.take_plan_result(Some((vec![Node::State(s)], 0)), None), PlanStep::EmptyPlan);
    let unknown = vec![Node::State(s), Node::Action("fly".to_string(), s)];
    assert_eq!(planner.take_plan_result(Some((unknown, 1)), None), PlanStep::UnknownAction("fly".to_string()));
    assert_eq!(planner.action.as_ref().unwrap().key, "refuel_action");
}

#[test]
fn driver_state_rules() {
    let mut s = new_state(3, 0, 500);
    assert!(s.has_money(&None));
    assert!(s.has_money(&Some(500)));
    assert!(!s.has_money(&Some(501)));
    assert!(!s.inside_city(&None));
    s.inside_city = Some(4);
    assert!(s.inside_city(&Some(4)));
    assert!(!s.inside_city(&Some(5)));
    assert!(!s.can_go_to(&None));
    assert!(s.can_go_to(&Some(4)));
    s.travel_destination = Some(4);
    assert!(!s.can_go_to(&Some(4)));
    // refuel at the station: one unit more, paid for
    s.fuel_station = Some(4);
    s.fuel_cost = Some(20);
    assert!(s.holds(&DriverCondition::Enabled(DriverAction::Refuel)));
    let t = s.apply(&DriverAction::Refuel);
    assert_eq!(t.fuel, FUEL_UNIT);
    assert_eq!(t.money, 480);
    // trading adds the goal's profit
    let mut u = s;
    u.trading_goal = Some(150);
    assert_eq!(u.apply(&DriverAction::DoTrading).money, 650);
    assert_eq!(State::default(), new_state(0, 0, 0));
}

#[test]
fn driver_planner_holds_the_driver_goals() {
    let planner = driver_planner();
    let s = new_state(3, 0, 0);
    let keys: Vec<&str> = planner.all_goals.iter().map(|g| g.key.as_str()).collect();
    assert_eq!(keys, vec!["discover", "rent", "fuel", "chillout"]);
    let priorities: Vec<usize> = planner.all_goals.iter().map(|g| g.priority_of(&s)).collect();
    assert_eq!(priorities, vec![1, 3, 5, 0]);
    assert_eq!(planner.all_goals[2].requirements, Some(DriverCondition::FuelInReserve));
    assert_eq!(planner.all_actions.len(), 14);
}
