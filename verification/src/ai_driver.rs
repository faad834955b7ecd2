use vstd::prelude::*;
use crate::action::{Action, ActionComponent, ActionState, Weight};
use crate::distance::abs_diff;
use crate::goal::{DistanceCalculator, Goal};
use crate::planner::{all_sound, is_step, is_walk, Node, Planner};
use crate::state::PlannerState;

verus! {

/// What a month of rent costs.
pub const RENT_COST_MONTHLY: u64 = 300;

/// One unit of fuel, in the thousandths in which the planner holds fuel.
pub const FUEL_UNIT: u64 = 1000;

/// The fuel a driver wants to keep in its tank, in thousandths of a unit.
pub const FUEL_RESERVE: u64 = 10000;

/// The profit of a trading plan of each size.
pub const SMALL_TRADING_PLAN_VALUE: u64 = 30;
pub const MEDIUM_TRADING_PLAN_VALUE: u64 = 150;
pub const BIG_TRADING_PLAN_VALUE: u64 = 500;
pub const HUGE_TRADING_PLAN_VALUE: u64 = 1000;

/// The location id that a discovery records as the fuel station it found,
/// before the real one is known (the bits of a placeholder entity).
pub const PLACEHOLDER_LOCATION: u64 = 0x1_ffff_ffff;

/// What a driver's planner knows of the driver and of the world.
///
/// Locations are held by id (an entity's bits); fuel is held in thousandths
/// of a unit.
#[derive(Clone, Copy, Hash, Debug)]
pub struct State {
    pub fuel_cost: Option<u64>,
    pub money: u64,
    pub fuel: u64,
    pub all_locations: u64,
    pub know_locations: u64,
    pub travel_destination: Option<u64>,
    pub fuel_station: Option<u64>,
    pub inside_city: Option<u64>,
    pub trading_goal: Option<u64>,
    pub has_small_trade_plan: bool,
    pub has_medium_trade_plan: bool,
    pub has_big_trade_plan: bool,
    pub has_huge_trade_plan: bool,
    pub has_updated_trading_path: bool,
    pub is_chilling: bool,
}

fn same_location(a: &Option<u64>, b: &Option<u64>) -> (r: bool)
    ensures
        r == (*a == *b),
{
    match (a, b) {
        (None, None) => true,
        (Some(x), Some(y)) => *x == *y,
        _ => false,
    }
}

impl PartialEq for State {
    fn eq(&self, other: &Self) -> (r: bool) {
        same_location(&self.fuel_cost, &other.fuel_cost) && self.money == other.money && self.fuel
            == other.fuel && self.all_locations == other.all_locations && self.know_locations
            == other.know_locations && same_location(&self.travel_destination, &other.travel_destination)
            && same_location(&self.fuel_station, &other.fuel_station) && same_location(
            &self.inside_city,
            &other.inside_city,
        ) && same_location(&self.trading_goal, &other.trading_goal) && self.has_small_trade_plan
            == other.has_small_trade_plan && self.has_medium_trade_plan == other.has_medium_trade_plan
            && self.has_big_trade_plan == other.has_big_trade_plan && self.has_huge_trade_plan
            == other.has_huge_trade_plan && self.has_updated_trading_path
            == other.has_updated_trading_path && self.is_chilling == other.is_chilling
    }
}

impl vstd::std_specs::cmp::PartialEqSpecImpl for State {
    open spec fn obeys_eq_spec() -> bool {
        true
    }

    open spec fn eq_spec(&self, other: &Self) -> bool {
        *self == *other
    }
}

impl Eq for State {}

impl Default for State {
    fn default() -> (s: Self)
        ensures
            s == initial_state(0, 0, 0),
    {
        new_state(0, 0, 0)
    }
}

impl State {
    pub open spec fn spec_has_money(self, price: Option<u64>) -> bool {
        match price {
            None => true,
            Some(p) => self.money >= p,
        }
    }

    pub open spec fn spec_inside_city(self, location: Option<u64>) -> bool {
        self.inside_city is Some && self.inside_city == location
    }

    pub open spec fn spec_can_go_to(self, location: Option<u64>) -> bool {
        location is Some && self.travel_destination != location
    }

    /// Whether the driver can pay `price` (always, when there is no price).
    pub fn has_money(&self, price: &Option<u64>) -> (r: bool)
        ensures
            r == self.spec_has_money(*price),
    {
        match price {
            None => true,
            Some(p) => self.money >= *p,
        }
    }

    /// Whether the driver is inside the city `location`.
    pub fn inside_city(&self, location: &Option<u64>) -> (r: bool)
        ensures
            r == self.spec_inside_city(*location),
    {
        self.inside_city.is_some() && same_location(&self.inside_city, location)
    }

    /// Whether `location` is a place the driver is not already heading to.
    pub fn can_go_to(&self, location: &Option<u64>) -> (r: bool)
        ensures
            r == self.spec_can_go_to(*location),
    {
        location.is_some() && !same_location(&self.travel_destination, location)
    }
}

/// The state of a driver the planner starts from.
pub open spec fn initial_state(all_locations: u64, fuel: u64, money: u64) -> State {
    State {
        fuel_cost: None,
        money,
        fuel,
        all_locations,
        know_locations: 0,
        travel_destination: None,
        fuel_station: None,
        inside_city: None,
        trading_goal: None,
        has_small_trade_plan: false,
        has_medium_trade_plan: false,
        has_big_trade_plan: false,
        has_huge_trade_plan: false,
        has_updated_trading_path: false,
        is_chilling: false,
    }
}

/// The state of a new driver with the given number of locations in the world,
/// fuel (in thousandths) and money.
pub fn new_state(all_locations: u64, fuel: u64, money: u64) -> (s: State)
    ensures
        s == initial_state(all_locations, fuel, money),
{
    State {
        fuel_cost: None,
        money,
        fuel,
        all_locations,
        know_locations: 0,
        travel_destination: None,
        fuel_station: None,
        inside_city: None,
        trading_goal: None,
        has_small_trade_plan: false,
        has_medium_trade_plan: false,
        has_big_trade_plan: false,
        has_huge_trade_plan: false,
        has_updated_trading_path: false,
        is_chilling: false,
    }
}

/// The things a driver can do.
#[derive(Clone, Copy, PartialEq, Eq, Structural, Hash, Debug)]
pub enum DriverAction {
    Refuel,
    GoToDestination,
    SetDestinationToFuelStation,
    ExitCity,
    Discover,
    UpdateTradingPath,
    FindTradePlans,
    RemoveTradingGoal,
    SetTradeGoalToSmall,
    SetTradeGoalToMedium,
    SetTradeGoalToBig,
    SetTradeGoalToHuge,
    DoTrading,
    Chillout,
}

/// The conditions of a driver's goals and actions.
#[derive(Clone, Copy, PartialEq, Eq, Structural, Hash, Debug)]
pub enum DriverCondition {
    /// Two months of rent are saved.
    RentSaved,
    /// The fuel reserve is in the tank.
    FuelInReserve,
    /// Every location is known.
    AllLocationsKnown,
    /// The driver is chilling out.
    Chilling,
    /// The precondition of the action.
    Enabled(DriverAction),
}

/// How far a driver is from one of its goals.
#[derive(Clone, Copy, PartialEq, Eq, Structural, Hash, Debug)]
pub enum DriverGap {
    /// The distance of the money from two months of rent.
    RentShortfall,
    /// The distance of the fuel from the reserve, in whole units.
    FuelShortfall,
    /// One while some location is unknown, else zero.
    UnknownLocations,
}

/// The driver's costs and priorities are fixed numbers, so it has no measure rule.
#[derive(Clone, Copy, PartialEq, Eq, Structural, Hash, Debug)]
pub enum DriverMeasure {
    Zero,
}

/// The precondition of each action.
pub open spec fn enabled(s: State, a: DriverAction) -> bool {
    match a {
        DriverAction::Refuel => s.spec_inside_city(s.fuel_station) && s.spec_has_money(s.fuel_cost),
        DriverAction::GoToDestination => s.inside_city is None && s.travel_destination is Some,
        DriverAction::SetDestinationToFuelStation => s.spec_can_go_to(s.fuel_station),
        DriverAction::ExitCity => s.inside_city is Some,
        DriverAction::Discover => s.know_locations < s.all_locations && s.inside_city is None,
        DriverAction::UpdateTradingPath => !s.has_updated_trading_path && s.know_locations >= 3,
        DriverAction::FindTradePlans => !s.has_small_trade_plan && s.has_updated_trading_path && s.know_locations >= 3,
        DriverAction::RemoveTradingGoal => s.trading_goal is Some,
        DriverAction::SetTradeGoalToSmall => s.trading_goal is None && s.has_small_trade_plan,
        DriverAction::SetTradeGoalToMedium => s.trading_goal is None && s.has_medium_trade_plan,
        DriverAction::SetTradeGoalToBig => s.trading_goal is None && s.has_big_trade_plan,
        DriverAction::SetTradeGoalToHuge => s.trading_goal is None && s.has_huge_trade_plan,
        DriverAction::DoTrading => s.trading_goal is Some && s.money <= u32::MAX,
        DriverAction::Chillout => s.money >= RENT_COST_MONTHLY && !s.is_chilling && s.inside_city is Some,
    }
}

/// Where an action's effect is defined: a refuel needs the money for the fuel,
/// a discovery a count of known locations that can grow.
pub open spec fn applicable(s: State, a: DriverAction) -> bool {
    match a {
        DriverAction::Refuel => s.spec_has_money(s.fuel_cost),
        DriverAction::Discover => s.know_locations < u64::MAX,
        _ => true,
    }
}

/// `a + b`, held at `u64::MAX` at most.
pub open spec fn capped_sum(a: u64, b: u64) -> u64 {
    if a + b > u64::MAX { u64::MAX } else { (a + b) as u64 }
}

/// The effect of each action. Fuel and money that would pass `u64::MAX` stay there.
pub open spec fn effect(s: State, a: DriverAction) -> State {
    match a {
        DriverAction::Refuel => State {
            fuel: capped_sum(s.fuel, FUEL_UNIT),
            money: match s.fuel_cost {
                Some(c) => (s.money - c) as u64,
                None => s.money,
            },
            ..s
        },
        DriverAction::GoToDestination => State { inside_city: s.travel_destination, ..s },
        DriverAction::SetDestinationToFuelStation => State { travel_destination: s.fuel_station, ..s },
        DriverAction::ExitCity => State { inside_city: None, ..s },
        DriverAction::Discover => State {
            fuel_station: Some(PLACEHOLDER_LOCATION),
            know_locations: (s.know_locations + 1) as u64,
            ..s
        },
        DriverAction::UpdateTradingPath => State { has_updated_trading_path: true, ..s },
        DriverAction::FindTradePlans => State { has_small_trade_plan: true, ..s },
        DriverAction::RemoveTradingGoal => State { trading_goal: None, ..s },
        DriverAction::SetTradeGoalToSmall => State { trading_goal: Some(SMALL_TRADING_PLAN_VALUE), ..s },
        DriverAction::SetTradeGoalToMedium => State { trading_goal: Some(MEDIUM_TRADING_PLAN_VALUE), ..s },
        DriverAction::SetTradeGoalToBig => State { trading_goal: Some(BIG_TRADING_PLAN_VALUE), ..s },
        DriverAction::SetTradeGoalToHuge => State { trading_goal: Some(HUGE_TRADING_PLAN_VALUE), ..s },
        DriverAction::DoTrading => State {
            money: match s.trading_goal {
                Some(g) => capped_sum(s.money, g),
                None => s.money,
            },
            ..s
        },
        DriverAction::Chillout => State { is_chilling: true, ..s },
    }
}

/// What each distance rule adds.
pub open spec fn gap(s: State, g: DriverGap) -> usize {
    match g {
        DriverGap::RentShortfall => abs_diff(s.money as int, (RENT_COST_MONTHLY * 2) as int) as usize,
        DriverGap::FuelShortfall => (abs_diff(s.fuel as int, FUEL_RESERVE as int) / FUEL_UNIT as int) as usize,
        DriverGap::UnknownLocations => if s.know_locations == s.all_locations { 0 } else { 1 },
    }
}

fn capped_add(a: u64, b: u64) -> (r: u64)
    ensures
        r == capped_sum(a, b),
{
    a.saturating_add(b)
}

impl PlannerState for State {
    type Condition = DriverCondition;
    type Effect = DriverAction;
    type Measure = DriverMeasure;
    type Gap = DriverGap;

    open spec fn spec_holds(&self, c: DriverCondition) -> bool {
        match c {
            DriverCondition::RentSaved => self.money >= RENT_COST_MONTHLY * 2,
            DriverCondition::FuelInReserve => self.fuel >= FUEL_RESERVE,
            DriverCondition::AllLocationsKnown => self.know_locations >= self.all_locations,
            DriverCondition::Chilling => self.is_chilling,
            DriverCondition::Enabled(a) => enabled(*self, a),
        }
    }

    open spec fn spec_applicable(&self, e: DriverAction) -> bool {
        applicable(*self, e)
    }

    open spec fn spec_apply(&self, e: DriverAction) -> State {
        effect(*self, e)
    }

    open spec fn spec_measure(&self, m: DriverMeasure) -> usize {
        0
    }

    open spec fn spec_gap(&self, g: DriverGap) -> usize {
        gap(*self, g)
    }

    proof fn lemma_clone_is_copy() {
    }

    proof fn lemma_eq_is_equality() {
        reveal(vstd::laws_eq::obeys_concrete_eq);
    }

    fn holds(&self, c: &DriverCondition) -> (r: bool) {
        match c {
            DriverCondition::RentSaved => self.money >= RENT_COST_MONTHLY * 2,
            DriverCondition::FuelInReserve => self.fuel >= FUEL_RESERVE,
            DriverCondition::AllLocationsKnown => self.know_locations >= self.all_locations,
            DriverCondition::Chilling => self.is_chilling,
            DriverCondition::Enabled(a) => is_enabled(self, *a),
        }
    }

    fn apply(&self, e: &DriverAction) -> (r: State) {
        let s = *self;
        match e {
            DriverAction::Refuel => State {
                fuel: capped_add(s.fuel, FUEL_UNIT),
                money: match s.fuel_cost {
                    Some(c) => s.money - c,
                    None => s.money,
                },
                ..s
            },
            DriverAction::GoToDestination => State { inside_city: s.travel_destination, ..s },
            DriverAction::SetDestinationToFuelStation => State { travel_destination: s.fuel_station, ..s },
            DriverAction::ExitCity => State { inside_city: None, ..s },
            DriverAction::Discover => State {
                fuel_station: Some(PLACEHOLDER_LOCATION),
                know_locations: s.know_locations + 1,
                ..s
            },
            DriverAction::UpdateTradingPath => State { has_updated_trading_path: true, ..s },
            DriverAction::FindTradePlans => State { has_small_trade_plan: true, ..s },
            DriverAction::RemoveTradingGoal => State { trading_goal: None, ..s },
            DriverAction::SetTradeGoalToSmall => State { trading_goal: Some(SMALL_TRADING_PLAN_VALUE), ..s },
            DriverAction::SetTradeGoalToMedium => State { trading_goal: Some(MEDIUM_TRADING_PLAN_VALUE), ..s },
            DriverAction::SetTradeGoalToBig => State { trading_goal: Some(BIG_TRADING_PLAN_VALUE), ..s },
            DriverAction::SetTradeGoalToHuge => State { trading_goal: Some(HUGE_TRADING_PLAN_VALUE), ..s },
            DriverAction::DoTrading => State {
                money: match s.trading_goal {
                    Some(g) => capped_add(s.money, g),
                    None => s.money,
                },
                ..s
            },
            DriverAction::Chillout => State { is_chilling: true, ..s },
        }
    }

    fn measure(&self, m: &DriverMeasure) -> (r: usize) {
        0
    }

    fn gap(&self, g: &DriverGap, d: DistanceCalculator) -> (r: DistanceCalculator) {
        match g {
            DriverGap::RentShortfall => d.add(&self.money, &(RENT_COST_MONTHLY * 2)),
            DriverGap::FuelShortfall => {
                let diff: u64 = if self.fuel >= FUEL_RESERVE { self.fuel - FUEL_RESERVE } else { FUEL_RESERVE - self.fuel };
                let units: u64 = diff / FUEL_UNIT;
                DistanceCalculator { value: d.value + units as usize }
            }
            DriverGap::UnknownLocations => d.add_eq(&self.know_locations, &self.all_locations),
        }
    }
}

/// Whether action `a` is enabled in `s`.
fn is_enabled(s: &State, a: DriverAction) -> (r: bool)
    ensures
        r == enabled(*s, a),
{
    match a {
        DriverAction::Refuel => s.inside_city(&s.fuel_station) && s.has_money(&s.fuel_cost),
        DriverAction::GoToDestination => s.inside_city.is_none() && s.travel_destination.is_some(),
        DriverAction::SetDestinationToFuelStation => s.can_go_to(&s.fuel_station),
        DriverAction::ExitCity => s.inside_city.is_some(),
        DriverAction::Discover => s.know_locations < s.all_locations && s.inside_city.is_none(),
        DriverAction::UpdateTradingPath => !s.has_updated_trading_path && s.know_locations >= 3,
        DriverAction::FindTradePlans => !s.has_small_trade_plan && s.has_updated_trading_path && s.know_locations >= 3,
        DriverAction::RemoveTradingGoal => s.trading_goal.is_some(),
        DriverAction::SetTradeGoalToSmall => s.trading_goal.is_none() && s.has_small_trade_plan,
        DriverAction::SetTradeGoalToMedium => s.trading_goal.is_none() && s.has_medium_trade_plan,
        DriverAction::SetTradeGoalToBig => s.trading_goal.is_none() && s.has_big_trade_plan,
        DriverAction::SetTradeGoalToHuge => s.trading_goal.is_none() && s.has_huge_trade_plan,
        DriverAction::DoTrading => s.trading_goal.is_some() && s.money <= u32::MAX as u64,
        DriverAction::Chillout => s.money >= RENT_COST_MONTHLY && !s.is_chilling && s.inside_city.is_some(),
    }
}


/// Marks a driver busy with the `set_destination_to_fuel_station` action.
#[derive(Clone, Copy, Default, Debug)]
pub struct SetDestinationToFuelStation(pub ActionState);

impl ActionComponent for SetDestinationToFuelStation {
    open spec fn action_key() -> Seq<char> {
        "set_destination_to_fuel_station"@
    }

    fn new<S: PlannerState>() -> (a: Action<S>) {
        proof {
            reveal_strlit("set_destination_to_fuel_station");
        }
        Action::new("set_destination_to_fuel_station")
    }

    open spec fn action_state(&self) -> ActionState {
        self.0
    }

    fn get_state(&self) -> (r: &ActionState) {
        &self.0
    }
}

/// Marks a driver busy with the `go_to_destination` action.
#[derive(Clone, Copy, Default, Debug)]
pub struct GoToDestination(pub ActionState);

impl ActionComponent for GoToDestination {
    open spec fn action_key() -> Seq<char> {
        "go_to_destination"@
    }

    fn new<S: PlannerState>() -> (a: Action<S>) {
        proof {
            reveal_strlit("go_to_destination");
        }
        Action::new("go_to_destination")
    }

    open spec fn action_state(&self) -> ActionState {
        self.0
    }

    fn get_state(&self) -> (r: &ActionState) {
        &self.0
    }
}

/// Marks a driver busy with the `discover_action` action.
#[derive(Clone, Copy, Default, Debug)]
pub struct DiscoverAction(pub ActionState);

impl ActionComponent for DiscoverAction {
    open spec fn action_key() -> Seq<char> {
        "discover_action"@
    }

    fn new<S: PlannerState>() -> (a: Action<S>) {
        proof {
            reveal_strlit("discover_action");
        }
        Action::new("discover_action")
    }

    open spec fn action_state(&self) -> ActionState {
        self.0
    }

    fn get_state(&self) -> (r: &ActionState) {
        &self.0
    }
}

/// Marks a driver busy with the `exit_city_action` action.
#[derive(Clone, Copy, Default, Debug)]
pub struct ExitCityAction(pub ActionState);

impl ActionComponent for ExitCityAction {
    open spec fn action_key() -> Seq<char> {
        "exit_city_action"@
    }

    fn new<S: PlannerState>() -> (a: Action<S>) {
        proof {
            reveal_strlit("exit_city_action");
        }
        Action::new("exit_city_action")
    }

    open spec fn action_state(&self) -> ActionState {
        self.0
    }

    fn get_state(&self) -> (r: &ActionState) {
        &self.0
    }
}

/// Marks a driver busy with the `refuel_action` action.
#[derive(Clone, Copy, Default, Debug)]
pub struct RefuelAction(pub ActionState);

impl ActionComponent for RefuelAction {
    open spec fn action_key() -> Seq<char> {
        "refuel_action"@
    }

    fn new<S: PlannerState>() -> (a: Action<S>) {
        proof {
            reveal_strlit("refuel_action");
        }
        Action::new("refuel_action")
    }

    open spec fn action_state(&self) -> ActionState {
        self.0
    }

    fn get_state(&self) -> (r: &ActionState) {
        &self.0
    }
}

/// Marks a driver busy with the `find_trade_plans_action` action.
#[derive(Clone, Copy, Default, Debug)]
pub struct FindTradePlansAction(pub ActionState);

impl ActionComponent for FindTradePlansAction {
    open spec fn action_key() -> Seq<char> {
        "find_trade_plans_action"@
    }

    fn new<S: PlannerState>() -> (a: Action<S>) {
        proof {
            reveal_strlit("find_trade_plans_action");
        }
        Action::new("find_trade_plans_action")
    }

    open spec fn action_state(&self) -> ActionState {
        self.0
    }

    fn get_state(&self) -> (r: &ActionState) {
        &self.0
    }
}

/// Marks a driver busy with the `do_trading_action` action.
#[derive(Clone, Copy, Default, Debug)]
pub struct DoTradingAction(pub ActionState);

impl ActionComponent for DoTradingAction {
    open spec fn action_key() -> Seq<char> {
        "do_trading_action"@
    }

    fn new<S: PlannerState>() -> (a: Action<S>) {
        proof {
            reveal_strlit("do_trading_action");
        }
        Action::new("do_trading_action")
    }

    open spec fn action_state(&self) -> ActionState {
        self.0
    }

    fn get_state(&self) -> (r: &ActionState) {
        &self.0
    }
}

/// Marks a driver busy with the `remove_trading_goal_action` action.
#[derive(Clone, Copy, Default, Debug)]
pub struct RemoveTradingGoalAction(pub ActionState);

impl ActionComponent for RemoveTradingGoalAction {
    open spec fn action_key() -> Seq<char> {
        "remove_trading_goal_action"@
    }

    fn new<S: PlannerState>() -> (a: Action<S>) {
        proof {
            reveal_strlit("remove_trading_goal_action");
        }
        Action::new("remove_trading_goal_action")
    }

    open spec fn action_state(&self) -> ActionState {
        self.0
    }

    fn get_state(&self) -> (r: &ActionState) {
        &self.0
    }
}

/// Marks a driver busy with the `set_trade_goal_to_small_action` action.
#[derive(Clone, Copy, Default, Debug)]
pub struct SetTradeGoalToSmallAction(pub ActionState);

impl ActionComponent for SetTradeGoalToSmallAction {
    open spec fn action_key() -> Seq<char> {
        "set_trade_goal_to_small_action"@
    }

    fn new<S: PlannerState>() -> (a: Action<S>) {
        proof {
            reveal_strlit("set_trade_goal_to_small_action");
        }
        Action::new("set_trade_goal_to_small_action")
    }

    open spec fn action_state(&self) -> ActionState {
        self.0
    }

    fn get_state(&self) -> (r: &ActionState) {
        &self.0
    }
}

/// Marks a driver busy with the `set_trade_goal_to_medium_action` action.
#[derive(Clone, Copy, Default, Debug)]
pub struct SetTradeGoalToMediumAction(pub ActionState);

impl ActionComponent for SetTradeGoalToMediumAction {
    open spec fn action_key() -> Seq<char> {
        "set_trade_goal_to_medium_action"@
    }

    fn new<S: PlannerState>() -> (a: Action<S>) {
        proof {
            reveal_strlit("set_trade_goal_to_medium_action");
        }
        Action::new("set_trade_goal_to_medium_action")
    }

    open spec fn action_state(&self) -> ActionState {
        self.0
    }

    fn get_state(&self) -> (r: &ActionState) {
        &self.0
    }
}

/// Marks a driver busy with the `set_trade_goal_to_big_action` action.
#[derive(Clone, Copy, Default, Debug)]
pub struct SetTradeGoalToBigAction(pub ActionState);

impl ActionComponent for SetTradeGoalToBigAction {
    open spec fn action_key() -> Seq<char> {
        "set_trade_goal_to_big_action"@
    }

    fn new<S: PlannerState>() -> (a: Action<S>) {
        proof {
            reveal_strlit("set_trade_goal_to_big_action");
        }
        Action::new("set_trade_goal_to_big_action")
    }

    open spec fn action_state(&self) -> ActionState {
        self.0
    }

    fn get_state(&self) -> (r: &ActionState) {
        &self.0
    }
}

/// Marks a driver busy with the `set_trade_goal_to_huge_action` action.
#[derive(Clone, Copy, Default, Debug)]
pub struct SetTradeGoalToHugeAction(pub ActionState);

impl ActionComponent for SetTradeGoalToHugeAction {
    open spec fn action_key() -> Seq<char> {
        "set_trade_goal_to_huge_action"@
    }

    fn new<S: PlannerState>() -> (a: Action<S>) {
        proof {
            reveal_strlit("set_trade_goal_to_huge_action");
        }
        Action::new("set_trade_goal_to_huge_action")
    }

    open spec fn action_state(&self) -> ActionState {
        self.0
    }

    fn get_state(&self) -> (r: &ActionState) {
        &self.0
    }
}

/// Marks a driver busy with the `chilout_action` action.
#[derive(Clone, Copy, Default, Debug)]
pub struct ChiloutAction(pub ActionState);

impl ActionComponent for ChiloutAction {
    open spec fn action_key() -> Seq<char> {
        "chilout_action"@
    }

    fn new<S: PlannerState>() -> (a: Action<S>) {
        proof {
            reveal_strlit("chilout_action");
        }
        Action::new("chilout_action")
    }

    open spec fn action_state(&self) -> ActionState {
        self.0
    }

    fn get_state(&self) -> (r: &ActionState) {
        &self.0
    }
}

/// Marks a driver busy with the `update_trading_path_action` action.
#[derive(Clone, Copy, Default, Debug)]
pub struct UpdateTradingPathAction(pub ActionState);

impl ActionComponent for UpdateTradingPathAction {
    open spec fn action_key() -> Seq<char> {
        "update_trading_path_action"@
    }

    fn new<S: PlannerState>() -> (a: Action<S>) {
        proof {
            reveal_strlit("update_trading_path_action");
        }
        Action::new("update_trading_path_action")
    }

    open spec fn action_state(&self) -> ActionState {
        self.0
    }

    fn get_state(&self) -> (r: &ActionState) {
        &self.0
    }
}

/// The driver's actions, in the order the planner holds them.
pub open spec fn action_order() -> Seq<DriverAction> {
    seq![DriverAction::Discover, DriverAction::Refuel, DriverAction::GoToDestination, DriverAction::SetDestinationToFuelStation, DriverAction::ExitCity, DriverAction::FindTradePlans, DriverAction::UpdateTradingPath, DriverAction::RemoveTradingGoal, DriverAction::SetTradeGoalToSmall, DriverAction::SetTradeGoalToMedium, DriverAction::SetTradeGoalToBig, DriverAction::SetTradeGoalToHuge, DriverAction::DoTrading, DriverAction::Chillout]
}

/// The fixed cost of each action.
pub open spec fn action_cost(a: DriverAction) -> usize {
    match a {
        DriverAction::Discover => 10,
        DriverAction::Refuel => 1,
        DriverAction::GoToDestination => 2,
        DriverAction::SetDestinationToFuelStation => 2,
        DriverAction::ExitCity => 1,
        DriverAction::FindTradePlans => 1,
        DriverAction::UpdateTradingPath => 8,
        DriverAction::RemoveTradingGoal => 1,
        DriverAction::SetTradeGoalToSmall => 20,
        DriverAction::SetTradeGoalToMedium => 12,
        DriverAction::SetTradeGoalToBig => 5,
        DriverAction::SetTradeGoalToHuge => 2,
        DriverAction::DoTrading => 7,
        DriverAction::Chillout => 8,
    }
}

/// The key of each action.
pub open spec fn action_name(a: DriverAction) -> Seq<char> {
    match a {
        DriverAction::Discover => DiscoverAction::action_key(),
        DriverAction::Refuel => RefuelAction::action_key(),
        DriverAction::GoToDestination => GoToDestination::action_key(),
        DriverAction::SetDestinationToFuelStation => SetDestinationToFuelStation::action_key(),
        DriverAction::ExitCity => ExitCityAction::action_key(),
        DriverAction::FindTradePlans => FindTradePlansAction::action_key(),
        DriverAction::UpdateTradingPath => UpdateTradingPathAction::action_key(),
        DriverAction::RemoveTradingGoal => RemoveTradingGoalAction::action_key(),
        DriverAction::SetTradeGoalToSmall => SetTradeGoalToSmallAction::action_key(),
        DriverAction::SetTradeGoalToMedium => SetTradeGoalToMediumAction::action_key(),
        DriverAction::SetTradeGoalToBig => SetTradeGoalToBigAction::action_key(),
        DriverAction::SetTradeGoalToHuge => SetTradeGoalToHugeAction::action_key(),
        DriverAction::DoTrading => DoTradingAction::action_key(),
        DriverAction::Chillout => ChiloutAction::action_key(),
    }
}

/// The planner action for driver action `a`: enabled by its precondition,
/// doing its effect, at its fixed cost.
pub open spec fn is_driver_action(action: Action<State>, a: DriverAction) -> bool {
    &&& action.key@ == action_name(a)
    &&& action.effect == Some(a)
    &&& action.preconditions == Some(DriverCondition::Enabled(a))
    &&& action.cost == Weight::<DriverMeasure>::Fixed(action_cost(a))
}

/// Every enabled driver action can be applied.
pub proof fn lemma_driver_actions_sound(a: DriverAction, s: State)
    ensures
        enabled(s, a) ==> applicable(s, a),
{
}

/// What each action needs and what it changes: going to the destination
/// needs the driver outside any city with a destination set, and puts it in
/// that city; leaving needs it in a city; refuelling needs it in the fuel
/// station's city with the money for the fuel, adds a unit of fuel and pays
/// for it; discovery needs it outside any city with some location unknown;
/// a trading goal is set only when none is and a plan of that size exists;
/// trading needs a goal and earns it; chilling out needs a month of rent
/// and a city. Every other field stays as it was.
pub proof fn law_driver_action_rules(s: State)
    ensures
        enabled(s, DriverAction::GoToDestination) <==> s.inside_city is None && s.travel_destination is Some,
        effect(s, DriverAction::GoToDestination) == (State { inside_city: s.travel_destination, ..s }),
        enabled(s, DriverAction::ExitCity) <==> s.inside_city is Some,
        effect(s, DriverAction::ExitCity) == (State { inside_city: None, ..s }),
        enabled(s, DriverAction::SetDestinationToFuelStation) <==> s.fuel_station is Some && s.travel_destination != s.fuel_station,
        effect(s, DriverAction::SetDestinationToFuelStation) == (State { travel_destination: s.fuel_station, ..s }),
        enabled(s, DriverAction::Refuel) <==> s.inside_city is Some && s.inside_city == s.fuel_station
            && (s.fuel_cost matches Some(c) ==> s.money >= c),
        enabled(s, DriverAction::Refuel) ==> effect(s, DriverAction::Refuel) == (State {
            fuel: if s.fuel + FUEL_UNIT <= u64::MAX { (s.fuel + FUEL_UNIT) as u64 } else { u64::MAX },
            money: if s.fuel_cost is Some { (s.money - s.fuel_cost->0) as u64 } else { s.money },
            ..s
        }),
        enabled(s, DriverAction::Discover) <==> s.know_locations < s.all_locations && s.inside_city is None,
        enabled(s, DriverAction::Discover) ==> effect(s, DriverAction::Discover) == (State {
            know_locations: (s.know_locations + 1) as u64,
            fuel_station: Some(PLACEHOLDER_LOCATION),
            ..s
        }),
        enabled(s, DriverAction::UpdateTradingPath) <==> !s.has_updated_trading_path && s.know_locations >= 3,
        effect(s, DriverAction::UpdateTradingPath) == (State { has_updated_trading_path: true, ..s }),
        enabled(s, DriverAction::FindTradePlans) <==> !s.has_small_trade_plan && s.has_updated_trading_path && s.know_locations >= 3,
        effect(s, DriverAction::FindTradePlans) == (State { has_small_trade_plan: true, ..s }),
        enabled(s, DriverAction::RemoveTradingGoal) <==> s.trading_goal is Some,
        effect(s, DriverAction::RemoveTradingGoal) == (State { trading_goal: None, ..s }),
        enabled(s, DriverAction::SetTradeGoalToSmall) <==> s.trading_goal is None && s.has_small_trade_plan,
        effect(s, DriverAction::SetTradeGoalToSmall) == (State { trading_goal: Some(30), ..s }),
        enabled(s, DriverAction::SetTradeGoalToMedium) <==> s.trading_goal is None && s.has_medium_trade_plan,
        effect(s, DriverAction::SetTradeGoalToMedium) == (State { trading_goal: Some(150), ..s }),
        enabled(s, DriverAction::SetTradeGoalToBig) <==> s.trading_goal is None && s.has_big_trade_plan,
        effect(s, DriverAction::SetTradeGoalToBig) == (State { trading_goal: Some(500), ..s }),
        enabled(s, DriverAction::SetTradeGoalToHuge) <==> s.trading_goal is None && s.has_huge_trade_plan,
        effect(s, DriverAction::SetTradeGoalToHuge) == (State { trading_goal: Some(1000), ..s }),
        enabled(s, DriverAction::DoTrading) <==> s.trading_goal is Some && s.money <= u32::MAX,
        enabled(s, DriverAction::DoTrading) ==> effect(s, DriverAction::DoTrading)
            == (State {
                money: if s.money + s.trading_goal->0 <= u64::MAX { (s.money + s.trading_goal->0) as u64 } else { u64::MAX },
                ..s
            }),
        enabled(s, DriverAction::Chillout) <==> s.money >= 300 && !s.is_chilling && s.inside_city is Some,
        effect(s, DriverAction::Chillout) == (State { is_chilling: true, ..s }),
{
}

/// A driver in a city is somewhere else later on a walk of its actions only
/// after it has left: some step of the walk up to there is `exit_city_action`.
pub proof fn law_leaving_a_city_takes_exit_city(path: Seq<Node<State>>, costs: Seq<usize>, start: State, actions: Seq<Action<State>>, k: int)
    requires
        actions.len() == action_order().len(),
        forall|i: int| 0 <= i < actions.len() ==> is_driver_action(#[trigger] actions[i], action_order()[i]),
        is_walk(path, costs, start, actions),
        start.inside_city is Some,
        0 <= k < path.len(),
        path[k].state_of().inside_city != start.inside_city,
    ensures
        exists|j: int| 0 < j <= k && ((#[trigger] path[j]) matches Node::Action(key, _) && key@ == ExitCityAction::action_key()),
    decreases k,
{
    assert(path[0].state_of() == start);
    assert(k > 0);
    let prev = path[k - 1].state_of();
    if prev.inside_city != start.inside_city {
        law_leaving_a_city_takes_exit_city(path, costs, start, actions, k - 1);
        let j = choose|j: int| 0 < j <= k - 1 && ((#[trigger] path[j]) matches Node::Action(key, _) && key@ == ExitCityAction::action_key());
        assert(0 < j <= k && (path[j] matches Node::Action(key, _) && key@ == ExitCityAction::action_key()));
    } else {
        assert(is_step(path[k - 1].state_of(), path[k], costs[k - 1], actions));
        let i = choose|i: int| 0 <= i < actions.len() && #[trigger] actions[i].enabled_in(prev) && path[k] == Node::Action(
            actions[i].key, actions[i].result_in(prev)) && costs[k - 1] == actions[i].cost_in(prev);
        assert(is_driver_action(actions[i], action_order()[i]));
        assert(action_order()[i] == DriverAction::ExitCity);
        assert(path[k] matches Node::Action(key, _) && key@ == ExitCityAction::action_key());
    }
}

/// The driver's actions, in the planner's order.
pub fn driver_actions() -> (r: Vec<Action<State>>)
    ensures
        r@.len() == action_order().len(),
        forall|i: int| 0 <= i < r@.len() ==> is_driver_action(#[trigger] r@[i], action_order()[i]),
        all_sound(r@),
{
    let mut v: Vec<Action<State>> = Vec::new();
    v.push(DiscoverAction::new::<State>()
        .with_effect(DriverAction::Discover)
        .with_precondition(DriverCondition::Enabled(DriverAction::Discover))
        .with_static_cost(10));
    v.push(RefuelAction::new::<State>()
        .with_effect(DriverAction::Refuel)
        .with_precondition(DriverCondition::Enabled(DriverAction::Refuel))
        .with_static_cost(1));
    v.push(GoToDestination::new::<State>()
        .with_effect(DriverAction::GoToDestination)
        .with_precondition(DriverCondition::Enabled(DriverAction::GoToDestination))
        .with_static_cost(2));
    v.push(SetDestinationToFuelStation::new::<State>()
        .with_effect(DriverAction::SetDestinationToFuelStation)
        .with_precondition(DriverCondition::Enabled(DriverAction::SetDestinationToFuelStation))
        .with_static_cost(2));
    v.push(ExitCityAction::new::<State>()
        .with_effect(DriverAction::ExitCity)
        .with_precondition(DriverCondition::Enabled(DriverAction::ExitCity))
        .with_static_cost(1));
    v.push(FindTradePlansAction::new::<State>()
        .with_effect(DriverAction::FindTradePlans)
        .with_precondition(DriverCondition::Enabled(DriverAction::FindTradePlans))
        .with_static_cost(1));
    v.push(UpdateTradingPathAction::new::<State>()
        .with_effect(DriverAction::UpdateTradingPath)
        .with_precondition(DriverCondition::Enabled(DriverAction::UpdateTradingPath))
        .with_static_cost(8));
    v.push(RemoveTradingGoalAction::new::<State>()
        .with_effect(DriverAction::RemoveTradingGoal)
        .with_precondition(DriverCondition::Enabled(DriverAction::RemoveTradingGoal))
        .with_static_cost(1));
    v.push(SetTradeGoalToSmallAction::new::<State>()
        .with_effect(DriverAction::SetTradeGoalToSmall)
        .with_precondition(DriverCondition::Enabled(DriverAction::SetTradeGoalToSmall))
        .with_static_cost(20));
    v.push(SetTradeGoalToMediumAction::new::<State>()
        .with_effect(DriverAction::SetTradeGoalToMedium)
        .with_precondition(DriverCondition::Enabled(DriverAction::SetTradeGoalToMedium))
        .with_static_cost(12));
    v.push(SetTradeGoalToBigAction::new::<State>()
        .with_effect(DriverAction::SetTradeGoalToBig)
        .with_precondition(DriverCondition::Enabled(DriverAction::SetTradeGoalToBig))
        .with_static_cost(5));
    v.push(SetTradeGoalToHugeAction::new::<State>()
        .with_effect(DriverAction::SetTradeGoalToHuge)
        .with_precondition(DriverCondition::Enabled(DriverAction::SetTradeGoalToHuge))
        .with_static_cost(2));
    v.push(DoTradingAction::new::<State>()
        .with_effect(DriverAction::DoTrading)
        .with_precondition(DriverCondition::Enabled(DriverAction::DoTrading))
        .with_static_cost(7));
    v.push(ChiloutAction::new::<State>()
        .with_effect(DriverAction::Chillout)
        .with_precondition(DriverCondition::Enabled(DriverAction::Chillout))
        .with_static_cost(8));
    proof {
        assert forall|i: int| 0 <= i < v@.len() implies (#[trigger] v@[i]).is_sound() by {
            assert forall|s: State| #[trigger] v@[i].enabled_in(s) implies v@[i].applicable_in(s) by {
                lemma_driver_actions_sound(action_order()[i], s);
            }
        }
    }
    v
}

/// The driver's goals, in the planner's order: discover every location
/// (priority 1), save two months of rent (3), keep the fuel reserve (5), chill
/// out (0), each with its requirement and distance rule.
pub open spec fn are_driver_goals(goals: Seq<Goal<State>>) -> bool {
    &&& goals.len() == 4
    &&& goals[0].key@ == "discover"@ && goals[0].priority == Weight::<DriverMeasure>::Fixed(1)
        && goals[0].requirements == Some(DriverCondition::AllLocationsKnown)
        && goals[0].distance == Some(DriverGap::UnknownLocations)
    &&& goals[1].key@ == "rent"@ && goals[1].priority == Weight::<DriverMeasure>::Fixed(3)
        && goals[1].requirements == Some(DriverCondition::RentSaved)
        && goals[1].distance == Some(DriverGap::RentShortfall)
    &&& goals[2].key@ == "fuel"@ && goals[2].priority == Weight::<DriverMeasure>::Fixed(5)
        && goals[2].requirements == Some(DriverCondition::FuelInReserve)
        && goals[2].distance == Some(DriverGap::FuelShortfall)
    &&& goals[3].key@ == "chillout"@ && goals[3].priority == Weight::<DriverMeasure>::Fixed(0)
        && goals[3].requirements == Some(DriverCondition::Chilling)
        && goals[3].distance == Some(DriverGap::UnknownLocations)
}

/// The driver's goals (see `are_driver_goals`).
pub fn driver_goals() -> (r: Vec<Goal<State>>)
    ensures
        are_driver_goals(r@),
{
    let rent_goal = Goal::<State>::new("rent")
        .with_static_priority(3)
        .with_requirement(DriverCondition::RentSaved)
        .with_distance(DriverGap::RentShortfall);
    let fuel_goal = Goal::<State>::new("fuel")
        .with_static_priority(5)
        .with_requirement(DriverCondition::FuelInReserve)
        .with_distance(DriverGap::FuelShortfall);
    let discover_goal = Goal::<State>::new("discover")
        .with_static_priority(1)
        .with_requirement(DriverCondition::AllLocationsKnown)
        .with_distance(DriverGap::UnknownLocations);
    let chillout = Goal::<State>::new("chillout")
        .with_static_priority(0)
        .with_requirement(DriverCondition::Chilling)
        .with_distance(DriverGap::UnknownLocations);
    let mut v: Vec<Goal<State>> = Vec::new();
    v.push(discover_goal);
    v.push(rent_goal);
    v.push(fuel_goal);
    v.push(chillout);
    v
}

/// A driver's planner: its goals and actions, with nothing planned yet.
pub fn driver_planner() -> (p: Planner<State>)
    ensures
        are_driver_goals(p.all_goals@),
        p.all_actions@.len() == action_order().len(),
        forall|i: int| 0 <= i < p.all_actions@.len() ==> is_driver_action(#[trigger] p.all_actions@[i], action_order()[i]),
        all_sound(p.all_actions@),
        p.action is None,
        p.goal is None,
        p.plan@.len() == 0,
{
    Planner::new(driver_goals(), driver_actions())
}


/// Sets out for the fuel station, if one is known; returns whether the
/// action is done.
pub fn handle_set_destination_to_fuel_station(state: &mut State) -> (done: bool)
    ensures
        done == old(state).fuel_station is Some,
        done ==> *final(state) == (State { travel_destination: old(state).fuel_station, ..*old(state) }),
        !done ==> *final(state) == *old(state),
{
    match state.fuel_station {
        None => false,
        Some(location) => {
            state.travel_destination = Some(location);
            true
        }
    }
}

/// Leaves the city the driver is in.
pub fn handle_exit_city(state: &mut State)
    ensures
        *final(state) == (State { inside_city: None, ..*old(state) }),
{
    state.inside_city = None;
}

/// The driver reached the end of a leg of its trip to its destination:
/// when `arrived` (it is within reach of the destination), it is now inside
/// that city and the action is done.
pub fn handle_go_to_destination_finish(state: &mut State, arrived: bool) -> (done: bool)
    ensures
        done == (arrived && old(state).travel_destination is Some),
        done ==> *final(state) == (State { inside_city: old(state).travel_destination, ..*old(state) }),
        !done ==> *final(state) == *old(state),
{
    if !arrived {
        return false;
    }
    match state.travel_destination {
        Some(location) => {
            state.inside_city = Some(location);
            true
        }
        None => false,
    }
}

/// Whether a discovery trip is over: a location was learned since it began
/// (`locations_before` were known then), or every location is known.
pub fn discovery_finished(state: &State, locations_before: u64) -> (r: bool)
    ensures
        r == (state.know_locations > locations_before || state.know_locations >= state.all_locations),
{
    state.know_locations > locations_before || state.know_locations >= state.all_locations
}

/// Records which sizes of trading plan were found; returns whether any was
/// (and with it the action is done).
pub fn handle_find_trade_plans(state: &mut State, small: bool, medium: bool, big: bool, huge: bool) -> (done: bool)
    ensures
        done == (small || medium || big || huge),
        *final(state) == (State {
            has_small_trade_plan: old(state).has_small_trade_plan || small,
            has_medium_trade_plan: old(state).has_medium_trade_plan || medium,
            has_big_trade_plan: old(state).has_big_trade_plan || big,
            has_huge_trade_plan: old(state).has_huge_trade_plan || huge,
            ..*old(state)
        }),
{
    if small {
        state.has_small_trade_plan = true;
    }
    if medium {
        state.has_medium_trade_plan = true;
    }
    if big {
        state.has_big_trade_plan = true;
    }
    if huge {
        state.has_huge_trade_plan = true;
    }
    small || medium || big || huge
}

/// Brings the trading part of the state up to date with the plans of each
/// size that exist: with none, the trading goal is dropped and the trading
/// path counts as not updated.
pub fn update_state_trading_plans(state: &mut State, small: bool, medium: bool, big: bool, huge: bool)
    ensures
        *final(state) == (State {
            has_small_trade_plan: small,
            has_medium_trade_plan: medium,
            has_big_trade_plan: big,
            has_huge_trade_plan: huge,
            trading_goal: if small || medium || big || huge { old(state).trading_goal } else { None },
            has_updated_trading_path: small || medium || big || huge,
            ..*old(state)
        }),
{
    state.has_small_trade_plan = small;
    state.has_medium_trade_plan = medium;
    state.has_big_trade_plan = big;
    state.has_huge_trade_plan = huge;
    if !small && !medium && !big && !huge {
        state.trading_goal = None;
        state.has_updated_trading_path = false;
    } else {
        state.has_updated_trading_path = true;
    }
}

/// Brings the state up to date with the driver's memory: the nearest known
/// station that sells fuel (its price and id, if any is known), and how many
/// locations are known and exist.
pub fn update_state_memory(state: &mut State, station: Option<(u64, u64)>, known: u64, all: u64)
    ensures
        final(state).know_locations == known,
        final(state).all_locations == all,
        station matches Some((price, id)) ==> final(state).fuel_cost == Some(price) && final(state).fuel_station == Some(id),
        station is None ==> final(state).fuel_cost == old(state).fuel_cost && final(state).fuel_station == old(state).fuel_station,
        *final(state) == (State {
            know_locations: final(state).know_locations,
            all_locations: final(state).all_locations,
            fuel_cost: final(state).fuel_cost,
            fuel_station: final(state).fuel_station,
            ..*old(state)
        }),
{
    if let Some((price, id)) = station {
        state.fuel_cost = Some(price);
        state.fuel_station = Some(id);
    }
    state.know_locations = known;
    state.all_locations = all;
}

/// Brings the state's money up to date (a negative balance reads as its
/// two's-complement bits, as a cast does).
pub fn update_state_money(state: &mut State, money: i64)
    ensures
        *final(state) == (State { money: money as u64, ..*old(state) }),
{
    state.money = money as u64;
}

/// Brings the state's fuel (in thousandths) up to date.
pub fn update_state_fuel(state: &mut State, fuel: u64)
    ensures
        *final(state) == (State { fuel, ..*old(state) }),
{
    state.fuel = fuel;
}

/// Drops the trading goal.
pub fn handle_remove_trading_goal(state: &mut State)
    ensures
        *final(state) == (State { trading_goal: None, ..*old(state) }),
{
    state.trading_goal = None;
}

/// Sets the trading goal to the profit of a plan size.
pub fn handle_set_trading_goal(state: &mut State, value: u64)
    ensures
        *final(state) == (State { trading_goal: Some(value), ..*old(state) }),
{
    state.trading_goal = Some(value);
}

/// Gives up trading: no goal, and no plan of any size.
pub fn cancel_trading_action(state: &mut State)
    ensures
        *final(state) == (State {
            trading_goal: None,
            has_small_trade_plan: false,
            has_medium_trade_plan: false,
            has_big_trade_plan: false,
            has_huge_trade_plan: false,
            ..*old(state)
        }),
{
    state.trading_goal = None;
    state.has_small_trade_plan = false;
    state.has_medium_trade_plan = false;
    state.has_big_trade_plan = false;
    state.has_huge_trade_plan = false;
}

/// Pays a month of rent to the town: the driver's money drops by the rent,
/// not below zero, and the town's grows by the rent.
pub fn pay_rent(driver_money: &mut i64, town_money: &mut i64)
    requires
        *old(town_money) + RENT_COST_MONTHLY <= i64::MAX,
        *old(driver_money) - RENT_COST_MONTHLY >= i64::MIN,
    ensures
        *final(driver_money) == (if *old(driver_money) - RENT_COST_MONTHLY > 0 { *old(driver_money) - RENT_COST_MONTHLY } else { 0 }),
        *final(town_money) == *old(town_money) + RENT_COST_MONTHLY,
{
    let left = *driver_money - RENT_COST_MONTHLY as i64;
    *driver_money = if left > 0 { left } else { 0 };
    *town_money = *town_money + RENT_COST_MONTHLY as i64;
}

} // verus!
