use vstd::prelude::*;
use crate::ai_driver::{
    cancel_trading_action, State, BIG_TRADING_PLAN_VALUE, HUGE_TRADING_PLAN_VALUE,
    MEDIUM_TRADING_PLAN_VALUE, SMALL_TRADING_PLAN_VALUE,
};
use crate::storage::{count_in, ItemContainer, Storage};

verus! {

/// A way to earn money: buy `count` of `item` at location `from` for
/// `buy_price` each and sell them at `to` for `sell_price` each, earning
/// `profit` on each.
#[derive(Clone, Debug)]
pub struct TradingPlan {
    pub from: u64,
    pub to: u64,
    pub item: String,
    pub profit: i64,
    pub count: u64,
    pub capital_required: u64,
    pub buy_price: u64,
    pub sell_price: u64,
}

/// The plan picked for each size of trade.
pub struct TradingPlanByValue {
    pub small: Option<TradingPlan>,
    pub medium: Option<TradingPlan>,
    pub big: Option<TradingPlan>,
    pub huge: Option<TradingPlan>,
}

/// Whether there is a plan of every size.
pub open spec fn has_every_size(p: TradingPlanByValue) -> bool {
    p.small is Some && p.medium is Some && p.big is Some && p.huge is Some
}

/// Whether there is no plan of any size.
pub open spec fn has_no_size(p: TradingPlanByValue) -> bool {
    p.small is None && p.medium is None && p.big is None && p.huge is None
}

/// `p` with the plans of every size dropped.
pub open spec fn cleared(p: TradingPlanByValue) -> TradingPlanByValue {
    TradingPlanByValue { small: None, medium: None, big: None, huge: None }
}

/// Once the plans of every size are dropped there is no plan of any size,
/// and so not a plan of every size.
pub proof fn law_cleared_plans_are_none(p: TradingPlanByValue)
    ensures
        has_no_size(cleared(p)),
        !has_every_size(cleared(p)),
{
}

impl TradingPlanByValue {
    /// No plan of any size.
    pub fn new() -> (p: Self)
        ensures
            has_no_size(p),
    {
        TradingPlanByValue { small: None, medium: None, big: None, huge: None }
    }

    /// Whether there is a plan of every size.
    pub fn all_set(&self) -> (r: bool)
        ensures
            r == has_every_size(*self),
    {
        self.small.is_some() && self.medium.is_some() && self.big.is_some() && self.huge.is_some()
    }

    /// Whether there is no plan of any size.
    pub fn all_none(&self) -> (r: bool)
        ensures
            r == has_no_size(*self),
    {
        self.small.is_none() && self.medium.is_none() && self.big.is_none() && self.huge.is_none()
    }

    /// Drops the plans of every size.
    pub fn set_all_to_none(&mut self)
        ensures
            *final(self) == cleared(*old(self)),
    {
        self.small = None;
        self.medium = None;
        self.big = None;
        self.huge = None;
    }

    /// The plan of the size whose profit is `goal`; `None` when the goal is no
    /// plan size's profit or there is no plan of that size.
    pub fn plan_for_goal(&self, goal: Option<u64>) -> (r: Option<&TradingPlan>)
        ensures
            r == match goal {
                Some(SMALL_TRADING_PLAN_VALUE) => match &self.small { Some(p) => Some(p), None => None },
                Some(MEDIUM_TRADING_PLAN_VALUE) => match &self.medium { Some(p) => Some(p), None => None },
                Some(BIG_TRADING_PLAN_VALUE) => match &self.big { Some(p) => Some(p), None => None },
                Some(HUGE_TRADING_PLAN_VALUE) => match &self.huge { Some(p) => Some(p), None => None },
                _ => None::<&TradingPlan>,
            },
    {
        let plan = match goal {
            Some(SMALL_TRADING_PLAN_VALUE) => &self.small,
            Some(MEDIUM_TRADING_PLAN_VALUE) => &self.medium,
            Some(BIG_TRADING_PLAN_VALUE) => &self.big,
            Some(HUGE_TRADING_PLAN_VALUE) => &self.huge,
            _ => return None,
        };
        match plan {
            Some(p) => Some(p),
            None => None,
        }
    }
}

/// The smallest number of items whose profit covers the travel cost (at
/// least one); one when there is no profit per item.
pub open spec fn minimal_count(travel_cost: int, buy_price: int, sell_price: int) -> int {
    if sell_price <= buy_price || travel_cost <= sell_price - buy_price {
        1
    } else {
        (travel_cost + (sell_price - buy_price) - 1) / (sell_price - buy_price)
    }
}

proof fn lemma_minimal_count(t: int, d: int)
    requires
        d > 0,
        t > d,
    ensures
        d * ((t + d - 1) / d) >= t,
        d * ((t + d - 1) / d - 1) < t,
        (t + d - 1) / d >= 2,
{
    let c = (t + d - 1) / d;
    let r = (t + d - 1) % d;
    vstd::arithmetic::div_mod::lemma_fundamental_div_mod(t + d - 1, d);
    assert(t + d - 1 == d * c + r);
    assert(0 <= r < d);
    assert(d * c >= t) by (nonlinear_arith)
        requires t + d - 1 == d * c + r, r < d;
    assert(d * (c - 1) < t) by (nonlinear_arith)
        requires t + d - 1 == d * c + r, r >= 0;
    assert(c >= 2) by (nonlinear_arith)
        requires d * c >= t, t > d, d > 0;
}

/// How many items a trip from a location selling at `buy_price` to one
/// buying at `sell_price` must carry for its profit to cover `travel_cost`.
pub fn calculate_minimal_count(travel_cost: i32, buy_price: i32, sell_price: i32) -> (r: u32)
    requires
        sell_price > buy_price ==> sell_price - buy_price <= i32::MAX,
        sell_price > buy_price ==> (sell_price - buy_price) * minimal_count(travel_cost as int, buy_price as int, sell_price as int) <= i32::MAX,
    ensures
        r == minimal_count(travel_cost as int, buy_price as int, sell_price as int),
        r >= 1,
        r <= i32::MAX,
        sell_price > buy_price ==> (sell_price - buy_price) * r >= travel_cost,
        sell_price > buy_price && r > 1 ==> (sell_price - buy_price) * (r - 1) < travel_cost,
{
    let mut count: u32 = 1;
    if sell_price <= buy_price {
        return 1;
    }
    let d: i32 = sell_price - buy_price;
    let ghost m = minimal_count(travel_cost as int, buy_price as int, sell_price as int);
    proof {
        if travel_cost > d {
            lemma_minimal_count(travel_cost as int, d as int);
        }
        assert(d * m <= i32::MAX);
        assert(m <= i32::MAX) by (nonlinear_arith)
            requires d >= 1, d * m <= i32::MAX, m >= 1;
    }
    proof {
        assert(d * count <= d * m) by (nonlinear_arith)
            requires d >= 1, count <= m;
    }
    while d * (count as i32) < travel_cost
        invariant
            d == sell_price - buy_price,
            d >= 1,
            1 <= count <= m,
            m <= i32::MAX,
            d * m <= i32::MAX,
            d * count <= d * m,
            m == minimal_count(travel_cost as int, buy_price as int, sell_price as int),
            travel_cost > d ==> d * m >= travel_cost && d * (m - 1) < travel_cost && m >= 2,
            travel_cost <= d ==> m == 1,
            count > 1 ==> d * (count - 1) < travel_cost,
        decreases m - count,
    {
        proof {
            if count == m {
                assert(d * count == d * m);
                if travel_cost <= d {
                    assert(d * 1 == d);
                }
                assert(false);
            }
            assert(d * (count + 1) <= d * m) by (nonlinear_arith)
                requires d >= 1, count + 1 <= m;
        }
        count = count + 1;
    }
    proof {
        if count < m {
            assert(travel_cost > d);
            assert(d * count <= d * (m - 1)) by (nonlinear_arith)
                requires d >= 1, count <= m - 1;
            assert(false);
        }
    }
    count
}

/// Sells one `item` from the seller to the buyer for `price`: only when the
/// buyer has the money and the seller has some of the item, and then returns
/// `Some(())`.
pub fn trade_item(
    item: &str,
    price: &i64,
    buyer_money: &mut i64,
    buyer_storage: &mut Storage,
    seller_money: &mut i64,
    seller_storage: &mut Storage,
) -> (r: Option<()>)
    requires
        *old(buyer_money) >= *price && count_in(old(seller_storage).contents(), item@) > 0 ==> {
            &&& *old(buyer_money) - *price <= i64::MAX
            &&& i64::MIN <= *old(seller_money) + *price <= i64::MAX
            &&& count_in(old(buyer_storage).contents(), item@) < i32::MAX
        },
    ensures
        r is Some <==> (*old(buyer_money) >= *price && count_in(old(seller_storage).contents(), item@) > 0),
        *final(buyer_money) + *final(seller_money) == *old(buyer_money) + *old(seller_money),
        count_in(final(buyer_storage).contents(), item@) + count_in(final(seller_storage).contents(), item@)
            == count_in(old(buyer_storage).contents(), item@) + count_in(old(seller_storage).contents(), item@),
        r is Some ==> {
            &&& *final(buyer_money) == *old(buyer_money) - *price
            &&& *final(seller_money) == *old(seller_money) + *price
            &&& final(buyer_storage).contents() == old(buyer_storage).contents().insert(
                item@,
                (count_in(old(buyer_storage).contents(), item@) + 1) as i32,
            )
            &&& final(seller_storage).contents() == old(seller_storage).contents().insert(
                item@,
                (count_in(old(seller_storage).contents(), item@) - 1) as i32,
            )
        },
        r is None ==> {
            &&& *final(buyer_money) == *old(buyer_money)
            &&& *final(seller_money) == *old(seller_money)
            &&& final(buyer_storage).contents() == old(buyer_storage).contents()
            &&& final(seller_storage).contents() == old(seller_storage).contents()
        },
{
    if *buyer_money < *price {
        return None;
    }
    if seller_storage.remove_one(item).is_none() {
        return None;
    }
    *buyer_money = *buyer_money - *price;
    *seller_money = *seller_money + *price;
    buyer_storage.add_one(item);
    Some(())
}

/// Pays a city `price` for one unit of fuel: takes one fuel from the city's
/// storage when it has some, and moves the money from the driver to the city
/// in any case.
pub fn pay_for_fuel(price: i64, driver_money: &mut i64, city_storage: &mut Storage, city_money: &mut i64)
    requires
        i64::MIN <= *old(driver_money) - price <= i64::MAX,
        i64::MIN <= *old(city_money) + price <= i64::MAX,
    ensures
        *final(driver_money) == *old(driver_money) - price,
        *final(city_money) == *old(city_money) + price,
        count_in(old(city_storage).contents(), "fuel"@) > 0 ==> final(city_storage).contents()
            == old(city_storage).contents().insert("fuel"@, (count_in(old(city_storage).contents(), "fuel"@) - 1) as i32),
        count_in(old(city_storage).contents(), "fuel"@) <= 0 ==> final(city_storage).contents() == old(city_storage).contents(),
{
    let _ = city_storage.remove_one("fuel");
    *driver_money = *driver_money - price;
    *city_money = *city_money + price;
}

/// Which half of a trade a driver is in.
#[derive(Clone, Copy, PartialEq, Eq, Structural, Debug)]
pub enum TradingPhase {
    BUY,
    SELL,
}

/// The trade a driver is carrying out.
#[derive(Debug)]
pub struct CurrentTradingData {
    pub phase: TradingPhase,
    pub item: String,
}

/// Starts trading in the small plan's item, unless the driver is already
/// trading in it; returns the trading data to record, if any.
pub fn init_trading(plans: &TradingPlanByValue, current: Option<&CurrentTradingData>) -> (r: Option<CurrentTradingData>)
    ensures
        plans.small is None ==> r is None,
        plans.small matches Some(plan) ==> (current matches Some(data) && data.item@ == plan.item@ ==> r is None),
        plans.small matches Some(plan) ==> (!(current matches Some(data) && data.item@ == plan.item@) ==>
            (r matches Some(d) && d.item@ == plan.item@ && d.phase == TradingPhase::BUY)),
{
    let plan = match &plans.small {
        None => return None,
        Some(p) => p,
    };
    if let Some(data) = current {
        if data.item == plan.item {
            return None;
        }
    }
    Some(CurrentTradingData { item: plan.item.clone(), phase: TradingPhase::BUY })
}

/// What a driver in the middle of a trade does next.
#[derive(PartialEq, Eq, Debug)]
pub enum TradeStep {
    /// Nothing, in this phase.
    Wait,
    /// Give up the trade (the state has already been reset).
    Cancel,
    /// It carries enough: move on to selling.
    SwitchToSell,
    /// Travel to the location.
    TravelTo(u64),
    /// Trade one item with the location.
    Trade,
    /// Nothing is left to sell: the trade is over.
    Finish,
}

/// The buying half of a trade. `plan` is the plan of the size of the trading
/// goal; `held` how many of its item the driver carries (compared with the
/// plan's count as an `i32`, as a cast gives it); `town` whether the
/// seller location is known, and if so whether the driver is there.
pub fn buy_step(state: &mut State, phase: TradingPhase, plan: Option<&TradingPlan>, held: i32, town: Option<bool>) -> (r: TradeStep)
    ensures
        phase != TradingPhase::BUY ==> r == TradeStep::Wait && *final(state) == *old(state),
        phase == TradingPhase::BUY ==> match plan {
            None => r == TradeStep::Cancel,
            Some(p) => if held >= p.count as i32 {
                r == TradeStep::SwitchToSell
            } else {
                match town {
                    None => r == TradeStep::Cancel,
                    Some(false) => r == TradeStep::TravelTo(p.from),
                    Some(true) => r == TradeStep::Trade,
                }
            },
        },
        r == TradeStep::Cancel ==> *final(state) == (State {
            trading_goal: None,
            has_small_trade_plan: false,
            has_medium_trade_plan: false,
            has_big_trade_plan: false,
            has_huge_trade_plan: false,
            ..*old(state)
        }),
        r != TradeStep::Cancel ==> *final(state) == *old(state),
{
    if phase != TradingPhase::BUY {
        return TradeStep::Wait;
    }
    let plan = match plan {
        None => {
            cancel_trading_action(state);
            return TradeStep::Cancel;
        }
        Some(p) => p,
    };
    if held >= plan.count as i32 {
        return TradeStep::SwitchToSell;
    }
    match town {
        None => {
            cancel_trading_action(state);
            TradeStep::Cancel
        }
        Some(false) => TradeStep::TravelTo(plan.from),
        Some(true) => TradeStep::Trade,
    }
}

/// The selling half of a trade. `plan` is the plan of the size of the trading
/// goal; `held` how many of its item the driver carries; `town` whether the
/// buyer location is known, and if so whether the driver is there.
pub fn sell_step(state: &mut State, phase: TradingPhase, plan: Option<&TradingPlan>, held: i32, town: Option<bool>) -> (r: TradeStep)
    ensures
        phase != TradingPhase::SELL ==> r == TradeStep::Wait && *final(state) == *old(state),
        phase == TradingPhase::SELL ==> match plan {
            None => r == TradeStep::Cancel,
            Some(p) => match town {
                None => r == TradeStep::Cancel,
                Some(false) => r == TradeStep::TravelTo(p.to),
                Some(true) => if held == 0 { r == TradeStep::Finish } else { r == TradeStep::Trade },
            },
        },
        r == TradeStep::Cancel ==> *final(state) == (State {
            trading_goal: None,
            has_small_trade_plan: false,
            has_medium_trade_plan: false,
            has_big_trade_plan: false,
            has_huge_trade_plan: false,
            ..*old(state)
        }),
        r == TradeStep::Finish ==> *final(state) == (State { trading_goal: None, ..*old(state) }),
        r != TradeStep::Cancel && r != TradeStep::Finish ==> *final(state) == *old(state),
{
    if phase != TradingPhase::SELL {
        return TradeStep::Wait;
    }
    let plan = match plan {
        None => {
            cancel_trading_action(state);
            return TradeStep::Cancel;
        }
        Some(p) => p,
    };
    match town {
        None => {
            cancel_trading_action(state);
            TradeStep::Cancel
        }
        Some(false) => TradeStep::TravelTo(plan.to),
        Some(true) => {
            if held == 0 {
                state.trading_goal = None;
                TradeStep::Finish
            } else {
                TradeStep::Trade
            }
        }
    }
}


/// What a route needs: the number of items to carry, and the capital that
/// buying them and paying for the trip takes.
pub open spec fn route_capital(travel_cost: int, buy_price: int, count: int) -> int {
    if (travel_cost + buy_price) * count < 0 {
        0
    } else if (travel_cost + buy_price) * count > u64::MAX {
        u64::MAX as int
    } else {
        (travel_cost + buy_price) * count
    }
}

/// Whether judging a route with these prices and trip cost stays within
/// the integer types: the profit per item and the profit of the minimal
/// count fit in an `i32`, and what the minimal count sells for fits in a
/// `u64` (the sale price read as a `u64`, as a cast gives it).
pub open spec fn route_defined(buy_price: i32, sell_price: i32, travel_cost: i32) -> bool {
    let m = minimal_count(travel_cost as int, buy_price as int, sell_price as int);
    sell_price > buy_price ==> {
        &&& sell_price - buy_price <= i32::MAX
        &&& (sell_price - buy_price) * m <= i32::MAX
        &&& m * (sell_price as u64) <= u64::MAX
    }
}

/// Checks `route_defined`.
pub fn route_is_computable(buy_price: i32, sell_price: i32, travel_cost: i32) -> (r: bool)
    ensures
        r == route_defined(buy_price, sell_price, travel_cost),
{
    if sell_price <= buy_price {
        return true;
    }
    let d: i128 = sell_price as i128 - buy_price as i128;
    let t: i128 = travel_cost as i128;
    let m: i128 = if t <= d { 1 } else { (t + d - 1) / d };
    assert(m == minimal_count(travel_cost as int, buy_price as int, sell_price as int));
    assert(1 <= d <= 0x1_0000_0000);
    assert(1 <= m <= 0x8000_0000) by {
        if t > d {
            let n: int = t + d - 1;
            let dd: int = d as int;
            vstd::arithmetic::div_mod::lemma_fundamental_div_mod(n, dd);
            assert(n / dd <= t) by (nonlinear_arith)
                requires dd >= 1, n == t + dd - 1, t > dd, n == dd * (n / dd) + n % dd, n % dd >= 0;
            assert(n / dd >= 1) by (nonlinear_arith)
                requires dd >= 1, n >= dd;
        }
    }
    assert(d * m <= 0x1_0000_0000 * 0x8000_0000) by (nonlinear_arith)
        requires 1 <= d <= 0x1_0000_0000, 1 <= m <= 0x8000_0000;
    let sell: u64 = sell_price as u64;
    assert(m * sell <= 0x8000_0000 * 0xffff_ffff_ffff_ffff) by (nonlinear_arith)
        requires 1 <= m <= 0x8000_0000, sell <= 0xffff_ffff_ffff_ffff;
    d <= i32::MAX as i128 && d * m <= i32::MAX as i128 && m * (sell as i128) <= u64::MAX as i128
}

/// The judgement of a route (see `evaluate_route`): `None` unless selling
/// gains money, the stock covers the minimal count and the buyer can pay
/// for it; otherwise the minimal count and the capital required.
pub open spec fn route_outcome(buy_price: i32, sell_price: i32, travel_cost: i32, stock: i32, buyer_money: u64) -> Option<(u64, u64)> {
    let count = minimal_count(travel_cost as int, buy_price as int, sell_price as int);
    if sell_price <= buy_price || (stock as u64) < count || buyer_money < count * (sell_price as u64) {
        None
    } else {
        Some((count as u64, route_capital(travel_cost as int, buy_price as int, count) as u64))
    }
}

/// The capital of a route worth taking is what the trip and the carried
/// items cost, `(travel_cost + buy_price) * count`, read as 0 below zero and
/// as `u64::MAX` above it; the stock at the start only decides whether the
/// route is taken, so two stocks that both let it be taken give the same
/// count and capital.
pub proof fn law_route_capital_is_trip_and_items(buy_price: i32, sell_price: i32, travel_cost: i32, stock: i32, other_stock: i32, buyer_money: u64)
    ensures
        route_outcome(buy_price, sell_price, travel_cost, stock, buyer_money) matches Some((count, capital)) ==> capital == (
            if (travel_cost + buy_price) * count < 0 {
                0
            } else if (travel_cost + buy_price) * count > u64::MAX {
                u64::MAX as int
            } else {
                (travel_cost + buy_price) * count
            }),
        route_outcome(buy_price, sell_price, travel_cost, stock, buyer_money) is Some
            && route_outcome(buy_price, sell_price, travel_cost, other_stock, buyer_money) is Some
            ==> route_outcome(buy_price, sell_price, travel_cost, stock, buyer_money)
                == route_outcome(buy_price, sell_price, travel_cost, other_stock, buyer_money),
{
}

/// A route judged worth taking earns on each item, carries at least one
/// item, enough for the profit to cover the trip, no more than the start
/// holds, and no more than the end can pay for.
pub proof fn law_judged_routes_pay_for_the_trip(buy_price: i32, sell_price: i32, travel_cost: i32, stock: i32, buyer_money: u64)
    ensures
        route_outcome(buy_price, sell_price, travel_cost, stock, buyer_money) matches Some((count, _)) ==> {
            &&& sell_price > buy_price
            &&& count >= 1
            &&& count * (sell_price - buy_price) >= travel_cost
            &&& count <= stock as u64
            &&& count * (sell_price as u64) <= buyer_money
        },
{
    if sell_price > buy_price {
        let d = sell_price - buy_price;
        if travel_cost > d {
            lemma_minimal_count(travel_cost as int, d as int);
        }
        let m = minimal_count(travel_cost as int, buy_price as int, sell_price as int);
        assert(m * d >= travel_cost) by (nonlinear_arith)
            requires d * m >= travel_cost;
    }
}

/// A route that gains money on each item is taken, carrying the fewest
/// items `c` whose gain covers the trip, whenever the start holds `c` of
/// them and the end can pay for them.
pub proof fn law_routes_worth_taking_are_taken(buy_price: i32, sell_price: i32, travel_cost: i32, stock: i32, buyer_money: u64, c: int)
    requires
        sell_price > buy_price,
        c >= 1,
        c * (sell_price - buy_price) >= travel_cost,
        c == 1 || (c - 1) * (sell_price - buy_price) < travel_cost,
        stock as u64 >= c,
        buyer_money >= c * (sell_price as u64),
    ensures
        route_outcome(buy_price, sell_price, travel_cost, stock, buyer_money) matches Some((count, _)) && count == c,
{
    let d: int = sell_price - buy_price;
    let t: int = travel_cost as int;
    let m = minimal_count(travel_cost as int, buy_price as int, sell_price as int);
    if t > d {
        lemma_minimal_count(t, d);
        assert(m * d >= t && (m - 1) * d < t) by (nonlinear_arith)
            requires d * m >= t, d * (m - 1) < t;
    } else {
        assert(m == 1);
    }
    if c < m {
        assert((m - 1) * d >= c * d) by (nonlinear_arith)
            requires c <= m - 1, d > 0;
        assert(false);
    }
    if c > m {
        assert((c - 1) * d >= m * d) by (nonlinear_arith)
            requires c - 1 >= m, d > 0;
        assert(false);
    }
    assert(m == c);
}

/// Judges a route that buys an item for `buy_price` where `stock` of it is
/// held and sells it for `sell_price` to a location holding `buyer_money`,
/// with a trip that costs `travel_cost`: `None` unless selling gains money,
/// the stock covers the minimal count and the buyer can pay for it;
/// otherwise the minimal count and the capital required (below zero read as
/// zero, above `u64::MAX` as `u64::MAX`).
pub fn evaluate_route(buy_price: i32, sell_price: i32, travel_cost: i32, stock: i32, buyer_money: u64) -> (r: Option<(u64, u64)>)
    requires
        route_defined(buy_price, sell_price, travel_cost),
    ensures
        r == route_outcome(buy_price, sell_price, travel_cost, stock, buyer_money),
{
    if sell_price <= buy_price {
        return None;
    }
    let count = calculate_minimal_count(travel_cost, buy_price, sell_price) as u64;
    let base: i128 = travel_cost as i128 + buy_price as i128;
    assert(-0x1_0000_0000 <= base <= 0x1_0000_0000);
    assert(0 <= count <= 0x8000_0000);
    assert(-0x1_0000_0000_0000_0000 <= base * count <= 0x1_0000_0000_0000_0000) by (nonlinear_arith)
        requires -0x1_0000_0000 <= base <= 0x1_0000_0000, 0 <= count <= 0x8000_0000;
    let cost: i128 = base * (count as i128);
    let capital: u64 = if cost < 0 {
        0
    } else if cost > u64::MAX as i128 {
        u64::MAX
    } else {
        cost as u64
    };
    if (stock as u64) < count {
        return None;
    }
    if buyer_money < count * (sell_price as u64) {
        return None;
    }
    Some((count, capital))
}

/// What topping up fuel for a trip would add to its capital.
#[derive(Clone, Copy, PartialEq, Eq, Structural, Debug)]
pub enum FuelNeed {
    /// The tank holds enough for the trip to the start.
    Enough,
    /// Fuel is short and no price for it is known.
    NoPrice,
    /// Fuel is short and buying it costs this much.
    Costs(u64),
}

/// What is known, besides the plan, when a driver judges a plan: whether the
/// plan is recent, how many of its item the driver holds, the driver's
/// money, the stock at the start (if that location is remembered), the money
/// at the end (likewise), and its fuel situation.
#[derive(Clone, Copy, Debug)]
pub struct TradeContext {
    pub fresh: bool,
    pub held: i32,
    pub money: i64,
    pub from_stock: Option<i32>,
    pub to_money: Option<u64>,
    pub fuel: FuelNeed,
}

/// The number of items needed for the profit to reach `goal` (the goal
/// divided by the profit per item, rounded up).
pub open spec fn items_for_goal(goal: int, profit: int) -> int {
    goal / profit + (if goal % profit == 0 { 0int } else { 1int })
}

/// The number of items for a goal is the fewest whose profit reaches it.
pub proof fn law_items_for_goal_reach_it(goal: int, profit: int)
    requires
        goal >= 0,
        profit > 0,
    ensures
        items_for_goal(goal, profit) * profit >= goal,
        (items_for_goal(goal, profit) - 1) * profit < goal || goal == 0,
        items_for_goal(goal, profit) >= 0,
{
    let q = goal / profit;
    let r = goal % profit;
    vstd::arithmetic::div_mod::lemma_fundamental_div_mod(goal, profit);
    assert(goal == profit * q + r && 0 <= r < profit);
    assert(q >= 0) by (nonlinear_arith)
        requires goal == profit * q + r, 0 <= r < profit, goal >= 0, profit > 0;
    if r == 0 {
        assert(q * profit >= goal) by (nonlinear_arith)
            requires goal == profit * q + r, r == 0;
        assert((q - 1) * profit < goal || goal == 0) by (nonlinear_arith)
            requires goal == profit * q, profit > 0, q >= 0;
    } else {
        assert((q + 1) * profit >= goal) by (nonlinear_arith)
            requires goal == profit * q + r, r < profit;
        assert(q * profit < goal) by (nonlinear_arith)
            requires goal == profit * q + r, r > 0;
    }
}

/// The items still to buy: the count beyond what is held, not below zero.
pub open spec fn items_to_buy(count: int, held: int) -> int {
    if count - held > 0 { count - held } else { 0 }
}

/// Whether the checks of `plan_trade` pass, with `count` items and a capital
/// of `capital` before fuel.
pub open spec fn trade_feasible(plan: TradingPlan, goal: u64, ctx: TradeContext) -> bool {
    let count = items_for_goal(goal as int, plan.profit as int);
    let extra = items_to_buy(count, ctx.held as int);
    let capital = extra * plan.buy_price;
    &&& ctx.fresh
    &&& capital <= ctx.money as u64
    &&& ctx.from_stock is Some && ctx.to_money is Some
    &&& ctx.from_stock.unwrap() >= extra as i32
    &&& ctx.to_money.unwrap() >= count * plan.sell_price
    &&& match ctx.fuel {
        FuelNeed::Enough => true,
        FuelNeed::NoPrice => false,
        FuelNeed::Costs(c) => capital + c <= ctx.money as u64,
    }
}

/// A fresh plan is fitted to a trade of profit `goal` exactly when the
/// driver can pay for the items it does not hold yet (and for fuel when it
/// is short and priced), the start holds those items (not the whole count:
/// what the driver carries already counts), and the end can pay for the
/// whole count; the count is the goal divided by the profit per item,
/// rounded up, and the capital is what the items still to buy cost, plus
/// the fuel when it is short.
pub proof fn law_trade_needs_only_items_still_to_buy(plan: TradingPlan, goal: u64, ctx: TradeContext)
    requires
        plan.profit > 0,
        (goal + plan.profit - 1) / (plan.profit as int) - ctx.held <= i32::MAX,
    ensures
        ({
            let count = (goal + plan.profit - 1) / (plan.profit as int);
            let still_to_buy = if count > ctx.held { count - ctx.held } else { 0 };
            let items_cost = still_to_buy * plan.buy_price;
            &&& trade_feasible(plan, goal, ctx) <==> {
                &&& ctx.fresh
                &&& items_cost <= ctx.money as u64
                &&& ctx.from_stock matches Some(stock) && stock >= still_to_buy
                &&& ctx.to_money matches Some(money) && money >= count * plan.sell_price
                &&& match ctx.fuel {
                    FuelNeed::Enough => true,
                    FuelNeed::NoPrice => false,
                    FuelNeed::Costs(c) => items_cost + c <= ctx.money as u64,
                }
            }
            &&& items_for_goal(goal as int, plan.profit as int) == count
            &&& trade_capital(plan, goal, ctx) == match ctx.fuel {
                FuelNeed::Costs(c) => items_cost + c,
                _ => items_cost,
            }
        }),
{
    let p = plan.profit as int;
    let g = goal as int;
    let count = (g + p - 1) / p;
    vstd::arithmetic::div_mod::lemma_fundamental_div_mod(g, p);
    vstd::arithmetic::div_mod::lemma_fundamental_div_mod(g + p - 1, p);
    assert(count == items_for_goal(g, p)) by (nonlinear_arith)
        requires
            p > 0, g >= 0,
            g == p * (g / p) + g % p, 0 <= g % p < p,
            g + p - 1 == p * count + (g + p - 1) % p, 0 <= (g + p - 1) % p < p,
            items_for_goal(g, p) == g / p + (if g % p == 0 { 0int } else { 1int });
}

/// The capital a plan takes: the items still to buy, plus fuel when it is short.
pub open spec fn trade_capital(plan: TradingPlan, goal: u64, ctx: TradeContext) -> int {
    let count = items_for_goal(goal as int, plan.profit as int);
    let capital = items_to_buy(count, ctx.held as int) * plan.buy_price;
    match ctx.fuel {
        FuelNeed::Costs(c) => capital + c,
        _ => capital,
    }
}

/// Fits `plan` to a trade whose profit reaches `goal`: the number of items
/// for that profit and the capital it takes; `None` when the plan is stale,
/// the driver cannot pay, the start cannot supply or the end cannot pay.
pub fn plan_trade(plan: &TradingPlan, goal: u64, ctx: &TradeContext) -> (r: Option<(u64, u64)>)
    requires
        plan.profit > 0,
        goal <= i64::MAX,
        items_for_goal(goal as int, plan.profit as int) - ctx.held <= i64::MAX,
        items_to_buy(items_for_goal(goal as int, plan.profit as int), ctx.held as int) * plan.buy_price <= u64::MAX,
        items_for_goal(goal as int, plan.profit as int) * plan.sell_price <= u64::MAX,
        ctx.fuel matches FuelNeed::Costs(c) ==> items_to_buy(items_for_goal(goal as int, plan.profit as int), ctx.held as int)
            * plan.buy_price + c <= u64::MAX,
    ensures
        r is Some <==> trade_feasible(*plan, goal, *ctx),
        r matches Some((count, capital)) ==> count == items_for_goal(goal as int, plan.profit as int)
            && capital == trade_capital(*plan, goal, *ctx),
{
    if !ctx.fresh {
        return None;
    }
    let profit = plan.profit as u64;
    let count: u64 = goal / profit + if goal % profit == 0 { 0 } else { 1 };
    assert(count <= goal) by {
        vstd::arithmetic::div_mod::lemma_fundamental_div_mod(goal as int, profit as int);
        if goal % profit != 0 {
            assert(goal / profit < goal) by (nonlinear_arith)
                requires profit >= 1, goal % profit != 0, goal == profit * (goal / profit) + goal % profit, goal % profit < profit;
        } else {
            assert(goal / profit <= goal) by (nonlinear_arith)
                requires profit >= 1, goal >= 0;
        }
    }
    let missing: i64 = count as i64 - ctx.held as i64;
    let additional_items: u64 = if missing > 0 { missing as u64 } else { 0 };
    let mut capital: u64 = additional_items * plan.buy_price;
    if capital > ctx.money as u64 {
        return None;
    }
    let from_stock = match ctx.from_stock {
        None => return None,
        Some(s) => s,
    };
    let to_money = match ctx.to_money {
        None => return None,
        Some(m) => m,
    };
    if from_stock < additional_items as i32 {
        return None;
    }
    if to_money < count * plan.sell_price {
        return None;
    }
    match ctx.fuel {
        FuelNeed::Enough => {}
        FuelNeed::NoPrice => return None,
        FuelNeed::Costs(c) => {
            capital = capital + c;
            if capital > ctx.money as u64 {
                return None;
            }
        }
    }
    Some((count, capital))
}

/// `plan` fitted to a trade of profit `goal` (see `plan_trade`): the items
/// for the goal, and its capital grown by what the trade takes.
pub open spec fn fitted(plan: TradingPlan, goal: u64, ctx: TradeContext, p: TradingPlan) -> bool {
    &&& p.from == plan.from && p.to == plan.to && p.item == plan.item && p.profit == plan.profit
    &&& p.buy_price == plan.buy_price && p.sell_price == plan.sell_price
    &&& p.count == items_for_goal(goal as int, plan.profit as int)
    &&& p.capital_required == plan.capital_required + trade_capital(plan, goal, ctx)
}

/// Whether `plan_trade` can judge `plan` for a trade of profit `goal`
/// without overflow, and the fitted plan's capital fits in a `u64`.
pub open spec fn trade_defined_for(plan: TradingPlan, ctx: TradeContext, goal: u64) -> bool {
    let count = items_for_goal(goal as int, plan.profit as int);
    let extra = items_to_buy(count, ctx.held as int);
    &&& count - ctx.held <= i64::MAX
    &&& extra * plan.buy_price <= u64::MAX
    &&& count * plan.sell_price <= u64::MAX
    &&& (ctx.fuel matches FuelNeed::Costs(c) ==> extra * plan.buy_price + c <= u64::MAX)
    &&& plan.capital_required + trade_capital(plan, goal, ctx) <= u64::MAX
}

/// The plans `plan_trade` can be called on without overflow for every plan size.
pub open spec fn plan_trade_defined(plan: TradingPlan, ctx: TradeContext) -> bool {
    &&& trade_defined_for(plan, ctx, SMALL_TRADING_PLAN_VALUE)
    &&& trade_defined_for(plan, ctx, MEDIUM_TRADING_PLAN_VALUE)
    &&& trade_defined_for(plan, ctx, BIG_TRADING_PLAN_VALUE)
    &&& trade_defined_for(plan, ctx, HUGE_TRADING_PLAN_VALUE)
}

/// Whether a plan can be fitted to every size of trade: it earns on each
/// item and no step of the fitting overflows.
pub open spec fn trade_computable(plan: TradingPlan, ctx: TradeContext) -> bool {
    plan.profit > 0 && plan_trade_defined(plan, ctx)
}

/// Checks `trade_defined_for` on a plan that earns on each item.
fn check_trade_defined_for(plan: &TradingPlan, ctx: &TradeContext, goal: u64) -> (r: bool)
    requires
        plan.profit > 0,
        goal <= HUGE_TRADING_PLAN_VALUE,
    ensures
        r == trade_defined_for(*plan, *ctx, goal),
{
    let profit = plan.profit as u64;
    let count: u64 = goal / profit + if goal % profit == 0 { 0 } else { 1 };
    assert(count <= goal) by {
        vstd::arithmetic::div_mod::lemma_fundamental_div_mod(goal as int, profit as int);
        if goal % profit != 0 {
            assert(goal / profit < goal) by (nonlinear_arith)
                requires profit >= 1, goal % profit != 0, goal == profit * (goal / profit) + goal % profit, goal % profit < profit;
        } else {
            assert(goal / profit <= goal) by (nonlinear_arith)
                requires profit >= 1, goal >= 0;
        }
    }
    let missing: i64 = count as i64 - ctx.held as i64;
    let extra: u128 = if missing > 0 { missing as u128 } else { 0 };
    assert(extra <= 0x1_0000_0000);
    assert(extra * plan.buy_price <= 0x1_0000_0000 * 0x1_0000_0000_0000_0000) by (nonlinear_arith)
        requires extra <= 0x1_0000_0000, plan.buy_price <= 0xffff_ffff_ffff_ffff;
    assert(count * plan.sell_price <= 0x1_0000_0000 * 0x1_0000_0000_0000_0000) by (nonlinear_arith)
        requires count <= 0x1_0000_0000, plan.sell_price <= 0xffff_ffff_ffff_ffff;
    let items_cost: u128 = extra * (plan.buy_price as u128);
    let selling: u128 = (count as u128) * (plan.sell_price as u128);
    let capital: u128 = match ctx.fuel {
        FuelNeed::Costs(c) => items_cost + c as u128,
        _ => items_cost,
    };
    let fuel_fits = match ctx.fuel {
        FuelNeed::Costs(c) => items_cost + c as u128 <= u64::MAX as u128,
        _ => true,
    };
    items_cost <= u64::MAX as u128 && selling <= u64::MAX as u128 && fuel_fits
        && plan.capital_required as u128 + capital <= u64::MAX as u128
}

/// Whether a plan can be fitted to every size of trade (see `trade_computable`).
pub fn trade_is_computable(plan: &TradingPlan, ctx: &TradeContext) -> (r: bool)
    ensures
        r == trade_computable(*plan, *ctx),
{
    if plan.profit <= 0 {
        return false;
    }
    check_trade_defined_for(plan, ctx, SMALL_TRADING_PLAN_VALUE)
        && check_trade_defined_for(plan, ctx, MEDIUM_TRADING_PLAN_VALUE)
        && check_trade_defined_for(plan, ctx, BIG_TRADING_PLAN_VALUE)
        && check_trade_defined_for(plan, ctx, HUGE_TRADING_PLAN_VALUE)
}

fn fit_plan(plan: &TradingPlan, goal: u64, ctx: &TradeContext) -> (r: Option<TradingPlan>)
    requires
        plan.profit > 0,
        goal == SMALL_TRADING_PLAN_VALUE || goal == MEDIUM_TRADING_PLAN_VALUE
            || goal == BIG_TRADING_PLAN_VALUE || goal == HUGE_TRADING_PLAN_VALUE,
        plan_trade_defined(*plan, *ctx),
    ensures
        r is Some <==> trade_feasible(*plan, goal, *ctx),
        r matches Some(p) ==> fitted(*plan, goal, *ctx, p),
{
    match plan_trade(plan, goal, ctx) {
        None => None,
        Some((count, capital)) => Some(TradingPlan {
            from: plan.from,
            to: plan.to,
            item: plan.item.clone(),
            profit: plan.profit,
            count,
            capital_required: plan.capital_required + capital,
            buy_price: plan.buy_price,
            sell_price: plan.sell_price,
        }),
    }
}

/// Fills each size of trade that has no plan yet with `plan`, fitted to that
/// size, where the plan can serve it.
pub fn assign_trade_plan(plans: &mut TradingPlanByValue, plan: &TradingPlan, ctx: &TradeContext)
    requires
        plan.profit > 0,
        plan_trade_defined(*plan, *ctx),
    ensures
        old(plans).small is Some ==> final(plans).small == old(plans).small,
        old(plans).medium is Some ==> final(plans).medium == old(plans).medium,
        old(plans).big is Some ==> final(plans).big == old(plans).big,
        old(plans).huge is Some ==> final(plans).huge == old(plans).huge,
        old(plans).small is None ==> (final(plans).small is Some <==> trade_feasible(*plan, SMALL_TRADING_PLAN_VALUE, *ctx))
            && (final(plans).small matches Some(p) ==> fitted(*plan, SMALL_TRADING_PLAN_VALUE, *ctx, p)),
        old(plans).medium is None ==> (final(plans).medium is Some <==> trade_feasible(*plan, MEDIUM_TRADING_PLAN_VALUE, *ctx))
            && (final(plans).medium matches Some(p) ==> fitted(*plan, MEDIUM_TRADING_PLAN_VALUE, *ctx, p)),
        old(plans).big is None ==> (final(plans).big is Some <==> trade_feasible(*plan, BIG_TRADING_PLAN_VALUE, *ctx))
            && (final(plans).big matches Some(p) ==> fitted(*plan, BIG_TRADING_PLAN_VALUE, *ctx, p)),
        old(plans).huge is None ==> (final(plans).huge is Some <==> trade_feasible(*plan, HUGE_TRADING_PLAN_VALUE, *ctx))
            && (final(plans).huge matches Some(p) ==> fitted(*plan, HUGE_TRADING_PLAN_VALUE, *ctx, p)),
{
    if plans.small.is_none() {
        plans.small = fit_plan(plan, SMALL_TRADING_PLAN_VALUE, ctx);
    }
    if plans.medium.is_none() {
        plans.medium = fit_plan(plan, MEDIUM_TRADING_PLAN_VALUE, ctx);
    }
    if plans.big.is_none() {
        plans.big = fit_plan(plan, BIG_TRADING_PLAN_VALUE, ctx);
    }
    if plans.huge.is_none() {
        plans.huge = fit_plan(plan, HUGE_TRADING_PLAN_VALUE, ctx);
    }
}

/// The plan of `p` for the trade size whose profit is `goal` (the huge one
/// for any other goal).
pub open spec fn slot(p: TradingPlanByValue, goal: u64) -> Option<TradingPlan> {
    if goal == SMALL_TRADING_PLAN_VALUE {
        p.small
    } else if goal == MEDIUM_TRADING_PLAN_VALUE {
        p.medium
    } else if goal == BIG_TRADING_PLAN_VALUE {
        p.big
    } else {
        p.huge
    }
}

/// The positions `0, 1, .., n - 1`.
pub open spec fn all_positions(n: nat) -> Seq<int> {
    Seq::new(n, |i: int| i)
}

/// Whether the plan at position `i` trades `item`.
pub open spec fn trades_item(plans: Seq<TradingPlan>, item: Seq<char>) -> spec_fn(int) -> bool {
    |i: int| plans[i].item@ == item
}

/// The order in which plans are tried for the sizes of trade: first those
/// for the `preferred` item, then every plan.
pub open spec fn candidate_order(plans: Seq<TradingPlan>, preferred: Option<Seq<char>>) -> Seq<int> {
    match preferred {
        Some(item) => all_positions(plans.len()).filter(trades_item(plans, item)) + all_positions(plans.len()),
        None => all_positions(plans.len()),
    }
}

/// Among the first `k` plans of `order`, the first that can serve a trade of
/// profit `goal`.
pub open spec fn first_feasible(order: Seq<int>, plans: Seq<TradingPlan>, contexts: Seq<TradeContext>, goal: u64, k: nat) -> Option<int>
    decreases k,
{
    if k == 0 {
        None
    } else {
        match first_feasible(order, plans, contexts, goal, (k - 1) as nat) {
            Some(i) => Some(i),
            None => if trade_feasible(plans[order[k - 1]], goal, contexts[order[k - 1]]) {
                Some(order[k - 1])
            } else {
                None
            },
        }
    }
}

/// Whether the plan of `p` for the size of profit `goal` is the first of
/// the first `k` plans of `order` that can serve it, fitted to it (none
/// when none can).
pub open spec fn slot_chosen(p: TradingPlanByValue, order: Seq<int>, plans: Seq<TradingPlan>, contexts: Seq<TradeContext>, goal: u64, k: nat) -> bool {
    match first_feasible(order, plans, contexts, goal, k) {
        None => slot(p, goal) is None,
        Some(i) => slot(p, goal) matches Some(q) && fitted(plans[i], goal, contexts[i], q),
    }
}

proof fn lemma_first_feasible_stays(order: Seq<int>, plans: Seq<TradingPlan>, contexts: Seq<TradeContext>, goal: u64, k: nat, m: nat)
    requires
        k <= m,
        first_feasible(order, plans, contexts, goal, k) is Some,
    ensures
        first_feasible(order, plans, contexts, goal, m) == first_feasible(order, plans, contexts, goal, k),
    decreases m - k,
{
    if k < m {
        lemma_first_feasible_stays(order, plans, contexts, goal, k, (m - 1) as nat);
    }
}

/// The plan picked among the first `k` of `order` can serve the trade and
/// is one of them; and every plan of `order` before it cannot.
pub proof fn law_picked_plan_is_first_feasible(order: Seq<int>, plans: Seq<TradingPlan>, contexts: Seq<TradeContext>, goal: u64, k: nat)
    requires
        k <= order.len(),
    ensures
        first_feasible(order, plans, contexts, goal, k) matches Some(i) ==> exists|j: int| 0 <= j < k && order[j] == i
            && trade_feasible(plans[i], goal, contexts[i])
            && forall|a: int| 0 <= a < j ==> !trade_feasible(plans[#[trigger] order[a]], goal, contexts[order[a]]),
        first_feasible(order, plans, contexts, goal, k) is None ==> forall|a: int| 0 <= a < k
            ==> !trade_feasible(plans[#[trigger] order[a]], goal, contexts[order[a]]),
    decreases k,
{
    if k > 0 {
        law_picked_plan_is_first_feasible(order, plans, contexts, goal, (k - 1) as nat);
        match first_feasible(order, plans, contexts, goal, (k - 1) as nat) {
            Some(i) => {}
            None => {
                if trade_feasible(plans[order[k - 1]], goal, contexts[order[k - 1]]) {
                    assert(order[k - 1] == order[k - 1]);
                }
            }
        }
    }
}

/// The positions of the plans for `item`, in order.
fn positions_for_item(plans: &Vec<TradingPlan>, item: &String) -> (r: Vec<usize>)
    ensures
        r@.len() == all_positions(plans@.len()).filter(trades_item(plans@, item@)).len(),
        forall|j: int| 0 <= j < r@.len() ==> #[trigger] r@[j] as int
            == all_positions(plans@.len()).filter(trades_item(plans@, item@))[j],
        forall|j: int| 0 <= j < r@.len() ==> #[trigger] r@[j] < plans@.len(),
{
    let ghost pred = trades_item(plans@, item@);
    let mut r: Vec<usize> = Vec::new();
    let mut i: usize = 0;
    while i < plans.len()
        invariant
            i <= plans.len(),
            pred == trades_item(plans@, item@),
            r@.len() == all_positions(i as nat).filter(pred).len(),
            forall|j: int| 0 <= j < r@.len() ==> #[trigger] r@[j] < i,
            forall|j: int| 0 <= j < r@.len() ==> #[trigger] r@[j] as int == all_positions(i as nat).filter(pred)[j],
        decreases plans.len() - i,
    {
        proof {
            assert(all_positions((i + 1) as nat) =~= all_positions(i as nat).push(i as int));
            all_positions(i as nat).lemma_filter_push(i as int, pred);
        }
        if plans[i].item == *item {
            r.push(i);
        }
        i = i + 1;
    }
    proof {
        assert(all_positions(i as nat) =~= all_positions(plans@.len()));
    }
    r
}

/// Picks a plan for every size of trade, as a driver does each time its
/// plans or its money change: the slots are cleared, then each is given the
/// first plan, in `candidate_order`, that can serve it, fitted to it (the
/// plans for the `preferred` item are tried first). `contexts[i]` is what
/// the driver knows when judging `plans[i]`.
pub fn fill_trading_plans(
    by_value: &mut TradingPlanByValue,
    plans: &Vec<TradingPlan>,
    contexts: &Vec<TradeContext>,
    preferred: &Option<String>,
)
    requires
        contexts@.len() == plans@.len(),
        forall|i: int| 0 <= i < plans@.len() ==> trade_computable(#[trigger] plans@[i], contexts@[i]),
    ensures
        ({
            let order = candidate_order(plans@, match preferred { Some(s) => Some(s@), None => None });
            &&& slot_chosen(*final(by_value), order, plans@, contexts@, SMALL_TRADING_PLAN_VALUE, order.len())
            &&& slot_chosen(*final(by_value), order, plans@, contexts@, MEDIUM_TRADING_PLAN_VALUE, order.len())
            &&& slot_chosen(*final(by_value), order, plans@, contexts@, BIG_TRADING_PLAN_VALUE, order.len())
            &&& slot_chosen(*final(by_value), order, plans@, contexts@, HUGE_TRADING_PLAN_VALUE, order.len())
        }),
{
    let ghost order = candidate_order(plans@, match preferred { Some(s) => Some(s@), None => None });
    let mut tried: Vec<usize> = match preferred {
        Some(item) => positions_for_item(plans, item),
        None => Vec::new(),
    };
    let ghost head = tried@;
    let ghost filt: Seq<int> = match preferred {
        Some(s) => all_positions(plans@.len()).filter(trades_item(plans@, s@)),
        None => Seq::empty(),
    };
    assert(forall|j: int| 0 <= j < head.len() ==> #[trigger] head[j] < plans@.len());
    assert(order =~= filt + all_positions(plans@.len()));
    assert(head.len() == filt.len());
    assert(forall|j: int| 0 <= j < head.len() ==> #[trigger] head[j] as int == filt[j]);
    let mut i: usize = 0;
    while i < plans.len()
        invariant
            i <= plans.len(),
            tried@.len() == head.len() + i,
            forall|j: int| 0 <= j < head.len() ==> #[trigger] head[j] < plans@.len(),
            forall|j: int| 0 <= j < tried@.len() ==> #[trigger] tried@[j] < plans@.len(),
            forall|j: int| 0 <= j < head.len() ==> tried@[j] == #[trigger] head[j],
            forall|j: int| 0 <= j < i ==> #[trigger] tried@[head.len() + j] as int == j,
        decreases plans.len() - i,
    {
        tried.push(i);
        i = i + 1;
    }
    proof {
        assert forall|j: int| 0 <= j < tried@.len() implies #[trigger] tried@[j] as int == order[j] by {
            if j < head.len() {
                assert(tried@[j] == head[j]);
            } else {
                assert(tried@[head.len() + (j - head.len())] as int == j - head.len());
            }
        }
        assert(tried@.len() == order.len());
    }

    by_value.set_all_to_none();
    let mut k: usize = 0;
    while k < tried.len() && !by_value.all_set()
        invariant
            k <= tried.len(),
            tried@.len() == order.len(),
            forall|j: int| 0 <= j < tried@.len() ==> #[trigger] tried@[j] as int == order[j],
            forall|j: int| 0 <= j < tried@.len() ==> #[trigger] tried@[j] < plans@.len(),
            contexts@.len() == plans@.len(),
            forall|i: int| 0 <= i < plans@.len() ==> trade_computable(#[trigger] plans@[i], contexts@[i]),
            slot_chosen(*by_value, order, plans@, contexts@, SMALL_TRADING_PLAN_VALUE, k as nat),
            slot_chosen(*by_value, order, plans@, contexts@, MEDIUM_TRADING_PLAN_VALUE, k as nat),
            slot_chosen(*by_value, order, plans@, contexts@, BIG_TRADING_PLAN_VALUE, k as nat),
            slot_chosen(*by_value, order, plans@, contexts@, HUGE_TRADING_PLAN_VALUE, k as nat),
        decreases tried.len() - k,
    {
        let p = tried[k];
        assert(tried@[k as int] as int == order[k as int]);
        assert(trade_computable(plans@[p as int], contexts@[p as int]));
        assign_trade_plan(by_value, &plans[p], &contexts[p]);
        k = k + 1;
    }
    proof {
        let n = order.len();
        if k < n {
            lemma_first_feasible_stays(order, plans@, contexts@, SMALL_TRADING_PLAN_VALUE, k as nat, n);
            lemma_first_feasible_stays(order, plans@, contexts@, MEDIUM_TRADING_PLAN_VALUE, k as nat, n);
            lemma_first_feasible_stays(order, plans@, contexts@, BIG_TRADING_PLAN_VALUE, k as nat, n);
            lemma_first_feasible_stays(order, plans@, contexts@, HUGE_TRADING_PLAN_VALUE, k as nat, n);
        }
    }
}

} // verus!
