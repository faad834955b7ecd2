use rainmetal_goap::ai_driver::{
    new_state, pay_rent, BIG_TRADING_PLAN_VALUE, HUGE_TRADING_PLAN_VALUE, MEDIUM_TRADING_PLAN_VALUE,
    SMALL_TRADING_PLAN_VALUE,
};
use rainmetal_goap::ai_trader::{
    assign_trade_plan, buy_step, calculate_minimal_count, evaluate_route, route_is_computable, fill_trading_plans, init_trading,
    pay_for_fuel, plan_trade, sell_step, trade_is_computable, trade_item, CurrentTradingData, FuelNeed,
    TradeContext, TradeStep, TradingPhase, TradingPlan, TradingPlanByValue,
};
use rainmetal_goap::storage::{ItemContainer, Needs, Storage};
use rainmetal_goap::trade_routes::{collect_trading_plans, LocationQuote};

fn plan(from: u64, to: u64, item: &str, buy: u64, sell: u64) -> TradingPlan {
    TradingPlan {
        from,
        to,
        item: item.to_string(),
        profit: (sell - buy) as i64,
        count: 1,
        capital_required: 0,
        buy_price: buy,
        sell_price: sell,
    }
}

fn ready() -> TradeContext {
    TradeContext { fresh: true, held: 0, money: 1_000_000, from_stock: Some(10_000), to_money: Some(1_000_000), fuel: FuelNeed::Enough }
}

#[test]
fn storage_counts_by_name() {
    let mut s = Storage::new();
    assert_eq!(s.quantity("fuel"), 0);
    s.add("fuel", 5);
    s.add("fuel", -2);
    assert_eq!(s.quantity("fuel"), 3);
    s.set("wood", 7);
    assert_eq!(s.quantity("wood"), 7);
    s.add_one("wood");
    assert_eq!(s.quantity("wood"), 8);
    assert_eq!(s.remove_one("wood"), Some(()));
    assert_eq!(s.quantity("wood"), 7);
    assert_eq!(s.entries().len(), 2);
}

#[test]
fn storage_remove_stops_at_zero_and_needs_stock_or_force() {
    let mut s = Storage::new();
    assert_eq!(s.remove("iron", 3, false), None);
    assert_eq!(s.quantity("iron"), 0);
    assert_eq!(s.remove_one("iron"), None);
    assert_eq!(s.remove("iron", 3, true), Some(()));
    assert_eq!(s.quantity("iron"), 0);
    s.set("iron", 2);
    assert_eq!(s.remove("iron", 5, false), Some(()));
    assert_eq!(s.quantity("iron"), 0);
    s.set("iron", 9);
    assert_eq!(s.remove("iron", 4, false), Some(()));
    assert_eq!(s.quantity("iron"), 5);
}

#[test]
fn remove_one_undoes_add_one() {
    let mut s = Storage::default();
    s.set("grain", 4);
    s.add_one("grain");
    assert_eq!(s.remove_one("grain"), Some(()));
    assert_eq!(s.quantity("grain"), 4);
}

#[test]
fn storages_are_equal_when_their_counts_are() {
    let mut a = Storage::new();
    let mut b = Storage::new();
    a.set("salt", 2);
    a.set("wine", 1);
    b.set("wine", 1);
    assert!(a != b);
    b.set("salt", 2);
    assert!(a == b);
    assert!(a.clone() == a);
    b.set("salt", 3);
    assert!(a != b);
}

#[test]
fn remove_undoes_add() {
    let mut s = Storage::new();
    s.set("cloth", 6);
    s.add("cloth", 5);
    assert_eq!(s.remove("cloth", 5, false), Some(()));
    assert_eq!(s.quantity("cloth"), 6);
    s.add("rope", 0);
    assert_eq!(s.remove("rope", 0, true), Some(()));
    assert_eq!(s.quantity("rope"), 0);
}

#[test]
fn most_common_item_has_the_highest_positive_count() {
    let mut s = Storage::new();
    assert_eq!(s.find_most_common(), None);
    s.set("a", 0);
    s.set("b", -3);
    assert_eq!(s.find_most_common(), None);
    s.set("c", 4);
    s.set("d", 9);
    s.set("e", 2);
    assert_eq!(s.find_most_common(), Some("d".to_string()));
}

#[test]
fn needs_hold_counts_too() {
    let mut n = Needs::default();
    assert_eq!(n.quantity("food"), 0);
    n.add("food", 3);
    assert_eq!(n.remove("food", 1, false), Some(()));
    assert_eq!(n.quantity("food"), 2);
    assert_eq!(n.entries().len(), 1);
}

#[test]
fn minimal_count_covers_the_travel_cost() {
    assert_eq!(calculate_minimal_count(100, 10, 30), 5);
    assert_eq!(calculate_minimal_count(101, 10, 30), 6);
    assert_eq!(calculate_minimal_count(0, 10, 30), 1);
    assert_eq!(calculate_minimal_count(20, 10, 30), 1);
    assert_eq!(calculate_minimal_count(500, 30, 30), 1);
    assert_eq!(calculate_minimal_count(500, 40, 30), 1);
}

#[test]
fn routes_are_judged_by_profit_stock_and_buyer_money() {
    // 5 items cover the trip; capital is (100 + 10) * 5.
    assert_eq!(evaluate_route(10, 30, 100, 5, 150), Some((5, 550)));
    assert_eq!(evaluate_route(30, 30, 100, 50, 1000), None);
    assert_eq!(evaluate_route(10, 30, 100, 4, 1000), None);
    assert_eq!(evaluate_route(10, 30, 100, 50, 149), None);
    // A trip cost below zero makes the capital read as zero.
    assert_eq!(evaluate_route(10, 30, -50, 5, 1000), Some((1, 0)));
}

#[test]
fn routes_too_large_to_judge_are_recognised() {
    assert!(route_is_computable(10, 30, 100));
    assert!(route_is_computable(30, 10, i32::MAX));
    // The profit per item does not fit in an i32.
    assert!(!route_is_computable(i32::MIN, i32::MAX, 0));
    // A negative sale price reads as a huge u64: one item's sale still fits,
    // two items' do not.
    assert!(route_is_computable(-20, -10, 0));
    assert!(!route_is_computable(-20, -10, 15));
}

#[test]
fn a_sale_moves_one_item_and_the_price() {
    let mut buyer_money: i64 = 100;
    let mut seller_money: i64 = 5;
    let mut buyer = Storage::new();
    let mut seller = Storage::new();
    seller.set("salt", 2);
    assert_eq!(trade_item("salt", &30, &mut buyer_money, &mut buyer, &mut seller_money, &mut seller), Some(()));
    assert_eq!((buyer_money, seller_money), (70, 35));
    assert_eq!((buyer.quantity("salt"), seller.quantity("salt")), (1, 1));
    // Not enough money: nothing moves.
    assert_eq!(trade_item("salt", &71, &mut buyer_money, &mut buyer, &mut seller_money, &mut seller), None);
    assert_eq!((buyer_money, seller_money), (70, 35));
    // Nothing to sell: nothing moves.
    seller.set("salt", 0);
    assert_eq!(trade_item("salt", &1, &mut buyer_money, &mut buyer, &mut seller_money, &mut seller), None);
    assert_eq!((buyer.quantity("salt"), seller.quantity("salt")), (1, 0));
}

#[test]
fn fuel_is_paid_even_when_the_city_has_none() {
    let mut driver: i64 = 50;
    let mut city: i64 = 0;
    let mut storage = Storage::new();
    storage.set("fuel", 1);
    pay_for_fuel(7, &mut driver, &mut storage, &mut city);
    assert_eq!((driver, city, storage.quantity("fuel")), (43, 7, 0));
    pay_for_fuel(7, &mut driver, &mut storage, &mut city);
    assert_eq!((driver, city, storage.quantity("fuel")), (36, 14, 0));
}

#[test]
fn rent_is_paid_and_money_stops_at_zero() {
    let mut driver: i64 = 1000;
    let mut town: i64 = 0;
    pay_rent(&mut driver, &mut town);
    assert_eq!((driver, town), (700, 300));
    let mut poor: i64 = 100;
    pay_rent(&mut poor, &mut town);
    assert_eq!((poor, town), (0, 600));
}

#[test]
fn plan_trade_counts_items_for_the_goal() {
    let p = plan(1, 2, "wine", 10, 17);
    // 30 / 7 rounded up is 5; 5 * 10 to buy.
    assert_eq!(plan_trade(&p, SMALL_TRADING_PLAN_VALUE, &ready()), Some((5, 50)));
    let held = TradeContext { held: 2, ..ready() };
    assert_eq!(plan_trade(&p, SMALL_TRADING_PLAN_VALUE, &held), Some((5, 30)));
    let fuel = TradeContext { fuel: FuelNeed::Costs(9), ..ready() };
    assert_eq!(plan_trade(&p, SMALL_TRADING_PLAN_VALUE, &fuel), Some((5, 59)));
    // A profit that divides the goal needs no extra item.
    let even = plan(1, 2, "wine", 10, 20);
    assert_eq!(plan_trade(&even, SMALL_TRADING_PLAN_VALUE, &ready()), Some((3, 30)));
}

#[test]
fn plan_trade_refuses_each_failed_check() {
    let p = plan(1, 2, "wine", 10, 17);
    assert_eq!(plan_trade(&p, SMALL_TRADING_PLAN_VALUE, &TradeContext { fresh: false, ..ready() }), None);
    assert_eq!(plan_trade(&p, SMALL_TRADING_PLAN_VALUE, &TradeContext { money: 49, ..ready() }), None);
    assert_eq!(plan_trade(&p, SMALL_TRADING_PLAN_VALUE, &TradeContext { from_stock: None, ..ready() }), None);
    assert_eq!(plan_trade(&p, SMALL_TRADING_PLAN_VALUE, &TradeContext { to_money: None, ..ready() }), None);
    assert_eq!(plan_trade(&p, SMALL_TRADING_PLAN_VALUE, &TradeContext { from_stock: Some(4), ..ready() }), None);
    assert_eq!(plan_trade(&p, SMALL_TRADING_PLAN_VALUE, &TradeContext { to_money: Some(84), ..ready() }), None);
    assert_eq!(plan_trade(&p, SMALL_TRADING_PLAN_VALUE, &TradeContext { fuel: FuelNeed::NoPrice, ..ready() }), None);
    assert_eq!(plan_trade(&p, SMALL_TRADING_PLAN_VALUE, &TradeContext { money: 55, fuel: FuelNeed::Costs(9), ..ready() }), None);
}

#[test]
fn assign_fills_only_empty_sizes() {
    let p = plan(1, 2, "wine", 10, 17);
    let mut by_value = TradingPlanByValue::new();
    by_value.big = Some(plan(3, 4, "salt", 1, 2));
    assign_trade_plan(&mut by_value, &p, &ready());
    assert!(by_value.all_set());
    assert_eq!(by_value.small.as_ref().unwrap().count, 5);
    assert_eq!(by_value.small.as_ref().unwrap().capital_required, 50);
    assert_eq!(by_value.medium.as_ref().unwrap().count, 22);
    assert_eq!(by_value.big.as_ref().unwrap().item, "salt");
    assert_eq!(by_value.huge.as_ref().unwrap().count, 143);
    by_value.set_all_to_none();
    assert!(by_value.all_none());
    assert!(!by_value.all_set());
}

#[test]
fn fill_prefers_the_most_common_item() {
    let plans = vec![plan(1, 2, "wine", 10, 17), plan(5, 6, "salt", 1, 100)];
    let rich = ready();
    // The wine plan cannot serve the big and huge sizes: the end cannot pay for 72.
    let wine = TradeContext { to_money: Some(17 * 30), ..ready() };
    let contexts = vec![wine, rich];
    assert!(trade_is_computable(&plans[0], &contexts[0]));
    let mut by_value = TradingPlanByValue::new();
    fill_trading_plans(&mut by_value, &plans, &contexts, &Some("wine".to_string()));
    assert_eq!(by_value.small.as_ref().unwrap().item, "wine");
    assert_eq!(by_value.medium.as_ref().unwrap().item, "wine");
    assert_eq!(by_value.big.as_ref().unwrap().item, "salt");
    assert_eq!(by_value.huge.as_ref().unwrap().item, "salt");
    let mut by_value = TradingPlanByValue::new();
    fill_trading_plans(&mut by_value, &plans, &contexts, &None);
    assert_eq!(by_value.small.as_ref().unwrap().item, "wine");
    let mut by_value = TradingPlanByValue::new();
    fill_trading_plans(&mut by_value, &plans, &contexts, &Some("salt".to_string()));
    assert_eq!(by_value.small.as_ref().unwrap().item, "salt");
    assert_eq!(by_value.small.as_ref().unwrap().count, 1);
}

#[test]
fn plans_that_earn_nothing_are_not_computable() {
    let mut p = plan(1, 2, "wine", 10, 17);
    p.profit = 0;
    assert!(!trade_is_computable(&p, &ready()));
    let mut p = plan(1, 2, "wine", 10, 17);
    p.capital_required = u64::MAX;
    assert!(!trade_is_computable(&p, &ready()));
}

#[test]
fn plan_for_goal_picks_the_size() {
    let mut by_value = TradingPlanByValue::new();
    by_value.medium = Some(plan(1, 2, "wine", 10, 17));
    assert!(by_value.plan_for_goal(Some(MEDIUM_TRADING_PLAN_VALUE)).is_some());
    assert!(by_value.plan_for_goal(Some(SMALL_TRADING_PLAN_VALUE)).is_none());
    assert!(by_value.plan_for_goal(Some(BIG_TRADING_PLAN_VALUE)).is_none());
    assert!(by_value.plan_for_goal(Some(HUGE_TRADING_PLAN_VALUE)).is_none());
    assert!(by_value.plan_for_goal(Some(31)).is_none());
    assert!(by_value.plan_for_goal(None).is_none());
}

#[test]
fn trading_starts_in_the_small_plans_item() {
    let mut by_value = TradingPlanByValue::new();
    assert!(init_trading(&by_value, None).is_none());
    by_value.small = Some(plan(1, 2, "wine", 10, 17));
    let started = init_trading(&by_value, None).unwrap();
    assert_eq!(started.item, "wine");
    assert_eq!(started.phase, TradingPhase::BUY);
    let current = CurrentTradingData { phase: TradingPhase::SELL, item: "wine".to_string() };
    assert!(init_trading(&by_value, Some(&current)).is_none());
    let other = CurrentTradingData { phase: TradingPhase::SELL, item: "salt".to_string() };
    assert!(init_trading(&by_value, Some(&other)).is_some());
}

#[test]
fn buying_and_selling_steps() {
    let p = TradingPlan { count: 3, ..plan(1, 2, "wine", 10, 17) };
    let mut s = new_state(3, 0, 100);
    s.trading_goal = Some(SMALL_TRADING_PLAN_VALUE);
    s.has_small_trade_plan = true;
    assert_eq!(buy_step(&mut s, TradingPhase::SELL, Some(&p), 0, Some(true)), TradeStep::Wait);
    assert_eq!(buy_step(&mut s, TradingPhase::BUY, Some(&p), 3, Some(true)), TradeStep::SwitchToSell);
    assert_eq!(buy_step(&mut s, TradingPhase::BUY, Some(&p), 1, Some(false)), TradeStep::TravelTo(1));
    assert_eq!(buy_step(&mut s, TradingPhase::BUY, Some(&p), 1, Some(true)), TradeStep::Trade);
    assert_eq!(s.trading_goal, Some(SMALL_TRADING_PLAN_VALUE));
    assert_eq!(sell_step(&mut s, TradingPhase::BUY, Some(&p), 1, Some(true)), TradeStep::Wait);
    assert_eq!(sell_step(&mut s, TradingPhase::SELL, Some(&p), 1, Some(false)), TradeStep::TravelTo(2));
    assert_eq!(sell_step(&mut s, TradingPhase::SELL, Some(&p), 1, Some(true)), TradeStep::Trade);
    assert_eq!(sell_step(&mut s, TradingPhase::SELL, Some(&p), 0, Some(true)), TradeStep::Finish);
    assert_eq!(s.trading_goal, None);
    assert!(s.has_small_trade_plan);
    s.trading_goal = Some(SMALL_TRADING_PLAN_VALUE);
    assert_eq!(buy_step(&mut s, TradingPhase::BUY, None, 0, Some(true)), TradeStep::Cancel);
    assert_eq!(s.trading_goal, None);
    assert!(!s.has_small_trade_plan);
    assert_eq!(sell_step(&mut s, TradingPhase::SELL, Some(&p), 1, None), TradeStep::Cancel);
}

fn quote(id: u64, stock: &[(&str, i32)], sells: &[(&str, i32)], buys: &[(&str, i32)], money: u64) -> LocationQuote {
    let mut storage = Storage::new();
    for (item, count) in stock {
        storage.set(item, *count);
    }
    LocationQuote {
        id,
        stock: storage,
        sell_prices: sells.iter().map(|(i, p)| (i.to_string(), *p)).collect(),
        buy_prices: buys.iter().map(|(i, p)| (i.to_string(), *p)).collect(),
        money,
    }
}

#[test]
fn routes_are_listed_by_start_item_and_end() {
    let locations = vec![
        quote(1, &[("wine", 5), ("salt", 9)], &[("wine", 10), ("salt", 1)], &[], 0),
        quote(2, &[], &[], &[("wine", 30), ("salt", 2)], 1000),
        quote(3, &[("fuel", 4)], &[], &[("wine", 12)], 1000),
    ];
    let costs = vec![
        vec![None, Some(100), None],
        vec![Some(100), None, Some(0)],
        vec![Some(0), Some(0), None],
    ];
    let plans = collect_trading_plans(&locations, &costs).unwrap();
    // Wine from 1 to 2: 5 items cover the trip, (100 + 10) * 5 of capital.
    // Wine from 1 to 3 has no known trip cost; salt from 1 to 2 needs 100
    // items to cover the trip, and only 9 are held.
    assert_eq!(plans.len(), 1);
    assert_eq!((plans[0].from, plans[0].to, plans[0].item.as_str()), (1, 2, "wine"));
    assert_eq!((plans[0].count, plans[0].capital_required, plans[0].profit), (5, 550, 20));
    assert_eq!((plans[0].buy_price, plans[0].sell_price), (10, 30));
}

#[test]
fn routes_that_overflow_are_refused() {
    let locations = vec![
        quote(1, &[("gold", 1)], &[("gold", i32::MIN)], &[], 0),
        quote(2, &[("fuel", 1)], &[], &[("gold", i32::MAX)], 1000),
    ];
    let costs = vec![vec![None, Some(1)], vec![Some(1), None]];
    assert!(collect_trading_plans(&locations, &costs).is_none());
    // The same location is never a route, whatever it is told.
    let same = vec![quote(4, &[("gold", 1)], &[("gold", 1)], &[("gold", 100)], 1000)];
    assert_eq!(collect_trading_plans(&same, &vec![vec![Some(0)]]).unwrap().len(), 0);
}

#[test]
fn no_routes_when_no_location_holds_fuel() {
    let locations = vec![
        quote(1, &[("wine", 5)], &[("wine", 10)], &[], 0),
        quote(2, &[("fuel", 0)], &[], &[("wine", 30)], 1000),
    ];
    let costs = vec![vec![None, Some(100)], vec![Some(100), None]];
    assert_eq!(collect_trading_plans(&locations, &costs).unwrap().len(), 0);
}
