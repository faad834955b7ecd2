use vstd::prelude::*;
use crate::ai_trader::{evaluate_route, route_defined, route_is_computable, route_outcome, TradingPlan};
use crate::storage::{count_in, ItemContainer, Storage};

verus! {

/// What a trader remembers of a location, as the search for trade routes
/// reads it: its id, the goods it holds, the prices at which it sells and
/// buys items (each as an item name and a price), and its money.
pub struct LocationQuote {
    pub id: u64,
    pub stock: Storage,
    pub sell_prices: Vec<(String, i32)>,
    pub buy_prices: Vec<(String, i32)>,
    pub money: u64,
}

/// The price listed for `name` among the first `k` entries (the first such
/// entry's).
pub open spec fn price_in(entries: Seq<(String, i32)>, name: Seq<char>, k: nat) -> Option<i32>
    decreases k,
{
    if k == 0 {
        None
    } else {
        match price_in(entries, name, (k - 1) as nat) {
            Some(p) => Some(p),
            None => if entries[k - 1].0@ == name { Some(entries[k - 1].1) } else { None },
        }
    }
}

/// The price listed for `name`, if any.
pub open spec fn price_of(entries: Seq<(String, i32)>, name: Seq<char>) -> Option<i32> {
    price_in(entries, name, entries.len())
}

proof fn lemma_price_stays(entries: Seq<(String, i32)>, name: Seq<char>, k: nat, m: nat)
    requires
        k <= m,
        price_in(entries, name, k) is Some,
    ensures
        price_in(entries, name, m) == price_in(entries, name, k),
    decreases m - k,
{
    if k < m {
        lemma_price_stays(entries, name, k, (m - 1) as nat);
    }
}

/// The price `entries` lists for `name`, if any.
fn find_price(entries: &Vec<(String, i32)>, name: &String) -> (r: Option<i32>)
    ensures
        r == price_of(entries@, name@),
{
    let mut j: usize = 0;
    while j < entries.len()
        invariant
            j <= entries.len(),
            price_in(entries@, name@, j as nat) is None,
        decreases entries.len() - j,
    {
        if entries[j].0 == *name {
            proof {
                lemma_price_stays(entries@, name@, (j + 1) as nat, entries@.len());
            }
            return Some(entries[j].1);
        }
        j = j + 1;
    }
    None
}

/// Whether some location holds fuel (a trip is priced at a station's fuel
/// price, so without one no trip has a cost).
pub open spec fn fuel_on_sale(locations: Seq<LocationQuote>) -> bool {
    exists|j: int| 0 <= j < locations.len() && count_in((#[trigger] locations[j]).stock.contents(), "fuel"@) > 0
}

/// Whether some location holds fuel.
fn any_fuel_on_sale(locations: &Vec<LocationQuote>) -> (r: bool)
    ensures
        r == fuel_on_sale(locations@),
{
    let mut j: usize = 0;
    while j < locations.len()
        invariant
            j <= locations.len(),
            forall|a: int| 0 <= a < j ==> count_in((#[trigger] locations@[a]).stock.contents(), "fuel"@) <= 0,
        decreases locations.len() - j,
    {
        if locations[j].stock.quantity("fuel") > 0 {
            return true;
        }
        j = j + 1;
    }
    false
}

/// The facts a route from location `i`, selling its `k`-th item, to
/// location `j` is judged on: the item and its buying price, the trip's
/// cost, the selling price, and the stock at the start; `None` when the
/// route is skipped before it is judged (the same location, no location
/// holding fuel to price the trip with, no known trip cost, or no selling
/// price for the item at the end).
pub open spec fn route_facts(locations: Seq<LocationQuote>, costs: Seq<Seq<Option<i32>>>, i: int, k: int, j: int) -> Option<(String, i32, i32, i32, i32)> {
    let from = locations[i];
    let to = locations[j];
    let (item, buy_price) = from.sell_prices@[k];
    if from.id == to.id || !fuel_on_sale(locations) {
        None
    } else {
        match costs[i][j] {
            None => None,
            Some(travel_cost) => match price_of(to.buy_prices@, item@) {
                None => None,
                Some(sell_price) => Some((item, buy_price, travel_cost, sell_price, count_in(from.stock.contents(), item@) as i32)),
            },
        }
    }
}

/// Whether judging that route overflows.
pub open spec fn route_overflows(locations: Seq<LocationQuote>, costs: Seq<Seq<Option<i32>>>, i: int, k: int, j: int) -> bool {
    match route_facts(locations, costs, i, k, j) {
        None => false,
        Some((_, buy_price, travel_cost, sell_price, _)) => !route_defined(buy_price, sell_price, travel_cost),
    }
}

/// The plan for that route, when it earns money.
pub open spec fn route_plan(locations: Seq<LocationQuote>, costs: Seq<Seq<Option<i32>>>, i: int, k: int, j: int) -> Option<TradingPlan> {
    match route_facts(locations, costs, i, k, j) {
        None => None,
        Some((item, buy_price, travel_cost, sell_price, stock)) => match route_outcome(buy_price, sell_price, travel_cost, stock, locations[j].money) {
            None => None,
            Some((count, capital)) => Some(TradingPlan {
                from: locations[i].id,
                to: locations[j].id,
                item,
                profit: (sell_price - buy_price) as i64,
                count,
                capital_required: capital,
                buy_price: buy_price as u64,
                sell_price: sell_price as u64,
            }),
        },
    }
}

/// The plans for the routes from location `i` selling its `k`-th item, to
/// the first `m` locations.
pub open spec fn plans_to(locations: Seq<LocationQuote>, costs: Seq<Seq<Option<i32>>>, i: int, k: int, m: nat) -> Seq<TradingPlan>
    decreases m,
{
    if m == 0 {
        Seq::empty()
    } else {
        let rest = plans_to(locations, costs, i, k, (m - 1) as nat);
        match route_plan(locations, costs, i, k, m - 1) {
            Some(p) => rest.push(p),
            None => rest,
        }
    }
}

/// The plans for the routes from location `i` selling one of its first
/// `kk` items.
pub open spec fn plans_from(locations: Seq<LocationQuote>, costs: Seq<Seq<Option<i32>>>, i: int, kk: nat) -> Seq<TradingPlan>
    decreases kk,
{
    if kk == 0 {
        Seq::empty()
    } else {
        plans_from(locations, costs, i, (kk - 1) as nat) + plans_to(locations, costs, i, kk - 1, locations.len())
    }
}

/// The plans for the routes from the first `ii` locations, in order of
/// start, item and end.
pub open spec fn route_plans(locations: Seq<LocationQuote>, costs: Seq<Seq<Option<i32>>>, ii: nat) -> Seq<TradingPlan>
    decreases ii,
{
    if ii == 0 {
        Seq::empty()
    } else {
        route_plans(locations, costs, (ii - 1) as nat) + plans_from(locations, costs, ii - 1, locations[ii - 1].sell_prices@.len())
    }
}

proof fn lemma_no_plans(locations: Seq<LocationQuote>, costs: Seq<Seq<Option<i32>>>, ii: nat)
    requires
        ii <= locations.len(),
        forall|i: int, k: int, j: int| 0 <= i < ii && 0 <= k < locations[i].sell_prices@.len() && 0 <= j < locations.len()
            ==> #[trigger] route_plan(locations, costs, i, k, j) is None,
    ensures
        route_plans(locations, costs, ii).len() == 0,
    decreases ii,
{
    if ii > 0 {
        lemma_no_plans(locations, costs, (ii - 1) as nat);
        let i = ii - 1;
        let items = locations[i].sell_prices@.len();
        assert forall|kk: nat| kk <= items implies #[trigger] plans_from(locations, costs, i, kk).len() == 0 by {
            lemma_no_plans_from(locations, costs, i, kk);
        }
    }
}

proof fn lemma_no_plans_from(locations: Seq<LocationQuote>, costs: Seq<Seq<Option<i32>>>, i: int, kk: nat)
    requires
        0 <= i < locations.len(),
        kk <= locations[i].sell_prices@.len(),
        forall|k: int, j: int| 0 <= k < kk && 0 <= j < locations.len() ==> #[trigger] route_plan(locations, costs, i, k, j) is None,
    ensures
        plans_from(locations, costs, i, kk).len() == 0,
    decreases kk,
{
    if kk > 0 {
        lemma_no_plans_from(locations, costs, i, (kk - 1) as nat);
        lemma_no_plans_to(locations, costs, i, kk - 1, locations.len());
    }
}

proof fn lemma_no_plans_to(locations: Seq<LocationQuote>, costs: Seq<Seq<Option<i32>>>, i: int, k: int, m: nat)
    requires
        m <= locations.len(),
        forall|j: int| 0 <= j < m ==> #[trigger] route_plan(locations, costs, i, k, j) is None,
    ensures
        plans_to(locations, costs, i, k, m).len() == 0,
    decreases m,
{
    if m > 0 {
        lemma_no_plans_to(locations, costs, i, k, (m - 1) as nat);
    }
}

/// No trading plan is listed when fewer than two locations are remembered,
/// when no location holds fuel, or when no trip cost is known.
pub proof fn law_no_routes_without_partners_or_costs(locations: Seq<LocationQuote>, costs: Seq<Seq<Option<i32>>>)
    requires
        locations.len() <= 1 || !fuel_on_sale(locations) || forall|i: int, j: int| 0 <= i < locations.len() && 0 <= j < locations.len()
            ==> (#[trigger] costs[i][j]) is None,
    ensures
        route_plans(locations, costs, locations.len()).len() == 0,
{
    assert forall|i: int, k: int, j: int| 0 <= i < locations.len() && 0 <= k < locations[i].sell_prices@.len()
        && 0 <= j < locations.len() implies #[trigger] route_plan(locations, costs, i, k, j) is None by {
        if locations.len() <= 1 {
            assert(i == j);
        } else if !fuel_on_sale(locations) {
        } else {
            assert(costs[i][j] is None);
        }
    }
    lemma_no_plans(locations, costs, locations.len());
}

/// The trip costs as rows of values.
pub open spec fn cost_rows(costs: Seq<Vec<Option<i32>>>) -> Seq<Seq<Option<i32>>> {
    costs.map_values(|row: Vec<Option<i32>>| row@)
}

/// Lists the trading plans a trader can see: for each remembered location,
/// each item it sells and each other location, the route is judged when the
/// trip's cost is known (`costs[i][j]`) and the end buys the item; the plans
/// of the routes that earn money are listed, in order of start, item and
/// end. `None` when judging some route would overflow.
pub fn collect_trading_plans(locations: &Vec<LocationQuote>, costs: &Vec<Vec<Option<i32>>>) -> (r: Option<Vec<TradingPlan>>)
    requires
        costs@.len() == locations@.len(),
        forall|i: int| 0 <= i < costs@.len() ==> (#[trigger] costs@[i])@.len() == locations@.len(),
    ensures
        r matches Some(plans) ==> plans@ == route_plans(locations@, cost_rows(costs@), locations@.len()),
        r is None ==> exists|i: int, k: int, j: int| 0 <= i < locations@.len() && 0 <= k < locations@[i].sell_prices@.len()
            && 0 <= j < locations@.len() && #[trigger] route_overflows(locations@, cost_rows(costs@), i, k, j),
{
    let ghost locs = locations@;
    let ghost cs = cost_rows(costs@);
    if !any_fuel_on_sale(locations) {
        proof {
            assert forall|i: int, k: int, j: int| 0 <= i < locs.len() && 0 <= k < locs[i].sell_prices@.len()
                && 0 <= j < locs.len() implies #[trigger] route_plan(locs, cs, i, k, j) is None by {}
            lemma_no_plans(locs, cs, locs.len());
            assert(route_plans(locs, cs, locs.len()) =~= Seq::<TradingPlan>::empty());
        }
        return Some(Vec::new());
    }
    let n = locations.len();
    let mut plans: Vec<TradingPlan> = Vec::new();
    let mut i: usize = 0;
    while i < n
        invariant
            i <= n,
            n == locs.len(),
            locs == locations@,
            fuel_on_sale(locs),
            cs == cost_rows(costs@),
            costs@.len() == n,
            forall|a: int| 0 <= a < n ==> (#[trigger] costs@[a])@.len() == n,
            plans@ == route_plans(locs, cs, i as nat),
        decreases n - i,
    {
        let from = &locations[i];
        let items = from.sell_prices.len();
        let mut k: usize = 0;
        while k < items
            invariant
                i < n,
                k <= items,
                n == locs.len(),
                locs == locations@,
                fuel_on_sale(locs),
            fuel_on_sale(locs),
                *from == locs[i as int],
                items == from.sell_prices@.len(),
                cs == cost_rows(costs@),
                costs@.len() == n,
                forall|a: int| 0 <= a < n ==> (#[trigger] costs@[a])@.len() == n,
                plans@ == route_plans(locs, cs, i as nat) + plans_from(locs, cs, i as int, k as nat),
            decreases items - k,
        {
            let item = &from.sell_prices[k].0;
            let buy_price = from.sell_prices[k].1;
            let stock = from.stock.quantity(item.as_str());
            let mut j: usize = 0;
            while j < n
                invariant
                    i < n,
                    k < items,
                    j <= n,
                    n == locs.len(),
                    locs == locations@,
                    fuel_on_sale(locs),
                fuel_on_sale(locs),
            fuel_on_sale(locs),
                    *from == locs[i as int],
                    items == from.sell_prices@.len(),
                    *item == from.sell_prices@[k as int].0,
                    buy_price == from.sell_prices@[k as int].1,
                    stock == count_in(from.stock.contents(), item@),
                    cs == cost_rows(costs@),
                    costs@.len() == n,
                    forall|a: int| 0 <= a < n ==> (#[trigger] costs@[a])@.len() == n,
                    plans@ == route_plans(locs, cs, i as nat) + plans_from(locs, cs, i as int, k as nat)
                        + plans_to(locs, cs, i as int, k as int, j as nat),
                decreases n - j,
            {
                let ghost before = plans@;
                let to = &locations[j];
                assert(cs[i as int][j as int] == costs@[i as int]@[j as int]);
                if from.id != to.id {
                    match costs[i][j] {
                        None => {}
                        Some(travel_cost) => match find_price(&to.buy_prices, item) {
                            None => {}
                            Some(sell_price) => {
                                if !route_is_computable(buy_price, sell_price, travel_cost) {
                                    assert(route_overflows(locs, cs, i as int, k as int, j as int));
                                    return None;
                                }
                                match evaluate_route(buy_price, sell_price, travel_cost, stock, to.money) {
                                    None => {}
                                    Some((count, capital)) => {
                                        plans.push(TradingPlan {
                                            from: from.id,
                                            to: to.id,
                                            item: item.clone(),
                                            profit: (sell_price as i64) - (buy_price as i64),
                                            count,
                                            capital_required: capital,
                                            buy_price: buy_price as u64,
                                            sell_price: sell_price as u64,
                                        });
                                    }
                                }
                            }
                        },
                    }
                }
                proof {
                    let prefix = route_plans(locs, cs, i as nat) + plans_from(locs, cs, i as int, k as nat);
                    let done = plans_to(locs, cs, i as int, k as int, j as nat);
                    assert(before == prefix + done);
                    match route_plan(locs, cs, i as int, k as int, j as int) {
                        Some(p) => {
                            assert(plans@ == before.push(p));
                            assert(prefix + done.push(p) =~= (prefix + done).push(p));
                        }
                        None => {
                            assert(plans@ == before);
                        }
                    }
                }
                j = j + 1;
            }
            proof {
                let base = route_plans(locs, cs, i as nat);
                assert(base + plans_from(locs, cs, i as int, k as nat) + plans_to(locs, cs, i as int, k as int, n as nat)
                    =~= base + plans_from(locs, cs, i as int, (k + 1) as nat));
            }
            k = k + 1;
        }
        proof {
            assert(route_plans(locs, cs, i as nat) + plans_from(locs, cs, i as int, items as nat)
                =~= route_plans(locs, cs, (i + 1) as nat));
        }
        i = i + 1;
    }
    Some(plans)
}

} // verus!
