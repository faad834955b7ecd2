use vstd::prelude::*;
use std::collections::VecDeque;
use crate::action::Action;
use crate::goal::{DistanceCalculator, Goal};
use crate::state::PlannerState;

verus! {

/// A node of the plan search: the start state, or the state an action reached.
#[derive(Clone, PartialEq, Eq, Hash, Debug)]
pub enum Node<S: PlannerState> {
    Action(String, S),
    State(S),
}

impl<S: PlannerState> Node<S> {
    pub open spec fn state_of(self) -> S {
        match self {
            Node::Action(_, s) => s,
            Node::State(s) => s,
        }
    }

    pub fn state(&self) -> (s: &S)
        ensures
            *s == self.state_of(),
    {
        match self {
            Node::Action(_, state) => state,
            Node::State(state) => state,
        }
    }
}

/// Every action is enabled only where its effect can be applied.
pub open spec fn all_sound<S: PlannerState>(actions: Seq<Action<S>>) -> bool {
    forall|i: int| 0 <= i < actions.len() ==> (#[trigger] actions[i]).is_sound()
}

/// The successors of state `s`, in the order of `actions`: one for each enabled
/// action, the node it reaches together with its cost.
pub open spec fn successors_of<S: PlannerState>(s: S, actions: Seq<Action<S>>) -> Seq<(Node<S>, usize)>
    decreases actions.len(),
{
    if actions.len() == 0 {
        Seq::empty()
    } else {
        let rest = successors_of(s, actions.drop_last());
        let a = actions.last();
        if a.enabled_in(s) {
            rest.push((Node::Action(a.key, a.result_in(s)), a.cost_in(s)))
        } else {
            rest
        }
    }
}

/// Moving from state `from` to node `to` at `cost` is the work of one enabled action.
pub open spec fn is_step<S: PlannerState>(from: S, to: Node<S>, cost: usize, actions: Seq<Action<S>>) -> bool {
    exists|i: int|
        0 <= i < actions.len() && #[trigger] actions[i].enabled_in(from) && to == Node::Action(
            actions[i].key,
            actions[i].result_in(from),
        ) && cost == actions[i].cost_in(from)
}

/// The sum of a sequence of step costs.
pub open spec fn total(costs: Seq<usize>) -> int
    decreases costs.len(),
{
    if costs.len() == 0 {
        0
    } else {
        total(costs.drop_last()) + costs.last()
    }
}

/// `path` starts at `start` and each next node is reached by a step of the given cost.
pub open spec fn is_walk<S: PlannerState>(path: Seq<Node<S>>, costs: Seq<usize>, start: S, actions: Seq<Action<S>>) -> bool {
    &&& path.len() >= 1
    &&& path[0] == Node::State(start)
    &&& costs.len() + 1 == path.len()
    &&& forall|i: int| 0 <= i < costs.len() ==> is_step(path[i].state_of(), path[i + 1], #[trigger] costs[i], actions)
}

/// `path` is a plan from `start` that meets `goal`, and `cost` is what its steps cost.
pub open spec fn is_plan<S: PlannerState>(path: Seq<Node<S>>, cost: int, start: S, actions: Seq<Action<S>>, goal: Goal<S>) -> bool {
    exists|costs: Seq<usize>| #[trigger] is_walk(path, costs, start, actions) && total(costs) == cost
        && goal.reached_in(path.last().state_of())
}

/// Some plan leads from `start` to a state that meets `goal`.
pub open spec fn plan_exists<S: PlannerState>(start: S, actions: Seq<Action<S>>, goal: Goal<S>) -> bool {
    exists|path: Seq<Node<S>>, cost: int| #[trigger] is_plan(path, cost, start, actions, goal)
}

/// On every walk from `start` that visits no node twice before its last
/// step, the cost so far plus the goal's distance estimate at its end fits
/// in a `usize`.
pub open spec fn search_fits<S: PlannerState>(start: S, actions: Seq<Action<S>>, goal: Goal<S>) -> bool {
    forall|path: Seq<Node<S>>, costs: Seq<usize>| #[trigger] is_walk(path, costs, start, actions)
        && path.drop_last().no_duplicates()
        ==> total(costs) + goal.gap_in(path.last().state_of()) <= usize::MAX
}

proof fn lemma_total_bounded(costs: Seq<usize>, max_cost: int)
    requires
        forall|i: int| 0 <= i < costs.len() ==> #[trigger] costs[i] <= max_cost,
        max_cost >= 0,
    ensures
        total(costs) <= costs.len() * max_cost,
    decreases costs.len(),
{
    if costs.len() > 0 {
        let rest = costs.drop_last();
        assert forall|i: int| 0 <= i < rest.len() implies #[trigger] rest[i] <= max_cost by {
            assert(rest[i] == costs[i]);
        }
        lemma_total_bounded(rest, max_cost);
        assert(costs.last() <= max_cost);
        assert(rest.len() * max_cost + max_cost == costs.len() * max_cost) by (nonlinear_arith)
            requires rest.len() + 1 == costs.len();
    }
}

/// A way to establish `search_fits`: every walk from `start` stays among
/// the finitely many nodes of `nodes`, every step costs at most `max_cost`,
/// the goal's estimate is at most `max_gap` on every state, and
/// `nodes.len() * max_cost + max_gap` fits in a `usize`.
pub proof fn lemma_search_fits_when_bounded<S: PlannerState>(
    start: S,
    actions: Seq<Action<S>>,
    goal: Goal<S>,
    nodes: Set<Node<S>>,
    max_cost: nat,
    max_gap: nat,
)
    requires
        nodes.finite(),
        forall|path: Seq<Node<S>>, costs: Seq<usize>, i: int|
            #![trigger is_walk(path, costs, start, actions), path[i]]
            is_walk(path, costs, start, actions) && 0 <= i < path.len() ==> nodes.contains(path[i]),
        forall|path: Seq<Node<S>>, costs: Seq<usize>, i: int|
            #![trigger is_walk(path, costs, start, actions), costs[i]]
            is_walk(path, costs, start, actions) && 0 <= i < costs.len() ==> costs[i] <= max_cost,
        forall|s: S| #[trigger] goal.gap_in(s) <= max_gap,
        nodes.len() * max_cost + max_gap <= usize::MAX,
    ensures
        search_fits(start, actions, goal),
{
    assert forall|path: Seq<Node<S>>, costs: Seq<usize>| #[trigger] is_walk(path, costs, start, actions)
        && path.drop_last().no_duplicates()
        implies total(costs) + goal.gap_in(path.last().state_of()) <= usize::MAX by {
        let prefix = path.drop_last();
        assert forall|i: int| 0 <= i < costs.len() implies #[trigger] costs[i] <= max_cost by {}
        lemma_total_bounded(costs, max_cost as int);
        prefix.unique_seq_to_set();
        assert(prefix.to_set().subset_of(nodes)) by {
            assert forall|n: Node<S>| prefix.to_set().contains(n) implies nodes.contains(n) by {
                let i = choose|i: int| 0 <= i < prefix.len() && prefix[i] == n;
                assert(path[i] == prefix[i]);
            }
        }
        vstd::set_lib::lemma_len_subset(prefix.to_set(), nodes);
        assert(costs.len() == prefix.len());
        assert(costs.len() * max_cost <= nodes.len() * max_cost) by (nonlinear_arith)
            requires costs.len() <= nodes.len();
        assert(goal.gap_in(path.last().state_of()) <= max_gap);
    }
}

/// The keys of the action nodes of a plan, in order.
pub open spec fn action_names<S: PlannerState>(plan: Seq<Node<S>>) -> Seq<String>
    decreases plan.len(),
{
    if plan.len() == 0 {
        Seq::empty()
    } else {
        let rest = action_names(plan.drop_last());
        match plan.last() {
            Node::Action(name, _) => rest.push(name),
            Node::State(_) => rest,
        }
    }
}

/// A plan's list of action keys has one key per step, in order: the key of
/// the action that makes each step.
pub proof fn law_plan_names_match_steps<S: PlannerState>(path: Seq<Node<S>>, costs: Seq<usize>, start: S, actions: Seq<Action<S>>)
    requires
        is_walk(path, costs, start, actions),
    ensures
        action_names(path).len() == path.len() - 1,
        forall|i: int| 0 < i < path.len() ==> path[i] == Node::Action(#[trigger] action_names(path)[i - 1], path[i].state_of()),
    decreases path.len(),
{
    if path.len() > 1 {
        let prefix = path.drop_last();
        let pc = costs.drop_last();
        assert(is_walk(prefix, pc, start, actions)) by {
            assert forall|i: int| 0 <= i < pc.len() implies is_step(prefix[i].state_of(), prefix[i + 1], #[trigger] pc[i], actions) by {
                assert(costs[i] == pc[i]);
            }
        }
        law_plan_names_match_steps(prefix, pc, start, actions);
        let n = path.len() - 1;
        assert(is_step(path[n - 1].state_of(), path[n], costs[n - 1], actions));
        let j = choose|j: int| 0 <= j < actions.len() && #[trigger] actions[j].enabled_in(path[n - 1].state_of()) && path[n] == Node::Action(
            actions[j].key, actions[j].result_in(path[n - 1].state_of())) && costs[n - 1] == actions[j].cost_in(path[n - 1].state_of());
        assert(path.last() == path[n]);
        assert(path.drop_last() == prefix);
        assert(action_names(path) == action_names(prefix).push(actions[j].key));
        assert forall|i: int| 0 < i < path.len() implies path[i] == Node::Action(#[trigger] action_names(path)[i - 1], path[i].state_of()) by {
            if i < n {
                assert(prefix[i] == path[i]);
            }
        }
    } else {
        assert(path.len() == 1);
        assert(path[0] == Node::<S>::State(start));
        assert(path.last() == path[0]);
        assert(action_names(path.drop_last()) == Seq::<String>::empty());
        assert(action_names(path) == action_names(path.drop_last()));
    }
}

/// Each successor is reached from `s` by one step.
pub proof fn lemma_successors_are_steps<S: PlannerState>(s: S, actions: Seq<Action<S>>)
    ensures
        forall|k: int| 0 <= k < successors_of(s, actions).len() ==>
            is_step(s, (#[trigger] successors_of(s, actions)[k]).0, successors_of(s, actions)[k].1, actions),
    decreases actions.len(),
{
    if actions.len() > 0 {
        let prefix = actions.drop_last();
        lemma_successors_are_steps(s, prefix);
        let succ = successors_of(s, actions);
        assert forall|k: int| 0 <= k < succ.len() implies is_step(s, (#[trigger] succ[k]).0, succ[k].1, actions) by {
            let rest = successors_of(s, prefix);
            if k < rest.len() {
                assert(succ[k] == rest[k]);
                assert(is_step(s, rest[k].0, rest[k].1, prefix));
                let i = choose|i: int| 0 <= i < prefix.len() && #[trigger] prefix[i].enabled_in(s) && rest[k].0 == Node::Action(
                    prefix[i].key, prefix[i].result_in(s)) && rest[k].1 == prefix[i].cost_in(s);
                assert(actions[i] == prefix[i]);
            } else {
                let i = actions.len() - 1;
                assert(actions[i].enabled_in(s));
            }
        }
    }
}

/// The nodes reachable in one step from `node`, with their costs, in the order of `actions`.
pub fn successors<S: PlannerState>(node: &Node<S>, actions: &Vec<Action<S>>) -> (r: Vec<(Node<S>, usize)>)
    requires
        all_sound(actions@),
    ensures
        r@ == successors_of(node.state_of(), actions@),
{
    let state = node.state();
    let mut result: Vec<(Node<S>, usize)> = Vec::new();
    let mut i: usize = 0;
    while i < actions.len()
        invariant
            i <= actions.len(),
            all_sound(actions@),
            *state == node.state_of(),
            result@ == successors_of(node.state_of(), actions@.take(i as int)),
        decreases actions.len() - i,
    {
        let action = &actions[i];
        assert(actions@.take(i + 1).drop_last() == actions@.take(i as int));
        assert(actions@.take(i + 1).last() == actions@[i as int]);
        if action.is_enabled(state) {
            assert(actions@[i as int].is_sound());
            let next = action.perform(state);
            let cost = crate::action::weight_in(&action.cost, state);
            result.push((Node::Action(action.key.clone(), next), cost));
        }
        i = i + 1;
    }
    assert(actions@.take(actions.len() as int) == actions@);
    result
}

/// The goal's estimate of how far `node` is from it.
pub fn heuristic<S: PlannerState>(node: &Node<S>, goal: &Goal<S>) -> (r: usize)
    ensures
        r == goal.gap_in(node.state_of()),
{
    goal.distance_from(node.state(), DistanceCalculator::new()).value
}

/// Whether `node` meets the goal.
pub fn is_goal<S: PlannerState>(node: &Node<S>, goal: &Goal<S>) -> (r: bool)
    ensures
        r == goal.reached_in(node.state_of()),
{
    goal.is_reached(node.state())
}

/// The keys of the actions of a plan, in the order they are to be done.
pub fn get_action_names_from_plan<S: PlannerState>(plan: &Vec<Node<S>>) -> (r: VecDeque<String>)
    ensures
        r@ == action_names(plan@),
{
    let mut nodes: VecDeque<String> = VecDeque::new();
    let mut i: usize = 0;
    while i < plan.len()
        invariant
            i <= plan.len(),
            nodes@ == action_names(plan@.take(i as int)),
        decreases plan.len() - i,
    {
        assert(plan@.take(i + 1).drop_last() == plan@.take(i as int));
        assert(plan@.take(i + 1).last() == plan@[i as int]);
        match &plan[i] {
            Node::Action(name, _) => nodes.push_back(name.clone()),
            Node::State(_) => {}
        }
        i = i + 1;
    }
    assert(plan@.take(plan.len() as int) == plan@);
    nodes
}


/// Calls `pathfinding::directed::astar::astar` from the start node, with this
/// module's `successors`, `heuristic` and `is_goal` as its three closures.
///
/// Claimed of the call, as its source shows: a returned path starts at the
/// start node (a clone of it), each next node is a successor of the one before,
/// no node appears twice (the path follows a chain of parent links, which
/// cannot loop), the last node meets the goal, and the returned cost is at
/// least what the path's steps cost; `None` comes only after every node
/// reachable from the start was expanded without meeting the goal. The start
/// is the first node checked, so a start that meets the goal gives the
/// one-node path at cost 0. When the goal's estimate never overestimates
/// what a plan costs, the goal is taken off the open list at a cost no
/// larger than any plan's (the documented A* guarantee), which with the
/// bound above makes the cost exactly the path's and the least of all plans.
/// The sums it computes are the cost of a walk from the start that repeats
/// no node, one step more, plus the heuristic at the walk's end (a node's
/// recorded cost only drops when a cheaper walk to it is found, so no
/// recorded walk passes a node twice); `search_fits` bounds them.
/// The returned cost is the goal node's recorded cost when it leaves the
/// open list, and a node's recorded cost is always what the steps of the
/// recorded walk to it cost, a walk that repeats no node (a later, stale
/// entry for the same node has a higher cost and the same estimate, so it
/// leaves the open list later). The returned cost can exceed the path's: when an estimate that
/// overestimates lets the goal leave the open list before a node on its
/// parent chain is re-expanded at a lower cost, the goal's recorded cost is
/// the older, higher one, while the rebuilt path follows the cheaper chain.
/// The search keys nodes by `Hash` and `==`; the claims rely on the two
/// agreeing for `Node<S>`, as the derived `Hash` and the `==` that
/// `lemma_eq_is_equality` makes equality do for the states of this crate.
/// Not claimed: that the search ends when infinitely many states are
/// reachable.
#[verifier::external_body]
fn astar_search<S: PlannerState>(start: &Node<S>, actions: &Vec<Action<S>>, goal: &Goal<S>) -> (r: Option<(Vec<Node<S>>, usize)>)
    requires
        all_sound(actions@),
        *start == Node::State(start.state_of()),
        search_fits(start.state_of(), actions@, *goal),
        forall|a: S, b: S| #[trigger] cloned::<S>(a, b) ==> a == b,
        vstd::laws_eq::obeys_concrete_eq::<S>(),
    ensures
        r matches Some((path, cost)) ==> found_plan(path@, cost as int, start.state_of(), actions@, *goal)
            && path@.no_duplicates(),
        r matches Some((path, cost)) ==> simple_walk_cost(cost as int, start.state_of(), actions@, path@.last()),
        r is None ==> !plan_exists(start.state_of(), actions@, *goal),
        r is None ==> !goal.reached_in(start.state_of()),
        r matches Some((path, cost)) ==> (goal.reached_in(start.state_of()) ==> path@ == seq![*start] && cost == 0),
        r matches Some((path, cost)) ==> (never_overestimates(actions@, *goal) ==> no_cheaper_plan(cost as int, start.state_of(), actions@, *goal)),
{
    pathfinding::directed::astar::astar(
        start,
        |node| successors(node, actions),
        |node| heuristic(node, goal),
        |node| is_goal(node, goal),
    )
}

/// `path` is a walk from `start` to a state that meets `goal`, whose steps
/// cost at most `cost` in all.
pub open spec fn found_plan<S: PlannerState>(path: Seq<Node<S>>, cost: int, start: S, actions: Seq<Action<S>>, goal: Goal<S>) -> bool {
    exists|costs: Seq<usize>| #[trigger] is_walk(path, costs, start, actions) && total(costs) <= cost
        && goal.reached_in(path.last().state_of())
}

/// `cost` is what the steps of some walk from `start` cost, a walk that
/// repeats no node and ends at `last`.
pub open spec fn simple_walk_cost<S: PlannerState>(cost: int, start: S, actions: Seq<Action<S>>, last: Node<S>) -> bool {
    exists|path: Seq<Node<S>>, costs: Seq<usize>| #[trigger] is_walk(path, costs, start, actions)
        && path.no_duplicates() && path.last() == last && total(costs) == cost
}

/// The goal's distance estimate at any state is at most what any plan from
/// that state costs.
pub open spec fn never_overestimates<S: PlannerState>(actions: Seq<Action<S>>, goal: Goal<S>) -> bool {
    forall|s: S, path: Seq<Node<S>>, costs: Seq<usize>| #[trigger] is_walk(path, costs, s, actions)
        && goal.reached_in(path.last().state_of()) ==> goal.gap_in(s) <= total(costs)
}

/// No plan from `start` that meets `goal` costs less than `cost`.
pub open spec fn no_cheaper_plan<S: PlannerState>(cost: int, start: S, actions: Seq<Action<S>>, goal: Goal<S>) -> bool {
    forall|path: Seq<Node<S>>, costs: Seq<usize>| #[trigger] is_walk(path, costs, start, actions)
        && goal.reached_in(path.last().state_of()) ==> cost <= total(costs)
}

/// Searches for a sequence of actions that leads from `start` to a state
/// that meets `goal`.
///
/// A returned path starts at `start`, each of its nodes is reached from the
/// one before by an enabled action, no node appears twice, and its last
/// state meets the goal; `None` means that no such sequence exists. A start
/// that meets the goal gives the one-node plan at cost 0, and with a goal
/// estimate that never overestimates, the plan is a cheapest one and its
/// cost is exactly what its steps cost.
pub fn make_plan<S: PlannerState>(start: &S, actions: &Vec<Action<S>>, goal: &Goal<S>) -> (r: Option<(Vec<Node<S>>, usize)>)
    requires
        all_sound(actions@),
        search_fits(*start, actions@, *goal),
    ensures
        r matches Some((path, cost)) ==> found_plan(path@, cost as int, *start, actions@, *goal)
            && path@.no_duplicates(),
        r matches Some((path, cost)) ==> simple_walk_cost(cost as int, *start, actions@, path@.last()),
        r is None ==> !plan_exists(*start, actions@, *goal),
        r is None ==> !goal.reached_in(*start),
        r matches Some((path, cost)) ==> (goal.reached_in(*start) ==> path@ == seq![Node::State(*start)] && cost == 0),
        r matches Some((path, cost)) ==> (never_overestimates(actions@, *goal) ==> no_cheaper_plan(cost as int, *start, actions@, *goal)
            && is_plan(path@, cost as int, *start, actions@, *goal)),
{
    proof {
        S::lemma_clone_is_copy();
        S::lemma_eq_is_equality();
    }
    let s = start.clone();
    assert(cloned::<S>(*start, s));
    let node = Node::State(s);
    let r = astar_search(&node, actions, goal);
    proof {
        if never_overestimates(actions@, *goal) && r is Some {
            let (path, cost) = r.unwrap();
            {
                let costs = choose|costs: Seq<usize>| #[trigger] is_walk(path@, costs, *start, actions@)
                    && total(costs) <= cost && goal.reached_in(path@.last().state_of());
                assert(cost <= total(costs));
                assert(is_walk(path@, costs, *start, actions@) && total(costs) == cost as int
                    && goal.reached_in(path@.last().state_of()));
            }
        }
    }
    r
}

/// Goals before index `k` are each met in `state` already or cannot be planned for.
pub open spec fn passed_over<S: PlannerState>(state: S, actions: Seq<Action<S>>, goals: Seq<Goal<S>>, k: int) -> bool {
    forall|j: int| 0 <= j < k ==> (#[trigger] goals[j]).reached_in(state) || !plan_exists(state, actions, goals[j])
}

/// Picks the goal to pursue and a plan for it: the first goal, in the order
/// given, that `state` does not meet yet and that some plan reaches.
///
/// With no such goal, both parts of the result are `None`.
pub fn select_plan<S: PlannerState>(state: &S, actions: &Vec<Action<S>>, goals: &Vec<Goal<S>>) -> (r: (Option<(Vec<Node<S>>, usize)>, Option<Goal<S>>))
    requires
        all_sound(actions@),
        forall|j: int| 0 <= j < goals.len() ==> search_fits(*state, actions@, #[trigger] goals@[j]),
    ensures
        r.1 is None ==> r.0 is None && passed_over(*state, actions@, goals@, goals.len() as int),
        r.1 matches Some(g) ==> exists|k: int| 0 <= k < goals.len() && #[trigger] goals@[k] == g
            && passed_over(*state, actions@, goals@, k) && !g.reached_in(*state)
            && (r.0 matches Some((path, cost)) && found_plan(path@, cost as int, *state, actions@, g)
                && path@.no_duplicates()
                && simple_walk_cost(cost as int, *state, actions@, path@.last())
                && (never_overestimates(actions@, g) ==> no_cheaper_plan(cost as int, *state, actions@, g)
                    && is_plan(path@, cost as int, *state, actions@, g))),
{
    let mut plan: Option<(Vec<Node<S>>, usize)> = None;
    let mut i: usize = 0;
    while i < goals.len()
        invariant
            i <= goals.len(),
            all_sound(actions@),
            forall|j: int| 0 <= j < goals.len() ==> search_fits(*state, actions@, #[trigger] goals@[j]),
            plan is None,
            passed_over(*state, actions@, goals@, i as int),
        decreases goals.len() - i,
    {
        let goal = &goals[i];
        if goal.is_reached(state) {
            i = i + 1;
            continue;
        }
        assert(search_fits(*state, actions@, goals@[i as int]));
        plan = make_plan(state, actions, goal);
        if plan.is_some() {
            let chosen = goal.duplicate();
            assert(goals@[i as int] == chosen);
            return (plan, Some(chosen));
        }
        i = i + 1;
    }
    (plan, None)
}


/// The agent's planning state: its goals and actions, the goal and action
/// it is pursuing, and the keys of the plan's remaining actions.
pub struct Planner<S: PlannerState> {
    pub all_goals: Vec<Goal<S>>,
    pub all_actions: Vec<Action<S>>,
    pub action: Option<Action<S>>,
    pub goal: Option<Goal<S>>,
    pub plan: VecDeque<String>,
}

/// `after` holds the goals of `before`, each once (`after[a]` is
/// `before[origin[a]]`), ordered by priority in `state` from highest to
/// lowest, with goals of equal priority in their order in `before`.
pub open spec fn sorted_by_priority<S: PlannerState>(origin: Seq<int>, before: Seq<Goal<S>>, after: Seq<Goal<S>>, state: S) -> bool {
    &&& origin.len() == after.len() == before.len()
    &&& forall|a: int| 0 <= a < origin.len() ==> 0 <= #[trigger] origin[a] < before.len()
    &&& forall|a: int, b: int| 0 <= a < b < origin.len() ==> #[trigger] origin[a] != #[trigger] origin[b]
    &&& forall|a: int| 0 <= a < after.len() ==> #[trigger] after[a] == before[origin[a]]
    &&& forall|a: int, b: int| 0 <= a < b < after.len() ==>
        (#[trigger] after[a]).priority_in(state) >= (#[trigger] after[b]).priority_in(state)
    &&& forall|a: int, b: int| 0 <= a < b < after.len()
        && (#[trigger] after[a]).priority_in(state) == (#[trigger] after[b]).priority_in(state)
        ==> origin[a] < origin[b]
}

/// Index `k` holds the last action of `actions` whose key is `key`.
pub open spec fn last_with_key<S: PlannerState>(actions: Seq<Action<S>>, key: Seq<char>, k: int) -> bool {
    &&& 0 <= k < actions.len()
    &&& actions[k].key@ == key
    &&& forall|j: int| k < j < actions.len() ==> (#[trigger] actions[j]).key@ != key
}

/// What the agent does with the plan the search handed back.
#[derive(PartialEq, Eq, Debug)]
pub enum PlanStep {
    /// No plan was found.
    NoPlan,
    /// The plan has no action.
    EmptyPlan,
    /// The plan's first action is not one of the planner's actions.
    UnknownAction(String),
    /// Start the action `key`; when `replace_current` holds, the actions
    /// started before are withdrawn first.
    Start { key: String, replace_current: bool },
}

impl<S: PlannerState> Planner<S> {
    pub fn new(goals: Vec<Goal<S>>, actions: Vec<Action<S>>) -> (p: Self)
        ensures
            p.all_goals == goals,
            p.all_actions == actions,
            p.action is None,
            p.goal is None,
            p.plan@.len() == 0,
    {
        Planner {
            all_goals: goals,
            all_actions: actions,
            action: None,
            goal: None,
            plan: VecDeque::new(),
        }
    }

    /// Whether `action` is the action being pursued (by key).
    pub fn is_current_action(&self, action: &Action<S>) -> (r: bool)
        ensures
            r == (self.action matches Some(current) && current.key@ == action.key@),
    {
        match &self.action {
            None => false,
            Some(current) => current.key == action.key,
        }
    }

    /// Orders the goals by their priority in `state`, highest first; goals
    /// of equal priority keep their order.
    pub fn sort_goals(&mut self, state: &S)
        ensures
            exists|origin: Seq<int>| sorted_by_priority(origin, old(self).all_goals@, final(self).all_goals@, *state),
            final(self).all_actions == old(self).all_actions,
            final(self).action == old(self).action,
            final(self).goal == old(self).goal,
            final(self).plan == old(self).plan,
    {
        let mut input: Vec<Goal<S>> = Vec::new();
        std::mem::swap(&mut input, &mut self.all_goals);
        let ghost before = input@;
        let ghost n = before.len();
        let mut sorted: Vec<Goal<S>> = Vec::new();
        let mut prios: Vec<usize> = Vec::new();
        let ghost mut origin: Seq<int> = Seq::empty();
        let ghost mut k: int = 0;
        while input.len() > 0
            invariant
                0 <= k <= n,
                n == before.len(),
                before == old(self).all_goals@,
                self.all_actions == old(self).all_actions,
                self.action == old(self).action,
                self.goal == old(self).goal,
                self.plan == old(self).plan,
                input@.len() + k == n,
                input@ == before.skip(k),
                sorted@.len() == k,
                prios@.len() == k,
                origin.len() == k,
                forall|a: int| 0 <= a < k ==> 0 <= #[trigger] origin[a] < k,
                forall|a: int, b: int| 0 <= a < b < k ==> #[trigger] origin[a] != #[trigger] origin[b],
                forall|a: int| 0 <= a < k ==> #[trigger] sorted@[a] == before[origin[a]],
                forall|a: int| 0 <= a < k ==> #[trigger] prios@[a] == sorted@[a].priority_in(*state),
                forall|a: int, b: int| 0 <= a < b < k ==> #[trigger] prios@[a] >= #[trigger] prios@[b],
                forall|a: int, b: int| 0 <= a < b < k && #[trigger] prios@[a] == #[trigger] prios@[b]
                    ==> origin[a] < origin[b],
            decreases input.len(),
        {
            assert(input@[0] == before[k]);
            let g = input.remove(0);
            assert(input@ == before.skip(k + 1));
            let p = g.priority_of(state);
            let mut j: usize = 0;
            while j < prios.len() && prios[j] >= p
                invariant
                    j <= prios.len(),
                    forall|a: int| 0 <= a < j ==> #[trigger] prios@[a] >= p,
                decreases prios.len() - j,
            {
                j = j + 1;
            }
            let ghost old_prios = prios@;
            let ghost old_sorted = sorted@;
            let ghost old_origin = origin;
            assert(forall|a: int| j <= a < old_prios.len() ==> #[trigger] old_prios[a] < p) by {
                assert forall|a: int| j <= a < old_prios.len() implies #[trigger] old_prios[a] < p by {
                    if j < old_prios.len() {
                        assert(old_prios[j as int] < p);
                        if a > j {
                            assert(old_prios[j as int] >= old_prios[a]);
                        }
                    }
                }
            }
            sorted.insert(j, g);
            prios.insert(j, p);
            proof {
                origin = origin.insert(j as int, k);
                assert forall|a: int| 0 <= a < k + 1 implies #[trigger] sorted@[a] == before[origin[a]] by {
                    if a < j { assert(sorted@[a] == old_sorted[a]); assert(origin[a] == old_origin[a]); }
                    else if a > j { assert(sorted@[a] == old_sorted[a - 1]); assert(origin[a] == old_origin[a - 1]); }
                }
                assert forall|a: int| 0 <= a < k + 1 implies #[trigger] prios@[a] == sorted@[a].priority_in(*state) by {
                    if a < j { assert(prios@[a] == old_prios[a]); }
                    else if a > j { assert(prios@[a] == old_prios[a - 1]); }
                }
                assert forall|a: int, b: int| 0 <= a < b < k + 1 implies #[trigger] prios@[a] >= #[trigger] prios@[b] by {
                    let pa = if a < j { a } else if a == j { -1 } else { a - 1 };
                    let pb = if b < j { b } else if b == j { -1 } else { b - 1 };
                    if a != j && b != j { assert(old_prios[pa] >= old_prios[pb]); }
                    else if a == j { assert(old_prios[pb] < p); }
                    else { assert(old_prios[pa] >= p); }
                }
                assert forall|a: int, b: int| 0 <= a < b < k + 1 && #[trigger] prios@[a] == #[trigger] prios@[b]
                    implies origin[a] < origin[b] by {
                    let pa = if a < j { a } else if a == j { -1 } else { a - 1 };
                    let pb = if b < j { b } else if b == j { -1 } else { b - 1 };
                    if a != j && b != j { assert(old_prios[pa] == old_prios[pb]); }
                    else if a == j { assert(old_prios[pb] < p); }
                    else { assert(old_origin[pa] < k); }
                }
                assert forall|a: int, b: int| 0 <= a < b < k + 1 implies #[trigger] origin[a] != #[trigger] origin[b] by {
                    let pa = if a < j { a } else if a == j { -1 } else { a - 1 };
                    let pb = if b < j { b } else if b == j { -1 } else { b - 1 };
                    if a != j && b != j { assert(old_origin[pa] != old_origin[pb]); }
                    else if a == j { assert(old_origin[pb] < k); }
                    else { assert(old_origin[pa] < k); }
                }
                assert forall|a: int| 0 <= a < k + 1 implies 0 <= #[trigger] origin[a] < k + 1 by {
                    if a < j { assert(origin[a] == old_origin[a]); }
                    else if a > j { assert(origin[a] == old_origin[a - 1]); }
                }
                k = k + 1;
            }
        }
        proof {
            assert(k == n);
            assert forall|a: int, b: int| 0 <= a < b < sorted@.len() implies
                (#[trigger] sorted@[a]).priority_in(*state) >= (#[trigger] sorted@[b]).priority_in(*state) by {
                assert(prios@[a] >= prios@[b]);
            }
            assert forall|a: int, b: int| 0 <= a < b < sorted@.len()
                && (#[trigger] sorted@[a]).priority_in(*state) == (#[trigger] sorted@[b]).priority_in(*state)
                implies origin[a] < origin[b] by {
                assert(prios@[a] == prios@[b]);
            }
            assert(sorted_by_priority(origin, before, sorted@, *state));
        }
        self.all_goals = sorted;
        assert(sorted_by_priority(origin, old(self).all_goals@, self.all_goals@, *state));
    }

    /// Index of the last action with key `key`, if any.
    fn find_action(&self, key: &String) -> (r: Option<usize>)
        ensures
            r matches Some(k) ==> last_with_key(self.all_actions@, key@, k as int),
            r is None ==> forall|j: int| 0 <= j < self.all_actions@.len() ==> (#[trigger] self.all_actions@[j]).key@ != key@,
    {
        let mut i: usize = self.all_actions.len();
        while i > 0
            invariant
                i <= self.all_actions.len(),
                forall|j: int| i <= j < self.all_actions@.len() ==> (#[trigger] self.all_actions@[j]).key@ != key@,
            decreases i,
        {
            if self.all_actions[i - 1].key == *key {
                return Some(i - 1);
            }
            i = i - 1;
        }
        None
    }

    /// Takes in the result of a plan search: records the goal and the plan's
    /// action keys, and picks the plan's first action as the current action.
    pub fn take_plan_result(&mut self, plan: Option<(Vec<Node<S>>, usize)>, goal: Option<Goal<S>>) -> (r: PlanStep)
        ensures
            final(self).goal == goal,
            final(self).all_goals == old(self).all_goals,
            final(self).all_actions == old(self).all_actions,
            plan is None ==> r == PlanStep::NoPlan && final(self).plan == old(self).plan
                && final(self).action == old(self).action,
            plan matches Some((path, _)) ==> {
                let names = action_names(path@);
                &&& final(self).plan@ == names
                &&& names.len() == 0 ==> r == PlanStep::EmptyPlan && final(self).action == old(self).action
                &&& names.len() > 0 && (forall|j: int| 0 <= j < old(self).all_actions@.len()
                    ==> (#[trigger] old(self).all_actions@[j]).key@ != names[0]@)
                    ==> r == PlanStep::UnknownAction(names[0]) && final(self).action == old(self).action
                &&& forall|k: int| names.len() > 0 && #[trigger] last_with_key(old(self).all_actions@, names[0]@, k)
                    ==> final(self).action == Some(old(self).all_actions@[k])
                        && r == (PlanStep::Start {
                            key: names[0],
                            replace_current: old(self).action matches Some(a) && a.key@ != names[0]@,
                        })
            },
    {
        self.goal = goal;
        let path = match plan {
            None => { return PlanStep::NoPlan; }
            Some((path, _)) => path,
        };
        let names = get_action_names_from_plan(&path);
        self.plan = names;
        if self.plan.len() == 0 {
            return PlanStep::EmptyPlan;
        }
        let key = self.plan[0].clone();
        match self.find_action(&key) {
            None => PlanStep::UnknownAction(key),
            Some(k) => {
                let found = self.all_actions[k].duplicate();
                let replace_current = self.action.is_some() && !self.is_current_action(&found);
                self.action = Some(found);
                PlanStep::Start { key, replace_current }
            }
        }
    }
}

} // verus!
