use vstd::prelude::*;
use crate::state::PlannerState;

verus! {

/// Where an action stands in its execution.
#[derive(Clone, Copy, PartialEq, Eq, Structural, Debug)]
pub enum ActionState {
    INIT,
    PROGRESS,
    SUCCESS,
    FAILED,
}

impl Default for ActionState {
    fn default() -> (s: Self)
        ensures
            s == ActionState::INIT,
    {
        ActionState::INIT
    }
}

/// A number read off a state: either the same in every state, or computed
/// from the state by a measure rule.
#[derive(Clone, PartialEq, Eq, Debug)]
pub enum Weight<M> {
    Fixed(usize),
    Computed(M),
}

impl<M> Weight<M> {
    /// The weight's value in state `s`.
    pub open spec fn value_in<S: PlannerState<Measure = M>>(&self, s: S) -> usize {
        match self {
            Weight::Fixed(n) => *n,
            Weight::Computed(m) => s.spec_measure(*m),
        }
    }
}

impl<M: Clone> Weight<M> {
    /// A copy of the weight, given that cloning a measure gives back an equal one.
    pub(crate) fn duplicate(&self) -> (w: Self)
        requires
            forall|a: M, b: M| #[trigger] cloned::<M>(a, b) ==> a == b,
        ensures
            w == *self,
    {
        match self {
            Weight::Fixed(n) => Weight::Fixed(*n),
            Weight::Computed(m) => {
                let c = m.clone();
                assert(cloned::<M>(*m, c));
                Weight::Computed(c)
            }
        }
    }
}

/// A copy of an optional rule, given that cloning the rule gives back an equal one.
pub(crate) fn duplicate_rule<T: Clone>(r: &Option<T>) -> (c: Option<T>)
    requires
        forall|a: T, b: T| #[trigger] cloned::<T>(a, b) ==> a == b,
    ensures
        c == *r,
{
    match r {
        None => None,
        Some(x) => {
            let y = x.clone();
            assert(cloned::<T>(*x, y));
            Some(y)
        }
    }
}

/// Evaluates a weight in a state.
pub fn weight_in<S: PlannerState>(w: &Weight<S::Measure>, s: &S) -> (r: usize)
    ensures
        r == w.value_in(*s),
{
    match w {
        Weight::Fixed(n) => *n,
        Weight::Computed(m) => s.measure(m),
    }
}

/// Something the agent can do: enabled where its precondition holds, it
/// turns a state into the state its effect produces, at a cost.
///
/// `preconditions` is `None` for an action that is never enabled; `effect`
/// is `None` for an action that leaves the state as it is.
#[derive(Clone)]
pub struct Action<S: PlannerState> {
    pub key: String,
    pub cost: Weight<S::Measure>,
    pub effect: Option<S::Effect>,
    pub preconditions: Option<S::Condition>,
}

impl<S: PlannerState> Action<S> {
    /// Whether the action is enabled in state `s`.
    pub open spec fn enabled_in(&self, s: S) -> bool {
        match self.preconditions {
            None => false,
            Some(c) => s.spec_holds(c),
        }
    }

    /// Whether the action's effect can be applied to state `s`.
    pub open spec fn applicable_in(&self, s: S) -> bool {
        match self.effect {
            None => true,
            Some(e) => s.spec_applicable(e),
        }
    }

    /// The state that the action produces from `s`.
    pub open spec fn result_in(&self, s: S) -> S {
        match self.effect {
            None => s,
            Some(e) => s.spec_apply(e),
        }
    }

    /// The action's cost in state `s`.
    pub open spec fn cost_in(&self, s: S) -> usize {
        self.cost.value_in(s)
    }

    /// Wherever the action is enabled, its effect can be applied.
    pub open spec fn is_sound(&self) -> bool {
        forall|s: S| #[trigger] self.enabled_in(s) ==> self.applicable_in(s)
    }

    /// An action of cost 0 that is never enabled and changes nothing.
    pub fn new(key: &str) -> (a: Self)
        ensures
            a.key@ == key@,
            a.cost == Weight::<S::Measure>::Fixed(0),
            a.effect.is_none(),
            a.preconditions.is_none(),
    {
        Action {
            key: key.to_string(),
            cost: Weight::Fixed(0),
            effect: None,
            preconditions: None,
        }
    }

    pub fn with_effect(self, effect: S::Effect) -> (a: Self)
        ensures
            a == (Action { effect: Some(effect), ..self }),
    {
        Action { effect: Some(effect), ..self }
    }

    pub fn with_precondition(self, precondition: S::Condition) -> (a: Self)
        ensures
            a == (Action { preconditions: Some(precondition), ..self }),
    {
        Action { preconditions: Some(precondition), ..self }
    }

    pub fn with_cost(self, cost: S::Measure) -> (a: Self)
        ensures
            a == (Action { cost: Weight::Computed(cost), ..self }),
    {
        Action { cost: Weight::Computed(cost), ..self }
    }

    pub fn with_static_cost(self, cost: usize) -> (a: Self)
        ensures
            a == (Action { cost: Weight::Fixed(cost), ..self }),
    {
        Action { cost: Weight::Fixed(cost), ..self }
    }

    /// A copy of the action.
    pub(crate) fn duplicate(&self) -> (a: Self)
        ensures
            a == *self,
    {
        proof {
            S::lemma_clone_is_copy();
        }
        Action {
            key: self.key.clone(),
            cost: self.cost.duplicate(),
            effect: duplicate_rule(&self.effect),
            preconditions: duplicate_rule(&self.preconditions),
        }
    }

    /// Whether the action is enabled in `s`.
    pub fn is_enabled(&self, s: &S) -> (r: bool)
        ensures
            r == self.enabled_in(*s),
    {
        match &self.preconditions {
            None => false,
            Some(c) => s.holds(c),
        }
    }

    /// The state that the action produces from `s`.
    pub fn perform(&self, s: &S) -> (r: S)
        requires
            self.applicable_in(*s),
        ensures
            r == self.result_in(*s),
    {
        proof {
            S::lemma_clone_is_copy();
        }
        match &self.effect {
            None => {
                let r = s.clone();
                assert(cloned::<S>(*s, r));
                r
            }
            Some(e) => s.apply(e),
        }
    }
}

/// A marker for an action: it builds its planner action and reports its progress.
pub trait ActionComponent {
    /// The key of the planner action this marker stands for.
    spec fn action_key() -> Seq<char>;

    /// A new planner action under this marker's key, as `Action::new` makes it.
    fn new<S: PlannerState>() -> (a: Action<S>)
        ensures
            a.key@ == Self::action_key(),
            a.cost == Weight::<S::Measure>::Fixed(0),
            a.effect.is_none(),
            a.preconditions.is_none(),
    ;

    /// Where the marked action stands.
    spec fn action_state(&self) -> ActionState;

    fn get_state(&self) -> (r: &ActionState)
        ensures
            *r == self.action_state(),
    ;
}

} // verus!
