use vstd::prelude::*;
use vstd::std_specs::cmp::PartialEqSpec;
use crate::action::{Weight, weight_in, duplicate_rule};
use crate::distance::Distance;
use crate::state::PlannerState;

verus! {

/// Something the agent wants to be true of its state.
///
/// `requirements` is `None` for a goal that every state meets; `distance`
/// is `None` for a goal that adds nothing to a distance.
#[derive(Clone)]
pub struct Goal<S: PlannerState> {
    pub key: String,
    pub priority: Weight<S::Measure>,
    pub distance: Option<S::Gap>,
    pub requirements: Option<S::Condition>,
}

impl<S: PlannerState> Goal<S> {
    /// Whether the goal is met in state `s`.
    pub open spec fn reached_in(&self, s: S) -> bool {
        match self.requirements {
            None => true,
            Some(c) => s.spec_holds(c),
        }
    }

    /// The goal's priority in state `s`.
    pub open spec fn priority_in(&self, s: S) -> usize {
        self.priority.value_in(s)
    }

    /// What the goal's distance rule adds in state `s`.
    pub open spec fn gap_in(&self, s: S) -> usize {
        match self.distance {
            None => 0,
            Some(g) => s.spec_gap(g),
        }
    }

    /// A goal with priority 0, met in every state, at distance 0 from every state.
    pub fn new(key: &str) -> (g: Self)
        ensures
            g.key@ == key@,
            g.priority == Weight::<S::Measure>::Fixed(0),
            g.distance.is_none(),
            g.requirements.is_none(),
    {
        Goal {
            key: key.to_string(),
            priority: Weight::Fixed(0),
            distance: None,
            requirements: None,
        }
    }

    pub fn with_requirement(self, requirement: S::Condition) -> (g: Self)
        ensures
            g == (Goal { requirements: Some(requirement), ..self }),
    {
        Goal { requirements: Some(requirement), ..self }
    }

    pub fn with_distance(self, distance: S::Gap) -> (g: Self)
        ensures
            g == (Goal { distance: Some(distance), ..self }),
    {
        Goal { distance: Some(distance), ..self }
    }

    pub fn with_priority(self, priority: S::Measure) -> (g: Self)
        ensures
            g == (Goal { priority: Weight::Computed(priority), ..self }),
    {
        Goal { priority: Weight::Computed(priority), ..self }
    }

    /// A copy of the goal.
    pub(crate) fn duplicate(&self) -> (g: Self)
        ensures
            g == *self,
    {
        proof {
            S::lemma_clone_is_copy();
        }
        Goal {
            key: self.key.clone(),
            priority: self.priority.duplicate(),
            distance: duplicate_rule(&self.distance),
            requirements: duplicate_rule(&self.requirements),
        }
    }

    /// Whether the goal is met in `s`.
    pub fn is_reached(&self, s: &S) -> (r: bool)
        ensures
            r == self.reached_in(*s),
    {
        match &self.requirements {
            None => true,
            Some(c) => s.holds(c),
        }
    }

    /// The goal's priority in `s`.
    pub fn priority_of(&self, s: &S) -> (r: usize)
        ensures
            r == self.priority_in(*s),
    {
        weight_in(&self.priority, s)
    }

    /// The goal's distance rule applied to `d` in state `s`.
    pub fn distance_from(&self, s: &S, d: DistanceCalculator) -> (r: DistanceCalculator)
        requires
            d.value + self.gap_in(*s) <= usize::MAX,
        ensures
            r.value == d.value + self.gap_in(*s),
    {
        match &self.distance {
            None => d,
            Some(g) => s.gap(g, d),
        }
    }

    pub fn with_static_priority(self, priority: usize) -> (g: Self)
        ensures
            g == (Goal { priority: Weight::Fixed(priority), ..self }),
    {
        Goal { priority: Weight::Fixed(priority), ..self }
    }
}

/// Accumulates a distance, one term at a time.
pub struct DistanceCalculator {
    pub value: usize,
}

impl DistanceCalculator {
    pub fn new() -> (d: DistanceCalculator)
        ensures
            d.value == 0,
    {
        DistanceCalculator { value: 0 }
    }

    /// Adds the distance between `a` and `b`.
    pub fn add<T: Distance>(self, a: &T, b: &T) -> (d: Self)
        requires
            a.spec_distance_defined(b),
            self.value + a.spec_distance(b) <= usize::MAX,
        ensures
            d.value == self.value + a.spec_distance(b),
    {
        let v = self.value + a.distance(b);
        DistanceCalculator { value: v }
    }

    /// Adds one when `a` and `b` differ.
    pub fn add_eq<T: PartialEq>(self, a: &T, b: &T) -> (d: Self)
        requires
            self.value < usize::MAX || (T::obeys_eq_spec() && a.eq_spec(b)),
        ensures
            d.value == self.value || d.value == self.value + 1,
            T::obeys_eq_spec() ==> d.value == (if a.eq_spec(b) { self.value as int } else { self.value + 1 }),
    {
        if a != b {
            DistanceCalculator { value: self.value + 1 }
        } else {
            self
        }
    }
}

} // verus!
