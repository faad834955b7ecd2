use vstd::prelude::*;
use std::fmt::Debug;
use std::hash::Hash;
use crate::goal::DistanceCalculator;

verus! {

/// The world model a planner searches over.
///
/// A state names four kinds of rules, each a plain value the state knows how
/// to evaluate: a `Condition` (an action's precondition or a goal's
/// requirement), an `Effect` (what an action does to the state), a `Measure`
/// (a cost or a priority computed from the state) and a `Gap` (how far the
/// state is from a goal, added to a `DistanceCalculator`).
pub trait PlannerState: Sized + Clone + Eq + Hash + Default + Debug {
    type Condition: Clone;
    type Effect: Clone;
    type Measure: Clone;
    type Gap: Clone;

    /// Whether the condition holds in this state.
    spec fn spec_holds(&self, c: Self::Condition) -> bool;

    /// Whether the effect can be applied to this state.
    spec fn spec_applicable(&self, e: Self::Effect) -> bool;

    /// The state that the effect produces.
    spec fn spec_apply(&self, e: Self::Effect) -> Self;

    /// The value of the measure in this state.
    spec fn spec_measure(&self, m: Self::Measure) -> usize;

    /// The amount that the gap rule adds to a distance in this state.
    spec fn spec_gap(&self, g: Self::Gap) -> usize;

    /// Cloning a state, or one of its rules, gives back an equal value.
    proof fn lemma_clone_is_copy()
        ensures
            forall|a: Self, b: Self| #[trigger] cloned::<Self>(a, b) ==> a == b,
            forall|a: Self::Condition, b: Self::Condition| #[trigger] cloned::<Self::Condition>(a, b) ==> a == b,
            forall|a: Self::Effect, b: Self::Effect| #[trigger] cloned::<Self::Effect>(a, b) ==> a == b,
            forall|a: Self::Measure, b: Self::Measure| #[trigger] cloned::<Self::Measure>(a, b) ==> a == b,
            forall|a: Self::Gap, b: Self::Gap| #[trigger] cloned::<Self::Gap>(a, b) ==> a == b,
    ;

    /// `==` on states is equality of their values.
    proof fn lemma_eq_is_equality()
        ensures
            vstd::laws_eq::obeys_concrete_eq::<Self>(),
    ;

    fn holds(&self, c: &Self::Condition) -> (r: bool)
        ensures
            r == self.spec_holds(*c),
    ;

    fn apply(&self, e: &Self::Effect) -> (r: Self)
        requires
            self.spec_applicable(*e),
        ensures
            r == self.spec_apply(*e),
    ;

    fn measure(&self, m: &Self::Measure) -> (r: usize)
        ensures
            r == self.spec_measure(*m),
    ;

    fn gap(&self, g: &Self::Gap, d: DistanceCalculator) -> (r: DistanceCalculator)
        requires
            d.value + self.spec_gap(*g) <= usize::MAX,
        ensures
            r.value == d.value + self.spec_gap(*g),
    ;
}

} // verus!
