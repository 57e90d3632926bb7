//! The automaton as a mathematical value, and its three steps as functions
//! on that value. The executable automaton is specified against this model.

use crate::error::AutomataError;
use crate::transition::TransitionView;
use vstd::prelude::*;

verus! {

/// What an automaton stands for.
pub struct AutomataView {
    /// The name of the starting state, once one has been designated.
    pub initial_state: Option<Seq<char>>,
    /// The name of the state the automaton is in.
    pub current_state: Option<Seq<char>>,
    /// The names of the registered states, in the order of their registration.
    pub states: Seq<Seq<char>>,
    /// For each state that has outgoing transitions, those transitions in the
    /// order of their registration.
    pub transitions: Map<Seq<char>, Seq<TransitionView>>,
}

/// The earliest of `outgoing` that carries `trigger`, if any does.
pub open spec fn first_match(outgoing: Seq<TransitionView>, trigger: Seq<char>) -> Option<
    TransitionView,
>
    decreases outgoing.len(),
{
    if outgoing.len() == 0 {
        None
    } else if outgoing[0].trigger == trigger {
        Some(outgoing[0])
    } else {
        first_match(outgoing.drop_first(), trigger)
    }
}

/// Position `k` of `outgoing` carries `trigger`, and no earlier position does.
pub open spec fn earliest_at(outgoing: Seq<TransitionView>, trigger: Seq<char>, k: int) -> bool {
    &&& 0 <= k < outgoing.len()
    &&& outgoing[k].trigger == trigger
    &&& forall|j: int| 0 <= j < k ==> (#[trigger] outgoing[j]).trigger != trigger
}

impl AutomataView {
    /// The automaton without states.
    pub open spec fn empty() -> AutomataView {
        AutomataView {
            initial_state: None,
            current_state: None,
            states: Seq::empty(),
            transitions: Map::empty(),
        }
    }

    /// Whether a state called `name` is registered.
    pub open spec fn has_state(self, name: Seq<char>) -> bool {
        self.states.contains(name)
    }

    /// The registered names as a set.
    pub open spec fn names(self) -> Set<Seq<char>> {
        self.states.to_set()
    }

    /// The transitions that leave `name`, in the order of their registration.
    pub open spec fn outgoing(self, name: Seq<char>) -> Seq<TransitionView> {
        if self.transitions.contains_key(name) {
            self.transitions[name]
        } else {
            Seq::empty()
        }
    }

    /// The invariant of the data model: no name is registered twice, a current
    /// state exists exactly when an initial state does, both are registered,
    /// and every transition is filed under its own source and joins two
    /// registered states.
    pub open spec fn valid(self) -> bool {
        &&& self.states.no_duplicates()
        &&& self.initial_state is Some <==> self.current_state is Some
        &&& self.initial_state matches Some(name) ==> self.has_state(name)
        &&& self.current_state matches Some(name) ==> self.has_state(name)
        &&& forall|source: Seq<char>| #[trigger]
            self.transitions.contains_key(source) ==> self.has_state(source)
                && self.transitions[source].len() > 0
        &&& forall|source: Seq<char>, k: int|
            self.transitions.contains_key(source) && 0 <= k < self.transitions[source].len() ==> {
                &&& (#[trigger] self.transitions[source][k]).start_state == source
                &&& self.has_state(self.transitions[source][k].end_state)
            }
    }

    /// Registering the state `name`, as the initial one if `initial` is set.
    /// A second initial state is refused before the name is looked at; a name
    /// that is already registered is refused. Any name is accepted, the empty
    /// one included.
    pub open spec fn add_state(self, initial: bool, name: Seq<char>) -> Result<
        AutomataView,
        AutomataError,
    > {
        if initial && self.initial_state is Some {
            Err(AutomataError::DuplicateInitialState)
        } else if self.has_state(name) {
            Err(AutomataError::DuplicateState)
        } else {
            Ok(
                AutomataView {
                    initial_state: if initial {
                        Some(name)
                    } else {
                        self.initial_state
                    },
                    current_state: if initial {
                        Some(name)
                    } else {
                        self.current_state
                    },
                    states: self.states.push(name),
                    transitions: self.transitions,
                },
            )
        }
    }

    /// Registering a transition from `source` to `target` on `trigger`, behind
    /// those that already leave `source`.
    pub open spec fn add_transition(
        self,
        source: Seq<char>,
        target: Seq<char>,
        trigger: Seq<char>,
    ) -> Result<AutomataView, AutomataError> {
        if !self.has_state(source) || !self.has_state(target) {
            Err(AutomataError::UnknownState)
        } else {
            let edge = TransitionView { trigger, start_state: source, end_state: target };
            Ok(
                AutomataView {
                    transitions: self.transitions.insert(source, self.outgoing(source).push(edge)),
                    ..self
                },
            )
        }
    }

    /// Firing `trigger`: the automaton follows the earliest registered
    /// transition that leaves its current state on that trigger.
    pub open spec fn transition(self, trigger: Seq<char>) -> Result<AutomataView, AutomataError> {
        match self.current_state {
            None => Err(AutomataError::NoCurrentState),
            Some(current) => match first_match(self.outgoing(current), trigger) {
                None => Err(AutomataError::NoMatchingTransition),
                Some(edge) => Ok(AutomataView { current_state: Some(edge.end_state), ..self }),
            },
        }
    }
}

/// `first_match` finds the transition at the least position that carries the
/// trigger, and finds none exactly when no position carries it.
pub proof fn lemma_first_match(outgoing: Seq<TransitionView>, trigger: Seq<char>)
    ensures
        match first_match(outgoing, trigger) {
            Some(edge) => exists|k: int|
                earliest_at(outgoing, trigger, k) && #[trigger] outgoing[k] == edge,
            None => forall|j: int|
                0 <= j < outgoing.len() ==> (#[trigger] outgoing[j]).trigger != trigger,
        },
    decreases outgoing.len(),
{
    if outgoing.len() > 0 {
        if outgoing[0].trigger == trigger {
            assert(earliest_at(outgoing, trigger, 0));
        } else {
            let rest = outgoing.drop_first();
            lemma_first_match(rest, trigger);
            assert forall|j: int| 0 < j < outgoing.len() implies #[trigger] outgoing[j] == rest[j
                - 1] by {}
            if let Some(edge) = first_match(rest, trigger) {
                let k = choose|k: int| earliest_at(rest, trigger, k) && #[trigger] rest[k] == edge;
                assert(earliest_at(outgoing, trigger, k + 1));
            }
        }
    }
}

/// The empty automaton meets the invariant of the data model.
pub proof fn lemma_empty_valid()
    ensures
        AutomataView::empty().valid(),
{
}

/// Registering a state keeps the invariant of the data model.
pub proof fn lemma_add_state_valid(model: AutomataView, initial: bool, name: Seq<char>)
    requires
        model.valid(),
    ensures
        model.add_state(initial, name) matches Ok(next) ==> next.valid(),
{
    if let Ok(next) = model.add_state(initial, name) {
        lemma_push_keeps(model.states, name);
    }
}

/// Registering a transition keeps the invariant of the data model.
pub proof fn lemma_add_transition_valid(
    model: AutomataView,
    source: Seq<char>,
    target: Seq<char>,
    trigger: Seq<char>,
)
    requires
        model.valid(),
    ensures
        model.add_transition(source, target, trigger) matches Ok(next) ==> next.valid(),
{
}

/// Firing a trigger keeps the invariant of the data model.
pub proof fn lemma_transition_valid(model: AutomataView, trigger: Seq<char>)
    requires
        model.valid(),
    ensures
        model.transition(trigger) matches Ok(next) ==> next.valid(),
{
    if let Ok(next) = model.transition(trigger) {
        lemma_first_match(model.outgoing(model.current_state->0), trigger);
    }
}

/// A sequence without duplicates stays so when a value that it does not hold
/// is pushed, and then holds that value beside the ones it held.
pub proof fn lemma_push_keeps(names: Seq<Seq<char>>, name: Seq<char>)
    requires
        names.no_duplicates(),
        !names.contains(name),
    ensures
        names.push(name).no_duplicates(),
        names.push(name).contains(name),
        forall|other: Seq<char>|
            names.contains(other) ==> #[trigger] names.push(name).contains(other),
{
    let pushed = names.push(name);
    assert(pushed[names.len() as int] == name);
    assert forall|other: Seq<char>| names.contains(other) implies #[trigger] pushed.contains(
        other,
    ) by {
        let i = choose|i: int| 0 <= i < names.len() && names[i] == other;
        assert(pushed[i] == other);
    }
}

} // verus!
