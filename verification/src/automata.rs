//! The executable automaton: an arena of states in the order of their
//! registration, a hash index from each name to its place in the arena, and
//! beside each state the transitions that leave it.

use crate::error::AutomataError;
use crate::laws::{law_earliest_transition_wins, law_unmatched_trigger_refused};
use crate::model::{earliest_at, lemma_add_state_valid, lemma_transition_valid, AutomataView};
use crate::state::{names_of, State};
use crate::transition::{edges, edges_of, Transition, TransitionView};
use vstd::hash_map::StringHashMap;
use vstd::prelude::*;

verus! {

/// A finite-state automaton. States are added by name, at most one of them as
/// the initial state; transitions are added between registered states; firing
/// a trigger moves the automaton along the earliest registered transition that
/// leaves its current state on that trigger.
///
/// What an automaton stands for is its view, an [`AutomataView`]; every
/// operation says what it does to the view, and every automaton's view meets
/// [`AutomataView::valid`].
pub struct Automata {
    initial_state: Option<String>,
    current_state: Option<String>,
    /// The registered states, in the order of their registration.
    states: Vec<State>,
    /// The place of each registered name in `states`.
    index: StringHashMap<usize>,
    /// `transitions[i]` holds the transitions that leave `states[i]`, in the
    /// order of their registration.
    transitions: Vec<Vec<Transition>>,
}

/// The name that an optional string holds.
pub open spec fn name_of(name: Option<String>) -> Option<Seq<char>> {
    match name {
        Some(name) => Some(name@),
        None => None,
    }
}

/// The least position of `transitions` that carries `trigger`, if any does.
fn first_matching(transitions: &Vec<Transition>, trigger: &str) -> (found: Option<usize>)
    ensures
        match found {
            Some(k) => earliest_at(edges(transitions@), trigger@, k as int),
            None => forall|j: int|
                0 <= j < transitions@.len() ==> (#[trigger] edges(transitions@)[j]).trigger
                    != trigger@,
        },
{
    let wanted = trigger.to_owned();
    let mut k: usize = 0;
    while k < transitions.len()
        invariant
            wanted@ == trigger@,
            k <= transitions@.len(),
            forall|j: int|
                0 <= j < k ==> (#[trigger] edges(transitions@)[j]).trigger != trigger@,
        decreases transitions@.len() - k,
    {
        if transitions[k].trigger == wanted {
            return Some(k);
        }
        k += 1;
    }
    None
}

impl View for Automata {
    type V = AutomataView;

    closed spec fn view(&self) -> AutomataView {
        AutomataView {
            initial_state: name_of(self.initial_state),
            current_state: name_of(self.current_state),
            states: self.states@.map_values(|state: State| state@),
            transitions: Map::new(
                |name: Seq<char>|
                    self.index@.contains_key(name) && self.edges_at(self.index@[name] as int).len()
                        > 0,
                |name: Seq<char>| self.edges_at(self.index@[name] as int),
            ),
        }
    }
}

impl Automata {
    /// What the transitions beside the state at place `at` stand for.
    spec fn edges_at(&self, at: int) -> Seq<TransitionView> {
        edges(self.transitions@[at]@)
    }

    /// The invariant of the representation, which every automaton meets at all
    /// times: the index maps exactly the names in the arena, each to its place;
    /// every state has its list of transitions; every transition lies beside
    /// its source and leads to a registered state; the initial and the current
    /// state are registered, and one is set exactly when the other is.
    #[verifier::type_invariant]
    spec fn wf(&self) -> bool {
        &&& self.transitions@.len() == self.states@.len()
        &&& forall|i: int|
            0 <= i < self.states@.len() ==> self.index@.contains_key((#[trigger] self.states@[i])@)
                && self.index@[self.states@[i]@] == i
        &&& forall|name: Seq<char>| #[trigger]
            self.index@.contains_key(name) ==> self.index@[name] < self.states@.len()
                && self.states@[self.index@[name] as int]@ == name
        &&& forall|i: int, k: int|
            0 <= i < self.transitions@.len() && 0 <= k < self.transitions@[i]@.len() ==> {
                &&& (#[trigger] self.transitions@[i]@[k]).start_state@ == self.states@[i]@
                &&& self.index@.contains_key(self.transitions@[i]@[k].end_state@)
            }
        &&& self.initial_state is Some <==> self.current_state is Some
        &&& self.initial_state matches Some(name) ==> self.index@.contains_key(name@)
        &&& self.current_state matches Some(name) ==> self.index@.contains_key(name@)
    }

    /// A name is registered exactly when the index holds it.
    proof fn lemma_indexed(&self, name: Seq<char>)
        requires
            self.wf(),
        ensures
            self@.has_state(name) <==> self.index@.contains_key(name),
    {
        if self.index@.contains_key(name) {
            let at = self.index@[name] as int;
            assert(self@.states[at] == name);
        }
    }

    /// The invariant of the representation gives the invariant of the data
    /// model.
    proof fn lemma_view_valid(&self)
        requires
            self.wf(),
        ensures
            self@.valid(),
    {
        let model = self@;
        if let Some(name) = model.initial_state {
            self.lemma_indexed(name);
        }
        if let Some(name) = model.current_state {
            self.lemma_indexed(name);
        }
        assert forall|source: Seq<char>| #[trigger]
            model.transitions.contains_key(source) implies model.has_state(source)
            && model.transitions[source].len() > 0 by {
            self.lemma_indexed(source);
        }
        assert forall|source: Seq<char>, k: int|
            model.transitions.contains_key(source) && 0 <= k < model.transitions[source].len()
            implies {
            &&& (#[trigger] model.transitions[source][k]).start_state == source
            &&& model.has_state(model.transitions[source][k].end_state)
        } by {
            let at = self.index@[source] as int;
            self.lemma_indexed(self.transitions@[at]@[k].end_state@);
        }
    }

    /// The automaton without states.
    pub fn new() -> (automata: Automata)
        ensures
            automata@ == AutomataView::empty(),
            automata@.valid(),
    {
        let automata = Automata {
            initial_state: None,
            current_state: None,
            states: Vec::new(),
            index: StringHashMap::new(),
            transitions: Vec::new(),
        };
        assert(automata@.states =~= Seq::empty());
        assert(automata@.transitions =~= Map::empty());
        automata
    }

    /// Registers the state `state_name`, as the initial state if `initial` is
    /// set; the initial state is also the first current state. A second initial
    /// state is refused with `DuplicateInitialState`, whatever its name; a name
    /// that is already registered, with `DuplicateState`. Every name is
    /// accepted, the empty one included.
    pub fn add_state(&mut self, initial: bool, state_name: &str) -> (result: Result<
        (),
        AutomataError,
    >)
        ensures
            final(self)@.valid(),
            match old(self)@.add_state(initial, state_name@) {
                Ok(next) => result is Ok && final(self)@ == next,
                Err(error) => result == Err::<(), AutomataError>(error) && final(self)@ == old(
                    self,
                )@,
            },
    {
        proof {
            use_type_invariant(&*self);
            self.lemma_view_valid();
            self.lemma_indexed(state_name@);
        }
        if initial && self.initial_state.is_some() {
            return Err(AutomataError::DuplicateInitialState);
        }
        if self.index.contains_key(state_name) {
            return Err(AutomataError::DuplicateState);
        }
        // The parts are changed outside the automaton and put back together, so
        // that no automaton is ever seen half changed.
        let mut taken = Automata::new();
        std::mem::swap(self, &mut taken);
        let Automata { initial_state, current_state, mut states, mut index, mut transitions } =
            taken;
        let at: usize = states.len();
        states.push(State::new(state_name));
        index.insert(state_name.to_owned(), at);
        transitions.push(Vec::new());
        *self = if initial {
            Automata {
                initial_state: Some(state_name.to_owned()),
                current_state: Some(state_name.to_owned()),
                states,
                index,
                transitions,
            }
        } else {
            Automata { initial_state, current_state, states, index, transitions }
        };
        proof {
            let next = old(self)@.add_state(initial, state_name@)->Ok_0;
            lemma_add_state_valid(old(self)@, initial, state_name@);
            assert forall|i: int| 0 <= i < at implies self.edges_at(i) == old(self).edges_at(
                i,
            ) by {}
            assert(self@.states =~= next.states);
            assert(self@.transitions =~= next.transitions);
        }
        Ok(())
    }

    /// Registers a transition from `start_state` to `end_state` on `trigger`,
    /// behind those that already leave `start_state`. Both states must be
    /// registered: otherwise `UnknownState` is returned.
    pub fn add_transition(&mut self, start_state: &str, end_state: &str, trigger: &str) -> (result:
        Result<(), AutomataError>)
        ensures
            final(self)@.valid(),
            match old(self)@.add_transition(start_state@, end_state@, trigger@) {
                Ok(next) => result is Ok && final(self)@ == next,
                Err(error) => result == Err::<(), AutomataError>(error) && final(self)@ == old(
                    self,
                )@,
            },
    {
        proof {
            use_type_invariant(&*self);
            self.lemma_view_valid();
            self.lemma_indexed(start_state@);
            self.lemma_indexed(end_state@);
        }
        let from: usize = match self.index.get(start_state) {
            Some(at) => *at,
            None => {
                return Err(AutomataError::UnknownState);
            },
        };
        if !self.index.contains_key(end_state) {
            return Err(AutomataError::UnknownState);
        }
        let transition = Transition::new(start_state, end_state, trigger);
        let mut taken = Automata::new();
        std::mem::swap(self, &mut taken);
        let Automata { initial_state, current_state, states, index, mut transitions } = taken;
        transitions[from].push(transition);
        *self = Automata { initial_state, current_state, states, index, transitions };
        proof {
            let next = old(self)@.add_transition(start_state@, end_state@, trigger@)->Ok_0;
            assert(old(self)@.outgoing(start_state@) == old(self).edges_at(from as int));
            assert(self.edges_at(from as int) =~= old(self).edges_at(from as int).push(
                transition@,
            ));
            assert forall|i: int| 0 <= i < self.states@.len() && i != from implies self.edges_at(i)
                == old(self).edges_at(i) by {}
            assert(self@.transitions =~= next.transitions);
        }
        Ok(())
    }

    /// Fires `trigger`: the automaton moves to the target of the earliest
    /// registered transition that leaves its current state on that trigger.
    /// Without a current state `NoCurrentState` is returned, without such a
    /// transition `NoMatchingTransition`; the automaton then stays as it was.
    pub fn transition(&mut self, trigger: &str) -> (result: Result<(), AutomataError>)
        ensures
            final(self)@.valid(),
            match old(self)@.transition(trigger@) {
                Ok(next) => result is Ok && final(self)@ == next,
                Err(error) => result == Err::<(), AutomataError>(error) && final(self)@ == old(
                    self,
                )@,
            },
    {
        proof {
            use_type_invariant(&*self);
            self.lemma_view_valid();
        }
        let at: usize = match &self.current_state {
            Some(current) => *self.index.get(current.as_str()).unwrap(),
            None => {
                return Err(AutomataError::NoCurrentState);
            },
        };
        let ghost current = self@.current_state->0;
        assert(self@.outgoing(current) == self.edges_at(at as int));
        match first_matching(&self.transitions[at], trigger) {
            Some(k) => {
                let target = self.transitions[at][k].end_state.name.clone();
                self.current_state = Some(target);
                proof {
                    law_earliest_transition_wins(old(self)@, current, trigger@, k as int);
                    lemma_transition_valid(old(self)@, trigger@);
                    assert forall|i: int| 0 <= i < self.states@.len() implies self.edges_at(i)
                        == old(self).edges_at(i) by {}
                    assert(self@.transitions =~= old(self)@.transitions);
                }
                Ok(())
            },
            None => {
                proof {
                    law_unmatched_trigger_refused(self@, current, trigger@);
                }
                Err(AutomataError::NoMatchingTransition)
            },
        }
    }

    /// The registered states, in the order of their registration.
    pub fn get_states(&self) -> (states: Vec<&State>)
        ensures
            names_of(states@) == self@.states,
            self@.valid(),
    {
        proof {
            use_type_invariant(&*self);
            self.lemma_view_valid();
        }
        let mut states: Vec<&State> = Vec::new();
        let mut i: usize = 0;
        while i < self.states.len()
            invariant
                i <= self.states@.len(),
                states@.len() == i,
                forall|j: int| 0 <= j < i ==> (#[trigger] states@[j])@ == self.states@[j]@,
            decreases self.states@.len() - i,
        {
            states.push(&self.states[i]);
            i += 1;
        }
        states
    }

    /// The name of the state the automaton is in: none until an initial state
    /// has been registered.
    pub fn get_current_state(&self) -> (current: Option<String>)
        ensures
            name_of(current) == self@.current_state,
            self@.valid(),
    {
        proof {
            use_type_invariant(&*self);
            self.lemma_view_valid();
        }
        match &self.current_state {
            Some(name) => Some(name.clone()),
            None => None,
        }
    }

    /// The name of the initial state: none until one has been registered.
    pub fn get_initial_state(&self) -> (initial: Option<String>)
        ensures
            name_of(initial) == self@.initial_state,
            self@.valid(),
    {
        proof {
            use_type_invariant(&*self);
            self.lemma_view_valid();
        }
        match &self.initial_state {
            Some(name) => Some(name.clone()),
            None => None,
        }
    }

    /// The transitions that leave `state_name`, in the order of their
    /// registration: none for a name that is not registered.
    pub fn get_transitions(&self, state_name: &str) -> (transitions: Vec<&Transition>)
        ensures
            edges_of(transitions@) == self@.outgoing(state_name@),
            self@.valid(),
    {
        proof {
            use_type_invariant(&*self);
            self.lemma_view_valid();
        }
        let mut transitions: Vec<&Transition> = Vec::new();
        let at: usize = match self.index.get(state_name) {
            Some(at) => *at,
            None => {
                return transitions;
            },
        };
        let mut k: usize = 0;
        while k < self.transitions[at].len()
            invariant
                at < self.transitions@.len(),
                k <= self.transitions@[at as int]@.len(),
                transitions@.len() == k,
                forall|j: int|
                    0 <= j < k ==> (#[trigger] transitions@[j])@
                        == self.transitions@[at as int]@[j]@,
            decreases self.transitions@[at as int]@.len() - k,
        {
            transitions.push(&self.transitions[at][k]);
            k += 1;
        }
        transitions
    }
}

} // verus!
