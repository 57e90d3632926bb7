use crate::state::State;
use vstd::prelude::*;

verus! {

/// A directed edge of the automaton's graph: firing `trigger` while the
/// automaton is in `start_state` moves it to `end_state`.
#[derive(Debug)]
pub struct Transition {
    pub trigger: String,
    pub start_state: State,
    pub end_state: State,
}

/// What a [`Transition`] stands for: the trigger and the names of its two ends.
pub struct TransitionView {
    pub trigger: Seq<char>,
    pub start_state: Seq<char>,
    pub end_state: Seq<char>,
}

impl View for Transition {
    type V = TransitionView;

    open spec fn view(&self) -> TransitionView {
        TransitionView {
            trigger: self.trigger@,
            start_state: self.start_state@,
            end_state: self.end_state@,
        }
    }
}

/// What `transitions` stand for, in their order.
pub open spec fn edges(transitions: Seq<Transition>) -> Seq<TransitionView> {
    transitions.map_values(|transition: Transition| transition@)
}

/// What borrowed `transitions` stand for, in their order.
pub open spec fn edges_of(transitions: Seq<&Transition>) -> Seq<TransitionView> {
    transitions.map_values(|transition: &Transition| transition@)
}

impl Clone for Transition {
    fn clone(&self) -> (copy: Transition)
        ensures
            copy@ == self@,
    {
        Transition {
            trigger: self.trigger.clone(),
            start_state: self.start_state.clone(),
            end_state: self.end_state.clone(),
        }
    }
}

impl Transition {
    /// The transition from `start_state` to `end_state` on `trigger`.
    pub fn new(start_state: &str, end_state: &str, trigger: &str) -> (transition: Transition)
        ensures
            transition@ == (TransitionView {
                trigger: trigger@,
                start_state: start_state@,
                end_state: end_state@,
            }),
    {
        Transition {
            trigger: trigger.to_owned(),
            start_state: State::new(start_state),
            end_state: State::new(end_state),
        }
    }
}

} // verus!
