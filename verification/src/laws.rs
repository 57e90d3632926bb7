//! What holds of every automaton, proved of the model that the executable
//! automaton is specified against.

use crate::error::AutomataError;
use crate::model::{earliest_at, first_match, lemma_first_match, AutomataView};
use crate::transition::TransitionView;
use vstd::prelude::*;

verus! {

/// Once an automaton has an initial state, every further attempt to register
/// one is refused with `DuplicateInitialState`, whatever the name.
pub proof fn law_second_initial_state_refused(model: AutomataView, name: Seq<char>)
    requires
        model.initial_state is Some,
    ensures
        model.add_state(true, name) == Err::<AutomataView, AutomataError>(
            AutomataError::DuplicateInitialState,
        ),
{
}

/// The initial state is set at most once: no step changes an initial state
/// that is set, and only the registration of an initial state sets one.
pub proof fn law_initial_state_set_once(
    model: AutomataView,
    initial: bool,
    name: Seq<char>,
    source: Seq<char>,
    target: Seq<char>,
    trigger: Seq<char>,
)
    ensures
        model.add_state(initial, name) matches Ok(next) ==> next.initial_state == if initial {
            Some(name)
        } else {
            model.initial_state
        },
        model.add_state(initial, name) matches Ok(next) ==> (model.initial_state is Some
            ==> next.initial_state == model.initial_state),
        model.add_transition(source, target, trigger) matches Ok(next) ==> next.initial_state
            == model.initial_state,
        model.transition(trigger) matches Ok(next) ==> next.initial_state == model.initial_state,
{
}

/// The first initial state that is registered under a new name becomes the
/// initial and the current state at once.
pub proof fn law_initial_state_becomes_current(model: AutomataView, name: Seq<char>)
    requires
        model.initial_state is None,
        !model.has_state(name),
    ensures
        model.add_state(true, name) matches Ok(next) && next.initial_state == Some(name)
            && next.current_state == Some(name),
{
}

/// Registering a state that is not initial never changes the current state,
/// and neither does registering a transition.
pub proof fn law_registration_keeps_current_state(
    model: AutomataView,
    name: Seq<char>,
    source: Seq<char>,
    target: Seq<char>,
    trigger: Seq<char>,
)
    ensures
        model.add_state(false, name) matches Ok(next) ==> next.current_state
            == model.current_state,
        model.add_transition(source, target, trigger) matches Ok(next) ==> next.current_state
            == model.current_state,
{
}

/// A transition is registered exactly when both of its ends are registered
/// states, and is refused with `UnknownState` otherwise.
pub proof fn law_unknown_endpoint_refused(
    model: AutomataView,
    source: Seq<char>,
    target: Seq<char>,
    trigger: Seq<char>,
)
    ensures
        model.has_state(source) && model.has_state(target) <==> model.add_transition(
            source,
            target,
            trigger,
        ) is Ok,
        !model.has_state(source) || !model.has_state(target) <==> model.add_transition(
            source,
            target,
            trigger,
        ) == Err::<AutomataView, AutomataError>(AutomataError::UnknownState),
{
}

/// A registered transition is the last of those that leave its source; the
/// transitions that leave any other state are untouched.
pub proof fn law_transition_appended(
    model: AutomataView,
    source: Seq<char>,
    target: Seq<char>,
    trigger: Seq<char>,
    other: Seq<char>,
)
    requires
        other != source,
    ensures
        model.add_transition(source, target, trigger) matches Ok(next) ==> {
            &&& next.outgoing(source) == model.outgoing(source).push(
                TransitionView { trigger, start_state: source, end_state: target },
            )
            &&& next.outgoing(other) == model.outgoing(other)
            &&& next.states == model.states
        },
{
}

/// An automaton without a current state refuses every trigger with
/// `NoCurrentState`; so does the automaton without states.
pub proof fn law_no_current_state_refuses(model: AutomataView, trigger: Seq<char>)
    ensures
        model.current_state is None ==> model.transition(trigger) == Err::<
            AutomataView,
            AutomataError,
        >(AutomataError::NoCurrentState),
        AutomataView::empty().transition(trigger) == Err::<AutomataView, AutomataError>(
            AutomataError::NoCurrentState,
        ),
{
}

/// Firing a trigger changes nothing but the current state.
pub proof fn law_firing_moves_current_state_only(model: AutomataView, trigger: Seq<char>)
    ensures
        model.transition(trigger) matches Ok(next) ==> {
            &&& next.initial_state == model.initial_state
            &&& next.states == model.states
            &&& next.transitions == model.transitions
        },
{
}

/// Firing follows the transition at the least position, among those that leave
/// the current state, that carries the trigger.
pub proof fn law_earliest_transition_wins(
    model: AutomataView,
    current: Seq<char>,
    trigger: Seq<char>,
    k: int,
)
    requires
        model.current_state == Some(current),
        earliest_at(model.outgoing(current), trigger, k),
    ensures
        model.transition(trigger) == Ok::<AutomataView, AutomataError>(
            AutomataView { current_state: Some(model.outgoing(current)[k].end_state), ..model },
        ),
{
    let outgoing = model.outgoing(current);
    lemma_first_match(outgoing, trigger);
    assert(outgoing[k].trigger == trigger);
    let edge = first_match(outgoing, trigger)->0;
    let found = choose|found: int|
        earliest_at(outgoing, trigger, found) && #[trigger] outgoing[found] == edge;
    assert(found == k) by {
        if found < k {
            assert(outgoing[found].trigger != trigger);
        }
        if k < found {
            assert(outgoing[k].trigger != trigger);
        }
    }
}

/// An automaton with a current state refuses a trigger with
/// `NoMatchingTransition` exactly when no transition that leaves that state
/// carries the trigger.
pub proof fn law_unmatched_trigger_refused(
    model: AutomataView,
    current: Seq<char>,
    trigger: Seq<char>,
)
    requires
        model.current_state == Some(current),
    ensures
        model.transition(trigger) == Err::<AutomataView, AutomataError>(
            AutomataError::NoMatchingTransition,
        ) <==> forall|j: int|
            0 <= j < model.outgoing(current).len() ==> (#[trigger] model.outgoing(
                current,
            )[j]).trigger != trigger,
{
    let outgoing = model.outgoing(current);
    lemma_first_match(outgoing, trigger);
    if let Some(edge) = first_match(outgoing, trigger) {
        let found = choose|found: int|
            earliest_at(outgoing, trigger, found) && #[trigger] outgoing[found] == edge;
        assert(outgoing[found].trigger == trigger);
    }
}

/// Pushing a transition behind others changes the earliest match only where
/// there was none: an earlier transition with the trigger keeps winning.
pub proof fn law_earlier_match_stays(
    outgoing: Seq<TransitionView>,
    edge: TransitionView,
    trigger: Seq<char>,
)
    ensures
        first_match(outgoing.push(edge), trigger) == if first_match(outgoing, trigger) is Some {
            first_match(outgoing, trigger)
        } else if edge.trigger == trigger {
            Some(edge)
        } else {
            None
        },
    decreases outgoing.len(),
{
    let pushed = outgoing.push(edge);
    if outgoing.len() == 0 {
        assert(first_match(pushed.drop_first(), trigger) is None);
    } else {
        assert(pushed.drop_first() =~= outgoing.drop_first().push(edge));
        if outgoing[0].trigger != trigger {
            law_earlier_match_stays(outgoing.drop_first(), edge, trigger);
        }
    }
}

/// First registered wins: of two transitions that are registered one after the
/// other from the current state on one trigger that no earlier transition from
/// there carries, firing the trigger follows the first.
pub proof fn law_first_registered_wins(
    model: AutomataView,
    source: Seq<char>,
    first: Seq<char>,
    second: Seq<char>,
    trigger: Seq<char>,
)
    requires
        model.current_state == Some(source),
        model.has_state(source),
        model.has_state(first),
        model.has_state(second),
        first_match(model.outgoing(source), trigger) is None,
    ensures
        model.add_transition(source, first, trigger) matches Ok(one) && one.add_transition(
            source,
            second,
            trigger,
        ) matches Ok(two) && two.transition(trigger) matches Ok(moved) && moved.current_state
            == Some(first),
{
    let edge_one = TransitionView { trigger, start_state: source, end_state: first };
    let edge_two = TransitionView { trigger, start_state: source, end_state: second };
    let one = model.add_transition(source, first, trigger)->Ok_0;
    law_earlier_match_stays(model.outgoing(source), edge_one, trigger);
    let two = one.add_transition(source, second, trigger)->Ok_0;
    law_earlier_match_stays(one.outgoing(source), edge_two, trigger);
}

/// The registered names are exactly those that were ever added with success:
/// a successful registration adds its name to the set and nothing else, and no
/// other step changes the set.
pub proof fn law_names_are_those_added(
    model: AutomataView,
    initial: bool,
    name: Seq<char>,
    source: Seq<char>,
    target: Seq<char>,
    trigger: Seq<char>,
)
    ensures
        AutomataView::empty().names() == Set::<Seq<char>>::empty(),
        model.add_state(initial, name) matches Ok(next) ==> next.names() == model.names().insert(
            name,
        ),
        model.add_transition(source, target, trigger) matches Ok(next) ==> next.names()
            == model.names(),
        model.transition(trigger) matches Ok(next) ==> next.names() == model.names(),
{
    if let Ok(next) = model.add_state(initial, name) {
        model.states.lemma_push_to_set_commute(name);
    }
}

/// The set of registered names does not depend on the order of registration:
/// two names that are added in either order give the same set.
pub proof fn law_names_ignore_order(model: AutomataView, one: Seq<char>, other: Seq<char>)
    requires
        !model.has_state(one),
        !model.has_state(other),
        one != other,
    ensures
        model.add_state(false, one) matches Ok(first) && first.add_state(false, other) matches Ok(
            one_then_other,
        ) && model.add_state(false, other) matches Ok(second) && second.add_state(
            false,
            one,
        ) matches Ok(other_then_one) && one_then_other.names() == other_then_one.names(),
{
    let first = model.add_state(false, one)->Ok_0;
    let second = model.add_state(false, other)->Ok_0;
    model.states.lemma_push_to_set_commute(one);
    model.states.lemma_push_to_set_commute(other);
    first.states.lemma_push_to_set_commute(other);
    second.states.lemma_push_to_set_commute(one);
}

} // verus!
