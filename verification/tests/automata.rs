use fs_automata::{Automata, AutomataError, State};

#[test]
fn test_add_state() {
    let mut automata = Automata::new();
    automata.add_state(true, "Open").expect("Could not add new state");

    assert_eq!(automata.get_states(), vec![&State::new("Open")])
}

#[test]
fn test_add_initial_state_sets_current_state() {
    let mut automata = Automata::new();
    automata.add_state(true, "Open").expect("Could not add new state");

    assert_eq!(automata.get_current_state().unwrap(), "Open")
}

#[test]
fn test_cannot_add_two_initial_states() {
    let mut automata = Automata::new();
    automata.add_state(true, "Open").expect("Could not add new state");
    let error = automata.add_state(true, "Open");

    assert_eq!(error.err().unwrap(), AutomataError::DuplicateInitialState)
}

#[test]
fn test_add_multiple_states() {
    let mut automata = Automata::new();
    automata.add_state(true, "Open").expect("Could not add new state");
    automata.add_state(false, "Working").expect("Could not add new state");
    automata.add_state(false, "Closed").expect("Could not add new state");

    let mut actual_states = automata.get_states();
    actual_states.sort_by(|s, t| s.name.partial_cmp(&t.name).unwrap());

    assert_eq!(
        actual_states,
        vec![&State::new("Closed"), &State::new("Open"), &State::new("Working")]
    )
}

#[test]
fn test_add_transition() {
    let mut automata = Automata::new();
    automata.add_state(true, "Open").expect("Could not add new state");
    automata.add_state(false, "Closed").expect("Could not add new state");

    automata
        .add_transition("Open", "Closed", "Close Door")
        .expect("Could not add new transition");

    automata.transition("Close Door").expect("Could not fire the trigger");

    assert_eq!(automata.get_current_state().unwrap(), "Closed")
}
