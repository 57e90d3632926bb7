use fs_automata::{Automata, AutomataError, State, Transition};

fn names(automata: &Automata) -> Vec<String> {
    automata.get_states().iter().map(|state| state.name.clone()).collect()
}

fn edges(automata: &Automata, source: &str) -> Vec<(String, String, String)> {
    automata
        .get_transitions(source)
        .iter()
        .map(|t| (t.start_state.name.clone(), t.trigger.clone(), t.end_state.name.clone()))
        .collect()
}

fn edge(source: &str, trigger: &str, target: &str) -> (String, String, String) {
    (source.to_string(), trigger.to_string(), target.to_string())
}

#[test]
fn new_automaton_is_empty() {
    let automata = Automata::new();
    assert!(automata.get_states().is_empty());
    assert_eq!(automata.get_current_state(), None);
    assert_eq!(automata.get_initial_state(), None);
    assert!(automata.get_transitions("Open").is_empty());
}

#[test]
fn initial_state_is_initial_and_current() {
    let mut automata = Automata::new();
    assert_eq!(automata.add_state(true, "Open"), Ok(()));
    assert_eq!(automata.get_initial_state(), Some("Open".to_string()));
    assert_eq!(automata.get_current_state(), Some("Open".to_string()));
}

#[test]
fn second_initial_state_is_refused_and_changes_nothing() {
    let mut automata = Automata::new();
    automata.add_state(false, "Idle").unwrap();
    automata.add_state(true, "Open").unwrap();

    assert_eq!(automata.add_state(true, "Closed"), Err(AutomataError::DuplicateInitialState));
    assert_eq!(automata.add_state(true, "Open"), Err(AutomataError::DuplicateInitialState));
    assert_eq!(automata.add_state(true, "Idle"), Err(AutomataError::DuplicateInitialState));

    assert_eq!(automata.get_initial_state(), Some("Open".to_string()));
    assert_eq!(automata.get_current_state(), Some("Open".to_string()));
    assert_eq!(names(&automata), vec!["Idle", "Open"]);
}

#[test]
fn initial_state_may_come_after_plain_states() {
    let mut automata = Automata::new();
    automata.add_state(false, "Working").unwrap();
    assert_eq!(automata.get_current_state(), None);
    assert_eq!(automata.get_initial_state(), None);
    automata.add_state(true, "Open").unwrap();
    assert_eq!(automata.get_current_state(), Some("Open".to_string()));
    assert_eq!(automata.get_initial_state(), Some("Open".to_string()));
}

#[test]
fn plain_states_never_change_the_current_state() {
    let mut automata = Automata::new();
    automata.add_state(true, "Open").unwrap();
    for name in ["Working", "Closed", "Broken"] {
        automata.add_state(false, name).unwrap();
        assert_eq!(automata.get_current_state(), Some("Open".to_string()));
        assert_eq!(automata.get_initial_state(), Some("Open".to_string()));
    }
}

#[test]
fn duplicate_state_is_refused_and_changes_nothing() {
    let mut automata = Automata::new();
    automata.add_state(true, "Open").unwrap();
    automata.add_state(false, "Closed").unwrap();
    automata.add_transition("Open", "Closed", "Close Door").unwrap();

    assert_eq!(automata.add_state(false, "Closed"), Err(AutomataError::DuplicateState));
    assert_eq!(automata.add_state(false, "Open"), Err(AutomataError::DuplicateState));

    assert_eq!(names(&automata), vec!["Open", "Closed"]);
    assert_eq!(edges(&automata, "Open"), vec![edge("Open", "Close Door", "Closed")]);
    assert_eq!(automata.get_current_state(), Some("Open".to_string()));
}

#[test]
fn duplicate_initial_name_without_initial_state_is_a_duplicate_state() {
    let mut automata = Automata::new();
    automata.add_state(false, "Open").unwrap();
    assert_eq!(automata.add_state(true, "Open"), Err(AutomataError::DuplicateState));
    assert_eq!(automata.get_initial_state(), None);
    assert_eq!(automata.get_current_state(), None);
    assert_eq!(names(&automata), vec!["Open"]);
}

#[test]
fn empty_name_is_a_name() {
    let mut automata = Automata::new();
    assert_eq!(automata.add_state(true, ""), Ok(()));
    assert_eq!(automata.get_current_state(), Some(String::new()));
    assert_eq!(automata.add_state(false, ""), Err(AutomataError::DuplicateState));
    assert_eq!(names(&automata), vec![""]);
}

#[test]
fn states_come_out_in_the_order_of_registration() {
    let mut automata = Automata::new();
    for name in ["Open", "Working", "Closed"] {
        automata.add_state(false, name).unwrap();
    }
    assert_eq!(names(&automata), vec!["Open", "Working", "Closed"]);
}

#[test]
fn names_are_those_added_whatever_the_order() {
    let orders: [[&str; 3]; 6] = [
        ["Open", "Working", "Closed"],
        ["Open", "Closed", "Working"],
        ["Working", "Open", "Closed"],
        ["Working", "Closed", "Open"],
        ["Closed", "Open", "Working"],
        ["Closed", "Working", "Open"],
    ];
    for order in orders {
        let mut automata = Automata::new();
        for name in order {
            automata.add_state(name == "Open", name).unwrap();
        }
        // refused registrations add nothing
        assert!(automata.add_state(false, "Working").is_err());
        assert!(automata.add_state(true, "Broken").is_err());
        let mut actual = names(&automata);
        actual.sort();
        assert_eq!(actual, vec!["Closed", "Open", "Working"]);
    }
}

#[test]
fn transition_with_unknown_source_is_refused() {
    let mut automata = Automata::new();
    automata.add_state(true, "Open").unwrap();
    assert_eq!(
        automata.add_transition("Closed", "Open", "Open Door"),
        Err(AutomataError::UnknownState)
    );
}

#[test]
fn transition_with_unknown_target_is_refused() {
    let mut automata = Automata::new();
    automata.add_state(true, "Open").unwrap();
    assert_eq!(
        automata.add_transition("Open", "Closed", "Close Door"),
        Err(AutomataError::UnknownState)
    );
}

#[test]
fn transition_between_unknown_states_is_refused() {
    let mut automata = Automata::new();
    assert_eq!(
        automata.add_transition("Open", "Closed", "Close Door"),
        Err(AutomataError::UnknownState)
    );
}

#[test]
fn refused_transition_leaves_the_transitions_as_they_were() {
    let mut automata = Automata::new();
    automata.add_state(true, "Open").unwrap();
    automata.add_state(false, "Closed").unwrap();
    automata.add_transition("Open", "Closed", "Close Door").unwrap();
    automata.add_transition("Closed", "Open", "Open Door").unwrap();

    let before: Vec<_> =
        ["Open", "Closed", "Broken"].iter().map(|name| edges(&automata, name)).collect();

    assert_eq!(automata.add_transition("Open", "Broken", "Slam"), Err(AutomataError::UnknownState));
    assert_eq!(automata.add_transition("Broken", "Open", "Mend"), Err(AutomataError::UnknownState));
    assert_eq!(automata.add_transition("Broken", "Gone", "Lose"), Err(AutomataError::UnknownState));

    let after: Vec<_> =
        ["Open", "Closed", "Broken"].iter().map(|name| edges(&automata, name)).collect();
    assert_eq!(before, after);
    assert_eq!(
        after,
        vec![
            vec![edge("Open", "Close Door", "Closed")],
            vec![edge("Closed", "Open Door", "Open")],
            vec![],
        ]
    );
    assert_eq!(names(&automata), vec!["Open", "Closed"]);
    assert_eq!(automata.get_current_state(), Some("Open".to_string()));
}

#[test]
fn transitions_are_kept_by_source_in_the_order_of_registration() {
    let mut automata = Automata::new();
    automata.add_state(true, "Open").unwrap();
    automata.add_state(false, "Closed").unwrap();
    automata.add_state(false, "Locked").unwrap();
    automata.add_transition("Open", "Closed", "Close Door").unwrap();
    automata.add_transition("Closed", "Locked", "Turn Key").unwrap();
    automata.add_transition("Open", "Open", "Knock").unwrap();
    automata.add_transition("Closed", "Open", "Open Door").unwrap();

    assert_eq!(
        edges(&automata, "Open"),
        vec![edge("Open", "Close Door", "Closed"), edge("Open", "Knock", "Open")]
    );
    assert_eq!(
        edges(&automata, "Closed"),
        vec![edge("Closed", "Turn Key", "Locked"), edge("Closed", "Open Door", "Open")]
    );
    assert!(edges(&automata, "Locked").is_empty());
    assert!(edges(&automata, "Nowhere").is_empty());
}

#[test]
fn registering_a_transition_moves_nothing() {
    let mut automata = Automata::new();
    automata.add_state(true, "Open").unwrap();
    automata.add_state(false, "Closed").unwrap();
    automata.add_transition("Open", "Closed", "Close Door").unwrap();
    assert_eq!(automata.get_current_state(), Some("Open".to_string()));
    assert_eq!(automata.get_initial_state(), Some("Open".to_string()));
    assert_eq!(names(&automata), vec!["Open", "Closed"]);
}

#[test]
fn states_are_equal_by_name() {
    assert_eq!(State::new("Open"), State::new("Open"));
    assert_ne!(State::new("Open"), State::new("Closed"));
    assert_ne!(State::new("Open"), State::new("open"));
    assert_eq!(State::new("Open").clone(), State::new("Open"));
    assert_eq!(State::new("Open").name, "Open");
}

#[test]
fn transition_holds_its_trigger_and_both_ends() {
    let transition = Transition::new("Open", "Closed", "Close Door");
    assert_eq!(transition.start_state, State::new("Open"));
    assert_eq!(transition.end_state, State::new("Closed"));
    assert_eq!(transition.trigger, "Close Door");
    let copy = transition.clone();
    assert_eq!(copy.start_state, State::new("Open"));
    assert_eq!(copy.end_state, State::new("Closed"));
    assert_eq!(copy.trigger, "Close Door");
}
