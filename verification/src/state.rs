use vstd::prelude::*;

verus! {

/// A node of the automaton's graph. A state has no identity beyond its name.
#[derive(Debug, Eq, Hash)]
pub struct State {
    pub name: String,
}

impl View for State {
    type V = Seq<char>;

    open spec fn view(&self) -> Seq<char> {
        self.name@
    }
}

/// The names of `states`, in their order.
pub open spec fn names_of(states: Seq<&State>) -> Seq<Seq<char>> {
    states.map_values(|state: &State| state@)
}

impl State {
    /// The state called `name`.
    pub fn new(name: &str) -> (state: State)
        ensures
            state@ == name@,
    {
        State { name: name.to_owned() }
    }
}

impl Clone for State {
    fn clone(&self) -> (copy: State)
        ensures
            copy@ == self@,
    {
        State { name: self.name.clone() }
    }
}

impl PartialEq for State {
    /// Two states are equal exactly when their names are.
    fn eq(&self, other: &Self) -> (equal: bool) {
        self.name == other.name
    }
}

impl vstd::std_specs::cmp::PartialEqSpecImpl for State {
    open spec fn obeys_eq_spec() -> bool {
        true
    }

    open spec fn eq_spec(&self, other: &Self) -> bool {
        self.name@ == other.name@
    }
}

} // verus!
