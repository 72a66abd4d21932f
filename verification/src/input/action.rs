//! Named semantic actions.
//!
//! An [`Action`] is an immutable named token such as `"quit"` or `"save"`.
//! It sits between raw input events and component behaviour: components
//! handle named actions instead of checking specific keys.

use vstd::prelude::*;

verus! {

/// A named action. Two actions are equal exactly when their names are equal.
#[derive(Debug, Eq, Hash)]
pub struct Action(pub String);

impl View for Action {
    type V = Seq<char>;

    open spec fn view(&self) -> Seq<char> {
        self.0@
    }
}

impl Action {
    /// Creates an action with the given name.
    pub fn new(name: &str) -> (r: Self)
        ensures
            r@ == name@,
    {
        Action(name.to_owned())
    }

    /// The name of this action.
    pub fn name(&self) -> (r: &str)
        ensures
            r@ == self@,
    {
        self.0.as_str()
    }
}

impl Clone for Action {
    fn clone(&self) -> (r: Self)
        ensures
            r == *self,
    {
        Action(self.0.clone())
    }
}

impl PartialEq for Action {
    fn eq(&self, other: &Self) -> (r: bool) {
        self.0 == other.0
    }
}

impl vstd::std_specs::cmp::PartialEqSpecImpl for Action {
    open spec fn obeys_eq_spec() -> bool {
        true
    }

    open spec fn eq_spec(&self, other: &Self) -> bool {
        self@ == other@
    }
}

} // verus!
