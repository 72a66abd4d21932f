//! Focus identifiers.
//!
//! A [`FocusId`] names a focusable component. Two identifiers are equal
//! exactly when their names are equal.

use vstd::prelude::*;

verus! {

/// Unique identifier for a focusable component.
#[derive(Debug, Eq, Hash)]
pub struct FocusId(pub String);

impl View for FocusId {
    type V = Seq<char>;

    open spec fn view(&self) -> Seq<char> {
        self.0@
    }
}

impl FocusId {
    /// Creates an identifier from a string.
    pub fn new(id: &str) -> (r: Self)
        ensures
            r@ == id@,
    {
        FocusId(id.to_owned())
    }

    /// The identifier as a string slice.
    pub fn as_str(&self) -> (r: &str)
        ensures
            r@ == self@,
    {
        self.0.as_str()
    }
}

impl Clone for FocusId {
    fn clone(&self) -> (r: Self)
        ensures
            r == *self,
    {
        FocusId(self.0.clone())
    }
}

impl PartialEq for FocusId {
    fn eq(&self, other: &Self) -> (r: bool) {
        self.0 == other.0
    }
}

impl vstd::std_specs::cmp::PartialEqSpecImpl for FocusId {
    open spec fn obeys_eq_spec() -> bool {
        true
    }

    open spec fn eq_spec(&self, other: &Self) -> bool {
        self@ == other@
    }
}

impl From<String> for FocusId {
    fn from(s: String) -> (r: Self) {
        FocusId(s)
    }
}

impl vstd::std_specs::convert::FromSpecImpl<String> for FocusId {
    open spec fn obeys_from_spec() -> bool {
        true
    }

    open spec fn from_spec(s: String) -> Self {
        FocusId(s)
    }
}

} // verus!
