//! The component interface: message-driven state updates.
//!
//! A [`Component`] follows the Elm shape: it receives messages, updates its
//! state, and may emit an action for its parent to handle. Rendering is the
//! surrounding application's concern and is not part of this interface.

use vstd::prelude::*;

use super::focusable::Focusable;

verus! {

/// An interactive component driven by messages.
pub trait Component {
    /// The messages this component handles.
    type Message;

    /// The actions this component can emit for its parent.
    type Action;

    /// Processes a message, updating the component's state, and optionally
    /// emits an action for the parent.
    fn update(&mut self, msg: Self::Message) -> Option<Self::Action>;
}

/// A component that also manages focus.
pub trait FocusableComponent: Component + Focusable {
}

impl<T: Component + Focusable> FocusableComponent for T {
}

/// Marker for components that hold no state of their own and only present
/// their properties.
pub trait StatelessComponent {
}

} // verus!
