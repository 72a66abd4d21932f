//! Focus-aware components.
//!
//! The [`Focusable`] trait is the interface a component implements to take
//! part in focus navigation; [`FocusWrapper`] adds focus state to any
//! component that has none of its own.

use vstd::prelude::*;

verus! {

/// A component that can receive and manage keyboard focus.
pub trait Focusable {
    /// Whether this component currently has focus.
    fn is_focused(&self) -> bool;

    /// Gives or removes focus.
    fn set_focused(&mut self, focused: bool);

    /// Whether this component can receive focus at all; components that
    /// answer `false` are skipped during navigation.
    fn can_focus(&self) -> bool {
        true
    }

    /// The focus order priority; lower values are focused first, equal
    /// values in their natural order.
    fn focus_order(&self) -> i32 {
        0
    }

    /// Called when the component gains focus.
    fn on_focus(&mut self) {
    }

    /// Called when the component loses focus.
    fn on_blur(&mut self) {
    }
}

/// Adds focus state to a component that does not track its own.
#[derive(Debug, Clone)]
pub struct FocusWrapper<T> {
    inner: T,
    focused: bool,
    can_focus: bool,
    focus_order: i32,
}

impl<T> FocusWrapper<T> {
    /// The focus flag.
    pub closed spec fn spec_focused(&self) -> bool {
        self.focused
    }

    /// The focusability flag.
    pub closed spec fn spec_can_focus(&self) -> bool {
        self.can_focus
    }

    /// The focus order.
    pub closed spec fn spec_focus_order(&self) -> i32 {
        self.focus_order
    }

    /// The wrapped component.
    pub closed spec fn spec_inner(&self) -> T {
        self.inner
    }

    /// Wraps a component: unfocused, focusable, default order.
    pub fn new(inner: T) -> (r: Self)
        ensures
            r.spec_inner() == inner,
            r.spec_focused() == false,
            r.spec_can_focus() == true,
            r.spec_focus_order() == 0i32,
    {
        FocusWrapper { inner, focused: false, can_focus: true, focus_order: 0 }
    }

    /// Sets whether the wrapper can receive focus.
    pub fn with_can_focus(self, can_focus: bool) -> (r: Self)
        ensures
            r.spec_inner() == self.spec_inner(),
            r.spec_focused() == self.spec_focused(),
            r.spec_can_focus() == can_focus,
            r.spec_focus_order() == self.spec_focus_order(),
    {
        FocusWrapper { can_focus, ..self }
    }

    /// Sets the focus order.
    pub fn with_focus_order(self, order: i32) -> (r: Self)
        ensures
            r.spec_inner() == self.spec_inner(),
            r.spec_focused() == self.spec_focused(),
            r.spec_can_focus() == self.spec_can_focus(),
            r.spec_focus_order() == order,
    {
        FocusWrapper { focus_order: order, ..self }
    }

    /// The wrapped component.
    pub fn inner(&self) -> (r: &T)
        ensures
            *r == self.spec_inner(),
    {
        &self.inner
    }

    /// The wrapped component, mutably.
    pub fn inner_mut(&mut self) -> (r: &mut T)
        ensures
            final(self).spec_focused() == old(self).spec_focused(),
            final(self).spec_can_focus() == old(self).spec_can_focus(),
            final(self).spec_focus_order() == old(self).spec_focus_order(),
    {
        &mut self.inner
    }

    /// Unwraps the component.
    pub fn into_inner(self) -> (r: T)
        ensures
            r == self.spec_inner(),
    {
        self.inner
    }
}

impl<T> Focusable for FocusWrapper<T> {
    fn is_focused(&self) -> (r: bool)
        ensures
            r == self.spec_focused(),
    {
        self.focused
    }

    fn set_focused(&mut self, focused: bool)
        ensures
            final(self).spec_focused() == focused,
            final(self).spec_can_focus() == old(self).spec_can_focus(),
            final(self).spec_focus_order() == old(self).spec_focus_order(),
            final(self).spec_inner() == old(self).spec_inner(),
    {
        self.focused = focused;
    }

    fn can_focus(&self) -> (r: bool)
        ensures
            r == self.spec_can_focus(),
    {
        self.can_focus
    }

    fn focus_order(&self) -> (r: i32)
        ensures
            r == self.spec_focus_order(),
    {
        self.focus_order
    }
}

} // verus!
