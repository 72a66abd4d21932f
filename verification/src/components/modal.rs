//! Modal dialog interfaces.
//!
//! A modal confines focus to its own elements while open. The [`Modal`]
//! trait asks a dialog for its focusable identifiers and derives a focus
//! trap from them; [`ModalAction`] is what a dialog emits when it closes,
//! confirms, or submits text.

use vstd::prelude::*;

use crate::focus::{FocusId, FocusTrap};

verus! {

/// What a modal dialog emits.
#[derive(Debug, Clone, PartialEq, Eq)]
pub enum ModalAction {
    /// The modal was closed or cancelled.
    Close,
    /// A yes/no confirmation result.
    Confirm(bool),
    /// Submitted text.
    Submit(String),
}

/// A dialog that can trap focus within its own elements.
pub trait Modal {
    /// The focus identifiers of the dialog's focusable elements, in tab
    /// order.
    fn focus_ids(&self) -> Vec<FocusId>;

    /// Builds a focus trap holding the dialog's focusable elements, in the
    /// order [`Modal::focus_ids`] lists them.
    fn create_focus_trap(&self) -> (r: FocusTrap)
        ensures
            r.wf(),
    {
        let ids = self.focus_ids();
        let mut trap = FocusTrap::new();
        let n = ids.len();
        let mut i: usize = 0;
        while i < n
            invariant
                n == ids@.len(),
                0 <= i <= n,
                trap.wf(),
            decreases n - i,
        {
            let id = ids[i].clone();
            #[verifier::truncate]
            let order = i as i32;
            trap.register(id, order);
            i += 1;
        }
        trap
    }
}

} // verus!
