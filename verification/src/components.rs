//! Component interfaces: focusability, updates, and modal dialogs.

pub mod component;
pub mod focusable;
pub mod modal;

pub use component::{Component, FocusableComponent, StatelessComponent};
pub use focusable::{FocusWrapper, Focusable};
pub use modal::{Modal, ModalAction};
