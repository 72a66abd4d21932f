//! Focus management: identifiers, the focus ring, traps, and the manager.

pub mod id;
pub mod manager;
pub mod ring;
pub mod trap;

pub use id::FocusId;
pub use manager::{FocusDirection, FocusManager, FocusResult};
pub use ring::FocusRing;
pub use trap::FocusTrap;
