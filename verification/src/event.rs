//! Event handling support: rate limiting and loop configuration.

pub mod event_loop;
pub mod terminal;
pub mod timing;

pub use event_loop::{ControlFlow, EventLoopConfig};
pub use terminal::TerminalEventStream;
pub use timing::{Debouncer, Throttle};
