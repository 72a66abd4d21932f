//! An input-to-action translation layer for interactive terminal applications.
//!
//! The crate converts raw keyboard events into named, semantic actions
//! ("quit", "save", "focus_next") and routes those actions through a tree of
//! interactive components:
//!
//! - [`input`]: key bindings, multi-key sequences, the stateful sequence
//!   matcher, and the two-phase (capture/bubble) action router with middleware;
//! - [`focus`]: the focus ring, focus traps, and the focus manager;
//! - [`event`]: debouncing, throttling, and event-loop configuration;
//! - [`components`]: focus-aware component interfaces;
//! - [`tracing`]: logging configuration.
//!
//! All timing-sensitive operations take explicit timestamps as plain integers,
//! so the whole library is deterministic; the surrounding application supplies
//! the clock and the terminal event source.

pub mod components;
pub mod event;
pub mod focus;
pub mod input;
pub mod tracing;
