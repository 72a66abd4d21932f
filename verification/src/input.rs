//! Input action mapping: key bindings, sequences, matching and routing.

pub mod action;
pub mod assoc;
pub mod binding;
pub mod bindings;
pub mod handler;
pub mod helpers;
pub mod matcher;
pub mod middleware;
pub mod parser;
pub mod router;
pub mod sequence;
pub mod text;

pub use action::Action;
pub use bindings::{ContextBuilder, KeyBindings, KeyBindingsBuilder, KeyBindingsConfig, KeyOrKeys};
pub use helpers::{alt, alt_key, char_key, ctrl, ctrl_key, f_key, key, seq2, shift, shift_key, KeySequenceBuilderExt};
pub use handler::{ActionHandler, HandleResult, Phase};
pub use binding::{KeyBinding, KeyCode, KeyEvent, KeyModifiers};
pub use matcher::{InputMatcher, MatchResult};
pub use middleware::{ActionMiddleware, MiddlewareChain, MiddlewareResult};
pub use parser::{parse_key_binding, parse_key_sequence, ParseKeyError, ParseKeyErrorKind};
pub use router::{ActionRouter, DispatchResult};
pub use sequence::{KeySequence, KeySequenceBuilder};
