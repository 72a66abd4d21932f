//! Event-loop control and configuration.
//!
//! [`ControlFlow`] is what an application's update step answers: keep the
//! event loop running, or exit. [`EventLoopConfig`] holds the loop's timing
//! and buffering parameters; the loop itself is driven by the surrounding
//! application, which owns the asynchronous machinery.

use vstd::prelude::*;

verus! {

/// Whether the event loop keeps running.
#[derive(Debug, Clone, Copy, PartialEq, Eq, Structural)]
pub enum ControlFlow {
    /// Keep running.
    Continue,
    /// Exit the loop.
    Exit,
}

impl Default for ControlFlow {
    /// The default flow: keep running.
    fn default() -> (r: Self)
        ensures
            r == ControlFlow::Continue,
    {
        ControlFlow::Continue
    }
}

impl ControlFlow {
    /// Whether the loop should exit.
    pub fn should_exit(&self) -> (r: bool)
        ensures
            r == (self is Exit),
    {
        match self {
            ControlFlow::Exit => true,
            ControlFlow::Continue => false,
        }
    }

    /// Whether the loop should continue.
    pub fn should_continue(&self) -> (r: bool)
        ensures
            r == (self is Continue),
    {
        match self {
            ControlFlow::Continue => true,
            ControlFlow::Exit => false,
        }
    }
}

/// Timing and buffering parameters of the event loop. Durations are plain
/// millisecond counts.
#[derive(Debug, Clone)]
pub struct EventLoopConfig {
    /// How often tick events fire, in milliseconds (the frame interval).
    pub tick_rate_ms: u64,
    /// The debounce delay for rapid events, in milliseconds.
    pub debounce_delay_ms: u64,
    /// The size of the internal message channel buffer.
    pub channel_buffer_size: usize,
    /// Whether shutdown signals are handled for a graceful exit.
    pub handle_signals: bool,
}

impl EventLoopConfig {
    /// Creates the default configuration: roughly sixty ticks per second, a
    /// 50-millisecond debounce, a 256-message buffer, and signal handling
    /// on.
    pub fn new() -> (r: Self)
        ensures
            r == (EventLoopConfig {
                tick_rate_ms: 16u64,
                debounce_delay_ms: 50u64,
                channel_buffer_size: 256usize,
                handle_signals: true,
            }),
    {
        EventLoopConfig {
            tick_rate_ms: 16,
            debounce_delay_ms: 50,
            channel_buffer_size: 256,
            handle_signals: true,
        }
    }

    /// Sets the tick interval in milliseconds.
    pub fn tick_rate(self, rate_ms: u64) -> (r: Self)
        ensures
            r == (EventLoopConfig { tick_rate_ms: rate_ms, ..self }),
    {
        EventLoopConfig { tick_rate_ms: rate_ms, ..self }
    }

    /// Sets the debounce delay in milliseconds.
    pub fn debounce_delay(self, delay_ms: u64) -> (r: Self)
        ensures
            r == (EventLoopConfig { debounce_delay_ms: delay_ms, ..self }),
    {
        EventLoopConfig { debounce_delay_ms: delay_ms, ..self }
    }

    /// Sets the channel buffer size.
    pub fn channel_buffer_size(self, size: usize) -> (r: Self)
        ensures
            r == (EventLoopConfig { channel_buffer_size: size, ..self }),
    {
        EventLoopConfig { channel_buffer_size: size, ..self }
    }

    /// Sets whether shutdown signals are handled.
    pub fn handle_signals(self, handle: bool) -> (r: Self)
        ensures
            r == (EventLoopConfig { handle_signals: handle, ..self }),
    {
        EventLoopConfig { handle_signals: handle, ..self }
    }
}

impl Default for EventLoopConfig {
    /// The default configuration, as [`EventLoopConfig::new`] builds it.
    fn default() -> (r: Self)
        ensures
            r == (EventLoopConfig {
                tick_rate_ms: 16u64,
                debounce_delay_ms: 50u64,
                channel_buffer_size: 256usize,
                handle_signals: true,
            }),
    {
        EventLoopConfig::new()
    }
}

} // verus!
