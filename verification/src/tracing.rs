//! Logging configuration.
//!
//! A TUI application draws on stdout, so its logs go to a file. A
//! [`TracingConfig`] collects the log level, the log file, per-target level
//! overrides, and formatting switches; [`TracingConfig::build_filter_directive`]
//! renders the levels as a filter string such as
//! `"info,app::event=debug"`. Installing the subscriber is I/O and lives in
//! the surrounding application.

use vstd::prelude::*;

verus! {

/// A log level, most verbose first.
#[derive(Debug, Clone, Copy, PartialEq, Eq, Structural)]
pub enum LogLevel {
    Trace,
    Debug,
    Info,
    Warn,
    Error,
}

/// The lower-case name of a level.
pub open spec fn level_name(l: LogLevel) -> Seq<char> {
    match l {
        LogLevel::Trace => "trace"@,
        LogLevel::Debug => "debug"@,
        LogLevel::Info => "info"@,
        LogLevel::Warn => "warn"@,
        LogLevel::Error => "error"@,
    }
}

impl LogLevel {
    /// The lower-case name of this level.
    pub fn as_str(&self) -> (r: &'static str)
        ensures
            r@ == level_name(*self),
    {
        match self {
            LogLevel::Trace => "trace",
            LogLevel::Debug => "debug",
            LogLevel::Info => "info",
            LogLevel::Warn => "warn",
            LogLevel::Error => "error",
        }
    }
}

/// A failure while setting up logging.
#[derive(Debug)]
pub enum TracingError {
    /// No log file was configured; file logging needs one.
    NoLogFile,
    /// The log file or its directory could not be created.
    IoError(String),
    /// The global subscriber could not be installed.
    SetGlobalError(String),
}

/// The per-target part of the filter directive for `targets[i..]`: a
/// `,target=level` clause per override, in order.
pub open spec fn directive_tail(targets: Seq<(Seq<char>, LogLevel)>, i: int) -> Seq<char>
    decreases targets.len() - i,
{
    if i < 0 || i >= targets.len() {
        Seq::empty()
    } else {
        ","@ + targets[i].0 + "="@ + level_name(targets[i].1) + directive_tail(targets, i + 1)
    }
}

/// The whole filter directive: the default level, then one clause per
/// override.
pub open spec fn directive_of(level: LogLevel, targets: Seq<(Seq<char>, LogLevel)>) -> Seq<char> {
    level_name(level) + directive_tail(targets, 0)
}

/// Configuration for logging: level, log file, per-target overrides, and
/// formatting switches.
#[derive(Debug, Clone)]
pub struct TracingConfig {
    /// The default log level.
    pub level: LogLevel,
    /// The log file path. Required for TUI applications.
    pub log_file: Option<String>,
    /// Per-target level overrides, in the order they were added.
    pub target_levels: Vec<(String, LogLevel)>,
    /// Whether log lines carry timestamps.
    pub show_timestamps: bool,
    /// Whether log lines carry the target (module path).
    pub show_target: bool,
    /// Whether log lines carry file and line information.
    pub show_file_line: bool,
    /// Whether log lines carry span information.
    pub show_spans: bool,
}

/// The override views of a target-level list.
pub open spec fn targets_of(v: Seq<(String, LogLevel)>) -> Seq<(Seq<char>, LogLevel)> {
    Seq::new(v.len(), |i: int| (v[i].0@, v[i].1))
}

impl TracingConfig {
    /// Creates the default configuration: `Info` level, no log file, no
    /// overrides, timestamps and target and spans on, file/line off.
    pub fn new() -> (r: Self)
        ensures
            r.level == LogLevel::Info,
            r.log_file is None,
            r.target_levels@ == Seq::<(String, LogLevel)>::empty(),
            r.show_timestamps == true,
            r.show_target == true,
            r.show_file_line == false,
            r.show_spans == true,
    {
        TracingConfig {
            level: LogLevel::Info,
            log_file: None,
            target_levels: Vec::new(),
            show_timestamps: true,
            show_target: true,
            show_file_line: false,
            show_spans: true,
        }
    }

    /// Sets the default log level.
    pub fn with_level(self, level: LogLevel) -> (r: Self)
        ensures
            r == (TracingConfig { level, ..self }),
    {
        TracingConfig { level, ..self }
    }

    /// Sets the log file path.
    pub fn with_log_file(self, path: &str) -> (r: Self)
        ensures
            r.level == self.level,
            r.target_levels == self.target_levels,
            r.show_timestamps == self.show_timestamps,
            r.show_target == self.show_target,
            r.show_file_line == self.show_file_line,
            r.show_spans == self.show_spans,
            r.log_file is Some && r.log_file->0@ == path@,
    {
        TracingConfig { log_file: Some(path.to_owned()), ..self }
    }

    /// Adds a per-target level override.
    pub fn with_target_level(self, target: &str, level: LogLevel) -> (r: Self)
        ensures
            r.level == self.level,
            r.log_file == self.log_file,
            r.show_timestamps == self.show_timestamps,
            r.show_target == self.show_target,
            r.show_file_line == self.show_file_line,
            r.show_spans == self.show_spans,
            targets_of(r.target_levels@) == targets_of(self.target_levels@).push(
                (target@, level),
            ),
    {
        let mut c = self;
        c.target_levels.push((target.to_owned(), level));
        proof {
            assert(targets_of(c.target_levels@) =~= targets_of(
                c.target_levels@.drop_last(),
            ).push((target@, level)));
        }
        c
    }

    /// Sets whether log lines carry timestamps.
    pub fn with_timestamps(self, show: bool) -> (r: Self)
        ensures
            r == (TracingConfig { show_timestamps: show, ..self }),
    {
        TracingConfig { show_timestamps: show, ..self }
    }

    /// Sets whether log lines carry the target.
    pub fn with_target(self, show: bool) -> (r: Self)
        ensures
            r == (TracingConfig { show_target: show, ..self }),
    {
        TracingConfig { show_target: show, ..self }
    }

    /// Sets whether log lines carry file and line information.
    pub fn with_file_line(self, show: bool) -> (r: Self)
        ensures
            r == (TracingConfig { show_file_line: show, ..self }),
    {
        TracingConfig { show_file_line: show, ..self }
    }

    /// Sets whether log lines carry span information.
    pub fn with_spans(self, show: bool) -> (r: Self)
        ensures
            r == (TracingConfig { show_spans: show, ..self }),
    {
        TracingConfig { show_spans: show, ..self }
    }

    /// Renders the filter directive: the default level's name, then a
    /// `,target=level` clause for each override, in order.
    pub fn build_filter_directive(&self) -> (r: String)
        ensures
            r@ == directive_of(self.level, targets_of(self.target_levels@)),
    {
        let ghost targets = targets_of(self.target_levels@);
        let mut s = String::new();
        s.append(self.level.as_str());
        let n = self.target_levels.len();
        for i in 0..n
            invariant
                n == self.target_levels@.len(),
                targets == targets_of(self.target_levels@),
                directive_of(self.level, targets) == s@ + directive_tail(targets, i as int),
        {
            s.append(",");
            s.append(self.target_levels[i].0.as_str());
            s.append("=");
            s.append(self.target_levels[i].1.as_str());
            proof {
                assert(directive_of(self.level, targets) =~= s@ + directive_tail(
                    targets,
                    i + 1,
                ));
            }
        }
        s
    }
}

impl Default for TracingConfig {
    /// The default configuration, as [`TracingConfig::new`] builds it.
    fn default() -> (r: Self)
        ensures
            r.level == LogLevel::Info,
            r.log_file is None,
            r.target_levels@ == Seq::<(String, LogLevel)>::empty(),
            r.show_timestamps == true,
            r.show_target == true,
            r.show_file_line == false,
            r.show_spans == true,
    {
        TracingConfig::new()
    }
}

} // verus!
