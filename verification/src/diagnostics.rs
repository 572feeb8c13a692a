//! Diagnostic settings of a run. Each is set at most once, at start-up, and
//! read afterwards.

use vstd::pervasive::unreached;
use vstd::prelude::*;

verus! {

/// Whether performance diagnostics are enabled.
pub struct PerfDiagParams {
    is_value_set: bool,
    is_perf_diagnostics_enabled: bool,
}

impl PerfDiagParams {
    /// Whether the setting was made.
    pub closed spec fn value_set(&self) -> bool {
        self.is_value_set
    }

    /// Whether performance diagnostics are enabled.
    pub closed spec fn enabled(&self) -> bool {
        self.is_perf_diagnostics_enabled
    }

    /// The settings before they are made: performance diagnostics disabled.
    pub fn new() -> (params: PerfDiagParams)
        ensures
            !params.value_set(),
            !params.enabled(),
    {
        PerfDiagParams { is_value_set: false, is_perf_diagnostics_enabled: false }
    }

    /// Whether the setting was made.
    pub fn is_value_set(&self) -> (set: bool)
        ensures
            set == self.value_set(),
    {
        self.is_value_set
    }

    /// Whether performance diagnostics are enabled.
    pub fn is_perf_diagnostics_enabled(&self) -> (enabled: bool)
        ensures
            enabled == self.enabled(),
    {
        self.is_perf_diagnostics_enabled
    }

    /// Makes the setting. It can be made once only.
    pub fn set_once_perf_diagnostics_enabled(&mut self, value: bool)
        requires
            !old(self).value_set(),
        ensures
            final(self).value_set(),
            final(self).enabled() == value,
    {
        self.is_value_set = true;
        self.is_perf_diagnostics_enabled = value;
    }
}

/// The rank of a diagnostic level: 0 for `none`, then 1 to 5 for `error`,
/// `warn`, `info`, `debug` and `trace`. Any other text is no level.
pub open spec fn level_rank(level: Seq<char>) -> Option<int> {
    if level == "none"@ {
        Some(0)
    } else if level == "error"@ {
        Some(1)
    } else if level == "warn"@ {
        Some(2)
    } else if level == "info"@ {
        Some(3)
    } else if level == "debug"@ {
        Some(4)
    } else if level == "trace"@ {
        Some(5)
    } else {
        None
    }
}

/// Whether two texts hold the same characters.
fn same_text(a: &str, b: &str) -> (same: bool)
    ensures
        same == (a@ == b@),
{
    let left = a.to_owned();
    let right = b.to_owned();
    left == right
}

/// The rank of a diagnostic level, or `None` for a text that is no level.
pub fn diagnostic_level_rank(level: &str) -> (rank: Option<u8>)
    ensures
        match rank {
            Some(r) => level_rank(level@) == Some(r as int),
            None => level_rank(level@).is_none(),
        },
{
    if same_text(level, "none") {
        Some(0)
    } else if same_text(level, "error") {
        Some(1)
    } else if same_text(level, "warn") {
        Some(2)
    } else if same_text(level, "info") {
        Some(3)
    } else if same_text(level, "debug") {
        Some(4)
    } else if same_text(level, "trace") {
        Some(5)
    } else {
        None
    }
}

/// Which diagnostic messages are enabled. A level enables its own messages
/// and those of every level below it.
pub struct LoggingParams {
    is_value_set: bool,
    is_error_enabled: bool,
    is_warn_enabled: bool,
    is_info_enabled: bool,
    is_debug_enabled: bool,
    is_trace_enabled: bool,
}

impl LoggingParams {
    /// Whether the level was set.
    pub closed spec fn value_set(&self) -> bool {
        self.is_value_set
    }

    /// Whether error messages are enabled.
    pub closed spec fn error_enabled(&self) -> bool {
        self.is_error_enabled
    }

    /// Whether warnings are enabled.
    pub closed spec fn warn_enabled(&self) -> bool {
        self.is_warn_enabled
    }

    /// Whether informational messages are enabled.
    pub closed spec fn info_enabled(&self) -> bool {
        self.is_info_enabled
    }

    /// Whether debug messages are enabled.
    pub closed spec fn debug_enabled(&self) -> bool {
        self.is_debug_enabled
    }

    /// Whether trace messages are enabled.
    pub closed spec fn trace_enabled(&self) -> bool {
        self.is_trace_enabled
    }

    /// The settings before a level is set: every kind of message enabled.
    pub fn new() -> (params: LoggingParams)
        ensures
            !params.value_set(),
            params.error_enabled(),
            params.warn_enabled(),
            params.info_enabled(),
            params.debug_enabled(),
            params.trace_enabled(),
    {
        LoggingParams {
            is_value_set: false,
            is_error_enabled: true,
            is_warn_enabled: true,
            is_info_enabled: true,
            is_debug_enabled: true,
            is_trace_enabled: true,
        }
    }

    /// Whether the level was set.
    pub fn is_value_set(&self) -> (set: bool)
        ensures
            set == self.value_set(),
    {
        self.is_value_set
    }

    /// Whether error messages are enabled.
    pub fn is_error_enabled(&self) -> (enabled: bool)
        ensures
            enabled == self.error_enabled(),
    {
        self.is_error_enabled
    }

    /// Whether warnings are enabled.
    pub fn is_warn_enabled(&self) -> (enabled: bool)
        ensures
            enabled == self.warn_enabled(),
    {
        self.is_warn_enabled
    }

    /// Whether informational messages are enabled.
    pub fn is_info_enabled(&self) -> (enabled: bool)
        ensures
            enabled == self.info_enabled(),
    {
        self.is_info_enabled
    }

    /// Whether debug messages are enabled.
    pub fn is_debug_enabled(&self) -> (enabled: bool)
        ensures
            enabled == self.debug_enabled(),
    {
        self.is_debug_enabled
    }

    /// Whether trace messages are enabled.
    pub fn is_trace_enabled(&self) -> (enabled: bool)
        ensures
            enabled == self.trace_enabled(),
    {
        self.is_trace_enabled
    }

    /// Sets the diagnostic level, one of `none`, `error`, `warn`, `info`,
    /// `debug` and `trace`. It can be set once only.
    pub fn set_once_diagnostic_level(&mut self, value: String)
        requires
            !old(self).value_set(),
            level_rank(value@).is_some(),
        ensures
            final(self).value_set(),
            final(self).error_enabled() == (level_rank(value@).unwrap() >= 1),
            final(self).warn_enabled() == (level_rank(value@).unwrap() >= 2),
            final(self).info_enabled() == (level_rank(value@).unwrap() >= 3),
            final(self).debug_enabled() == (level_rank(value@).unwrap() >= 4),
            final(self).trace_enabled() == (level_rank(value@).unwrap() >= 5),
    {
        let rank: u8 = match diagnostic_level_rank(value.as_str()) {
            Some(r) => r,
            None => unreached(),
        };
        self.is_error_enabled = rank >= 1;
        self.is_warn_enabled = rank >= 2;
        self.is_info_enabled = rank >= 3;
        self.is_debug_enabled = rank >= 4;
        self.is_trace_enabled = rank >= 5;
        self.is_value_set = true;
    }
}

} // verus!
