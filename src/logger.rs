//! The decisions of a leveled logging session. The session opens at a level,
//! then records entries: each entry is started at a level, written, and
//! ended. An entry below the session's level is accepted and not emitted.
//! Whoever owns the output performs what these decisions return.
use vstd::prelude::*;
use vstd::string::*;
use crate::errors::{Error, argument_error, operation_error};

verus! {

/// The severity of a log entry; `Off` stands for no entry.
#[derive(Debug, Clone, Copy, PartialEq, Eq, Structural)]
pub enum LoggerLevel {
    Off,
    Debug,
    Info,
    Warning,
    Error,
    Critical,
}

/// Levels in increasing severity.
pub open spec fn level_rank(l: LoggerLevel) -> nat {
    match l {
        LoggerLevel::Off => 0,
        LoggerLevel::Debug => 1,
        LoggerLevel::Info => 2,
        LoggerLevel::Warning => 3,
        LoggerLevel::Error => 4,
        LoggerLevel::Critical => 5,
    }
}

/// The name that a level is shown under.
pub open spec fn level_name(l: LoggerLevel) -> Seq<char> {
    match l {
        LoggerLevel::Off => "NONE"@,
        LoggerLevel::Debug => "DEBUG"@,
        LoggerLevel::Info => "INFO"@,
        LoggerLevel::Warning => "WARNING"@,
        LoggerLevel::Error => "ERROR"@,
        LoggerLevel::Critical => "CRITICAL"@,
    }
}

impl LoggerLevel {
    /// The position of the level in increasing severity, `Off` first.
    pub fn rank(&self) -> (r: u8)
        ensures
            r == level_rank(*self),
    {
        match self {
            LoggerLevel::Off => 0,
            LoggerLevel::Debug => 1,
            LoggerLevel::Info => 2,
            LoggerLevel::Warning => 3,
            LoggerLevel::Error => 4,
            LoggerLevel::Critical => 5,
        }
    }

    /// The name that the level is shown under.
    pub fn name(&self) -> (r: &'static str)
        ensures
            r@ == level_name(*self),
    {
        match self {
            LoggerLevel::Off => "NONE",
            LoggerLevel::Debug => "DEBUG",
            LoggerLevel::Info => "INFO",
            LoggerLevel::Warning => "WARNING",
            LoggerLevel::Error => "ERROR",
            LoggerLevel::Critical => "CRITICAL",
        }
    }
}

/// What a session is: whether it is open, the level of the entry in
/// progress (`Off` between entries), and the level it was opened at.
pub struct LoggerModel {
    pub open: bool,
    pub state: LoggerLevel,
    pub level: LoggerLevel,
}

/// `e` is an `OperationError` for `action`, with `reason`.
pub open spec fn operation_failure(e: Error, action: Seq<char>, reason: Seq<char>) -> bool {
    e matches Error::OperationError(a, w) && a@ == action && w@ == reason
}

/// The state of a logging session.
pub struct LoggerData {
    open: bool,
    state: LoggerLevel,
    level: LoggerLevel,
}

impl View for LoggerData {
    type V = LoggerModel;

    closed spec fn view(&self) -> LoggerModel {
        LoggerModel { open: self.open, state: self.state, level: self.level }
    }
}

impl LoggerData {
    /// A closed session is fully reset; an open one has a level.
    #[verifier::type_invariant]
    closed spec fn consistent(&self) -> bool {
        if self.open {
            self.level != LoggerLevel::Off
        } else {
            self.state == LoggerLevel::Off && self.level == LoggerLevel::Off
        }
    }

    /// A closed session.
    pub fn new() -> (r: Self)
        ensures
            r@ == (LoggerModel { open: false, state: LoggerLevel::Off, level: LoggerLevel::Off }),
    {
        LoggerData { open: false, state: LoggerLevel::Off, level: LoggerLevel::Off }
    }

    pub fn is_open(&self) -> (r: bool)
        ensures
            r == self@.open,
    {
        self.open
    }

    /// The level the session was opened at.
    pub fn open_level(&self) -> (r: LoggerLevel)
        ensures
            r == self@.level,
    {
        self.level
    }

    /// Whether an entry is in progress.
    pub fn is_in_log(&self) -> (r: bool)
        ensures
            r == (self@.open && self@.state != LoggerLevel::Off),
    {
        self.open && self.state != LoggerLevel::Off
    }

    /// Whether the entry in progress is below the session's level, and so not emitted.
    pub fn curr_log_ignored(&self) -> (r: bool)
        ensures
            r == (level_rank(self@.state) < level_rank(self@.level) || !self@.open),
    {
        self.state.rank() < self.level.rank() || !self.open
    }

    /// Opens the session at `level`. The output is to be made ready after
    /// this succeeds; if that fails, the session is to be closed again.
    pub fn open(&mut self, level: LoggerLevel) -> (r: Result<(), Error>)
        ensures
            match r {
                Ok(()) => !old(self)@.open && level != LoggerLevel::Off && final(self)@ == (
                LoggerModel { open: true, state: LoggerLevel::Off, level }),
                Err(e) => final(self)@ == old(self)@ && if old(self)@.open {
                    operation_failure(e, "open"@, "already open"@)
                } else {
                    level == LoggerLevel::Off && (e matches Error::ArgumentError(n, v) && n@
                        == "level"@ && v@ == "cannot open under level 'NONE'"@)
                },
            },
    {
        if self.open {
            return Err(operation_error("open", "already open"));
        }
        if level == LoggerLevel::Off {
            return Err(argument_error("level", "cannot open under level 'NONE'"));
        }
        *self = LoggerData { open: true, state: LoggerLevel::Off, level };
        Ok(())
    }

    /// Closes the session; closing a closed session changes nothing.
    pub fn close(&mut self)
        ensures
            final(self)@ == (LoggerModel {
                open: false,
                state: LoggerLevel::Off,
                level: LoggerLevel::Off,
            }),
    {
        *self = LoggerData::new();
    }

    /// Starts an entry at `level`. On success, says whether the entry's
    /// heading is to be emitted: it is when the entry is not below the
    /// session's level.
    pub fn start_log(&mut self, level: LoggerLevel) -> (r: Result<bool, Error>)
        ensures
            match r {
                Ok(emit) => old(self)@.open && level != LoggerLevel::Off && old(self)@.state
                    == LoggerLevel::Off && final(self)@ == (LoggerModel {
                    state: level,
                    ..old(self)@
                }) && emit == (level_rank(level) >= level_rank(old(self)@.level)),
                Err(e) => final(self)@ == old(self)@ && if !old(self)@.open {
                    operation_failure(e, "start log"@, "log not open"@)
                } else if level == LoggerLevel::Off {
                    operation_failure(e, "start log"@, "cannot start a log at level NONE"@)
                } else {
                    old(self)@.state != LoggerLevel::Off && operation_failure(
                        e,
                        "start log"@,
                        "log already started at level "@ + level_name(old(self)@.state),
                    )
                },
            },
    {
        if !self.open {
            return Err(operation_error("start log", "log not open"));
        }
        if level == LoggerLevel::Off {
            return Err(operation_error("start log", "cannot start a log at level NONE"));
        }
        if self.is_in_log() {
            let mut reason = String::from_str("log already started at level ");
            reason.append(self.state.name());
            return Err(Error::OperationError(String::from_str("start log"), reason));
        }
        proof {
            use_type_invariant(&*self);
        }
        *self = LoggerData { open: true, state: level, level: self.level };
        Ok(!self.curr_log_ignored())
    }

    /// Decides a write into the entry in progress: on success, says whether
    /// the text is to be emitted.
    pub fn write(&self) -> (r: Result<bool, Error>)
        ensures
            match r {
                Ok(emit) => self@.open && self@.state != LoggerLevel::Off && emit == (level_rank(
                    self@.state,
                ) >= level_rank(self@.level)),
                Err(e) => if !self@.open {
                    operation_failure(e, "write"@, "no file currently open"@)
                } else {
                    self@.state == LoggerLevel::Off && operation_failure(
                        e,
                        "write"@,
                        "not in writing mode"@,
                    )
                },
            },
    {
        if !self.open {
            return Err(operation_error("write", "no file currently open"));
        }
        if !self.is_in_log() {
            return Err(operation_error("write", "not in writing mode"));
        }
        Ok(!self.curr_log_ignored())
    }

    /// Decides whether the entry in progress can be ended; the line end is
    /// to be emitted after this succeeds, and `end_log` called after that.
    pub fn check_end_log(&self) -> (r: Result<(), Error>)
        ensures
            match r {
                Ok(()) => self@.open && self@.state != LoggerLevel::Off,
                Err(e) => if !self@.open {
                    operation_failure(e, "end log"@, "log not open"@)
                } else {
                    self@.state == LoggerLevel::Off && operation_failure(
                        e,
                        "end log"@,
                        "not in log"@,
                    )
                },
            },
    {
        if !self.open {
            return Err(operation_error("end log", "log not open"));
        }
        if !self.is_in_log() {
            return Err(operation_error("end log", "not in log"));
        }
        Ok(())
    }

    /// Ends the entry in progress.
    pub fn end_log(&mut self) -> (r: Result<(), Error>)
        ensures
            match r {
                Ok(()) => old(self)@.open && old(self)@.state != LoggerLevel::Off && final(self)@
                    == (LoggerModel { state: LoggerLevel::Off, ..old(self)@ }),
                Err(e) => final(self)@ == old(self)@ && if !old(self)@.open {
                    operation_failure(e, "end log"@, "log not open"@)
                } else {
                    old(self)@.state == LoggerLevel::Off && operation_failure(
                        e,
                        "end log"@,
                        "not in log"@,
                    )
                },
            },
    {
        self.check_end_log()?;
        proof {
            use_type_invariant(&*self);
        }
        *self = LoggerData { open: true, state: LoggerLevel::Off, level: self.level };
        Ok(())
    }

    /// Whether an entry at `level` is recorded at all: the session is open
    /// and the level is not below the session's level.
    pub fn accepts(&self, level: LoggerLevel) -> (r: bool)
        ensures
            r == (self@.open && level_rank(level) >= level_rank(self@.level)),
    {
        self.open && level.rank() >= self.level.rank()
    }
}

impl Default for LoggerData {
    fn default() -> (r: Self)
        ensures
            r@ == (LoggerModel { open: false, state: LoggerLevel::Off, level: LoggerLevel::Off }),
    {
        LoggerData::new()
    }
}

} // verus!
