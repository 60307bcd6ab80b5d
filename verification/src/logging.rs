//! The logging interface for guests: a host component whose data turns what
//! a guest logs into records for the host's own log.

use crate::host_component::HostComponent;
use crate::host_component::HostComponentDataHandle;
use crate::host_component::Linker;
use vstd::prelude::*;
use vstd::string::*;

verus! {

/// How grave a guest takes what it logs to be.
#[derive(Clone, Copy, Debug, PartialEq, Eq, Structural)]
pub enum Level {
    Trace,
    Debug,
    Info,
    Warn,
    Error,
    Critical,
}

/// The levels of the host's log.
#[derive(Clone, Copy, Debug, PartialEq, Eq, Structural)]
pub enum HostLevel {
    Error,
    Warn,
    Info,
    Debug,
    Trace,
}

/// The host's level for a guest's level: the same, but that the host has
/// nothing above an error.
pub open spec fn host_level_of(level: Level) -> HostLevel {
    match level {
        Level::Trace => HostLevel::Trace,
        Level::Debug => HostLevel::Debug,
        Level::Info => HostLevel::Info,
        Level::Warn => HostLevel::Warn,
        Level::Error => HostLevel::Error,
        Level::Critical => HostLevel::Error,
    }
}

/// The host's level for a guest's level.
pub fn host_level(level: Level) -> (host: HostLevel)
    ensures
        host == host_level_of(level),
{
    match level {
        Level::Trace => HostLevel::Trace,
        Level::Debug => HostLevel::Debug,
        Level::Info => HostLevel::Info,
        Level::Warn => HostLevel::Warn,
        Level::Critical => HostLevel::Error,
        Level::Error => HostLevel::Error,
    }
}

/// A record for the host's log.
#[derive(Debug)]
pub struct LogRecord {
    pub level: HostLevel,
    pub text: String,
}

/// The name under which guests find the logging interface.
pub open spec fn logging_interface() -> Seq<char> {
    "wasi:logging/logging"@
}

/// The host component that offers logging to guests.
#[derive(Debug)]
pub struct LoggingComponent;

impl Default for LoggingComponent {
    fn default() -> Self {
        LoggingComponent
    }
}

impl HostComponent for LoggingComponent {
    type Data = Logging;

    /// The logging component binds the logging interface.
    open spec fn interface() -> Option<Seq<char>> {
        Some(logging_interface())
    }

    fn add_to_linker<L: Linker>(linker: &mut L, handle: HostComponentDataHandle<Self>) -> (bound:
        Result<(), String>) {
        linker.bind("wasi:logging/logging", handle.into_any())
    }

    /// The logging component's data holds nothing: there is one value of
    /// it.
    open spec fn builds(&self, data: Self::Data) -> bool {
        data == (Logging {  })
    }

    fn build_data(&self) -> (data: Self::Data) {
        Logging {  }
    }
}

/// The logging component's data for one guest instance.
#[derive(Debug)]
pub struct Logging {}

impl Default for Logging {
    fn default() -> Self {
        Logging {  }
    }
}

impl Logging {
    /// The record for what a guest logs: at the host's level for `level`,
    /// the context, a colon, a space, and the message.
    pub fn log(&mut self, level: Level, context: String, message: String) -> (record: LogRecord)
        ensures
            record.level == host_level_of(level),
            record.text@ == context@ + ": "@ + message@,
    {
        let mut text = context;
        text.append(": ");
        text.append(message.as_str());
        LogRecord { level: host_level(level), text }
    }
}

} // verus!
