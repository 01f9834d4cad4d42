//! Plain data shared by the rest of the crate.
use vstd::prelude::*;

verus! {

/// A service as the persistence layer stores it.
#[derive(Debug, Clone)]
pub struct Service {
    pub id: u32,
    pub name: String,
    pub command: String,
    pub working_dir: Option<String>,
    pub project_id: Option<u32>,
    pub auto_start: bool,
    pub created_at: String,
}

/// What the supervisor needs to know of a service in order to run it.
#[derive(Debug, Clone)]
pub struct LocalService {
    pub id: u32,
    pub name: String,
    pub command: String,
    pub working_dir: Option<String>,
}

/// The mathematical content of a [`LocalService`].
pub struct LocalServiceView {
    pub id: u32,
    pub name: Seq<char>,
    pub command: Seq<char>,
    pub working_dir: Option<Seq<char>>,
}

/// The characters of an optional string.
pub open spec fn option_text(s: Option<String>) -> Option<Seq<char>> {
    match s {
        Some(t) => Some(t@),
        None => None,
    }
}

impl View for LocalService {
    type V = LocalServiceView;

    open spec fn view(&self) -> LocalServiceView {
        LocalServiceView {
            id: self.id,
            name: self.name@,
            command: self.command@,
            working_dir: option_text(self.working_dir),
        }
    }
}

/// A copy of an optional string.
pub fn clone_option_text(s: &Option<String>) -> (r: Option<String>)
    ensures
        option_text(r) == option_text(*s),
{
    match s {
        Some(t) => Some(t.clone()),
        None => None,
    }
}

impl Service {
    /// The part of this service that the supervisor runs, under the
    /// identifier `service_id`.
    pub fn as_local(&self, service_id: u32) -> (local: LocalService)
        ensures
            local@ == (LocalServiceView {
                id: service_id,
                name: self.name@,
                command: self.command@,
                working_dir: option_text(self.working_dir),
            }),
    {
        LocalService {
            id: service_id,
            name: self.name.clone(),
            command: self.command.clone(),
            working_dir: clone_option_text(&self.working_dir),
        }
    }
}

/// The severity of a log entry.
#[derive(Debug, Clone, Copy, PartialEq, Eq, Structural)]
pub enum LogLevel {
    Info,
    Error,
}

/// The output stream of a child process that a line was read from.
#[derive(Debug, Clone, Copy, PartialEq, Eq, Structural)]
pub enum OutputStream {
    Stdout,
    Stderr,
}

impl OutputStream {
    /// The level of the lines read from this stream: standard output is
    /// informational, standard error is an error.
    pub open spec fn level(self) -> LogLevel {
        match self {
            OutputStream::Stdout => LogLevel::Info,
            OutputStream::Stderr => LogLevel::Error,
        }
    }

    /// Computes [`OutputStream::level`].
    pub fn log_level(self) -> (level: LogLevel)
        ensures
            level == self.level(),
    {
        match self {
            OutputStream::Stdout => LogLevel::Info,
            OutputStream::Stderr => LogLevel::Error,
        }
    }
}

impl LogLevel {
    /// The lower-case name of the level, as user interfaces show it.
    pub fn name(self) -> (text: String)
        ensures
            self == LogLevel::Info ==> text@ == "info"@,
            self == LogLevel::Error ==> text@ == "error"@,
    {
        match self {
            LogLevel::Info => "info".to_owned(),
            LogLevel::Error => "error".to_owned(),
        }
    }
}

/// One captured line of output.
#[derive(Debug, Clone)]
pub struct LogEntry {
    pub id: u64,
    pub service_id: u32,
    pub level: LogLevel,
    pub message: String,
    pub timestamp: String,
}

/// The mathematical content of a [`LogEntry`].
pub struct LogEntryView {
    pub id: u64,
    pub service_id: u32,
    pub level: LogLevel,
    pub message: Seq<char>,
    pub timestamp: Seq<char>,
}

impl View for LogEntry {
    type V = LogEntryView;

    open spec fn view(&self) -> LogEntryView {
        LogEntryView {
            id: self.id,
            service_id: self.service_id,
            level: self.level,
            message: self.message@,
            timestamp: self.timestamp@,
        }
    }
}

impl LogEntry {
    /// A copy of this entry.
    pub fn duplicate(&self) -> (copy: LogEntry)
        ensures
            copy@ == self@,
    {
        LogEntry {
            id: self.id,
            service_id: self.service_id,
            level: self.level,
            message: self.message.clone(),
            timestamp: self.timestamp.clone(),
        }
    }
}

/// The contents of a sequence of log entries.
pub open spec fn entries_view(entries: Seq<LogEntry>) -> Seq<LogEntryView> {
    entries.map_values(|e: LogEntry| e@)
}

/// A task as the persistence layer stores it.
#[derive(Debug, Clone)]
pub struct Task {
    pub id: u32,
    pub title: String,
    /// From 1, the most urgent, to 5.
    pub priority: u8,
    pub deadline: String,
    /// In minutes.
    pub estimated_time: u32,
    pub start_date: Option<String>,
    pub scheduled_start: Option<String>,
    pub completed: bool,
    pub locked: bool,
    pub category: Option<String>,
    pub reminder_enabled: bool,
    pub reminder_minutes: u32,
    pub project_id: Option<u32>,
    pub created_at: String,
}

/// What a user typed into the form for a new task: every field is text.
#[derive(Debug, Clone)]
pub struct TaskFormData {
    pub title: String,
    pub priority: String,
    pub deadline: String,
    pub estimated_hours: String,
    pub estimated_minutes: String,
    pub start_date: String,
}

} // verus!
