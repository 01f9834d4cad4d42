//! The supervisor: it keeps the process table and the log store, decides
//! what is to be started and stopped, and records what happened.
//!
//! The supervisor starts nothing itself. To start a service, ask
//! [`ServiceManager::launch_plan`] what to run, run it, and hand the outcome
//! to [`ServiceManager::start_service`]. To stop one, call
//! [`ServiceManager::stop_service`] and end the process of the handle that
//! it returns, as [`ProcessHandle::termination_step`] says.
use crate::clock::now_rfc3339;
use crate::command::{parsed_command, texts, CommandLine};
use crate::model::{
    clone_option_text, entries_view, option_text, LocalService, LogEntry, LogEntryView, LogLevel,
    OutputStream, Service,
};
use crate::state::{
    bounded, Event, ProcessHandle, ProcessStatus, SupervisorState, FIRST_LOG_ID,
    MAX_LOGS_PER_SERVICE,
};
use std::collections::HashMap;
use vstd::prelude::*;

verus! {

/// Why an operation of the supervisor failed.
#[derive(Debug, Clone, PartialEq, Eq)]
pub enum ServiceError {
    /// The command string holds no program to run.
    InvalidCommand,
    /// The operating system did not start the process.
    SpawnFailure { reason: String },
    /// The service has no handle in the process table.
    NotFound,
    /// The request to terminate could not be delivered.
    SignalFailure,
}

impl ServiceError {
    /// The error in words.
    pub fn message(&self) -> (text: String)
        ensures
            match *self {
                ServiceError::InvalidCommand => text@ == "Empty command"@,
                ServiceError::SpawnFailure { reason } => text@ == "Failed to start service: "@
                    + reason@,
                ServiceError::NotFound => text@ == "Service not found"@,
                ServiceError::SignalFailure => text@ == "Failed to signal process"@,
            },
    {
        match self {
            ServiceError::InvalidCommand => "Empty command".to_owned(),
            ServiceError::SpawnFailure { reason } => "Failed to start service: ".to_owned().concat(
                reason.as_str(),
            ),
            ServiceError::NotFound => "Service not found".to_owned(),
            ServiceError::SignalFailure => "Failed to signal process".to_owned(),
        }
    }
}

/// What is to be run for a service: the program, its arguments and the
/// directory to run it in. Both output streams of the process are to be
/// captured.
#[derive(Debug, Clone)]
pub struct LaunchPlan {
    pub service_id: u32,
    pub program: String,
    pub args: Vec<String>,
    pub working_dir: Option<String>,
}

/// The mathematical content of a [`LaunchPlan`].
pub struct LaunchPlanView {
    pub service_id: u32,
    pub program: Seq<char>,
    pub args: Seq<Seq<char>>,
    pub working_dir: Option<Seq<char>>,
}

impl View for LaunchPlan {
    type V = LaunchPlanView;

    open spec fn view(&self) -> LaunchPlanView {
        LaunchPlanView {
            service_id: self.service_id,
            program: self.program@,
            args: texts(self.args@),
            working_dir: option_text(self.working_dir),
        }
    }
}

/// What came of the attempt to start a process.
#[derive(Debug, Clone)]
pub enum SpawnOutcome {
    /// The process runs, under the identifier `pid`.
    Started { pid: u32 },
    /// The operating system refused, for the reason given.
    Failed { reason: String },
}

/// The plan to launch a service with the given identifier, command string
/// and working directory: the first word of the command is the program, the
/// other words are its arguments, and the working directory is passed on as
/// it is. A command without a word has no plan.
pub open spec fn planned_launch(
    service_id: u32,
    command: Seq<char>,
    working_dir: Option<Seq<char>>,
) -> Option<LaunchPlanView> {
    match parsed_command(command) {
        Some(c) => Some(
            LaunchPlanView { service_id, program: c.program, args: c.args, working_dir },
        ),
        None => None,
    }
}

/// The next thing to do to end a process.
#[derive(Debug, Clone, Copy, PartialEq, Eq, Structural)]
pub enum TerminationStep {
    /// Ask the process with this identifier to terminate.
    Signal { pid: i32 },
    /// Kill the process at once.
    ForceKill,
    /// Wait until the process has exited and collect it.
    Reap,
}

impl ProcessHandle {
    /// The first step to end the process of this handle.
    ///
    /// Where the platform has signals, the process is asked to terminate,
    /// if its identifier is known and one that a signal can be sent to: not
    /// zero, and not beyond the identifiers of processes. Otherwise there is
    /// nothing to ask, and the process is only waited for. Where the
    /// platform has no signals, the process is killed.
    pub open spec fn first_step(self, signals_supported: bool) -> TerminationStep {
        if !signals_supported {
            TerminationStep::ForceKill
        } else if 0 < self.os_pid <= i32::MAX {
            TerminationStep::Signal { pid: self.os_pid as i32 }
        } else {
            TerminationStep::Reap
        }
    }

    /// Computes [`ProcessHandle::first_step`].
    pub fn termination_step(&self, signals_supported: bool) -> (step: TerminationStep)
        ensures
            step == self.first_step(signals_supported),
    {
        if !signals_supported {
            TerminationStep::ForceKill
        } else if 0 < self.os_pid && self.os_pid <= 0x7fff_ffff {
            TerminationStep::Signal { pid: self.os_pid as i32 }
        } else {
            TerminationStep::Reap
        }
    }
}

impl TerminationStep {
    /// The step that follows this one, and the error to report, once this
    /// step was tried and `done` tells whether it succeeded.
    ///
    /// A request to terminate that could not be delivered is reported as
    /// [`ServiceError::SignalFailure`] and followed by a kill. Every other
    /// step is followed by waiting for the process; after that nothing is
    /// left to do.
    pub open spec fn next(self, done: bool) -> (Option<TerminationStep>, Option<ServiceError>) {
        match self {
            TerminationStep::Signal { pid } => if done {
                (Some(TerminationStep::Reap), None)
            } else {
                (Some(TerminationStep::ForceKill), Some(ServiceError::SignalFailure))
            },
            TerminationStep::ForceKill => (Some(TerminationStep::Reap), None),
            TerminationStep::Reap => (None, None),
        }
    }

    /// Computes [`TerminationStep::next`].
    pub fn follow_up(self, done: bool) -> (r: (Option<TerminationStep>, Option<ServiceError>))
        ensures
            r == self.next(done),
    {
        match self {
            TerminationStep::Signal { pid } => if done {
                (Some(TerminationStep::Reap), None)
            } else {
                (Some(TerminationStep::ForceKill), Some(ServiceError::SignalFailure))
            },
            TerminationStep::ForceKill => (Some(TerminationStep::Reap), None),
            TerminationStep::Reap => (None, None),
        }
    }
}

/// The entries handed out for a service: the newest first, and no more of
/// them than `limit`, where there is one.
pub open spec fn newest_first(entries: Seq<LogEntryView>, limit: Option<usize>) -> Seq<
    LogEntryView,
> {
    let all = entries.reverse();
    match limit {
        Some(n) => if n < all.len() {
            all.take(n as int)
        } else {
            all
        },
        None => all,
    }
}

/// The supervisor of locally run services.
pub struct ServiceManager {
    processes: HashMap<u32, ProcessHandle>,
    logs: HashMap<u32, Vec<LogEntry>>,
    next_log_id: u64,
}

impl View for ServiceManager {
    type V = SupervisorState;

    closed spec fn view(&self) -> SupervisorState {
        SupervisorState {
            processes: self.processes@,
            logs: self.logs@.map_values(|entries: Vec<LogEntry>| entries_view(entries@)),
            next_log_id: self.next_log_id as nat,
        }
    }
}

impl ServiceManager {
    /// A supervisor that has started nothing and recorded nothing.
    pub fn new() -> (manager: ServiceManager)
        ensures
            manager@ == SupervisorState::initial(),
            manager@.valid(),
    {
        let manager = ServiceManager {
            processes: HashMap::new(),
            logs: HashMap::new(),
            next_log_id: FIRST_LOG_ID,
        };
        assert(manager@.logs == Map::<u32, Seq<LogEntryView>>::empty());
        manager
    }

    /// What is to be run to start `service`, or
    /// [`ServiceError::InvalidCommand`] where its command holds no word.
    pub fn launch_plan(service: &LocalService) -> (result: Result<LaunchPlan, ServiceError>)
        ensures
            match planned_launch(service.id, service.command@, option_text(service.working_dir)) {
                Some(plan) => result is Ok && result->Ok_0@ == plan,
                None => result == Err::<LaunchPlan, ServiceError>(ServiceError::InvalidCommand),
            },
    {
        match CommandLine::parse(service.command.as_str()) {
            Some(command) => Ok(
                LaunchPlan {
                    service_id: service.id,
                    program: command.program,
                    args: command.args,
                    working_dir: clone_option_text(&service.working_dir),
                },
            ),
            None => Err(ServiceError::InvalidCommand),
        }
    }

    /// The handle of a service, if it has one.
    pub fn process_handle(&self, service_id: u32) -> (handle: Option<ProcessHandle>)
        ensures
            handle == if self@.is_registered(service_id) {
                Some(self@.processes[service_id])
            } else {
                None
            },
    {
        broadcast use vstd::std_specs::hash::group_hash_axioms;

        match self.processes.get(&service_id) {
            Some(handle) => Some(*handle),
            None => None,
        }
    }

    /// Records the outcome of starting `service`.
    ///
    /// A service whose command holds no word is refused with
    /// [`ServiceError::InvalidCommand`], whatever the outcome says. A failed
    /// attempt is passed on as [`ServiceError::SpawnFailure`] with its reason.
    /// Neither changes the supervisor. After a successful attempt the
    /// service has the handle of the new process, in place of an earlier
    /// one, and the identifier of the process is returned.
    pub fn start_service(&mut self, service: &LocalService, outcome: SpawnOutcome) -> (result:
        Result<u32, ServiceError>)
        ensures
            old(self)@.valid() ==> final(self)@.valid(),
            parsed_command(service.command@) is None ==> {
                &&& result == Err::<u32, ServiceError>(ServiceError::InvalidCommand)
                &&& final(self)@ == old(self)@
            },
            parsed_command(service.command@) is Some ==> match outcome {
                SpawnOutcome::Started { pid } => {
                    &&& result == Ok::<u32, ServiceError>(pid)
                    &&& final(self)@ == old(self)@.start(service.id, pid)
                },
                SpawnOutcome::Failed { reason } => {
                    &&& result == Err::<u32, ServiceError>(ServiceError::SpawnFailure { reason })
                    &&& final(self)@ == old(self)@
                },
            },
    {
        broadcast use vstd::std_specs::hash::group_hash_axioms;

        match CommandLine::parse(service.command.as_str()) {
            None => Err(ServiceError::InvalidCommand),
            Some(_) => match outcome {
                SpawnOutcome::Started { pid } => {
                    let handle = ProcessHandle { service_id: service.id, os_pid: pid };
                    proof {
                        if self@.valid() {
                            self@.lemma_step_preserves_valid(
                                Event::Started { service_id: service.id, pid },
                            );
                        }
                    }
                    self.processes.insert(service.id, handle);
                    Ok(pid)
                },
                SpawnOutcome::Failed { reason } => Err(ServiceError::SpawnFailure { reason }),
            },
        }
    }

    /// Records the outcome of starting `service` under the identifier
    /// `service_id`, as [`ServiceManager::start_service`] does.
    pub fn start_service_by_id(
        &mut self,
        service_id: u32,
        service: &Service,
        outcome: SpawnOutcome,
    ) -> (result: Result<u32, ServiceError>)
        ensures
            old(self)@.valid() ==> final(self)@.valid(),
            parsed_command(service.command@) is None ==> {
                &&& result == Err::<u32, ServiceError>(ServiceError::InvalidCommand)
                &&& final(self)@ == old(self)@
            },
            parsed_command(service.command@) is Some ==> match outcome {
                SpawnOutcome::Started { pid } => {
                    &&& result == Ok::<u32, ServiceError>(pid)
                    &&& final(self)@ == old(self)@.start(service_id, pid)
                },
                SpawnOutcome::Failed { reason } => {
                    &&& result == Err::<u32, ServiceError>(ServiceError::SpawnFailure { reason })
                    &&& final(self)@ == old(self)@
                },
            },
    {
        let local = service.as_local(service_id);
        self.start_service(&local, outcome)
    }

    /// Takes the handle of a service out of the process table and returns
    /// it: its process is to be ended. A service without a handle is
    /// answered with [`ServiceError::NotFound`].
    pub fn stop_service(&mut self, service_id: u32) -> (result: Result<ProcessHandle, ServiceError>)
        ensures
            old(self)@.valid() ==> final(self)@.valid(),
            final(self)@ == old(self)@.stop(service_id),
            !final(self)@.is_registered(service_id),
            old(self)@.is_registered(service_id) ==> result == Ok::<ProcessHandle, ServiceError>(
                old(self)@.processes[service_id],
            ),
            !old(self)@.is_registered(service_id) ==> result == Err::<ProcessHandle, ServiceError>(
                ServiceError::NotFound,
            ),
    {
        broadcast use vstd::std_specs::hash::group_hash_axioms;

        proof {
            if self@.valid() {
                self@.lemma_step_preserves_valid(Event::Stopped { service_id });
            }
        }
        match self.processes.remove(&service_id) {
            Some(handle) => Ok(handle),
            None => Err(ServiceError::NotFound),
        }
    }

    /// Stops a service in order to start it again: takes its handle, if it
    /// has one, out of the process table and returns it together with what
    /// is to be run. The process of the handle is to be ended first; the
    /// outcome of the launch then goes to [`ServiceManager::start_service`].
    /// That the service had no handle is no error.
    pub fn restart_service(&mut self, service: &LocalService) -> (result: (
        Option<ProcessHandle>,
        Result<LaunchPlan, ServiceError>,
    ))
        ensures
            old(self)@.valid() ==> final(self)@.valid(),
            final(self)@ == old(self)@.stop(service.id),
            result.0 == if old(self)@.is_registered(service.id) {
                Some(old(self)@.processes[service.id])
            } else {
                None
            },
            match planned_launch(service.id, service.command@, option_text(service.working_dir)) {
                Some(plan) => result.1 is Ok && result.1->Ok_0@ == plan,
                None => result.1 == Err::<LaunchPlan, ServiceError>(ServiceError::InvalidCommand),
            },
    {
        let stopped = match self.stop_service(service.id) {
            Ok(handle) => Some(handle),
            Err(_) => None,
        };
        (stopped, ServiceManager::launch_plan(service))
    }

    /// Whether a service runs, given what the operating system answered
    /// when asked whether its process has exited: it runs if it has a handle
    /// and the process has not exited. The handle of a process that has
    /// exited is removed.
    pub fn is_service_running(&mut self, service_id: u32, status: ProcessStatus) -> (running: bool)
        ensures
            old(self)@.valid() ==> final(self)@.valid(),
            running == old(self)@.reports_running(service_id, status),
            final(self)@ == old(self)@.probe(service_id, status),
    {
        broadcast use vstd::std_specs::hash::group_hash_axioms;

        proof {
            if self@.valid() {
                self@.lemma_step_preserves_valid(Event::Probed { service_id, status });
            }
        }
        match status {
            ProcessStatus::Running => self.processes.contains_key(&service_id),
            ProcessStatus::Exited => {
                self.processes.remove(&service_id);
                false
            },
            ProcessStatus::Unknown => false,
        }
    }

    /// Records a line of output of a service, under the next log
    /// identifier, and returns that identifier. Of the entries of the service
    /// the newest [`MAX_LOGS_PER_SERVICE`] are kept. Once the identifiers are
    /// used up, nothing is recorded and nothing returned.
    pub fn append_log(
        &mut self,
        service_id: u32,
        level: LogLevel,
        message: String,
        timestamp: String,
    ) -> (id: Option<u64>)
        ensures
            old(self)@.valid() ==> final(self)@.valid(),
            final(self)@ == old(self)@.record(service_id, level, message@, timestamp@),
            id == if old(self)@.can_record() {
                Some(old(self)@.next_log_id as u64)
            } else {
                None
            },
            old(self)@.can_record() ==> final(self)@.entries(service_id).len()
                <= MAX_LOGS_PER_SERVICE,
    {
        broadcast use vstd::std_specs::hash::group_hash_axioms;

        let ghost before = self@;
        proof {
            if before.valid() {
                before.lemma_record_preserves_valid(service_id, level, message@, timestamp@);
            }
        }
        if self.next_log_id == u64::MAX {
            return None;
        }
        let id = self.next_log_id;
        let entry = LogEntry { id, service_id, level, message, timestamp };
        let mut entries = match self.logs.remove(&service_id) {
            Some(entries) => entries,
            None => Vec::new(),
        };
        assert(entries_view(entries@) == before.entries(service_id));
        entries.push(entry);
        let ghost pushed = entries_view(entries@);
        assert(pushed == before.entries(service_id).push(entry@));
        while entries.len() > MAX_LOGS_PER_SERVICE
            invariant
                entries.len() <= pushed.len(),
                pushed.len() > MAX_LOGS_PER_SERVICE ==> entries.len() >= MAX_LOGS_PER_SERVICE,
                pushed.len() <= MAX_LOGS_PER_SERVICE ==> entries.len() == pushed.len(),
                entries_view(entries@) == pushed.skip(pushed.len() - entries.len()),
            decreases entries.len(),
        {
            let ghost longer = entries@;
            entries.remove(0);
            assert(entries_view(entries@) == entries_view(longer).skip(1));
        }
        assert(pushed.skip(0) == pushed);
        assert(entries_view(entries@) == bounded(pushed));
        self.logs.insert(service_id, entries);
        self.next_log_id = id + 1;
        assert(self@.logs == before.record(service_id, level, message@, timestamp@).logs);
        Some(id)
    }

    /// Records a line that was read from an output stream of the process of
    /// a service, as [`ServiceManager::append_log`] does: with the level of
    /// the stream, and with the time at which this function is called.
    pub fn on_line(&mut self, service_id: u32, stream: OutputStream, text: String) -> (id: Option<
        u64,
    >)
        ensures
            old(self)@.valid() ==> final(self)@.valid(),
            exists|timestamp: Seq<char>|
                final(self)@ == #[trigger] old(self)@.record(
                    service_id,
                    stream.level(),
                    text@,
                    timestamp,
                ),
            id == if old(self)@.can_record() {
                Some(old(self)@.next_log_id as u64)
            } else {
                None
            },
    {
        let timestamp = now_rfc3339();
        self.append_log(service_id, stream.log_level(), text, timestamp)
    }

    /// The log entries of a service, the newest first, and no more of them
    /// than `limit`, where there is one.
    pub fn get_service_logs(&self, service_id: u32, limit: Option<usize>) -> (result: Vec<
        LogEntry,
    >)
        ensures
            entries_view(result@) == newest_first(self@.entries(service_id), limit),
    {
        broadcast use vstd::std_specs::hash::group_hash_axioms;

        let mut result: Vec<LogEntry> = Vec::new();
        match self.logs.get(&service_id) {
            Some(entries) => {
                let len = entries.len();
                let count = match limit {
                    Some(n) => if n < len {
                        n
                    } else {
                        len
                    },
                    None => len,
                };
                let ghost newest = entries_view(entries@).reverse();
                let mut taken: usize = 0;
                while taken < count
                    invariant
                        len == entries.len(),
                        taken <= count <= len,
                        newest == entries_view(entries@).reverse(),
                        entries_view(result@) == newest.take(taken as int),
                    decreases count - taken,
                {
                    let copy = entries[len - 1 - taken].duplicate();
                    assert(copy@ == newest[taken as int]);
                    assert(newest.take(taken + 1) == newest.take(taken as int).push(copy@));
                    result.push(copy);
                    taken = taken + 1;
                }
                assert(newest.take(len as int) == newest);
            },
            None => {
                assert(entries_view(result@) == Seq::<LogEntryView>::empty().reverse());
            },
        }
        result
    }

    /// Discards the log entries of a service. The process table is left as
    /// it is.
    pub fn clear_service_logs(&mut self, service_id: u32)
        ensures
            old(self)@.valid() ==> final(self)@.valid(),
            final(self)@ == old(self)@.clear_logs(service_id),
            final(self)@.entries(service_id).len() == 0,
    {
        broadcast use vstd::std_specs::hash::group_hash_axioms;

        let ghost before = self@;
        proof {
            if before.valid() {
                before.lemma_step_preserves_valid(Event::LogsCleared { service_id });
            }
        }
        self.logs.remove(&service_id);
        assert(self@ == before.clear_logs(service_id));
    }
}

} // verus!
