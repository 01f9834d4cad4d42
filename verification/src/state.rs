//! The supervisor as a mathematical state machine: what it knows, how each
//! event changes that, and what holds of every state it can reach.
use crate::model::{LogEntryView, LogLevel};
use vstd::prelude::*;

verus! {

/// The number of log entries that are kept for one service. When one more
/// arrives, the oldest leaves.
pub const MAX_LOGS_PER_SERVICE: usize = 1000;

/// The identifier that the first log entry of a supervisor gets.
pub const FIRST_LOG_ID: u64 = 1;

/// The supervisor's reference to a child process that it has started.
#[derive(Debug, Clone, Copy, PartialEq, Eq, Structural)]
pub struct ProcessHandle {
    pub service_id: u32,
    pub os_pid: u32,
}

/// What the operating system answered when it was asked, without waiting,
/// whether a child process has exited.
#[derive(Debug, Clone, Copy, PartialEq, Eq, Structural)]
pub enum ProcessStatus {
    /// The process has not exited.
    Running,
    /// The process has exited.
    Exited,
    /// The operating system could not tell.
    Unknown,
}

/// The newest [`MAX_LOGS_PER_SERVICE`] entries of `entries`, which are its
/// last ones.
pub open spec fn bounded(entries: Seq<LogEntryView>) -> Seq<LogEntryView> {
    if entries.len() > MAX_LOGS_PER_SERVICE {
        entries.skip(entries.len() - MAX_LOGS_PER_SERVICE)
    } else {
        entries
    }
}

/// What may be stored for the service `service_id` while `next_log_id` is
/// the next free identifier: at most [`MAX_LOGS_PER_SERVICE`] entries, all of
/// that service, with used identifiers that grow from each entry to the next.
pub open spec fn entries_well_formed(
    entries: Seq<LogEntryView>,
    service_id: u32,
    next_log_id: nat,
) -> bool {
    &&& entries.len() <= MAX_LOGS_PER_SERVICE
    &&& forall|i: int|
        0 <= i < entries.len() ==> {
            &&& (#[trigger] entries[i]).service_id == service_id
            &&& FIRST_LOG_ID <= entries[i].id < next_log_id
        }
    &&& forall|i: int, j: int|
        0 <= i < j < entries.len() ==> (#[trigger] entries[i]).id < (#[trigger] entries[j]).id
}

/// What the supervisor knows.
#[verifier::ext_equal]
pub struct SupervisorState {
    /// The process table: the handle of each service that has one.
    pub processes: Map<u32, ProcessHandle>,
    /// The log store: the entries kept for each service, oldest first.
    pub logs: Map<u32, Seq<LogEntryView>>,
    /// The identifier that the next log entry gets.
    pub next_log_id: nat,
}

/// Something that happens to the supervisor.
pub enum Event {
    /// A process was started for a service, and the operating system gave
    /// it the identifier `pid`.
    Started { service_id: u32, pid: u32 },
    /// A service was asked to stop.
    Stopped { service_id: u32 },
    /// The operating system was asked whether the process of a service has
    /// exited, and answered `status`.
    Probed { service_id: u32, status: ProcessStatus },
    /// A line of output was read from the process of a service.
    Line { service_id: u32, level: LogLevel, message: Seq<char>, timestamp: Seq<char> },
    /// The log entries of a service were discarded.
    LogsCleared { service_id: u32 },
}

impl SupervisorState {
    /// The state of a new supervisor: no process, no log entry.
    pub open spec fn initial() -> SupervisorState {
        SupervisorState {
            processes: Map::empty(),
            logs: Map::empty(),
            next_log_id: FIRST_LOG_ID as nat,
        }
    }

    /// Whether the process table holds a handle for the service.
    pub open spec fn is_registered(self, service_id: u32) -> bool {
        self.processes.contains_key(service_id)
    }

    /// The log entries kept for a service, oldest first; none for a service
    /// that the log store does not know.
    pub open spec fn entries(self, service_id: u32) -> Seq<LogEntryView> {
        if self.logs.contains_key(service_id) {
            self.logs[service_id]
        } else {
            Seq::empty()
        }
    }

    /// The state after a process with the identifier `pid` was started for
    /// the service: its handle is in the process table, in place of an
    /// earlier one.
    pub open spec fn start(self, service_id: u32, pid: u32) -> SupervisorState {
        SupervisorState {
            processes: self.processes.insert(service_id, ProcessHandle { service_id, os_pid: pid }),
            ..self
        }
    }

    /// The state after the service was asked to stop: it has no handle.
    pub open spec fn stop(self, service_id: u32) -> SupervisorState {
        SupervisorState { processes: self.processes.remove(service_id), ..self }
    }

    /// What a liveness probe of the service reports when the operating
    /// system answers `status`: a service runs if it has a handle and its
    /// process has not exited.
    pub open spec fn reports_running(self, service_id: u32, status: ProcessStatus) -> bool {
        self.is_registered(service_id) && status == ProcessStatus::Running
    }

    /// The state after a liveness probe of the service: the handle of a
    /// process that was found to have exited is removed.
    pub open spec fn probe(self, service_id: u32, status: ProcessStatus) -> SupervisorState {
        if status == ProcessStatus::Exited {
            self.stop(service_id)
        } else {
            self
        }
    }

    /// Whether a log identifier is left for one more entry.
    pub open spec fn can_record(self) -> bool {
        self.next_log_id < u64::MAX
    }

    /// The entry that the next recorded line becomes.
    pub open spec fn next_entry(
        self,
        service_id: u32,
        level: LogLevel,
        message: Seq<char>,
        timestamp: Seq<char>,
    ) -> LogEntryView {
        LogEntryView { id: self.next_log_id as u64, service_id, level, message, timestamp }
    }

    /// The state after a line of output of the service was recorded: the
    /// line got the next identifier and stands last among the entries of the
    /// service, of which the newest [`MAX_LOGS_PER_SERVICE`] are kept.
    /// Nothing is recorded once the identifiers are used up.
    pub open spec fn record(
        self,
        service_id: u32,
        level: LogLevel,
        message: Seq<char>,
        timestamp: Seq<char>,
    ) -> SupervisorState {
        if self.can_record() {
            let entry = self.next_entry(service_id, level, message, timestamp);
            SupervisorState {
                logs: self.logs.insert(service_id, bounded(self.entries(service_id).push(entry))),
                next_log_id: self.next_log_id + 1,
                ..self
            }
        } else {
            self
        }
    }

    /// The state after the log entries of the service were discarded.
    pub open spec fn clear_logs(self, service_id: u32) -> SupervisorState {
        SupervisorState { logs: self.logs.remove(service_id), ..self }
    }

    /// The state after one event.
    pub open spec fn step(self, event: Event) -> SupervisorState {
        match event {
            Event::Started { service_id, pid } => self.start(service_id, pid),
            Event::Stopped { service_id } => self.stop(service_id),
            Event::Probed { service_id, status } => self.probe(service_id, status),
            Event::Line { service_id, level, message, timestamp } => self.record(
                service_id,
                level,
                message,
                timestamp,
            ),
            Event::LogsCleared { service_id } => self.clear_logs(service_id),
        }
    }

    /// The state after a sequence of events, the first of them first.
    pub open spec fn run(self, events: Seq<Event>) -> SupervisorState
        decreases events.len(),
    {
        if events.len() == 0 {
            self
        } else {
            self.run(events.drop_last()).step(events.last())
        }
    }

    /// What holds of every state that a supervisor can reach.
    ///
    /// - Each handle in the process table is that of the service it is
    ///   filed under.
    /// - The log store keeps at most [`MAX_LOGS_PER_SERVICE`] entries for a
    ///   service, each of them of that service.
    /// - The identifiers of the stored entries have been handed out, grow
    ///   from each entry of a service to the next, and no two entries of the
    ///   log store share one.
    pub open spec fn valid(self) -> bool {
        &&& FIRST_LOG_ID <= self.next_log_id <= u64::MAX
        &&& forall|service_id: u32| #[trigger]
            self.processes.contains_key(service_id) ==> self.processes[service_id].service_id
                == service_id
        &&& forall|service_id: u32| #[trigger]
            self.logs.contains_key(service_id) ==> entries_well_formed(
                self.logs[service_id],
                service_id,
                self.next_log_id,
            )
        &&& forall|a: u32, b: u32, i: int, j: int|
            a != b && self.logs.contains_key(a) && self.logs.contains_key(b) && 0 <= i
                < self.logs[a].len() && 0 <= j < self.logs[b].len() ==> (
            #[trigger] self.logs[a][i]).id != (#[trigger] self.logs[b][j]).id
    }
}

/// Whether the event takes the handle of the service away: a stop, or a
/// probe that found its process to have exited.
pub open spec fn ends_service(event: Event, service_id: u32) -> bool {
    match event {
        Event::Stopped { service_id: id } => id == service_id,
        Event::Probed { service_id: id, status } => id == service_id && status
            == ProcessStatus::Exited,
        _ => false,
    }
}

/// Whether the event gives the service a handle: a start.
pub open spec fn starts_service(event: Event, service_id: u32) -> bool {
    match event {
        Event::Started { service_id: id, pid } => id == service_id,
        _ => false,
    }
}

/// What [`bounded`] keeps: as many entries as there are, but no more than
/// [`MAX_LOGS_PER_SERVICE`], each of them one of `entries`, and the last of
/// them the last of `entries`.
pub proof fn lemma_bounded(entries: Seq<LogEntryView>)
    ensures
        bounded(entries).len() == if entries.len() > MAX_LOGS_PER_SERVICE {
            MAX_LOGS_PER_SERVICE as nat
        } else {
            entries.len()
        },
        forall|i: int|
            0 <= i < bounded(entries).len() ==> #[trigger] bounded(entries)[i] == entries[i
                + entries.len() - bounded(entries).len()],
{
}

impl SupervisorState {
    /// A new supervisor is in a valid state.
    pub proof fn lemma_initial_valid()
        ensures
            SupervisorState::initial().valid(),
    {
    }

    /// Recording a line keeps a valid state valid.
    pub proof fn lemma_record_preserves_valid(
        self,
        service_id: u32,
        level: LogLevel,
        message: Seq<char>,
        timestamp: Seq<char>,
    )
        requires
            self.valid(),
        ensures
            self.record(service_id, level, message, timestamp).valid(),
    {
        if self.can_record() {
            let after = self.record(service_id, level, message, timestamp);
            let entry = self.next_entry(service_id, level, message, timestamp);
            let before = self.entries(service_id);
            let pushed = before.push(entry);
            let kept = bounded(pushed);
            lemma_bounded(pushed);
            assert(after.logs[service_id] == kept);
            assert(self.logs.contains_key(service_id) ==> entries_well_formed(
                before,
                service_id,
                self.next_log_id,
            ));
            assert(entries_well_formed(pushed, service_id, after.next_log_id) || pushed.len()
                > MAX_LOGS_PER_SERVICE) by {
                assert forall|i: int, j: int| 0 <= i < j < pushed.len() implies (
                #[trigger] pushed[i]).id < (#[trigger] pushed[j]).id by {
                    assert(pushed[i] == before[i]);
                    if j < before.len() {
                        assert(pushed[j] == before[j]);
                    }
                }
            }
            assert forall|id: u32| #[trigger] after.logs.contains_key(id) implies entries_well_formed(
                after.logs[id],
                id,
                after.next_log_id,
            ) by {
                if id == service_id {
                    assert forall|i: int, j: int| 0 <= i < j < kept.len() implies (
                    #[trigger] kept[i]).id < (#[trigger] kept[j]).id by {
                        let off = pushed.len() - kept.len();
                        assert(kept[i] == pushed[i + off]);
                        assert(kept[j] == pushed[j + off]);
                        if j + off < before.len() {
                            assert(pushed[i + off] == before[i + off]);
                            assert(pushed[j + off] == before[j + off]);
                        } else {
                            assert(pushed[i + off] == before[i + off]);
                        }
                    }
                    assert forall|i: int| 0 <= i < kept.len() implies {
                        &&& (#[trigger] kept[i]).service_id == id
                        &&& FIRST_LOG_ID <= kept[i].id < after.next_log_id
                    } by {
                        let off = pushed.len() - kept.len();
                        assert(kept[i] == pushed[i + off]);
                        if i + off < before.len() {
                            assert(pushed[i + off] == before[i + off]);
                        }
                    }
                } else {
                    assert(self.logs.contains_key(id));
                    assert(after.logs[id] == self.logs[id]);
                }
            }
            assert forall|a: u32, b: u32, i: int, j: int|
                a != b && after.logs.contains_key(a) && after.logs.contains_key(b) && 0 <= i
                    < after.logs[a].len() && 0 <= j < after.logs[b].len() implies (
            #[trigger] after.logs[a][i]).id != (#[trigger] after.logs[b][j]).id by {
                let off = pushed.len() - kept.len();
                if a == service_id {
                    assert(self.logs.contains_key(b));
                    assert(after.logs[b] == self.logs[b]);
                    assert(kept[i] == pushed[i + off]);
                    if i + off < before.len() {
                        assert(pushed[i + off] == before[i + off]);
                        assert(self.logs[a][i + off].id != self.logs[b][j].id);
                    } else {
                        assert(self.logs[b][j].id < self.next_log_id);
                    }
                } else if b == service_id {
                    assert(self.logs.contains_key(a));
                    assert(after.logs[a] == self.logs[a]);
                    assert(kept[j] == pushed[j + off]);
                    if j + off < before.len() {
                        assert(pushed[j + off] == before[j + off]);
                        assert(self.logs[a][i].id != self.logs[b][j + off].id);
                    } else {
                        assert(self.logs[a][i].id < self.next_log_id);
                    }
                } else {
                    assert(self.logs.contains_key(a) && self.logs.contains_key(b));
                    assert(after.logs[a] == self.logs[a]);
                    assert(after.logs[b] == self.logs[b]);
                }
            }
        }
    }

    /// Every event keeps a valid state valid.
    pub proof fn lemma_step_preserves_valid(self, event: Event)
        requires
            self.valid(),
        ensures
            self.step(event).valid(),
    {
        match event {
            Event::Line { service_id, level, message, timestamp } => {
                self.lemma_record_preserves_valid(service_id, level, message, timestamp);
            },
            _ => {},
        }
    }

    /// Every sequence of events keeps a valid state valid.
    pub proof fn lemma_run_preserves_valid(self, events: Seq<Event>)
        requires
            self.valid(),
        ensures
            self.run(events).valid(),
        decreases events.len(),
    {
        if events.len() > 0 {
            self.lemma_run_preserves_valid(events.drop_last());
            self.run(events.drop_last()).lemma_step_preserves_valid(events.last());
        }
    }

    /// A service that was started has a handle, and is reported as running
    /// while its process has not exited, whatever happens next, for as long
    /// as it is not stopped and its process is not found to have exited.
    pub proof fn lemma_started_service_keeps_running(
        self,
        service_id: u32,
        pid: u32,
        events: Seq<Event>,
    )
        requires
            forall|k: int| 0 <= k < events.len() ==> !ends_service(#[trigger] events[k], service_id),
        ensures
            self.start(service_id, pid).run(events).is_registered(service_id),
            self.start(service_id, pid).run(events).reports_running(
                service_id,
                ProcessStatus::Running,
            ),
        decreases events.len(),
    {
        if events.len() > 0 {
            let earlier = events.drop_last();
            assert forall|k: int| 0 <= k < earlier.len() implies !ends_service(
                #[trigger] earlier[k],
                service_id,
            ) by {
                assert(earlier[k] == events[k]);
            }
            self.lemma_started_service_keeps_running(service_id, pid, earlier);
            assert(!ends_service(events[events.len() - 1], service_id));
        }
    }

    /// A service that was stopped has no handle, and is reported as not
    /// running whatever the operating system says, for as long as it is not
    /// started again.
    pub proof fn lemma_stopped_service_is_not_running(
        self,
        service_id: u32,
        events: Seq<Event>,
        status: ProcessStatus,
    )
        requires
            forall|k: int|
                0 <= k < events.len() ==> !starts_service(#[trigger] events[k], service_id),
        ensures
            !self.stop(service_id).run(events).is_registered(service_id),
            !self.stop(service_id).run(events).reports_running(service_id, status),
        decreases events.len(),
    {
        if events.len() > 0 {
            let earlier = events.drop_last();
            assert forall|k: int| 0 <= k < earlier.len() implies !starts_service(
                #[trigger] earlier[k],
                service_id,
            ) by {
                assert(earlier[k] == events[k]);
            }
            self.lemma_stopped_service_is_not_running(service_id, earlier, status);
            assert(!starts_service(events[events.len() - 1], service_id));
        }
    }

    /// Starting, stopping or probing one service leaves the handle of every
    /// other service as it is.
    pub proof fn lemma_other_services_untouched(self, event: Event, other: u32)
        requires
            !starts_service(event, other),
            !ends_service(event, other),
        ensures
            self.step(event).is_registered(other) == self.is_registered(other),
            self.is_registered(other) ==> self.step(event).processes[other]
                == self.processes[other],
    {
    }

    /// Each of two services that were started holds the handle of its own
    /// process: where the operating system gave the two processes different
    /// identifiers, the identifiers that the supervisor keeps for the two
    /// services differ as well.
    pub proof fn lemma_started_services_keep_their_own_pids(
        self,
        first: u32,
        first_pid: u32,
        second: u32,
        second_pid: u32,
    )
        requires
            first != second,
            first_pid != second_pid,
        ensures
            self.start(first, first_pid).start(second, second_pid).processes[first].os_pid
                == first_pid,
            self.start(first, first_pid).start(second, second_pid).processes[second].os_pid
                == second_pid,
            self.start(first, first_pid).start(second, second_pid).processes[first].os_pid
                != self.start(first, first_pid).start(second, second_pid).processes[second].os_pid,
    {
    }

    /// The log store of a supervisor never holds more than
    /// [`MAX_LOGS_PER_SERVICE`] entries for a service, whatever has happened
    /// since it was made.
    pub proof fn lemma_log_store_is_bounded(events: Seq<Event>, service_id: u32)
        ensures
            SupervisorState::initial().run(events).entries(service_id).len()
                <= MAX_LOGS_PER_SERVICE,
    {
        SupervisorState::initial().lemma_run_preserves_valid(events);
    }

    /// The next log identifier never goes back.
    pub proof fn lemma_next_log_id_never_decreases(self, events: Seq<Event>)
        ensures
            self.run(events).next_log_id >= self.next_log_id,
        decreases events.len(),
    {
        if events.len() > 0 {
            self.lemma_next_log_id_never_decreases(events.drop_last());
        }
    }

    /// Log identifiers grow and are never used twice: the identifier that
    /// a recorded line gets is below the identifier that any later line
    /// gets, whatever happens in between.
    pub proof fn lemma_log_ids_increase(
        self,
        service_id: u32,
        level: LogLevel,
        message: Seq<char>,
        timestamp: Seq<char>,
        events: Seq<Event>,
    )
        requires
            self.can_record(),
        ensures
            self.next_entry(service_id, level, message, timestamp).id == self.next_log_id,
            self.record(service_id, level, message, timestamp).run(events).next_log_id
                > self.next_log_id,
    {
        self.record(service_id, level, message, timestamp).lemma_next_log_id_never_decreases(
            events,
        );
    }

    /// No two entries of the log store of a valid state share an
    /// identifier, and each identifier is below the next one to hand out.
    pub proof fn lemma_stored_ids_are_distinct(self, a: u32, i: int, b: u32, j: int)
        requires
            self.valid(),
            0 <= i < self.entries(a).len(),
            0 <= j < self.entries(b).len(),
            a != b || i != j,
        ensures
            self.entries(a)[i].id != self.entries(b)[j].id,
            self.entries(a)[i].id < self.next_log_id,
            a == b && i < j ==> self.entries(a)[i].id < self.entries(b)[j].id,
    {
        assert(self.logs.contains_key(a) && self.logs.contains_key(b));
        assert(entries_well_formed(self.logs[a], a, self.next_log_id));
        if a == b {
            if i < j {
                assert(self.logs[a][i].id < self.logs[a][j].id);
            } else {
                assert(self.logs[a][j].id < self.logs[a][i].id);
            }
        } else {
            assert(self.logs[a][i].id != self.logs[b][j].id);
        }
    }
}

} // verus!
