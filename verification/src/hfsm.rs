//! The server's hierarchical state machine: document analysis and the
//! locked write-back of line numbers into a specification file.
use vstd::prelude::*;

verus! {

/// What happens to the server, one step at a time.
#[derive(Debug, Clone, PartialEq, Eq, Structural)]
pub enum Event {
    Initialize,
    DocumentChanged,
    AnalysisCompleted,
    TriggerAutoInjection,
    LockAcquired,
    LockFailed,
    WriteCompleted,
    WriteError,
    LockReleased,
    RecoveryCompleted,
    Shutdown,
}

#[derive(Debug, Clone, PartialEq, Eq, Structural)]
pub enum ReadyState {
    DocumentIdle,
    Analyzing,
}

#[derive(Debug, Clone, PartialEq, Eq, Structural)]
pub enum LockingWriteState {
    AcquiringLock,
    Writing,
    ReleasingLock,
    ConflictHandling,
}

#[derive(Debug, Clone, PartialEq, Eq, Structural)]
pub enum InitializedState {
    Ready(ReadyState),
    LockingWrite(LockingWriteState),
}

#[derive(Debug, Clone, PartialEq, Eq, Structural)]
pub enum ServerState {
    Uninitialized,
    Initialized(InitializedState),
}

/// The state reached from `ready` (inside `Ready`) on `event`, for every
/// event but `Shutdown`.
pub open spec fn next_ready(ready: ReadyState, event: Event) -> ServerState {
    match (ready, event) {
        (ReadyState::DocumentIdle, Event::DocumentChanged) =>
            ServerState::Initialized(InitializedState::Ready(ReadyState::Analyzing)),
        (ReadyState::Analyzing, Event::AnalysisCompleted) =>
            ServerState::Initialized(InitializedState::Ready(ReadyState::DocumentIdle)),
        (_, Event::TriggerAutoInjection) =>
            ServerState::Initialized(InitializedState::LockingWrite(LockingWriteState::AcquiringLock)),
        (current, _) => ServerState::Initialized(InitializedState::Ready(current)),
    }
}

/// The state reached from `locking` (inside `LockingWrite`) on `event`, for
/// every event but `Shutdown`.
pub open spec fn next_locking(locking: LockingWriteState, event: Event) -> ServerState {
    match (locking, event) {
        (LockingWriteState::AcquiringLock, Event::LockAcquired) =>
            ServerState::Initialized(InitializedState::LockingWrite(LockingWriteState::Writing)),
        (LockingWriteState::AcquiringLock, Event::LockFailed) =>
            ServerState::Initialized(InitializedState::LockingWrite(LockingWriteState::ConflictHandling)),
        (LockingWriteState::Writing, Event::WriteCompleted) =>
            ServerState::Initialized(InitializedState::LockingWrite(LockingWriteState::ReleasingLock)),
        (LockingWriteState::Writing, Event::WriteError) =>
            ServerState::Initialized(InitializedState::LockingWrite(LockingWriteState::ConflictHandling)),
        (LockingWriteState::ReleasingLock, Event::LockReleased) =>
            ServerState::Initialized(InitializedState::Ready(ReadyState::DocumentIdle)),
        (LockingWriteState::ConflictHandling, Event::RecoveryCompleted) =>
            ServerState::Initialized(InitializedState::Ready(ReadyState::DocumentIdle)),
        (current, _) => ServerState::Initialized(InitializedState::LockingWrite(current)),
    }
}

/// The transition function of the machine.
pub open spec fn next_state(state: ServerState, event: Event) -> ServerState {
    match state {
        ServerState::Uninitialized => match event {
            Event::Initialize => ServerState::Initialized(InitializedState::Ready(ReadyState::DocumentIdle)),
            _ => ServerState::Uninitialized,
        },
        ServerState::Initialized(inner) => match event {
            Event::Shutdown => ServerState::Uninitialized,
            _ => match inner {
                InitializedState::Ready(ready) => next_ready(ready, event),
                InitializedState::LockingWrite(locking) => next_locking(locking, event),
            },
        },
    }
}

/// The state after a whole run of events.
pub open spec fn run_events(state: ServerState, events: Seq<Event>) -> ServerState
    decreases events.len(),
{
    if events.len() == 0 {
        state
    } else {
        run_events(next_state(state, events[0]), events.drop_first())
    }
}

/// Shutdown brings the server back to `Uninitialized` from every state.
pub proof fn lemma_shutdown_from_any_state(state: ServerState)
    ensures
        next_state(state, Event::Shutdown) == ServerState::Uninitialized,
{
}

/// Before initialization every event but `Initialize` is ignored.
pub proof fn lemma_uninitialized_ignores_events(event: Event)
    requires
        event != Event::Initialize,
    ensures
        next_state(ServerState::Uninitialized, event) == ServerState::Uninitialized,
{
}

/// An initialized server stays initialized until it is shut down.
pub proof fn lemma_initialized_until_shutdown(inner: InitializedState, event: Event)
    requires
        event != Event::Shutdown,
    ensures
        next_state(ServerState::Initialized(inner), event) is Initialized,
{
}

/// While the specification file is locked for writing, edits of the document
/// do not change the state.
pub proof fn lemma_edits_ignored_while_writing(locking: LockingWriteState)
    ensures
        next_state(
            ServerState::Initialized(InitializedState::LockingWrite(locking)),
            Event::DocumentChanged,
        ) == ServerState::Initialized(InitializedState::LockingWrite(locking)),
{
}

/// From any ready state, a write-back that succeeds, one whose lock is refused
/// and one whose write fails each end in `DocumentIdle`.
pub proof fn lemma_write_back_returns_to_idle(ready: ReadyState)
    ensures
        run_events(
            ServerState::Initialized(InitializedState::Ready(ready)),
            seq![Event::TriggerAutoInjection, Event::LockAcquired, Event::WriteCompleted, Event::LockReleased],
        ) == ServerState::Initialized(InitializedState::Ready(ReadyState::DocumentIdle)),
        run_events(
            ServerState::Initialized(InitializedState::Ready(ready)),
            seq![Event::TriggerAutoInjection, Event::LockFailed, Event::RecoveryCompleted],
        ) == ServerState::Initialized(InitializedState::Ready(ReadyState::DocumentIdle)),
        run_events(
            ServerState::Initialized(InitializedState::Ready(ready)),
            seq![Event::TriggerAutoInjection, Event::LockAcquired, Event::WriteError, Event::RecoveryCompleted],
        ) == ServerState::Initialized(InitializedState::Ready(ReadyState::DocumentIdle)),
{
    reveal_with_fuel(run_events, 5);
}

/// An analysis round trip leaves an idle document idle.
pub proof fn lemma_analysis_round_trip()
    ensures
        run_events(
            ServerState::Initialized(InitializedState::Ready(ReadyState::DocumentIdle)),
            seq![Event::DocumentChanged, Event::AnalysisCompleted],
        ) == ServerState::Initialized(InitializedState::Ready(ReadyState::DocumentIdle)),
{
    reveal_with_fuel(run_events, 3);
}

/// A point in the handling of a document change at which the server reports
/// its progress to the machine.
#[derive(Debug, Clone, Copy, PartialEq, Eq, Structural)]
pub enum ChangeStage {
    /// The audit is done; `true` when line numbers are to be written back
    /// into the specification file.
    Audited(bool),
    /// The lock on the specification file was taken (`true`) or refused.
    Locked(bool),
    /// The corrected text was written (`true`) or the write failed.
    Written(bool),
}

/// The events that the server dispatches at each stage, in order.
pub open spec fn stage_events(stage: ChangeStage) -> Seq<Event> {
    match stage {
        ChangeStage::Audited(false) => seq![Event::AnalysisCompleted],
        ChangeStage::Audited(true) => seq![Event::TriggerAutoInjection],
        ChangeStage::Locked(true) => seq![Event::LockAcquired],
        ChangeStage::Locked(false) => seq![Event::LockFailed, Event::RecoveryCompleted],
        ChangeStage::Written(true) => seq![Event::WriteCompleted, Event::LockReleased],
        ChangeStage::Written(false) => seq![Event::WriteError, Event::RecoveryCompleted],
    }
}

/// The events to dispatch when the handling of a change reaches `stage`.
pub fn stage_events_of(stage: ChangeStage) -> (events: Vec<Event>)
    ensures
        events@ == stage_events(stage),
{
    match stage {
        ChangeStage::Audited(false) => vec![Event::AnalysisCompleted],
        ChangeStage::Audited(true) => vec![Event::TriggerAutoInjection],
        ChangeStage::Locked(true) => vec![Event::LockAcquired],
        ChangeStage::Locked(false) => vec![Event::LockFailed, Event::RecoveryCompleted],
        ChangeStage::Written(true) => vec![Event::WriteCompleted, Event::LockReleased],
        ChangeStage::Written(false) => vec![Event::WriteError, Event::RecoveryCompleted],
    }
}

/// The events of a whole change handled from its audit on: the audit, then,
/// where line numbers are written back, the lock and, where the lock was
/// taken, the write.
pub open spec fn change_events(inject: bool, locked: bool, written: bool) -> Seq<Event> {
    if !inject {
        stage_events(ChangeStage::Audited(false))
    } else if !locked {
        stage_events(ChangeStage::Audited(true)) + stage_events(ChangeStage::Locked(false))
    } else {
        stage_events(ChangeStage::Audited(true)) + stage_events(ChangeStage::Locked(true)) + stage_events(
            ChangeStage::Written(written),
        )
    }
}

/// Law: a change whose analysis began on an idle document ends with the
/// document idle again, whether or not line numbers are written back, the
/// lock is refused or the write fails.
pub proof fn lemma_change_ends_idle(inject: bool, locked: bool, written: bool)
    ensures
        run_events(
            ServerState::Initialized(InitializedState::Ready(ReadyState::DocumentIdle)),
            seq![Event::DocumentChanged] + change_events(inject, locked, written),
        ) == ServerState::Initialized(InitializedState::Ready(ReadyState::DocumentIdle)),
{
    reveal_with_fuel(run_events, 6);
    let evs = seq![Event::DocumentChanged] + change_events(inject, locked, written);
    if !inject {
        assert(evs =~= seq![Event::DocumentChanged, Event::AnalysisCompleted]);
    } else if !locked {
        assert(evs =~= seq![Event::DocumentChanged, Event::TriggerAutoInjection, Event::LockFailed, Event::RecoveryCompleted]);
    } else if written {
        assert(evs =~= seq![
            Event::DocumentChanged,
            Event::TriggerAutoInjection,
            Event::LockAcquired,
            Event::WriteCompleted,
            Event::LockReleased,
        ]);
    } else {
        assert(evs =~= seq![
            Event::DocumentChanged,
            Event::TriggerAutoInjection,
            Event::LockAcquired,
            Event::WriteError,
            Event::RecoveryCompleted,
        ]);
    }
}

pub struct Hfsm {
    state: ServerState,
}

impl View for Hfsm {
    type V = ServerState;

    closed spec fn view(&self) -> ServerState {
        self.state
    }
}

fn copy_ready(r: &ReadyState) -> (out: ReadyState)
    ensures
        out == *r,
{
    match r {
        ReadyState::DocumentIdle => ReadyState::DocumentIdle,
        ReadyState::Analyzing => ReadyState::Analyzing,
    }
}

fn copy_locking(l: &LockingWriteState) -> (out: LockingWriteState)
    ensures
        out == *l,
{
    match l {
        LockingWriteState::AcquiringLock => LockingWriteState::AcquiringLock,
        LockingWriteState::Writing => LockingWriteState::Writing,
        LockingWriteState::ReleasingLock => LockingWriteState::ReleasingLock,
        LockingWriteState::ConflictHandling => LockingWriteState::ConflictHandling,
    }
}

impl Hfsm {
    /// A machine that has not been initialized.
    pub fn new() -> (m: Self)
        ensures
            m@ == ServerState::Uninitialized,
    {
        Hfsm { state: ServerState::Uninitialized }
    }

    pub fn get_state(&self) -> (s: &ServerState)
        ensures
            *s == self@,
    {
        &self.state
    }

    /// Takes one transition.
    pub fn dispatch(&mut self, event: Event)
        ensures
            final(self)@ == next_state(old(self)@, event),
    {
        let next = match &self.state {
            ServerState::Uninitialized => match event {
                Event::Initialize => ServerState::Initialized(InitializedState::Ready(ReadyState::DocumentIdle)),
                _ => ServerState::Uninitialized,
            },
            ServerState::Initialized(inner) => match event {
                Event::Shutdown => ServerState::Uninitialized,
                _ => match inner {
                    InitializedState::Ready(ready) => match (ready, event) {
                        (ReadyState::DocumentIdle, Event::DocumentChanged) =>
                            ServerState::Initialized(InitializedState::Ready(ReadyState::Analyzing)),
                        (ReadyState::Analyzing, Event::AnalysisCompleted) =>
                            ServerState::Initialized(InitializedState::Ready(ReadyState::DocumentIdle)),
                        (_, Event::TriggerAutoInjection) =>
                            ServerState::Initialized(InitializedState::LockingWrite(LockingWriteState::AcquiringLock)),
                        (current, _) => ServerState::Initialized(InitializedState::Ready(copy_ready(current))),
                    },
                    InitializedState::LockingWrite(locking) => match (locking, event) {
                        (LockingWriteState::AcquiringLock, Event::LockAcquired) =>
                            ServerState::Initialized(InitializedState::LockingWrite(LockingWriteState::Writing)),
                        (LockingWriteState::AcquiringLock, Event::LockFailed) =>
                            ServerState::Initialized(InitializedState::LockingWrite(LockingWriteState::ConflictHandling)),
                        (LockingWriteState::Writing, Event::WriteCompleted) =>
                            ServerState::Initialized(InitializedState::LockingWrite(LockingWriteState::ReleasingLock)),
                        (LockingWriteState::Writing, Event::WriteError) =>
                            ServerState::Initialized(InitializedState::LockingWrite(LockingWriteState::ConflictHandling)),
                        (LockingWriteState::ReleasingLock, Event::LockReleased) =>
                            ServerState::Initialized(InitializedState::Ready(ReadyState::DocumentIdle)),
                        (LockingWriteState::ConflictHandling, Event::RecoveryCompleted) =>
                            ServerState::Initialized(InitializedState::Ready(ReadyState::DocumentIdle)),
                        (current, _) => ServerState::Initialized(InitializedState::LockingWrite(copy_locking(current))),
                    },
                },
            },
        };
        self.state = next;
    }
}

} // verus!
