use docs_auditor::hfsm::{stage_events_of, ChangeStage, Event, Hfsm, InitializedState, LockingWriteState, ReadyState, ServerState};

#[test]
fn test_hfsm_transitions() {
    let mut hfsm = Hfsm::new();
    assert_eq!(*hfsm.get_state(), ServerState::Uninitialized);

    // Events before initialization are ignored
    hfsm.dispatch(Event::DocumentChanged);
    assert_eq!(*hfsm.get_state(), ServerState::Uninitialized);

    // Initialization
    hfsm.dispatch(Event::Initialize);
    assert_eq!(
        *hfsm.get_state(),
        ServerState::Initialized(InitializedState::Ready(ReadyState::DocumentIdle))
    );

    // A document change is noticed
    hfsm.dispatch(Event::DocumentChanged);
    assert_eq!(
        *hfsm.get_state(),
        ServerState::Initialized(InitializedState::Ready(ReadyState::Analyzing))
    );

    // Analysis completes
    hfsm.dispatch(Event::AnalysisCompleted);
    assert_eq!(
        *hfsm.get_state(),
        ServerState::Initialized(InitializedState::Ready(ReadyState::DocumentIdle))
    );

    // Automatic line-number injection starts
    hfsm.dispatch(Event::TriggerAutoInjection);
    assert_eq!(
        *hfsm.get_state(),
        ServerState::Initialized(InitializedState::LockingWrite(LockingWriteState::AcquiringLock))
    );

    // Document changes while the lock is being acquired are ignored
    hfsm.dispatch(Event::DocumentChanged);
    assert_eq!(
        *hfsm.get_state(),
        ServerState::Initialized(InitializedState::LockingWrite(LockingWriteState::AcquiringLock))
    );

    // The lock is acquired
    hfsm.dispatch(Event::LockAcquired);
    assert_eq!(
        *hfsm.get_state(),
        ServerState::Initialized(InitializedState::LockingWrite(LockingWriteState::Writing))
    );

    // The write completes
    hfsm.dispatch(Event::WriteCompleted);
    assert_eq!(
        *hfsm.get_state(),
        ServerState::Initialized(InitializedState::LockingWrite(LockingWriteState::ReleasingLock))
    );

    // The lock is released
    hfsm.dispatch(Event::LockReleased);
    assert_eq!(
        *hfsm.get_state(),
        ServerState::Initialized(InitializedState::Ready(ReadyState::DocumentIdle))
    );

    // Shutdown
    hfsm.dispatch(Event::Shutdown);
    assert_eq!(*hfsm.get_state(), ServerState::Uninitialized);
}

#[test]
fn test_hfsm_conflict_handling() {
    let mut hfsm = Hfsm::new();
    hfsm.dispatch(Event::Initialize);
    hfsm.dispatch(Event::TriggerAutoInjection);
    
    // The lock is refused
    hfsm.dispatch(Event::LockFailed);
    assert_eq!(
        *hfsm.get_state(),
        ServerState::Initialized(InitializedState::LockingWrite(LockingWriteState::ConflictHandling))
    );

    // Recovery completes
    hfsm.dispatch(Event::RecoveryCompleted);
    assert_eq!(
        *hfsm.get_state(),
        ServerState::Initialized(InitializedState::Ready(ReadyState::DocumentIdle))
    );
}

fn run_stages(hfsm: &mut Hfsm, stages: &[ChangeStage]) {
    for stage in stages {
        for event in stage_events_of(*stage) {
            hfsm.dispatch(event);
        }
    }
}

#[test]
fn every_handled_change_ends_idle() {
    let idle = ServerState::Initialized(InitializedState::Ready(ReadyState::DocumentIdle));
    let runs: [&[ChangeStage]; 4] = [
        &[ChangeStage::Audited(false)],
        &[ChangeStage::Audited(true), ChangeStage::Locked(false)],
        &[ChangeStage::Audited(true), ChangeStage::Locked(true), ChangeStage::Written(true)],
        &[ChangeStage::Audited(true), ChangeStage::Locked(true), ChangeStage::Written(false)],
    ];
    for stages in runs {
        let mut hfsm = Hfsm::new();
        hfsm.dispatch(Event::Initialize);
        hfsm.dispatch(Event::DocumentChanged);
        run_stages(&mut hfsm, stages);
        assert_eq!(*hfsm.get_state(), idle);
    }
}

#[test]
fn stage_events_follow_the_write_back() {
    assert_eq!(stage_events_of(ChangeStage::Audited(false)), vec![Event::AnalysisCompleted]);
    assert_eq!(stage_events_of(ChangeStage::Audited(true)), vec![Event::TriggerAutoInjection]);
    assert_eq!(stage_events_of(ChangeStage::Locked(false)), vec![Event::LockFailed, Event::RecoveryCompleted]);
    assert_eq!(stage_events_of(ChangeStage::Written(true)), vec![Event::WriteCompleted, Event::LockReleased]);
    let mut hfsm = Hfsm::new();
    hfsm.dispatch(Event::Initialize);
    run_stages(&mut hfsm, &[ChangeStage::Audited(true)]);
    assert_eq!(
        *hfsm.get_state(),
        ServerState::Initialized(InitializedState::LockingWrite(LockingWriteState::AcquiringLock))
    );
}
