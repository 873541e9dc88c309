use aseqmatrix::address::{Edge, PortAddress};
use aseqmatrix::error::Error;
use aseqmatrix::snapshot::{GraphSnapshot, PortRecord};
use aseqmatrix::sync::{ChangeKind, GraphSynchronizer, SyncAction, SyncEvent, SyncPhase};

fn keyboard() -> PortRecord {
    PortRecord {
        address: PortAddress { client: 20, port: 0 },
        display_name: "Keyboard".to_string(),
        can_send: true,
        can_receive: false,
    }
}

fn synth() -> PortRecord {
    PortRecord {
        address: PortAddress { client: 24, port: 0 },
        display_name: "Synth".to_string(),
        can_send: false,
        can_receive: true,
    }
}

fn waiting() -> GraphSynchronizer {
    let mut synchronizer = GraphSynchronizer::new();
    synchronizer.step(SyncEvent::Started);
    synchronizer.step(SyncEvent::Opened);
    synchronizer.step(SyncEvent::Registered);
    synchronizer.step(SyncEvent::Enumerated(vec![], vec![]));
    synchronizer.step(SyncEvent::Published);
    synchronizer
}

#[test]
fn synchronizer_registers_before_it_enumerates() {
    let mut synchronizer = GraphSynchronizer::new();
    assert_eq!(synchronizer.phase(), SyncPhase::Idle);
    assert!(matches!(synchronizer.step(SyncEvent::Started), SyncAction::Open));
    assert_eq!(synchronizer.phase(), SyncPhase::Opening);
    assert!(matches!(synchronizer.step(SyncEvent::Opened), SyncAction::Register));
    assert_eq!(synchronizer.phase(), SyncPhase::Registering);
    assert!(matches!(synchronizer.step(SyncEvent::Registered), SyncAction::Enumerate));
    assert_eq!(synchronizer.phase(), SyncPhase::Enumerating);
}

#[test]
fn synchronizer_publishes_what_it_enumerated() {
    let mut synchronizer = GraphSynchronizer::new();
    synchronizer.step(SyncEvent::Started);
    synchronizer.step(SyncEvent::Opened);
    synchronizer.step(SyncEvent::Registered);
    let ports = vec![keyboard(), synth()];
    let edges = vec![Edge { sender: keyboard().address, receiver: synth().address }];
    match synchronizer.step(SyncEvent::Enumerated(ports.clone(), edges.clone())) {
        SyncAction::Publish(snapshot) => {
            assert_eq!(snapshot, GraphSnapshot::from_enumeration(&ports, &edges));
            assert_eq!(snapshot.senders(), &vec![keyboard()]);
            assert_eq!(snapshot.receivers(), &vec![synth()]);
            assert_eq!(snapshot.edges(), &edges);
        }
        other => panic!("expected a publish, got {:?}", other),
    }
    assert_eq!(synchronizer.phase(), SyncPhase::Publishing);
    assert!(matches!(synchronizer.step(SyncEvent::Published), SyncAction::Wait));
    assert_eq!(synchronizer.phase(), SyncPhase::Waiting);
}

#[test]
fn every_topology_change_triggers_one_resync() {
    for kind in [
        ChangeKind::PortStart,
        ChangeKind::PortExit,
        ChangeKind::PortChange,
        ChangeKind::PortSubscribed,
        ChangeKind::PortUnsubscribed,
    ] {
        assert!(kind.is_topology_change());
        let mut synchronizer = waiting();
        assert!(matches!(synchronizer.step(SyncEvent::Changed(kind)), SyncAction::Enumerate));
        assert_eq!(synchronizer.phase(), SyncPhase::Enumerating);
    }
}

#[test]
fn other_announcements_are_waited_out() {
    assert!(!ChangeKind::Other.is_topology_change());
    let mut synchronizer = waiting();
    assert!(matches!(synchronizer.step(SyncEvent::Changed(ChangeKind::Other)), SyncAction::Wait));
    assert_eq!(synchronizer.phase(), SyncPhase::Waiting);
}

#[test]
fn failure_to_open_reports_the_subsystem_unavailable() {
    let mut synchronizer = GraphSynchronizer::new();
    synchronizer.step(SyncEvent::Started);
    match synchronizer.step(SyncEvent::Failed) {
        SyncAction::Stop(error) => assert_eq!(error, Error::SubsystemUnavailable),
        other => panic!("expected a stop, got {:?}", other),
    }
    assert_eq!(synchronizer.termination(), Some(Error::SubsystemUnavailable));
}

#[test]
fn later_failure_terminates_the_synchronizer() {
    let mut synchronizer = waiting();
    assert_eq!(synchronizer.termination(), None);
    match synchronizer.step(SyncEvent::Failed) {
        SyncAction::Stop(error) => assert_eq!(error, Error::SynchronizerTerminated),
        other => panic!("expected a stop, got {:?}", other),
    }
    assert_eq!(synchronizer.phase(), SyncPhase::Terminated(Error::SynchronizerTerminated));
    match synchronizer.step(SyncEvent::Changed(ChangeKind::PortStart)) {
        SyncAction::Stop(error) => assert_eq!(error, Error::SynchronizerTerminated),
        other => panic!("expected a stop, got {:?}", other),
    }
}

#[test]
fn event_out_of_turn_terminates_the_synchronizer() {
    let mut synchronizer = waiting();
    assert!(matches!(
        synchronizer.step(SyncEvent::Published),
        SyncAction::Stop(Error::SynchronizerTerminated)
    ));
    let mut unstarted = GraphSynchronizer::new();
    assert!(matches!(
        unstarted.step(SyncEvent::Opened),
        SyncAction::Stop(Error::SynchronizerTerminated)
    ));
}
