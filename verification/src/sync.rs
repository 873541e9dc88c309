//! The decisions of the background synchronizer.
//!
//! The synchronizer owns the gateway session. Its loop is run by the caller,
//! who performs each action on the subsystem and hands back what happened;
//! which action comes next is decided here.

use vstd::prelude::*;

use crate::address::Edge;
use crate::error::Error;
use crate::snapshot::{records_view, GraphSnapshot, GraphView, PortRecord, PortRecordView};

verus! {

/// What the subsystem announced.
#[derive(Clone, Copy, Debug, PartialEq, Eq, Structural)]
pub enum ChangeKind {
    PortStart,
    PortExit,
    PortChange,
    PortSubscribed,
    PortUnsubscribed,
    /// Any announcement that leaves ports and subscriptions as they are.
    Other,
}

impl ChangeKind {
    /// Whether the announcement tells of a change to ports or subscriptions.
    pub open spec fn changes_topology(self) -> bool {
        !(self is Other)
    }

    /// Decides `changes_topology`.
    pub fn is_topology_change(&self) -> (relevant: bool)
        ensures
            relevant == self.changes_topology(),
    {
        match self {
            ChangeKind::Other => false,
            _ => true,
        }
    }
}

/// Where the synchronizer stands in its loop.
#[derive(Clone, Copy, Debug, PartialEq, Eq, Structural)]
pub enum SyncPhase {
    /// Not started.
    Idle,
    /// Waiting for the gateway session.
    Opening,
    /// Signing up for the announcements of the subsystem.
    Registering,
    /// Reading ports and edges.
    Enumerating,
    /// Handing a snapshot to the store and signalling the notifier.
    Publishing,
    /// Blocked until the subsystem announces something.
    Waiting,
    /// Stopped for good, with the reason.
    Terminated(Error),
}

/// What the caller reports back to the synchronizer.
#[derive(Debug)]
pub enum SyncEvent {
    /// The background thread is running.
    Started,
    /// The gateway session is open.
    Opened,
    /// Announcements will be delivered from now on.
    Registered,
    /// One consistent read of the subsystem: its ports and its edges.
    Enumerated(Vec<PortRecord>, Vec<Edge>),
    /// The snapshot is in the store and the notifier is signalled.
    Published,
    /// The subsystem announced something.
    Changed(ChangeKind),
    /// The gateway call that performed the pending action failed.
    Failed,
}

/// Mathematical value of a [`SyncEvent`].
pub enum SyncEventView {
    Started,
    Opened,
    Registered,
    Enumerated(Seq<PortRecordView>, Seq<Edge>),
    Published,
    Changed(ChangeKind),
    Failed,
}

impl View for SyncEvent {
    type V = SyncEventView;

    open spec fn view(&self) -> SyncEventView {
        match *self {
            SyncEvent::Started => SyncEventView::Started,
            SyncEvent::Opened => SyncEventView::Opened,
            SyncEvent::Registered => SyncEventView::Registered,
            SyncEvent::Enumerated(ports, edges) => SyncEventView::Enumerated(
                records_view(ports@),
                edges@,
            ),
            SyncEvent::Published => SyncEventView::Published,
            SyncEvent::Changed(kind) => SyncEventView::Changed(kind),
            SyncEvent::Failed => SyncEventView::Failed,
        }
    }
}

/// What the caller is to do next.
#[derive(Debug)]
pub enum SyncAction {
    /// Open the gateway session.
    Open,
    /// Sign up for the announcements of the subsystem.
    Register,
    /// Read ports and edges in one consistent read.
    Enumerate,
    /// Swap the snapshot into the store and signal the notifier.
    Publish(GraphSnapshot),
    /// Block until the subsystem announces something.
    Wait,
    /// End the loop and report the error.
    Stop(Error),
}

/// Mathematical value of a [`SyncAction`].
pub enum SyncActionView {
    Open,
    Register,
    Enumerate,
    Publish(GraphView),
    Wait,
    Stop(Error),
}

impl View for SyncAction {
    type V = SyncActionView;

    open spec fn view(&self) -> SyncActionView {
        match *self {
            SyncAction::Open => SyncActionView::Open,
            SyncAction::Register => SyncActionView::Register,
            SyncAction::Enumerate => SyncActionView::Enumerate,
            SyncAction::Publish(snapshot) => SyncActionView::Publish(snapshot@),
            SyncAction::Wait => SyncActionView::Wait,
            SyncAction::Stop(error) => SyncActionView::Stop(error),
        }
    }
}

/// The phase that follows `phase` on `event`.
///
/// The loop runs open, register, enumerate, publish, wait, and from there
/// enumerate again on every announcement of a change to the topology. An
/// announcement of anything else is waited out. A failure to open the
/// session ends the synchronizer for want of the subsystem; any other
/// failure, and any event that does not answer the pending action, ends it
/// as terminated. Once ended it stays ended, with the same error.
pub open spec fn next_phase(phase: SyncPhase, event: SyncEventView) -> SyncPhase {
    match (phase, event) {
        (SyncPhase::Terminated(error), _) => SyncPhase::Terminated(error),
        (SyncPhase::Idle, SyncEventView::Started) => SyncPhase::Opening,
        (SyncPhase::Opening, SyncEventView::Opened) => SyncPhase::Registering,
        (SyncPhase::Opening, _) => SyncPhase::Terminated(Error::SubsystemUnavailable),
        (SyncPhase::Registering, SyncEventView::Registered) => SyncPhase::Enumerating,
        (SyncPhase::Enumerating, SyncEventView::Enumerated(_, _)) => SyncPhase::Publishing,
        (SyncPhase::Publishing, SyncEventView::Published) => SyncPhase::Waiting,
        (SyncPhase::Waiting, SyncEventView::Changed(kind)) => if kind.changes_topology() {
            SyncPhase::Enumerating
        } else {
            SyncPhase::Waiting
        },
        _ => SyncPhase::Terminated(Error::SynchronizerTerminated),
    }
}

/// The action that the synchronizer asks for when `event` arrives in `phase`:
/// the one that belongs to the phase it enters.
pub open spec fn next_action(phase: SyncPhase, event: SyncEventView) -> SyncActionView {
    match next_phase(phase, event) {
        SyncPhase::Idle => SyncActionView::Stop(Error::SynchronizerTerminated),
        SyncPhase::Opening => SyncActionView::Open,
        SyncPhase::Registering => SyncActionView::Register,
        SyncPhase::Enumerating => SyncActionView::Enumerate,
        SyncPhase::Publishing => match event {
            SyncEventView::Enumerated(ports, edges) => SyncActionView::Publish(
                GraphView::of_enumeration(ports, edges),
            ),
            _ => SyncActionView::Stop(Error::SynchronizerTerminated),
        },
        SyncPhase::Waiting => SyncActionView::Wait,
        SyncPhase::Terminated(error) => SyncActionView::Stop(error),
    }
}

/// The background synchronizer: it remembers the phase of its loop.
#[derive(Debug)]
pub struct GraphSynchronizer {
    phase: SyncPhase,
}

impl GraphSynchronizer {
    /// The phase of the loop.
    pub closed spec fn spec_phase(&self) -> SyncPhase {
        self.phase
    }

    /// A synchronizer that has not started.
    pub fn new() -> (synchronizer: GraphSynchronizer)
        ensures
            synchronizer.spec_phase() == SyncPhase::Idle,
    {
        GraphSynchronizer { phase: SyncPhase::Idle }
    }

    /// The phase of the loop.
    #[verifier::when_used_as_spec(spec_phase)]
    pub fn phase(&self) -> (phase: SyncPhase)
        ensures
            phase == self.spec_phase(),
    {
        self.phase
    }

    /// The error that ended the loop, if it has ended.
    pub fn termination(&self) -> (error: Option<Error>)
        ensures
            error == (match self.spec_phase() {
                SyncPhase::Terminated(e) => Some(e),
                _ => None::<Error>,
            }),
    {
        match self.phase {
            SyncPhase::Terminated(e) => Some(e),
            _ => None,
        }
    }

    /// Takes what happened and says what to do next.
    pub fn step(&mut self, event: SyncEvent) -> (action: SyncAction)
        ensures
            final(self).spec_phase() == next_phase(old(self).spec_phase(), event@),
            action@ == next_action(old(self).spec_phase(), event@),
    {
        let (phase, action) = match (self.phase, event) {
            (SyncPhase::Terminated(error), _) => (SyncPhase::Terminated(error), SyncAction::Stop(error)),
            (SyncPhase::Idle, SyncEvent::Started) => (SyncPhase::Opening, SyncAction::Open),
            (SyncPhase::Opening, SyncEvent::Opened) => (SyncPhase::Registering, SyncAction::Register),
            (SyncPhase::Opening, _) => (
                SyncPhase::Terminated(Error::SubsystemUnavailable),
                SyncAction::Stop(Error::SubsystemUnavailable),
            ),
            (SyncPhase::Registering, SyncEvent::Registered) => (
                SyncPhase::Enumerating,
                SyncAction::Enumerate,
            ),
            (SyncPhase::Enumerating, SyncEvent::Enumerated(ports, edges)) => (
                SyncPhase::Publishing,
                SyncAction::Publish(GraphSnapshot::from_enumeration(&ports, &edges)),
            ),
            (SyncPhase::Publishing, SyncEvent::Published) => (SyncPhase::Waiting, SyncAction::Wait),
            (SyncPhase::Waiting, SyncEvent::Changed(kind)) => if kind.is_topology_change() {
                (SyncPhase::Enumerating, SyncAction::Enumerate)
            } else {
                (SyncPhase::Waiting, SyncAction::Wait)
            },
            _ => (
                SyncPhase::Terminated(Error::SynchronizerTerminated),
                SyncAction::Stop(Error::SynchronizerTerminated),
            ),
        };
        self.phase = phase;
        action
    }
}

} // verus!
