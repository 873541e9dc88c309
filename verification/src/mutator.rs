//! The cycle-avoiding connection toggle.
//!
//! A toggle is planned from the snapshot as a list of gateway calls and then
//! carried out one call at a time: the caller performs the pending call on the
//! subsystem and reports the outcome, and the mutator edits the store and
//! decides whether to go on.

use vstd::prelude::*;

use crate::address::{Edge, PortAddress};
use crate::error::{Error, GatewayError};
use crate::reach::{reaches, search};
use crate::seq_facts::lemma_filter_take_next;
use crate::snapshot::{GraphSnapshot, GraphView};
use crate::store::{SharedGraphStore, StoreView};

verus! {

/// One request to the sequencer gateway.
#[derive(Clone, Copy, Debug, PartialEq, Eq, Structural)]
pub enum GatewayCall {
    Subscribe(Edge),
    Unsubscribe(Edge),
}

/// The test for the edges that would close a loop through a new edge from
/// `sender` to `receiver`: they leave `receiver`, and from where they arrive
/// `sender` can be reached.
pub open spec fn closes_loop(edges: Seq<Edge>, sender: PortAddress, receiver: PortAddress)
    -> spec_fn(Edge) -> bool {
    |e: Edge| e.sender == receiver && reaches(edges, e.receiver, sender)
}

/// The edges that a new edge from `sender` to `receiver` conflicts with, in
/// the order of the snapshot.
pub open spec fn conflicts(edges: Seq<Edge>, sender: PortAddress, receiver: PortAddress) -> Seq<
    Edge,
> {
    edges.filter(closes_loop(edges, sender, receiver))
}

/// One `unsubscribe` for each edge, in order.
pub open spec fn unsubscribe_each(edges: Seq<Edge>) -> Seq<GatewayCall> {
    edges.map_values(|e: Edge| GatewayCall::Unsubscribe(e))
}

/// The gateway calls that toggle the edge from `sender` to `receiver`.
///
/// A self-connection takes no call. An active edge takes one `unsubscribe`.
/// An absent edge takes one `unsubscribe` for each conflicting edge, in the
/// order of the snapshot, and then one `subscribe`.
pub open spec fn toggle_plan(edges: Seq<Edge>, sender: PortAddress, receiver: PortAddress) -> Seq<
    GatewayCall,
> {
    let edge = Edge { sender, receiver };
    if sender == receiver {
        Seq::empty()
    } else if edges.contains(edge) {
        seq![GatewayCall::Unsubscribe(edge)]
    } else {
        unsubscribe_each(conflicts(edges, sender, receiver)).push(GatewayCall::Subscribe(edge))
    }
}

/// Whether the outcome leaves the subsystem as the call wanted it: the call
/// succeeded, or it found its work done already.
pub open spec fn satisfies(call: GatewayCall, outcome: Result<(), GatewayError>) -> bool {
    match outcome {
        Ok(_) => true,
        Err(GatewayError::AlreadyConnected) => call is Subscribe,
        Err(GatewayError::NotConnected) => call is Unsubscribe,
        Err(GatewayError::Io(_)) => false,
    }
}

impl GraphView {
    /// The graph after the optimistic edit that follows a satisfied call.
    pub open spec fn after_call(self, call: GatewayCall) -> GraphView {
        match call {
            GatewayCall::Subscribe(e) => self.with_edge(e),
            GatewayCall::Unsubscribe(e) => self.without_edge(e),
        }
    }

    /// The graph after the edits of a list of satisfied calls, first to last.
    pub open spec fn after_calls(self, calls: Seq<GatewayCall>) -> GraphView
        decreases calls.len(),
    {
        if calls.len() == 0 {
            self
        } else {
            self.after_call(calls.first()).after_calls(calls.drop_first())
        }
    }
}

/// Plans the toggle of the edge from `sender` to `receiver` on a snapshot.
pub fn plan_toggle(snapshot: &GraphSnapshot, sender: PortAddress, receiver: PortAddress) -> (plan:
    Vec<GatewayCall>)
    ensures
        plan@ == toggle_plan(snapshot@.edges, sender, receiver),
{
    let edge = Edge { sender, receiver };
    let mut plan: Vec<GatewayCall> = Vec::new();
    if sender == receiver {
        return plan;
    }
    if snapshot.has_edge(sender, receiver) {
        plan.push(GatewayCall::Unsubscribe(edge));
        assert(plan@ =~= seq![GatewayCall::Unsubscribe(edge)]);
        return plan;
    }
    let edges = snapshot.edges();
    let ghost closing = closes_loop(edges@, sender, receiver);
    let mut i: usize = 0;
    proof {
        assert(edges@.take(0) =~= Seq::empty());
        assert(plan@ =~= unsubscribe_each(edges@.take(0).filter(closing)));
    }
    while i < edges.len()
        invariant
            i <= edges.len(),
            closing == closes_loop(edges@, sender, receiver),
            plan@ == unsubscribe_each(edges@.take(i as int).filter(closing)),
        decreases edges.len() - i,
    {
        let e = edges[i];
        let ghost before = edges@.take(i as int).filter(closing);
        proof {
            lemma_filter_take_next(edges@, closing, i as int);
        }
        if e.sender == receiver && search(edges, e.receiver, sender) {
            plan.push(GatewayCall::Unsubscribe(e));
            assert(plan@ =~= unsubscribe_each(before.push(e)));
        }
        i += 1;
    }
    proof {
        assert(edges@.take(edges.len() as int) =~= edges@);
    }
    plan.push(GatewayCall::Subscribe(edge));
    plan
}

/// Mathematical value of a [`ConnectionMutator`]: the planned calls, how many
/// of them are settled, and whether the toggle was abandoned.
pub struct MutatorView {
    pub plan: Seq<GatewayCall>,
    pub settled: nat,
    pub abandoned: bool,
}

impl MutatorView {
    /// The call to perform next, if the toggle is still under way.
    pub open spec fn pending(self) -> Option<GatewayCall> {
        if !self.abandoned && self.settled < self.plan.len() {
            Some(self.plan[self.settled as int])
        } else {
            None
        }
    }

    /// The report on an outcome of the pending call: the failure that
    /// abandons the toggle, or success.
    pub open spec fn verdict(self, outcome: Result<(), GatewayError>) -> Result<(), Error> {
        match self.pending() {
            Some(call) if !satisfies(call, outcome) => Err(Error::MutationFailed(outcome->Err_0)),
            _ => Ok(()),
        }
    }

    /// The toggle after an outcome of the pending call: one call further
    /// where the call is satisfied, abandoned where it is not.
    pub open spec fn after_outcome(self, outcome: Result<(), GatewayError>) -> MutatorView {
        match self.pending() {
            None => self,
            Some(call) => if satisfies(call, outcome) {
                MutatorView { settled: self.settled + 1, ..self }
            } else {
                MutatorView { abandoned: true, ..self }
            },
        }
    }

    /// The store after an outcome of the pending call: edited where the call
    /// is satisfied, untouched where it is not.
    pub open spec fn store_after(self, store: StoreView, outcome: Result<(), GatewayError>)
        -> StoreView {
        match self.pending() {
            Some(call) if satisfies(call, outcome) => StoreView {
                snapshot: store.snapshot.after_call(call),
                ..store
            },
            _ => store,
        }
    }
}

/// A toggle under way: the planned gateway calls and the place reached in
/// them.
#[derive(Debug)]
pub struct ConnectionMutator {
    plan: Vec<GatewayCall>,
    settled: usize,
    abandoned: bool,
}

impl View for ConnectionMutator {
    type V = MutatorView;

    closed spec fn view(&self) -> MutatorView {
        MutatorView { plan: self.plan@, settled: self.settled as nat, abandoned: self.abandoned }
    }
}

impl ConnectionMutator {
    #[verifier::type_invariant]
    spec fn well_formed(&self) -> bool {
        self.settled <= self.plan.len()
    }

    /// Starts the toggle of the edge from `sender` to `receiver` on the
    /// snapshot of the store. No call has been made yet.
    pub fn begin(store: &SharedGraphStore, sender: PortAddress, receiver: PortAddress) -> (mutator:
        ConnectionMutator)
        ensures
            mutator@ == (MutatorView {
                plan: toggle_plan(store@.snapshot.edges, sender, receiver),
                settled: 0,
                abandoned: false,
            }),
    {
        ConnectionMutator {
            plan: plan_toggle(store.snapshot(), sender, receiver),
            settled: 0,
            abandoned: false,
        }
    }

    /// Starts the toggle of the selected cell; without a selection there is
    /// nothing to toggle.
    pub fn begin_selected(store: &SharedGraphStore) -> (mutator: Option<ConnectionMutator>)
        ensures
            match store@.selected_pair() {
                Some((sender, receiver)) => mutator is Some && mutator->0@ == (MutatorView {
                    plan: toggle_plan(store@.snapshot.edges, sender, receiver),
                    settled: 0,
                    abandoned: false,
                }),
                None => mutator is None,
            },
    {
        match store.selected_pair() {
            Some((sender, receiver)) => Some(ConnectionMutator::begin(store, sender, receiver)),
            None => None,
        }
    }

    /// The call that the caller is to perform now; `None` once the toggle is
    /// complete or abandoned.
    pub fn pending(&self) -> (call: Option<GatewayCall>)
        ensures
            call == self@.pending(),
            self@.settled <= self@.plan.len(),
    {
        proof {
            use_type_invariant(self);
        }
        if !self.abandoned && self.settled < self.plan.len() {
            Some(self.plan[self.settled])
        } else {
            None
        }
    }

    /// Whether a gateway call failed and the rest of the plan was dropped.
    pub fn is_abandoned(&self) -> (abandoned: bool)
        ensures
            abandoned == self@.abandoned,
    {
        self.abandoned
    }

    /// Takes the outcome of the pending call.
    ///
    /// A satisfied call is followed by its optimistic edit of the store, and
    /// the toggle moves on to the next call. Any other outcome abandons the
    /// toggle: the store stays as it is, earlier edits included, and the
    /// failure is reported. With no call pending nothing happens.
    pub fn settle(&mut self, store: &mut SharedGraphStore, outcome: Result<(), GatewayError>) -> (result:
        Result<(), Error>)
        ensures
            final(self)@ == old(self)@.after_outcome(outcome),
            final(store)@ == old(self)@.store_after(old(store)@, outcome),
            result == old(self)@.verdict(outcome),
            final(store)@.wf(),
    {
        proof {
            use_type_invariant(&*self);
            use_type_invariant(&*store);
        }
        let call = match self.pending() {
            Some(call) => call,
            None => {
                return Ok(());
            },
        };
        let failure = match (call, outcome) {
            (_, Ok(_)) => None,
            (GatewayCall::Subscribe(_), Err(GatewayError::AlreadyConnected)) => None,
            (GatewayCall::Unsubscribe(_), Err(GatewayError::NotConnected)) => None,
            (_, Err(cause)) => Some(cause),
        };
        match failure {
            Some(cause) => {
                self.abandoned = true;
                Err(Error::MutationFailed(cause))
            },
            None => {
                match call {
                    GatewayCall::Subscribe(e) => store.note_connected(e),
                    GatewayCall::Unsubscribe(e) => store.note_disconnected(e),
                }
                self.settled = self.settled + 1;
                Ok(())
            },
        }
    }
}

} // verus!
