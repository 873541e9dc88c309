//! What holds of the routing core as a whole, stated over the mathematical
//! values of its types and proved from their definitions.

use vstd::prelude::*;

use crate::address::{Edge, PortAddress};
use crate::error::{Error, GatewayError};
use crate::mutator::{
    closes_loop, conflicts, satisfies, toggle_plan, unsubscribe_each, GatewayCall, MutatorView,
};
use crate::reach::{
    closed_under, lemma_closed_set_confines, lemma_reaches_self, lemma_reaches_step,
    lemma_reaches_transitive, linked, reaches,
};
use crate::seq_facts::lemma_filter_member;
use crate::snapshot::{
    lemma_enumeration_wf, lemma_with_edge_wf, lemma_without_edge_wf, GraphView, PortRecordView,
};
use crate::store::{cell_fits, StoreView};
use crate::sync::{next_action, next_phase, SyncActionView, SyncEventView, SyncPhase};

verus! {

/// The toggle and the store after a run of outcomes, one for each call that
/// the caller performed and reported.
pub open spec fn run(
    mutator: MutatorView,
    store: StoreView,
    outcomes: Seq<Result<(), GatewayError>>,
) -> (MutatorView, StoreView)
    decreases outcomes.len(),
{
    if outcomes.len() == 0 {
        (mutator, store)
    } else {
        run(
            mutator.after_outcome(outcomes.first()),
            mutator.store_after(store, outcomes.first()),
            outcomes.drop_first(),
        )
    }
}

/// A toggle that has not made a call yet.
pub open spec fn fresh(plan: Seq<GatewayCall>) -> MutatorView {
    MutatorView { plan, settled: 0, abandoned: false }
}

/// Referential integrity: in the snapshot of any read of the subsystem, and
/// after any list of optimistic edits of it, every edge starts at a listed
/// sender and ends at a listed receiver, and no edge is held twice.
pub proof fn law_referential_integrity(
    ports: Seq<PortRecordView>,
    edges: Seq<Edge>,
    calls: Seq<GatewayCall>,
)
    ensures
        GraphView::of_enumeration(ports, edges).wf(),
        GraphView::of_enumeration(ports, edges).after_calls(calls).wf(),
{
    lemma_enumeration_wf(ports, edges);
    lemma_after_calls_wf(GraphView::of_enumeration(ports, edges), calls);
}

/// Optimistic edits keep a graph well formed and leave its ports alone.
pub proof fn lemma_after_calls_wf(graph: GraphView, calls: Seq<GatewayCall>)
    requires
        graph.wf(),
    ensures
        graph.after_calls(calls).wf(),
        graph.after_calls(calls).senders == graph.senders,
        graph.after_calls(calls).receivers == graph.receivers,
    decreases calls.len(),
{
    if calls.len() > 0 {
        match calls.first() {
            GatewayCall::Subscribe(e) => lemma_with_edge_wf(graph, e),
            GatewayCall::Unsubscribe(e) => lemma_without_edge_wf(graph, e),
        }
        lemma_after_calls_wf(graph.after_call(calls.first()), calls.drop_first());
    }
}

/// The edits of a list of calls and one more are the edits of the list
/// followed by the edit of the last call.
pub proof fn lemma_after_calls_push(graph: GraphView, calls: Seq<GatewayCall>, last: GatewayCall)
    ensures
        graph.after_calls(calls.push(last)) == graph.after_calls(calls).after_call(last),
    decreases calls.len(),
{
    let longer = calls.push(last);
    if calls.len() == 0 {
        assert(longer.drop_first() =~= Seq::empty());
        assert(graph.after_call(last).after_calls(longer.drop_first()) == graph.after_call(last));
    } else {
        assert(longer.first() == calls.first());
        assert(longer.drop_first() =~= calls.drop_first().push(last));
        lemma_after_calls_push(graph.after_call(calls.first()), calls.drop_first(), last);
    }
}

/// After one `unsubscribe` for each edge of a list, exactly the edges that
/// are not in the list remain.
pub proof fn lemma_after_unsubscribes(graph: GraphView, dropped: Seq<Edge>)
    requires
        graph.wf(),
    ensures
        forall|e: Edge|
            #[trigger] graph.after_calls(unsubscribe_each(dropped)).edges.contains(e) <==> (
            graph.edges.contains(e) && !dropped.contains(e)),
    decreases dropped.len(),
{
    let calls = unsubscribe_each(dropped);
    if dropped.len() > 0 {
        let first = dropped.first();
        let rest = dropped.drop_first();
        let next = graph.without_edge(first);
        assert(calls.len() == dropped.len());
        assert(calls.first() == GatewayCall::Unsubscribe(first));
        assert(calls.drop_first() =~= unsubscribe_each(rest));
        assert(graph.after_calls(calls) == next.after_calls(unsubscribe_each(rest)));
        lemma_without_edge_wf(graph, first);
        lemma_after_unsubscribes(next, rest);
        assert forall|e: Edge|
            #[trigger] graph.after_calls(calls).edges.contains(e) <==> (graph.edges.contains(e)
                && !dropped.contains(e)) by {
            assert(next.after_calls(unsubscribe_each(rest)).edges.contains(e) <==> (
            next.edges.contains(e) && !rest.contains(e)));
            assert(next.edges.contains(e) <==> (graph.edges.contains(e) && e != first));
            if dropped.contains(e) {
                let i = choose|i: int| 0 <= i < dropped.len() && dropped[i] == e;
                if i > 0 {
                    assert(rest[i - 1] == e);
                }
            }
            if rest.contains(e) {
                let i = choose|i: int| 0 <= i < rest.len() && rest[i] == e;
                assert(dropped[i + 1] == e);
            }
            if e == first {
                assert(dropped[0] == e);
            }
        }
    } else {
        assert(calls.len() == 0);
        assert(graph.after_calls(calls) == graph);
    }
}

/// Toggling a connection of a port to itself takes no gateway call and
/// changes nothing.
pub proof fn law_self_toggle_is_idle(graph: GraphView, port: PortAddress)
    ensures
        toggle_plan(graph.edges, port, port) == Seq::<GatewayCall>::empty(),
        graph.after_calls(toggle_plan(graph.edges, port, port)) == graph,
{
}

/// Toggling an active edge between two different ports takes exactly one
/// gateway call, the `unsubscribe` of that edge, and the edge is absent
/// afterwards while every other edge stays.
pub proof fn law_toggle_off(graph: GraphView, sender: PortAddress, receiver: PortAddress)
    requires
        graph.wf(),
        sender != receiver,
        graph.has_edge(sender, receiver),
    ensures
        toggle_plan(graph.edges, sender, receiver) == seq![
            GatewayCall::Unsubscribe(Edge { sender, receiver }),
        ],
        !graph.after_calls(toggle_plan(graph.edges, sender, receiver)).has_edge(sender, receiver),
        forall|e: Edge|
            e != (Edge { sender, receiver }) ==> (#[trigger] graph.after_calls(
                toggle_plan(graph.edges, sender, receiver),
            ).edges.contains(e) <==> graph.edges.contains(e)),
{
    let edge = Edge { sender, receiver };
    let plan = toggle_plan(graph.edges, sender, receiver);
    lemma_without_edge_wf(graph, edge);
    assert(plan.drop_first() =~= Seq::empty());
    assert(graph.after_calls(plan) == graph.without_edge(edge)) by {
        assert(graph.without_edge(edge).after_calls(plan.drop_first()) == graph.without_edge(edge));
    }
}

/// Toggling an absent edge between two listed, different ports, where no
/// edge conflicts with it, takes exactly one gateway call, the `subscribe` of
/// that edge, and the edge is active afterwards, after the edges that were
/// there.
pub proof fn law_toggle_on(graph: GraphView, sender: PortAddress, receiver: PortAddress)
    requires
        graph.wf(),
        graph.has_sender(sender),
        graph.has_receiver(receiver),
        sender != receiver,
        !graph.has_edge(sender, receiver),
        conflicts(graph.edges, sender, receiver).len() == 0,
    ensures
        toggle_plan(graph.edges, sender, receiver) == seq![
            GatewayCall::Subscribe(Edge { sender, receiver }),
        ],
        graph.after_calls(toggle_plan(graph.edges, sender, receiver)).has_edge(sender, receiver),
        graph.after_calls(toggle_plan(graph.edges, sender, receiver)).edges == graph.edges.push(
            Edge { sender, receiver },
        ),
{
    let edge = Edge { sender, receiver };
    let plan = toggle_plan(graph.edges, sender, receiver);
    assert(unsubscribe_each(conflicts(graph.edges, sender, receiver)) =~= Seq::empty());
    assert(plan =~= seq![GatewayCall::Subscribe(edge)]);
    assert(plan.drop_first() =~= Seq::empty());
    assert(graph.after_calls(plan) == graph.with_edge(edge)) by {
        assert(graph.with_edge(edge).after_calls(plan.drop_first()) == graph.with_edge(edge));
    }
    assert(graph.edges.push(edge)[graph.edges.len() as int] == edge);
}

/// The cycle guard: after toggling on an absent edge between two listed,
/// different ports, the edge is active, exactly the conflicting edges are
/// gone, and no messages that leave the receiver come back to the sender, so
/// the new edge lies on no loop.
pub proof fn law_toggle_on_closes_no_loop(
    graph: GraphView,
    sender: PortAddress,
    receiver: PortAddress,
)
    requires
        graph.wf(),
        graph.has_sender(sender),
        graph.has_receiver(receiver),
        sender != receiver,
        !graph.has_edge(sender, receiver),
    ensures
        graph.after_calls(toggle_plan(graph.edges, sender, receiver)).has_edge(sender, receiver),
        forall|e: Edge|
            #[trigger] graph.after_calls(toggle_plan(graph.edges, sender, receiver)).edges.contains(
                e,
            ) <==> (e
                == (Edge { sender, receiver }) || (graph.edges.contains(e) && !(e.sender
                == receiver && reaches(graph.edges, e.receiver, sender)))),
        !reaches(
            graph.after_calls(toggle_plan(graph.edges, sender, receiver)).edges,
            receiver,
            sender,
        ),
{
    let edge = Edge { sender, receiver };
    let closing = closes_loop(graph.edges, sender, receiver);
    let dropped = conflicts(graph.edges, sender, receiver);
    let unsubscribes = unsubscribe_each(dropped);
    let plan = toggle_plan(graph.edges, sender, receiver);
    let middle = graph.after_calls(unsubscribes);
    let after = graph.after_calls(plan);
    lemma_after_calls_push(graph, unsubscribes, GatewayCall::Subscribe(edge));
    lemma_after_calls_wf(graph, unsubscribes);
    lemma_after_unsubscribes(graph, dropped);
    lemma_with_edge_wf(middle, edge);
    assert(after == middle.with_edge(edge));
    assert(middle.senders == graph.senders);
    assert(middle.receivers == graph.receivers);
    assert(!middle.edges.contains(edge)) by {
        assert(!graph.edges.contains(edge));
    }
    assert(middle.admits(edge));
    assert forall|e: Edge|
        #[trigger] after.edges.contains(e) <==> (e == edge || (graph.edges.contains(e) && !(e.sender
            == receiver && reaches(graph.edges, e.receiver, sender)))) by {
        lemma_filter_member(graph.edges, closing, e);
    }
    let safe = Set::new(|p: PortAddress| p == receiver || !reaches(graph.edges, p, sender));
    assert(closed_under(after.edges, safe)) by {
        assert forall|j: int|
            0 <= j < after.edges.len() && safe.contains(
                #[trigger] after.edges[j].sender,
            ) implies safe.contains(after.edges[j].receiver) by {
            let e = after.edges[j];
            assert(after.edges.contains(e));
            lemma_reaches_self(graph.edges, sender);
            if e != edge && e.sender != receiver && reaches(graph.edges, e.receiver, sender) {
                lemma_reaches_self(graph.edges, e.sender);
                assert(linked(graph.edges, e.sender, e.receiver));
                lemma_reaches_step(graph.edges, e.sender, e.sender, e.receiver);
                lemma_reaches_transitive(graph.edges, e.sender, e.receiver, sender);
            }
        }
    }
    if reaches(after.edges, receiver, sender) {
        lemma_closed_set_confines(after.edges, safe, receiver, sender);
        lemma_reaches_self(graph.edges, sender);
    }
}

/// A port in both views is examined as a source of loops when it is the
/// receiver of a toggle: every edge that leaves it towards a port from which
/// the sender can be reached is unsubscribed before the new edge is
/// subscribed, and is absent afterwards.
pub proof fn law_dual_role_guard(
    graph: GraphView,
    sender: PortAddress,
    receiver: PortAddress,
    target: PortAddress,
)
    requires
        graph.wf(),
        graph.has_sender(sender),
        graph.has_receiver(receiver),
        sender != receiver,
        !graph.has_edge(sender, receiver),
        graph.has_edge(receiver, target),
        reaches(graph.edges, target, sender),
    ensures
        graph.has_sender(receiver),
        exists|i: int|
            0 <= i < toggle_plan(graph.edges, sender, receiver).len() - 1 && toggle_plan(
                graph.edges,
                sender,
                receiver,
            )[i] == GatewayCall::Unsubscribe(Edge { sender: receiver, receiver: target }),
        toggle_plan(graph.edges, sender, receiver).last() == GatewayCall::Subscribe(
            Edge { sender, receiver },
        ),
        !graph.after_calls(toggle_plan(graph.edges, sender, receiver)).has_edge(receiver, target),
{
    let leaving = Edge { sender: receiver, receiver: target };
    let closing = closes_loop(graph.edges, sender, receiver);
    let dropped = conflicts(graph.edges, sender, receiver);
    let plan = toggle_plan(graph.edges, sender, receiver);
    let k = choose|k: int| 0 <= k < graph.edges.len() && graph.edges[k] == leaving;
    assert(graph.has_sender(graph.edges[k].sender));
    lemma_filter_member(graph.edges, closing, leaving);
    let i = choose|i: int| 0 <= i < dropped.len() && dropped[i] == leaving;
    assert(plan[i] == GatewayCall::Unsubscribe(leaving));
    law_toggle_on_closes_no_loop(graph, sender, receiver);
}

/// A run in which every call is satisfied performs the whole plan, call by
/// call, and leaves the store with the edits of all of it.
pub proof fn law_complete_run(
    plan: Seq<GatewayCall>,
    store: StoreView,
    outcomes: Seq<Result<(), GatewayError>>,
)
    requires
        outcomes.len() == plan.len(),
        forall|i: int| 0 <= i < plan.len() ==> satisfies(plan[i], #[trigger] outcomes[i]),
    ensures
        run(fresh(plan), store, outcomes).0 == (MutatorView {
            plan,
            settled: plan.len(),
            abandoned: false,
        }),
        run(fresh(plan), store, outcomes).0.pending() is None,
        run(fresh(plan), store, outcomes).1 == (StoreView {
            snapshot: store.snapshot.after_calls(plan),
            ..store
        }),
{
    lemma_run_from(plan, 0, store, outcomes);
    assert(plan.skip(0) =~= plan);
}

/// A run in which the first calls are satisfied and the next one is not stops
/// there: that call is the last one performed, the edits of the calls before
/// it stay in the store, and whatever is reported later changes nothing.
pub proof fn law_failed_run(
    plan: Seq<GatewayCall>,
    store: StoreView,
    outcomes: Seq<Result<(), GatewayError>>,
    failed: int,
)
    requires
        0 <= failed < plan.len(),
        failed < outcomes.len(),
        forall|i: int| 0 <= i < failed ==> satisfies(plan[i], #[trigger] outcomes[i]),
        !satisfies(plan[failed], outcomes[failed]),
    ensures
        run(fresh(plan), store, outcomes).0 == (MutatorView {
            plan,
            settled: failed as nat,
            abandoned: true,
        }),
        run(fresh(plan), store, outcomes).0.pending() is None,
        run(fresh(plan), store, outcomes).1 == (StoreView {
            snapshot: store.snapshot.after_calls(plan.take(failed)),
            ..store
        }),
{
    let satisfied = outcomes.take(failed);
    let rest = outcomes.skip(failed);
    let head = plan.take(failed);
    assert(outcomes =~= satisfied + rest);
    lemma_run_split(fresh(plan), store, satisfied, rest);
    lemma_run_from(plan, 0, store, satisfied);
    let reached = MutatorView { plan, settled: failed as nat, abandoned: false };
    let edited = StoreView { snapshot: store.snapshot.after_calls(plan.skip(0).take(failed)), ..store };
    assert(plan.skip(0) =~= plan);
    assert(run(fresh(plan), store, satisfied) == (reached, edited));
    let stopped = MutatorView { abandoned: true, ..reached };
    assert(reached.after_outcome(rest.first()) == stopped);
    assert(reached.store_after(edited, rest.first()) == edited);
    lemma_run_idle(stopped, edited, rest.drop_first());
}

/// A run over one list of outcomes and then another is the run over both.
proof fn lemma_run_split(
    mutator: MutatorView,
    store: StoreView,
    first: Seq<Result<(), GatewayError>>,
    second: Seq<Result<(), GatewayError>>,
)
    ensures
        run(mutator, store, first + second) == run(
            run(mutator, store, first).0,
            run(mutator, store, first).1,
            second,
        ),
    decreases first.len(),
{
    if first.len() == 0 {
        assert(first + second =~= second);
    } else {
        assert((first + second).first() == first.first());
        assert((first + second).drop_first() =~= first.drop_first() + second);
        lemma_run_split(
            mutator.after_outcome(first.first()),
            mutator.store_after(store, first.first()),
            first.drop_first(),
            second,
        );
    }
}

/// Outcomes reported to a toggle with no call pending change nothing.
proof fn lemma_run_idle(
    mutator: MutatorView,
    store: StoreView,
    outcomes: Seq<Result<(), GatewayError>>,
)
    requires
        mutator.pending() is None,
    ensures
        run(mutator, store, outcomes) == (mutator, store),
    decreases outcomes.len(),
{
    if outcomes.len() > 0 {
        lemma_run_idle(mutator, store, outcomes.drop_first());
    }
}

/// From any place in a plan, satisfied outcomes carry the toggle forward by
/// as many calls and edit the store by those calls.
proof fn lemma_run_from(
    plan: Seq<GatewayCall>,
    settled: nat,
    store: StoreView,
    outcomes: Seq<Result<(), GatewayError>>,
)
    requires
        settled + outcomes.len() <= plan.len(),
        forall|i: int|
            0 <= i < outcomes.len() ==> satisfies(plan[settled + i], #[trigger] outcomes[i]),
    ensures
        run(MutatorView { plan, settled, abandoned: false }, store, outcomes) == (
            MutatorView { plan, settled: settled + outcomes.len(), abandoned: false },
            StoreView {
                snapshot: store.snapshot.after_calls(
                    plan.skip(settled as int).take(outcomes.len() as int),
                ),
                ..store
            },
        ),
    decreases outcomes.len(),
{
    let mutator = MutatorView { plan, settled, abandoned: false };
    let calls = plan.skip(settled as int).take(outcomes.len() as int);
    if outcomes.len() == 0 {
        assert(calls =~= Seq::empty());
    } else {
        let call = plan[settled as int];
        assert(satisfies(plan[settled as int], outcomes[0]));
        assert(mutator.pending() == Some(call));
        let next = StoreView { snapshot: store.snapshot.after_call(call), ..store };
        assert forall|i: int| 0 <= i < outcomes.drop_first().len() implies satisfies(
            plan[settled + 1 + i],
            #[trigger] outcomes.drop_first()[i],
        ) by {
            assert(satisfies(plan[settled + (i + 1)], outcomes[i + 1]));
        }
        lemma_run_from(plan, settled + 1, next, outcomes.drop_first());
        assert(calls.first() == call);
        assert(calls.drop_first() =~= plan.skip(settled as int + 1).take(
            outcomes.len() as int - 1,
        ));
    }
}

/// Resync idempotence: reading the subsystem again without a change in
/// between gives the same snapshot, and publishing it again leaves the store
/// as the first publish left it.
pub proof fn law_resync_idempotent(
    store: StoreView,
    ports: Seq<PortRecordView>,
    edges: Seq<Edge>,
    ports_again: Seq<PortRecordView>,
    edges_again: Seq<Edge>,
)
    requires
        ports_again == ports,
        edges_again == edges,
    ensures
        GraphView::of_enumeration(ports_again, edges_again) == GraphView::of_enumeration(
            ports,
            edges,
        ),
        store.published(GraphView::of_enumeration(ports, edges)).published(
            GraphView::of_enumeration(ports_again, edges_again),
        ) == store.published(GraphView::of_enumeration(ports, edges)),
{
}

/// Selection clearing: after a publish the selected cell is the one selected
/// before where that cell lies inside the new matrix, and nothing where it
/// does not; the store is well formed either way.
pub proof fn law_publish_clears_dangling_selection(store: StoreView, graph: GraphView)
    requires
        graph.wf(),
    ensures
        store.published(graph).wf(),
        store.published(graph).snapshot == graph,
        cell_fits(graph, store.selection.cell) ==> store.published(graph).selection.cell
            == store.selection.cell,
        !cell_fits(graph, store.selection.cell) ==> store.published(graph).selection.cell is None,
{
}

/// The actions that the synchronizer asks for along a run of events, in
/// order, from the phase in which the first event finds it.
pub open spec fn sync_trace(phase: SyncPhase, events: Seq<SyncEventView>) -> Seq<SyncActionView>
    decreases events.len(),
{
    if events.len() == 0 {
        Seq::empty()
    } else {
        seq![next_action(phase, events.first())] + sync_trace(
            next_phase(phase, events.first()),
            events.drop_first(),
        )
    }
}

/// The synchronizer asks for one action for each event.
pub proof fn lemma_sync_trace_len(phase: SyncPhase, events: Seq<SyncEventView>)
    ensures
        sync_trace(phase, events).len() == events.len(),
    decreases events.len(),
{
    if events.len() > 0 {
        lemma_sync_trace_len(next_phase(phase, events.first()), events.drop_first());
    }
}

/// A synchronizer that has not signed up for announcements yet does not ask
/// for a read of the subsystem before it has asked to sign up.
proof fn lemma_registers_first(phase: SyncPhase, events: Seq<SyncEventView>, k: int)
    requires
        phase is Idle || phase is Opening || phase is Terminated,
        0 <= k < events.len(),
        sync_trace(phase, events)[k] is Enumerate,
    ensures
        exists|j: int| 0 <= j < k && sync_trace(phase, events)[j] is Register,
    decreases events.len(),
{
    let trace = sync_trace(phase, events);
    let next = next_phase(phase, events.first());
    let rest = sync_trace(next, events.drop_first());
    lemma_sync_trace_len(next, events.drop_first());
    assert(trace[0] == next_action(phase, events.first()));
    if k > 0 {
        assert(trace[k] == rest[k - 1]);
        if next is Registering {
            assert(trace[0] is Register);
        } else {
            lemma_registers_first(next, events.drop_first(), k - 1);
            let j = choose|j: int| 0 <= j < k - 1 && rest[j] is Register;
            assert(trace[j + 1] == rest[j]);
        }
    }
}

/// Registration comes first: along any run of a synchronizer from its start,
/// every read of the subsystem is asked for after the synchronizer has asked
/// to sign up for announcements, so no change can slip in between the first
/// read and the sign-up.
pub proof fn law_registers_before_enumerating(events: Seq<SyncEventView>, k: int)
    requires
        0 <= k < events.len(),
        sync_trace(SyncPhase::Idle, events)[k] is Enumerate,
    ensures
        exists|j: int| 0 <= j < k && sync_trace(SyncPhase::Idle, events)[j] is Register,
{
    lemma_registers_first(SyncPhase::Idle, events, k);
}

/// The loop of the synchronizer: while it waits, an announcement of a change
/// to the topology asks for exactly one read, whatever else was announced
/// is waited out, and what was read is published as the snapshot of that
/// read.
pub proof fn law_resync_on_change(
    event: SyncEventView,
    ports: Seq<PortRecordView>,
    edges: Seq<Edge>,
)
    ensures
        event matches SyncEventView::Changed(kind) ==> next_action(SyncPhase::Waiting, event) == (
        if kind.changes_topology() {
            SyncActionView::Enumerate
        } else {
            SyncActionView::Wait
        }),
        next_action(SyncPhase::Enumerating, SyncEventView::Enumerated(ports, edges))
            == SyncActionView::Publish(GraphView::of_enumeration(ports, edges)),
        next_phase(SyncPhase::Publishing, SyncEventView::Published) == SyncPhase::Waiting,
{
}

/// The synchronizer ends on a failure and stays ended: a failure to open the
/// session leaves the subsystem unavailable, any later failure leaves the
/// synchronizer terminated, and after the end every event is answered with
/// the error of the end.
pub proof fn law_sync_failure_is_final(phase: SyncPhase, event: SyncEventView, error: Error)
    ensures
        next_phase(SyncPhase::Opening, SyncEventView::Failed) == SyncPhase::Terminated(
            Error::SubsystemUnavailable,
        ),
        !(phase is Opening) && !(phase is Terminated) ==> next_phase(phase, SyncEventView::Failed)
            == SyncPhase::Terminated(Error::SynchronizerTerminated),
        next_phase(SyncPhase::Terminated(error), event) == SyncPhase::Terminated(error),
        next_action(SyncPhase::Terminated(error), event) == SyncActionView::Stop(error),
{
}

} // verus!
