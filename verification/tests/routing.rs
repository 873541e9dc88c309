use aseqmatrix::address::{Edge, PortAddress};
use aseqmatrix::error::{Error, GatewayError};
use aseqmatrix::mutator::{plan_toggle, ConnectionMutator, GatewayCall};
use aseqmatrix::reach::search;
use aseqmatrix::snapshot::{GraphSnapshot, PortRecord};
use aseqmatrix::store::{MatrixCell, SelectionState, SharedGraphStore};

fn addr(client: i32, port: i32) -> PortAddress {
    PortAddress { client, port }
}

fn edge(from: PortAddress, to: PortAddress) -> Edge {
    Edge { sender: from, receiver: to }
}

fn port(address: PortAddress, name: &str, can_send: bool, can_receive: bool) -> PortRecord {
    PortRecord { address, display_name: name.to_string(), can_send, can_receive }
}

fn a() -> PortAddress {
    addr(20, 0)
}

fn b() -> PortAddress {
    addr(24, 0)
}

fn c() -> PortAddress {
    addr(28, 1)
}

fn triangle_ports() -> Vec<PortRecord> {
    vec![port(a(), "A", true, true), port(b(), "B", true, true), port(c(), "C", true, true)]
}

fn store_with(ports: &Vec<PortRecord>, edges: &Vec<Edge>) -> SharedGraphStore {
    let mut store = SharedGraphStore::new();
    store.publish(GraphSnapshot::from_enumeration(ports, edges));
    store
}

/// Carries a toggle out against a gateway that answers each call from
/// `answers` in turn, and `Ok` once they are used up; returns the calls that
/// were made and how the toggle ended.
fn carry_out(
    store: &mut SharedGraphStore,
    sender: PortAddress,
    receiver: PortAddress,
    answers: Vec<Result<(), GatewayError>>,
) -> (Vec<GatewayCall>, Result<(), Error>) {
    let mut mutator = ConnectionMutator::begin(store, sender, receiver);
    let mut made = Vec::new();
    let mut answers = answers.into_iter();
    while let Some(call) = mutator.pending() {
        made.push(call);
        let outcome = answers.next().unwrap_or(Ok(()));
        if let Err(error) = mutator.settle(store, outcome) {
            return (made, Err(error));
        }
    }
    (made, Ok(()))
}

#[test]
fn snapshot_splits_ports_into_role_views_in_order() {
    let ports = vec![
        port(addr(14, 0), "Midi Through", true, true),
        port(addr(20, 0), "Keyboard", true, false),
        port(addr(24, 0), "Synth", false, true),
        port(addr(28, 0), "Timer", false, false),
    ];
    let snapshot = GraphSnapshot::from_enumeration(&ports, &vec![]);
    assert_eq!(
        snapshot.senders(),
        &vec![port(addr(14, 0), "Midi Through", true, true), port(addr(20, 0), "Keyboard", true, false)]
    );
    assert_eq!(
        snapshot.receivers(),
        &vec![port(addr(14, 0), "Midi Through", true, true), port(addr(24, 0), "Synth", false, true)]
    );
    assert!(snapshot.edges().is_empty());
}

#[test]
fn empty_snapshot_has_no_ports_and_no_edges() {
    let snapshot = GraphSnapshot::new();
    assert!(snapshot.senders().is_empty());
    assert!(snapshot.receivers().is_empty());
    assert!(snapshot.edges().is_empty());
    assert_eq!(snapshot, GraphSnapshot::from_enumeration(&vec![], &vec![]));
}

#[test]
fn snapshot_drops_edges_whose_endpoints_are_not_listed() {
    let ports = vec![
        port(addr(20, 0), "Keyboard", true, false),
        port(addr(24, 0), "Synth", false, true),
    ];
    let edges = vec![
        edge(addr(20, 0), addr(24, 0)),
        edge(addr(24, 0), addr(20, 0)),
        edge(addr(0, 1), addr(24, 0)),
        edge(addr(20, 0), addr(99, 9)),
    ];
    let snapshot = GraphSnapshot::from_enumeration(&ports, &edges);
    assert_eq!(snapshot.edges(), &vec![edge(addr(20, 0), addr(24, 0))]);
}

#[test]
fn snapshot_keeps_the_first_of_equal_edges() {
    let edges = vec![edge(a(), b()), edge(b(), c()), edge(a(), b()), edge(b(), c()), edge(c(), a())];
    let snapshot = GraphSnapshot::from_enumeration(&triangle_ports(), &edges);
    assert_eq!(snapshot.edges(), &vec![edge(a(), b()), edge(b(), c()), edge(c(), a())]);
}

#[test]
fn every_edge_of_a_snapshot_ends_at_listed_ports() {
    let ports = vec![
        port(addr(1, 0), "one", true, false),
        port(addr(2, 0), "two", true, true),
        port(addr(3, 0), "three", false, true),
    ];
    let mut edges = Vec::new();
    for from in 0..5 {
        for to in 0..5 {
            edges.push(edge(addr(from, 0), addr(to, 0)));
        }
    }
    let snapshot = GraphSnapshot::from_enumeration(&ports, &edges);
    assert_eq!(snapshot.edges().len(), 4);
    for e in snapshot.edges() {
        assert!(snapshot.senders().iter().any(|p| p.address == e.sender));
        assert!(snapshot.receivers().iter().any(|p| p.address == e.receiver));
    }
}

#[test]
fn has_edge_tells_active_from_absent() {
    let snapshot = GraphSnapshot::from_enumeration(&triangle_ports(), &vec![edge(a(), b())]);
    assert!(snapshot.has_edge(a(), b()));
    assert!(!snapshot.has_edge(b(), a()));
}

#[test]
fn with_edge_adds_last_and_only_what_is_admissible() {
    let snapshot = GraphSnapshot::from_enumeration(&triangle_ports(), &vec![edge(a(), b())]);
    assert_eq!(snapshot.with_edge(edge(b(), c())).edges(), &vec![edge(a(), b()), edge(b(), c())]);
    assert_eq!(snapshot.with_edge(edge(a(), b())), snapshot);
    assert_eq!(snapshot.with_edge(edge(a(), a())), snapshot);
    assert_eq!(snapshot.with_edge(edge(addr(77, 0), b())), snapshot);
    assert_eq!(snapshot.with_edge(edge(a(), addr(77, 0))), snapshot);
}

#[test]
fn without_edge_removes_that_edge_only() {
    let snapshot =
        GraphSnapshot::from_enumeration(&triangle_ports(), &vec![edge(a(), b()), edge(b(), c()), edge(c(), a())]);
    assert_eq!(snapshot.without_edge(edge(b(), c())).edges(), &vec![edge(a(), b()), edge(c(), a())]);
    assert_eq!(snapshot.without_edge(edge(c(), b())), snapshot);
    assert_eq!(snapshot.without_edge(edge(b(), c())).senders(), snapshot.senders());
}

#[test]
fn clone_of_a_snapshot_equals_it() {
    let snapshot = GraphSnapshot::from_enumeration(&triangle_ports(), &vec![edge(a(), b())]);
    assert_eq!(snapshot.clone(), snapshot);
}

#[test]
fn search_finds_a_walk_along_edges() {
    let edges = vec![edge(a(), b()), edge(b(), c())];
    assert!(search(&edges, a(), c()));
    assert!(search(&edges, a(), b()));
    assert!(!search(&edges, c(), a()));
    assert!(!search(&edges, b(), a()));
}

#[test]
fn search_reaches_the_start_itself() {
    assert!(search(&vec![], a(), a()));
    assert!(!search(&vec![], a(), b()));
}

#[test]
fn search_ends_on_a_graph_with_loops() {
    let edges = vec![edge(a(), b()), edge(b(), a()), edge(b(), b()), edge(a(), a())];
    assert!(!search(&edges, a(), c()));
    assert!(search(&edges, b(), a()));
}

#[test]
fn toggle_on_without_conflict_issues_one_subscribe() {
    let mut store = store_with(&triangle_ports(), &vec![edge(b(), c())]);
    let (made, ended) = carry_out(&mut store, a(), b(), vec![]);
    assert_eq!(made, vec![GatewayCall::Subscribe(edge(a(), b()))]);
    assert_eq!(ended, Ok(()));
    assert!(store.snapshot().has_edge(a(), b()));
    assert_eq!(store.snapshot().edges(), &vec![edge(b(), c()), edge(a(), b())]);
}

#[test]
fn toggle_off_issues_one_unsubscribe() {
    let mut store = store_with(&triangle_ports(), &vec![edge(a(), b()), edge(b(), c())]);
    let (made, ended) = carry_out(&mut store, a(), b(), vec![]);
    assert_eq!(made, vec![GatewayCall::Unsubscribe(edge(a(), b()))]);
    assert_eq!(ended, Ok(()));
    assert!(!store.snapshot().has_edge(a(), b()));
    assert_eq!(store.snapshot().edges(), &vec![edge(b(), c())]);
}

#[test]
fn self_toggle_issues_no_call() {
    let mut store = store_with(&triangle_ports(), &vec![edge(a(), b())]);
    let (made, ended) = carry_out(&mut store, a(), a(), vec![]);
    assert_eq!(made, vec![]);
    assert_eq!(ended, Ok(()));
    assert_eq!(store.snapshot().edges(), &vec![edge(a(), b())]);
}

#[test]
fn cycle_scenario_unsubscribes_before_subscribing() {
    let mut store = store_with(&triangle_ports(), &vec![edge(b(), c()), edge(c(), a())]);
    let (made, ended) = carry_out(&mut store, a(), b(), vec![]);
    assert_eq!(
        made,
        vec![GatewayCall::Unsubscribe(edge(b(), c())), GatewayCall::Subscribe(edge(a(), b()))]
    );
    assert_eq!(ended, Ok(()));
    assert_eq!(store.snapshot().edges(), &vec![edge(c(), a()), edge(a(), b())]);
}

#[test]
fn direct_return_edge_is_dropped() {
    let ports = triangle_ports();
    let snapshot = GraphSnapshot::from_enumeration(&ports, &vec![edge(b(), a())]);
    assert_eq!(
        plan_toggle(&snapshot, a(), b()),
        vec![GatewayCall::Unsubscribe(edge(b(), a())), GatewayCall::Subscribe(edge(a(), b()))]
    );
}

#[test]
fn conflicting_edges_are_dropped_in_snapshot_order() {
    let d = addr(32, 0);
    let mut ports = triangle_ports();
    ports.push(port(d, "D", true, true));
    let edges = vec![edge(b(), d), edge(b(), c()), edge(c(), a()), edge(d, a()), edge(b(), b())];
    let snapshot = GraphSnapshot::from_enumeration(&ports, &edges);
    assert_eq!(
        plan_toggle(&snapshot, a(), b()),
        vec![
            GatewayCall::Unsubscribe(edge(b(), d)),
            GatewayCall::Unsubscribe(edge(b(), c())),
            GatewayCall::Unsubscribe(edge(b(), b())),
            GatewayCall::Subscribe(edge(a(), b())),
        ]
    );
}

#[test]
fn harmless_downstream_edges_stay() {
    let d = addr(32, 0);
    let mut ports = triangle_ports();
    ports.push(port(d, "D", true, true));
    let edges = vec![edge(b(), d), edge(b(), c()), edge(c(), a())];
    let mut store = store_with(&ports, &edges);
    let (made, _) = carry_out(&mut store, a(), b(), vec![]);
    assert_eq!(
        made,
        vec![GatewayCall::Unsubscribe(edge(b(), c())), GatewayCall::Subscribe(edge(a(), b()))]
    );
    assert_eq!(store.snapshot().edges(), &vec![edge(b(), d), edge(c(), a()), edge(a(), b())]);
    assert!(!search(store.snapshot().edges(), b(), a()));
}

#[test]
fn dual_role_receiver_is_examined_as_a_source() {
    let ports = vec![
        port(a(), "A", true, false),
        port(b(), "B", true, true),
        port(c(), "C", false, true),
    ];
    let with_loop = vec![
        port(a(), "A", true, true),
        port(b(), "B", true, true),
        port(c(), "C", false, true),
    ];
    let plain = GraphSnapshot::from_enumeration(&ports, &vec![edge(b(), c())]);
    assert_eq!(plan_toggle(&plain, a(), b()), vec![GatewayCall::Subscribe(edge(a(), b()))]);
    let looping = GraphSnapshot::from_enumeration(&with_loop, &vec![edge(b(), c()), edge(b(), a())]);
    assert_eq!(
        plan_toggle(&looping, a(), b()),
        vec![GatewayCall::Unsubscribe(edge(b(), a())), GatewayCall::Subscribe(edge(a(), b()))]
    );
}

#[test]
fn failed_subscribe_leaves_earlier_unsubscribes_in_place() {
    let mut store = store_with(&triangle_ports(), &vec![edge(b(), c()), edge(c(), a())]);
    let (made, ended) = carry_out(&mut store, a(), b(), vec![Ok(()), Err(GatewayError::Io(-19))]);
    assert_eq!(made.len(), 2);
    assert_eq!(ended, Err(Error::MutationFailed(GatewayError::Io(-19))));
    assert_eq!(store.snapshot().edges(), &vec![edge(c(), a())]);
}

#[test]
fn failed_unsubscribe_stops_before_the_subscribe() {
    let mut store = store_with(&triangle_ports(), &vec![edge(b(), c()), edge(c(), a())]);
    let mut mutator = ConnectionMutator::begin(&store, a(), b());
    assert_eq!(mutator.pending(), Some(GatewayCall::Unsubscribe(edge(b(), c()))));
    assert_eq!(
        mutator.settle(&mut store, Err(GatewayError::Io(-5))),
        Err(Error::MutationFailed(GatewayError::Io(-5)))
    );
    assert!(mutator.is_abandoned());
    assert_eq!(mutator.pending(), None);
    assert_eq!(store.snapshot().edges(), &vec![edge(b(), c()), edge(c(), a())]);
    assert_eq!(mutator.settle(&mut store, Ok(())), Ok(()));
    assert_eq!(store.snapshot().edges(), &vec![edge(b(), c()), edge(c(), a())]);
}

#[test]
fn already_connected_counts_as_subscribed() {
    let mut store = store_with(&triangle_ports(), &vec![]);
    let (made, ended) = carry_out(&mut store, a(), b(), vec![Err(GatewayError::AlreadyConnected)]);
    assert_eq!(made, vec![GatewayCall::Subscribe(edge(a(), b()))]);
    assert_eq!(ended, Ok(()));
    assert!(store.snapshot().has_edge(a(), b()));
}

#[test]
fn not_connected_counts_as_unsubscribed() {
    let mut store = store_with(&triangle_ports(), &vec![edge(a(), b())]);
    let (made, ended) = carry_out(&mut store, a(), b(), vec![Err(GatewayError::NotConnected)]);
    assert_eq!(made, vec![GatewayCall::Unsubscribe(edge(a(), b()))]);
    assert_eq!(ended, Ok(()));
    assert!(!store.snapshot().has_edge(a(), b()));
}

#[test]
fn answer_of_the_other_call_is_a_failure() {
    let mut store = store_with(&triangle_ports(), &vec![edge(a(), b())]);
    let (_, ended) = carry_out(&mut store, a(), b(), vec![Err(GatewayError::AlreadyConnected)]);
    assert_eq!(ended, Err(Error::MutationFailed(GatewayError::AlreadyConnected)));
    assert!(store.snapshot().has_edge(a(), b()));
    let mut store = store_with(&triangle_ports(), &vec![]);
    let (_, ended) = carry_out(&mut store, a(), b(), vec![Err(GatewayError::NotConnected)]);
    assert_eq!(ended, Err(Error::MutationFailed(GatewayError::NotConnected)));
    assert!(!store.snapshot().has_edge(a(), b()));
}

#[test]
fn toggle_between_unlisted_ports_edits_nothing() {
    let mut store = store_with(&triangle_ports(), &vec![]);
    let stranger = addr(99, 0);
    let (made, ended) = carry_out(&mut store, stranger, b(), vec![]);
    assert_eq!(made, vec![GatewayCall::Subscribe(edge(stranger, b()))]);
    assert_eq!(ended, Ok(()));
    assert!(store.snapshot().edges().is_empty());
}

#[test]
fn new_store_is_empty_and_fresh() {
    let store = SharedGraphStore::new();
    assert_eq!(store.snapshot(), &GraphSnapshot::new());
    assert_eq!(store.selection(), SelectionState { cell: None, pressed: false });
    assert!(!store.is_stale());
    assert_eq!(store.selected_pair(), None);
}

#[test]
fn resync_without_change_gives_the_same_snapshot() {
    let ports = triangle_ports();
    let edges = vec![edge(b(), c()), edge(c(), a())];
    let first = GraphSnapshot::from_enumeration(&ports, &edges);
    let second = GraphSnapshot::from_enumeration(&ports, &edges);
    assert_eq!(first, second);
    let mut store = store_with(&ports, &edges);
    store.point_at(Some(MatrixCell { sender_index: 2, receiver_index: 1 }));
    store.publish(first);
    let selection = store.selection();
    store.publish(second);
    assert_eq!(store.selection(), selection);
    assert_eq!(store.snapshot(), &GraphSnapshot::from_enumeration(&ports, &edges));
}

#[test]
fn resync_overwrites_optimistic_edits() {
    let ports = triangle_ports();
    let mut store = store_with(&ports, &vec![]);
    let _ = carry_out(&mut store, a(), b(), vec![]);
    assert!(store.snapshot().has_edge(a(), b()));
    store.publish(GraphSnapshot::from_enumeration(&ports, &vec![edge(c(), a())]));
    assert_eq!(store.snapshot().edges(), &vec![edge(c(), a())]);
}

#[test]
fn publish_clears_a_selection_that_fell_out_of_range() {
    let mut store = store_with(&triangle_ports(), &vec![]);
    assert!(store.point_at(Some(MatrixCell { sender_index: 2, receiver_index: 2 })));
    store.set_pressed(true);
    let fewer = vec![port(a(), "A", true, true), port(b(), "B", true, true)];
    store.publish(GraphSnapshot::from_enumeration(&fewer, &vec![]));
    assert_eq!(store.selection(), SelectionState { cell: None, pressed: true });
    assert_eq!(store.selected_pair(), None);
}

#[test]
fn publish_clears_a_selection_out_of_range_in_one_view_only() {
    let mut store = store_with(&triangle_ports(), &vec![]);
    store.point_at(Some(MatrixCell { sender_index: 0, receiver_index: 2 }));
    let narrower = vec![port(a(), "A", true, true), port(b(), "B", true, true), port(c(), "C", true, false)];
    store.publish(GraphSnapshot::from_enumeration(&narrower, &vec![]));
    assert_eq!(store.selection().cell, None);
}

#[test]
fn publish_keeps_a_selection_that_is_still_in_range() {
    let mut store = store_with(&triangle_ports(), &vec![]);
    store.point_at(Some(MatrixCell { sender_index: 1, receiver_index: 0 }));
    let fewer = vec![port(a(), "A", true, true), port(b(), "B", true, true)];
    store.publish(GraphSnapshot::from_enumeration(&fewer, &vec![]));
    assert_eq!(store.selection().cell, Some(MatrixCell { sender_index: 1, receiver_index: 0 }));
    assert_eq!(store.selected_pair(), Some((b(), a())));
}

#[test]
fn publish_makes_a_stale_store_fresh() {
    let mut store = SharedGraphStore::new();
    store.mark_stale();
    assert!(store.is_stale());
    store.publish(GraphSnapshot::new());
    assert!(!store.is_stale());
}

#[test]
fn pointing_outside_the_matrix_selects_nothing() {
    let mut store = store_with(&triangle_ports(), &vec![]);
    assert!(!store.point_at(Some(MatrixCell { sender_index: 3, receiver_index: 0 })));
    assert_eq!(store.selection().cell, None);
    assert!(store.point_at(Some(MatrixCell { sender_index: 0, receiver_index: 1 })));
    assert!(!store.point_at(Some(MatrixCell { sender_index: 0, receiver_index: 1 })));
    assert!(store.point_at(None));
    assert_eq!(store.selection().cell, None);
}

#[test]
fn selected_pair_follows_the_role_views() {
    let ports = vec![
        port(addr(20, 0), "Keyboard", true, false),
        port(addr(24, 0), "Synth", false, true),
        port(addr(28, 0), "Looper", true, true),
    ];
    let mut store = store_with(&ports, &vec![]);
    store.point_at(Some(MatrixCell { sender_index: 1, receiver_index: 0 }));
    assert_eq!(store.selected_pair(), Some((addr(28, 0), addr(24, 0))));
}

#[test]
fn toggle_of_the_selected_cell() {
    let mut store = store_with(&triangle_ports(), &vec![]);
    assert!(ConnectionMutator::begin_selected(&store).is_none());
    store.point_at(Some(MatrixCell { sender_index: 0, receiver_index: 1 }));
    let mutator = ConnectionMutator::begin_selected(&store).unwrap();
    assert_eq!(mutator.pending(), Some(GatewayCall::Subscribe(edge(a(), b()))));
    store.point_at(Some(MatrixCell { sender_index: 1, receiver_index: 1 }));
    let idle = ConnectionMutator::begin_selected(&store).unwrap();
    assert_eq!(idle.pending(), None);
    assert!(!idle.is_abandoned());
}

#[test]
fn addresses_are_ordered_by_client_then_port() {
    assert!(addr(1, 9).is_before(&addr(2, 0)));
    assert!(addr(1, 0).is_before(&addr(1, 1)));
    assert!(!addr(1, 1).is_before(&addr(1, 1)));
    assert!(!addr(2, 0).is_before(&addr(1, 9)));
}
