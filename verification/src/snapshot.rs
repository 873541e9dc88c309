//! Port records and the point-in-time snapshot of the routing graph.

use vstd::prelude::*;

use crate::address::{Edge, PortAddress};
use crate::seq_facts::{lemma_filter_distinct, lemma_filter_member, lemma_filter_take_next};

verus! {

/// One port as the routing subsystem reports it.
#[derive(Debug, PartialEq, Eq)]
pub struct PortRecord {
    pub address: PortAddress,
    pub display_name: String,
    pub can_send: bool,
    pub can_receive: bool,
}

/// Mathematical value of a [`PortRecord`].
pub struct PortRecordView {
    pub address: PortAddress,
    pub display_name: Seq<char>,
    pub can_send: bool,
    pub can_receive: bool,
}

impl View for PortRecord {
    type V = PortRecordView;

    open spec fn view(&self) -> PortRecordView {
        PortRecordView {
            address: self.address,
            display_name: self.display_name@,
            can_send: self.can_send,
            can_receive: self.can_receive,
        }
    }
}

impl Clone for PortRecord {
    fn clone(&self) -> (copy: Self)
        ensures
            copy == *self,
    {
        PortRecord {
            address: self.address,
            display_name: self.display_name.clone(),
            can_send: self.can_send,
            can_receive: self.can_receive,
        }
    }
}

/// The test that picks the ports of the sender view.
pub open spec fn sends() -> spec_fn(PortRecordView) -> bool {
    |p: PortRecordView| p.can_send
}

/// The test that picks the ports of the receiver view.
pub open spec fn receives() -> spec_fn(PortRecordView) -> bool {
    |p: PortRecordView| p.can_receive
}

/// The test that passes every edge but `edge`.
pub open spec fn other_than(edge: Edge) -> spec_fn(Edge) -> bool {
    |e: Edge| e != edge
}

/// The values of a list of records, in order.
pub open spec fn records_view(records: Seq<PortRecord>) -> Seq<PortRecordView> {
    records.map_values(|r: PortRecord| r@)
}

/// Whether some record of the list carries the address.
pub open spec fn lists_address(records: Seq<PortRecordView>, address: PortAddress) -> bool {
    exists|i: int| 0 <= i < records.len() && #[trigger] records[i].address == address
}

/// The edges of `edges` that a snapshot with the given role views keeps: those
/// whose sender is listed among the senders and whose receiver is listed among
/// the receivers, each once, at the place of its first occurrence.
pub open spec fn kept_edges(
    senders: Seq<PortRecordView>,
    receivers: Seq<PortRecordView>,
    edges: Seq<Edge>,
) -> Seq<Edge>
    decreases edges.len(),
{
    if edges.len() == 0 {
        Seq::empty()
    } else {
        let earlier = kept_edges(senders, receivers, edges.drop_last());
        let e = edges.last();
        if lists_address(senders, e.sender) && lists_address(receivers, e.receiver)
            && !earlier.contains(e) {
            earlier.push(e)
        } else {
            earlier
        }
    }
}

/// Mathematical value of a [`GraphSnapshot`]: the two role views and the
/// active edges, each in subsystem order.
pub struct GraphView {
    pub senders: Seq<PortRecordView>,
    pub receivers: Seq<PortRecordView>,
    pub edges: Seq<Edge>,
}

impl GraphView {
    /// Whether a port with this address is in the sender view.
    pub open spec fn has_sender(self, address: PortAddress) -> bool {
        lists_address(self.senders, address)
    }

    /// Whether a port with this address is in the receiver view.
    pub open spec fn has_receiver(self, address: PortAddress) -> bool {
        lists_address(self.receivers, address)
    }

    /// Whether the edge from `sender` to `receiver` is active.
    pub open spec fn has_edge(self, sender: PortAddress, receiver: PortAddress) -> bool {
        self.edges.contains(Edge { sender, receiver })
    }

    /// Referential integrity: every edge starts at a listed sender and ends at
    /// a listed receiver.
    pub open spec fn intact(self) -> bool {
        forall|i: int|
            0 <= i < self.edges.len() ==> self.has_sender(#[trigger] self.edges[i].sender)
                && self.has_receiver(self.edges[i].receiver)
    }

    /// Every record sits in a view that matches one of its capabilities.
    pub open spec fn roles_match(self) -> bool {
        &&& forall|i: int| 0 <= i < self.senders.len() ==> (#[trigger] self.senders[i]).can_send
        &&& forall|i: int|
            0 <= i < self.receivers.len() ==> (#[trigger] self.receivers[i]).can_receive
    }

    /// What holds of every snapshot: referential integrity, no edge twice, and
    /// matching roles.
    pub open spec fn wf(self) -> bool {
        &&& self.intact()
        &&& self.edges.no_duplicates()
        &&& self.roles_match()
    }

    /// The snapshot that one consistent read of the subsystem gives: the ports
    /// that can send, the ports that can receive, and the edges between them.
    pub open spec fn of_enumeration(ports: Seq<PortRecordView>, edges: Seq<Edge>) -> GraphView {
        let senders = ports.filter(sends());
        let receivers = ports.filter(receives());
        GraphView { senders, receivers, edges: kept_edges(senders, receivers, edges) }
    }

    /// The graph with no port and no edge.
    pub open spec fn empty() -> GraphView {
        GraphView { senders: Seq::empty(), receivers: Seq::empty(), edges: Seq::empty() }
    }

    /// The graph without the edge `edge`; the ports stay.
    pub open spec fn without_edge(self, edge: Edge) -> GraphView {
        GraphView { edges: self.edges.filter(other_than(edge)), ..self }
    }

    /// Whether the edge can be added: it is no self-loop, it is not there yet,
    /// and both its endpoints are listed in their views.
    pub open spec fn admits(self, edge: Edge) -> bool {
        &&& edge.sender != edge.receiver
        &&& self.has_sender(edge.sender)
        &&& self.has_receiver(edge.receiver)
        &&& !self.edges.contains(edge)
    }

    /// The graph with the edge `edge` added last where it can be added, and
    /// the same graph where it cannot.
    pub open spec fn with_edge(self, edge: Edge) -> GraphView {
        if self.admits(edge) {
            GraphView { edges: self.edges.push(edge), ..self }
        } else {
            self
        }
    }
}

/// Removing an edge keeps a graph well formed.
pub proof fn lemma_without_edge_wf(g: GraphView, edge: Edge)
    requires
        g.wf(),
    ensures
        g.without_edge(edge).wf(),
        !g.without_edge(edge).edges.contains(edge),
        forall|e: Edge|
            #[trigger] g.without_edge(edge).edges.contains(e) <==> (g.edges.contains(e) && e
                != edge),
{
    let keep = other_than(edge);
    let h = g.without_edge(edge);
    lemma_filter_distinct(g.edges, keep);
    assert forall|e: Edge|
        #[trigger] h.edges.contains(e) <==> (g.edges.contains(e) && e != edge) by {
        lemma_filter_member(g.edges, keep, e);
    }
    assert forall|i: int| 0 <= i < h.edges.len() implies h.has_sender(
        #[trigger] h.edges[i].sender,
    ) && h.has_receiver(h.edges[i].receiver) by {
        assert(h.edges.contains(h.edges[i]));
        let k = choose|k: int| 0 <= k < g.edges.len() && g.edges[k] == h.edges[i];
        assert(g.has_sender(g.edges[k].sender));
    }
}

/// Adding an edge keeps a graph well formed.
pub proof fn lemma_with_edge_wf(g: GraphView, edge: Edge)
    requires
        g.wf(),
    ensures
        g.with_edge(edge).wf(),
        forall|e: Edge|
            #[trigger] g.with_edge(edge).edges.contains(e) <==> (g.edges.contains(e) || (e == edge
                && g.admits(edge))),
{
    let h = g.with_edge(edge);
    if g.admits(edge) {
        assert forall|i: int| 0 <= i < h.edges.len() implies h.has_sender(
            #[trigger] h.edges[i].sender,
        ) && h.has_receiver(h.edges[i].receiver) by {
            if i < g.edges.len() {
                assert(g.has_sender(g.edges[i].sender));
            }
        }
        assert forall|i: int, j: int|
            0 <= i < h.edges.len() && 0 <= j < h.edges.len() && i != j implies h.edges[i]
            != h.edges[j] by {
            if i < g.edges.len() {
                assert(g.edges.contains(g.edges[i]));
            }
            if j < g.edges.len() {
                assert(g.edges.contains(g.edges[j]));
            }
        }
        assert forall|e: Edge|
            #[trigger] h.edges.contains(e) <==> (g.edges.contains(e) || (e == edge && g.admits(
                edge,
            ))) by {
            if h.edges.contains(e) {
                let i = choose|i: int| 0 <= i < h.edges.len() && h.edges[i] == e;
                if i < g.edges.len() {
                    assert(g.edges[i] == e);
                }
            }
            if g.edges.contains(e) {
                let i = choose|i: int| 0 <= i < g.edges.len() && g.edges[i] == e;
                assert(h.edges[i] == e);
            }
            if e == edge {
                assert(h.edges[h.edges.len() - 1] == e);
            }
        }
    }
}

/// Every kept edge is one of the given edges with both endpoints listed, and
/// every such edge is kept; no edge is kept twice.
pub proof fn lemma_kept_edges(
    senders: Seq<PortRecordView>,
    receivers: Seq<PortRecordView>,
    edges: Seq<Edge>,
)
    ensures
        kept_edges(senders, receivers, edges).no_duplicates(),
        forall|e: Edge|
            #[trigger] kept_edges(senders, receivers, edges).contains(e) <==> (edges.contains(e)
                && lists_address(senders, e.sender) && lists_address(receivers, e.receiver)),
    decreases edges.len(),
{
    let kept = kept_edges(senders, receivers, edges);
    if edges.len() > 0 {
        let front = edges.drop_last();
        let earlier = kept_edges(senders, receivers, front);
        let last = edges.last();
        lemma_kept_edges(senders, receivers, front);
        assert forall|e: Edge|
            #[trigger] kept.contains(e) <==> (edges.contains(e) && lists_address(senders, e.sender)
                && lists_address(receivers, e.receiver)) by {
            if edges.contains(e) {
                let i = choose|i: int| 0 <= i < edges.len() && edges[i] == e;
                if i < edges.len() - 1 {
                    assert(front[i] == e);
                    assert(front.contains(e));
                }
            }
            if front.contains(e) {
                let i = choose|i: int| 0 <= i < front.len() && front[i] == e;
                assert(edges[i] == e);
            }
            if kept.contains(e) {
                let i = choose|i: int| 0 <= i < kept.len() && kept[i] == e;
                if i < earlier.len() {
                    assert(earlier[i] == e);
                    assert(earlier.contains(e));
                } else {
                    assert(e == last);
                    assert(edges[edges.len() - 1] == e);
                }
            }
            if earlier.contains(e) {
                let i = choose|i: int| 0 <= i < earlier.len() && earlier[i] == e;
                assert(kept[i] == e);
            }
            if e == last && lists_address(senders, e.sender) && lists_address(
                receivers,
                e.receiver,
            ) && !earlier.contains(e) {
                assert(kept[kept.len() - 1] == e);
            }
        }
    }
}

/// A snapshot made from one consistent read is well formed.
pub proof fn lemma_enumeration_wf(ports: Seq<PortRecordView>, edges: Seq<Edge>)
    ensures
        GraphView::of_enumeration(ports, edges).wf(),
{
    let g = GraphView::of_enumeration(ports, edges);
    lemma_kept_edges(g.senders, g.receivers, edges);
    assert forall|i: int| 0 <= i < g.edges.len() implies g.has_sender(
        #[trigger] g.edges[i].sender,
    ) && g.has_receiver(g.edges[i].receiver) by {
        assert(g.edges.contains(g.edges[i]));
    }
    assert forall|i: int| 0 <= i < g.senders.len() implies (#[trigger] g.senders[i]).can_send by {
        ports.lemma_filter_pred(sends(), i);
    }
    assert forall|i: int| 0 <= i < g.receivers.len() implies (
    #[trigger] g.receivers[i]).can_receive by {
        ports.lemma_filter_pred(receives(), i);
    }
}

/// Immutable point-in-time copy of the port and edge graph.
#[derive(Debug, PartialEq, Eq)]
pub struct GraphSnapshot {
    senders: Vec<PortRecord>,
    receivers: Vec<PortRecord>,
    edges: Vec<Edge>,
}

impl View for GraphSnapshot {
    type V = GraphView;

    closed spec fn view(&self) -> GraphView {
        GraphView {
            senders: records_view(self.senders@),
            receivers: records_view(self.receivers@),
            edges: self.edges@,
        }
    }
}

/// Index of the first record of the list that carries the address.
pub fn find_address(records: &Vec<PortRecord>, address: PortAddress) -> (found: Option<usize>)
    ensures
        found is Some <==> lists_address(records_view(records@), address),
        found matches Some(i) ==> i < records.len() && records[i as int].address == address
            && forall|j: int| 0 <= j < i ==> records[j].address != address,
{
    let mut i: usize = 0;
    while i < records.len()
        invariant
            i <= records.len(),
            forall|j: int| 0 <= j < i ==> records[j].address != address,
        decreases records.len() - i,
    {
        if records[i].address == address {
            assert(records_view(records@)[i as int].address == address);
            return Some(i);
        }
        i += 1;
    }
    assert forall|j: int| 0 <= j < records_view(records@).len() implies #[trigger] records_view(
        records@,
    )[j].address != address by {
        assert(records[j].address != address);
    }
    None
}

/// A copy of the list of records.
pub fn copy_records(records: &Vec<PortRecord>) -> (copy: Vec<PortRecord>)
    ensures
        copy@ == records@,
{
    let mut copy: Vec<PortRecord> = Vec::new();
    let mut i: usize = 0;
    while i < records.len()
        invariant
            i <= records.len(),
            copy@ == records@.take(i as int),
        decreases records.len() - i,
    {
        copy.push(records[i].clone());
        assert(records@.take(i + 1) =~= records@.take(i as int).push(records@[i as int]));
        i += 1;
    }
    assert(records@.take(records.len() as int) =~= records@);
    copy
}

/// A copy of the list of edges.
pub fn copy_edges(edges: &Vec<Edge>) -> (copy: Vec<Edge>)
    ensures
        copy@ == edges@,
{
    let mut copy: Vec<Edge> = Vec::new();
    let mut i: usize = 0;
    while i < edges.len()
        invariant
            i <= edges.len(),
            copy@ == edges@.take(i as int),
        decreases edges.len() - i,
    {
        copy.push(edges[i]);
        assert(edges@.take(i + 1) =~= edges@.take(i as int).push(edges@[i as int]));
        i += 1;
    }
    assert(edges@.take(edges.len() as int) =~= edges@);
    copy
}

/// Whether the list holds the edge.
pub fn holds_edge(edges: &Vec<Edge>, edge: Edge) -> (held: bool)
    ensures
        held == edges@.contains(edge),
{
    let mut i: usize = 0;
    while i < edges.len()
        invariant
            i <= edges.len(),
            forall|j: int| 0 <= j < i ==> edges[j] != edge,
        decreases edges.len() - i,
    {
        if edges[i] == edge {
            return true;
        }
        i += 1;
    }
    false
}

impl GraphSnapshot {
    /// Holds of every snapshot there is.
    #[verifier::type_invariant]
    pub open spec fn well_formed(&self) -> bool {
        self@.wf()
    }

    /// The snapshot of a subsystem without ports.
    pub fn new() -> (snapshot: GraphSnapshot)
        ensures
            snapshot@ == GraphView::empty(),
            snapshot@.wf(),
    {
        let snapshot = GraphSnapshot { senders: Vec::new(), receivers: Vec::new(), edges: Vec::new() };
        assert(snapshot@ =~= GraphView::empty()) by {
            assert(snapshot@.senders =~= Seq::empty());
            assert(snapshot@.receivers =~= Seq::empty());
        }
        snapshot
    }

    /// Builds the snapshot of one consistent read of the subsystem.
    ///
    /// A port goes into the sender view where it can send and into the receiver
    /// view where it can receive, in the order of `ports`. An edge is kept where
    /// both its endpoints are listed, once, in the order of `edges`.
    pub fn from_enumeration(ports: &Vec<PortRecord>, edges: &Vec<Edge>) -> (snapshot: GraphSnapshot)
        ensures
            snapshot@ == GraphView::of_enumeration(records_view(ports@), edges@),
            snapshot@.wf(),
    {
        let ghost all = records_view(ports@);
        let mut senders: Vec<PortRecord> = Vec::new();
        let mut receivers: Vec<PortRecord> = Vec::new();
        let mut i: usize = 0;
        assert(all.take(0) =~= Seq::empty());
        assert(records_view(senders@) =~= Seq::empty());
        assert(records_view(receivers@) =~= Seq::empty());
        while i < ports.len()
            invariant
                i <= ports.len(),
                all == records_view(ports@),
                records_view(senders@) == all.take(i as int).filter(sends()),
                records_view(receivers@) == all.take(i as int).filter(receives()),
            decreases ports.len() - i,
        {
            let ghost before_s = records_view(senders@);
            let ghost before_r = records_view(receivers@);
            let port = &ports[i];
            proof {
                lemma_filter_take_next(all, sends(), i as int);
                lemma_filter_take_next(all, receives(), i as int);
                assert(all[i as int] == port@);
            }
            if port.can_send {
                senders.push(port.clone());
                assert(records_view(senders@) =~= before_s.push(port@));
            }
            if port.can_receive {
                receivers.push(port.clone());
                assert(records_view(receivers@) =~= before_r.push(port@));
            }
            i += 1;
        }
        assert(all.take(ports.len() as int) =~= all);
        let ghost sv = records_view(senders@);
        let ghost rv = records_view(receivers@);
        let mut kept: Vec<Edge> = Vec::new();
        let mut k: usize = 0;
        assert(edges@.take(0) =~= Seq::empty());
        while k < edges.len()
            invariant
                k <= edges.len(),
                sv == records_view(senders@),
                rv == records_view(receivers@),
                kept@ == kept_edges(sv, rv, edges@.take(k as int)),
            decreases edges.len() - k,
        {
            let e = edges[k];
            proof {
                assert(edges@.take(k + 1).drop_last() =~= edges@.take(k as int));
                assert(edges@.take(k + 1).last() == e);
            }
            let from_listed = find_address(&senders, e.sender).is_some();
            let to_listed = find_address(&receivers, e.receiver).is_some();
            if from_listed && to_listed && !holds_edge(&kept, e) {
                kept.push(e);
            }
            k += 1;
        }
        assert(edges@.take(edges.len() as int) =~= edges@);
        proof {
            lemma_enumeration_wf(all, edges@);
        }
        GraphSnapshot { senders, receivers, edges: kept }
    }

    /// The ports that can send, in subsystem order.
    pub fn senders(&self) -> (records: &Vec<PortRecord>)
        ensures
            records_view(records@) == self@.senders,
            self@.wf(),
    {
        proof {
            use_type_invariant(self);
        }
        &self.senders
    }

    /// The ports that can receive, in subsystem order.
    pub fn receivers(&self) -> (records: &Vec<PortRecord>)
        ensures
            records_view(records@) == self@.receivers,
            self@.wf(),
    {
        proof {
            use_type_invariant(self);
        }
        &self.receivers
    }

    /// The active edges, in subsystem order.
    pub fn edges(&self) -> (edges: &Vec<Edge>)
        ensures
            edges@ == self@.edges,
            self@.wf(),
    {
        proof {
            use_type_invariant(self);
        }
        &self.edges
    }

    /// Whether the edge from `sender` to `receiver` is active.
    pub fn has_edge(&self, sender: PortAddress, receiver: PortAddress) -> (present: bool)
        ensures
            present == self@.has_edge(sender, receiver),
    {
        holds_edge(&self.edges, Edge { sender, receiver })
    }

    /// The snapshot without the edge: an optimistic copy to swap in after an
    /// `unsubscribe`. Where the edge is not active, the copy equals `self`.
    pub fn without_edge(&self, edge: Edge) -> (copy: GraphSnapshot)
        ensures
            copy@ == self@.without_edge(edge),
            copy@.wf(),
    {
        proof {
            use_type_invariant(self);
        }
        let ghost keep = other_than(edge);
        let mut kept: Vec<Edge> = Vec::new();
        let mut i: usize = 0;
        assert(self.edges@.take(0) =~= Seq::empty());
        while i < self.edges.len()
            invariant
                i <= self.edges.len(),
                keep == other_than(edge),
                kept@ == self.edges@.take(i as int).filter(keep),
            decreases self.edges.len() - i,
        {
            let e = self.edges[i];
            proof {
                lemma_filter_take_next(self.edges@, keep, i as int);
            }
            if e != edge {
                kept.push(e);
            }
            i += 1;
        }
        proof {
            assert(self.edges@.take(self.edges.len() as int) =~= self.edges@);
            lemma_without_edge_wf(self@, edge);
        }
        GraphSnapshot {
            senders: copy_records(&self.senders),
            receivers: copy_records(&self.receivers),
            edges: kept,
        }
    }

    /// The snapshot with the edge added after the others: an optimistic copy
    /// to swap in after a `subscribe`. Where the edge is a self-loop, is
    /// active already, or names a port that is not listed in its view, the
    /// copy equals `self`.
    pub fn with_edge(&self, edge: Edge) -> (copy: GraphSnapshot)
        ensures
            copy@ == self@.with_edge(edge),
            copy@.wf(),
    {
        proof {
            use_type_invariant(self);
            lemma_with_edge_wf(self@, edge);
        }
        let mut grown = copy_edges(&self.edges);
        if edge.sender != edge.receiver && find_address(&self.senders, edge.sender).is_some()
            && find_address(&self.receivers, edge.receiver).is_some() && !holds_edge(
            &self.edges,
            edge,
        ) {
            grown.push(edge);
        }
        GraphSnapshot {
            senders: copy_records(&self.senders),
            receivers: copy_records(&self.receivers),
            edges: grown,
        }
    }
}

impl Clone for GraphSnapshot {
    fn clone(&self) -> (copy: Self)
        ensures
            copy@ == self@,
    {
        proof {
            use_type_invariant(self);
        }
        GraphSnapshot {
            senders: copy_records(&self.senders),
            receivers: copy_records(&self.receivers),
            edges: copy_edges(&self.edges),
        }
    }
}

} // verus!
