//! Forward reachability over the edge relation of a routing graph.

use vstd::prelude::*;
use vstd::set_lib::lemma_len_subset;

use crate::address::{Edge, PortAddress};

verus! {

/// Whether the edge from `from` to `to` is among `edges`.
pub open spec fn linked(edges: Seq<Edge>, from: PortAddress, to: PortAddress) -> bool {
    edges.contains(Edge { sender: from, receiver: to })
}

/// Whether the walk follows an edge from its `i`-th port to the next one.
pub open spec fn hop(edges: Seq<Edge>, walk: Seq<PortAddress>, i: int) -> bool {
    linked(edges, walk[i], walk[i + 1])
}

/// A walk is a non-empty list of ports in which each port forwards to the next.
pub open spec fn is_walk(edges: Seq<Edge>, walk: Seq<PortAddress>) -> bool {
    &&& walk.len() > 0
    &&& forall|i: int| 0 <= i < walk.len() - 1 ==> #[trigger] hop(edges, walk, i)
}

/// Whether messages sent by `from` can arrive at `to`: some walk leads from
/// one to the other. Every port reaches itself.
pub open spec fn reaches(edges: Seq<Edge>, from: PortAddress, to: PortAddress) -> bool {
    exists|walk: Seq<PortAddress>|
        #[trigger] is_walk(edges, walk) && walk.first() == from && walk.last() == to
}

/// A set of ports that no edge leaves.
pub open spec fn closed_under(edges: Seq<Edge>, ports: Set<PortAddress>) -> bool {
    forall|j: int|
        0 <= j < edges.len() && ports.contains(#[trigger] edges[j].sender) ==> ports.contains(
            edges[j].receiver,
        )
}

/// Every port reaches itself.
pub proof fn lemma_reaches_self(edges: Seq<Edge>, port: PortAddress)
    ensures
        reaches(edges, port, port),
{
    let walk = seq![port];
    assert(is_walk(edges, walk));
}

/// A walk can be continued along one more edge.
pub proof fn lemma_reaches_step(
    edges: Seq<Edge>,
    from: PortAddress,
    via: PortAddress,
    to: PortAddress,
)
    requires
        reaches(edges, from, via),
        linked(edges, via, to),
    ensures
        reaches(edges, from, to),
{
    let walk = choose|walk: Seq<PortAddress>|
        #[trigger] is_walk(edges, walk) && walk.first() == from && walk.last() == via;
    let longer = walk.push(to);
    assert forall|i: int| 0 <= i < longer.len() - 1 implies #[trigger] hop(edges, longer, i) by {
        if i < walk.len() - 1 {
            assert(hop(edges, walk, i));
        }
    }
    assert(is_walk(edges, longer));
}

/// One walk after another is a walk.
pub proof fn lemma_reaches_transitive(
    edges: Seq<Edge>,
    from: PortAddress,
    via: PortAddress,
    to: PortAddress,
)
    requires
        reaches(edges, from, via),
        reaches(edges, via, to),
    ensures
        reaches(edges, from, to),
{
    let first = choose|walk: Seq<PortAddress>|
        #[trigger] is_walk(edges, walk) && walk.first() == from && walk.last() == via;
    let second = choose|walk: Seq<PortAddress>|
        #[trigger] is_walk(edges, walk) && walk.first() == via && walk.last() == to;
    let joined = first + second.drop_first();
    assert forall|i: int| 0 <= i < joined.len() - 1 implies #[trigger] hop(edges, joined, i) by {
        if i < first.len() - 1 {
            assert(hop(edges, first, i));
        } else {
            let k = i - (first.len() - 1);
            assert(hop(edges, second, k));
            assert(joined[i] == second[k]);
            assert(joined[i + 1] == second[k + 1]);
        }
    }
    assert(is_walk(edges, joined));
    assert(joined.last() == to) by {
        if second.len() == 1 {
            assert(joined =~= first);
        }
    }
}

/// A walk that starts inside a closed set stays inside it.
proof fn lemma_walk_stays_inside(
    edges: Seq<Edge>,
    ports: Set<PortAddress>,
    walk: Seq<PortAddress>,
    k: int,
)
    requires
        closed_under(edges, ports),
        is_walk(edges, walk),
        ports.contains(walk.first()),
        0 <= k < walk.len(),
    ensures
        ports.contains(walk[k]),
    decreases k,
{
    if k > 0 {
        lemma_walk_stays_inside(edges, ports, walk, k - 1);
        assert(hop(edges, walk, k - 1));
        let e = Edge { sender: walk[k - 1], receiver: walk[k] };
        let j = choose|j: int| 0 <= j < edges.len() && edges[j] == e;
        assert(edges[j].sender == walk[k - 1]);
    }
}

/// Nothing outside a closed set can be reached from inside it.
pub proof fn lemma_closed_set_confines(
    edges: Seq<Edge>,
    ports: Set<PortAddress>,
    from: PortAddress,
    to: PortAddress,
)
    requires
        closed_under(edges, ports),
        ports.contains(from),
        reaches(edges, from, to),
    ensures
        ports.contains(to),
{
    let walk = choose|walk: Seq<PortAddress>|
        #[trigger] is_walk(edges, walk) && walk.first() == from && walk.last() == to;
    lemma_walk_stays_inside(edges, ports, walk, walk.len() - 1);
}

/// Whether a port is the start of a search or the receiver of some edge.
pub open spec fn in_scope(edges: Seq<Edge>, start: PortAddress, port: PortAddress) -> bool {
    port == start || exists|j: int| 0 <= j < edges.len() && #[trigger] edges[j].receiver == port
}

/// A list of distinct ports in the scope of a search is at most one longer
/// than the list of edges.
proof fn lemma_scope_bound(edges: Seq<Edge>, start: PortAddress, ports: Seq<PortAddress>)
    requires
        ports.no_duplicates(),
        forall|k: int| 0 <= k < ports.len() ==> in_scope(edges, start, #[trigger] ports[k]),
    ensures
        ports.len() <= edges.len() + 1,
{
    broadcast use vstd::seq_lib::seq_to_set_is_finite;

    let receivers = edges.map_values(|e: Edge| e.receiver);
    let scope = receivers.to_set().insert(start);
    receivers.lemma_cardinality_of_set();
    ports.unique_seq_to_set();
    assert forall|x: PortAddress| ports.to_set().contains(x) implies scope.contains(x) by {
        let k = choose|k: int| 0 <= k < ports.len() && ports[k] == x;
        assert(in_scope(edges, start, ports[k]));
        if x != start {
            let j = choose|j: int| 0 <= j < edges.len() && #[trigger] edges[j].receiver == x;
            assert(receivers[j] == x);
            assert(receivers.contains(x));
        }
    }
    lemma_len_subset(ports.to_set(), scope);
}

/// Whether the list holds the address.
pub fn holds_address(list: &Vec<PortAddress>, address: PortAddress) -> (held: bool)
    ensures
        held == list@.contains(address),
{
    let mut i: usize = 0;
    while i < list.len()
        invariant
            i <= list.len(),
            forall|j: int| 0 <= j < i ==> list[j] != address,
        decreases list.len() - i,
    {
        if list[i] == address {
            return true;
        }
        i += 1;
    }
    false
}

/// Forward search from `start` for `goal` along the edges.
///
/// Ports wait on a stack until they are expanded; a port is expanded once,
/// which the list of visited ports ensures, so the search ends on every graph,
/// cyclic or not.
pub fn search(edges: &Vec<Edge>, start: PortAddress, goal: PortAddress) -> (found: bool)
    ensures
        found == reaches(edges@, start, goal),
{
    let mut stack: Vec<PortAddress> = Vec::new();
    let mut visited: Vec<PortAddress> = Vec::new();
    stack.push(start);
    proof {
        lemma_reaches_self(edges@, start);
        assert(stack@[0] == start);
    }
    while stack.len() > 0
        invariant
            forall|k: int| 0 <= k < stack.len() ==> reaches(edges@, start, #[trigger] stack[k]),
            forall|k: int| 0 <= k < stack.len() ==> in_scope(edges@, start, #[trigger] stack[k]),
            forall|k: int| 0 <= k < visited.len() ==> reaches(edges@, start, #[trigger] visited[k]),
            forall|k: int|
                0 <= k < visited.len() ==> in_scope(edges@, start, #[trigger] visited[k]),
            visited@.no_duplicates(),
            visited.len() <= edges.len() + 1,
            !visited@.contains(goal),
            visited@.contains(start) || stack@.contains(start),
            forall|k: int, j: int|
                0 <= k < visited.len() && 0 <= j < edges.len() && (#[trigger] edges[j]).sender
                    == #[trigger] visited[k] ==> visited@.contains(edges[j].receiver)
                    || stack@.contains(edges[j].receiver),
        decreases edges.len() + 1 - visited.len(), stack.len(),
    {
        let ghost stack_before = stack@;
        let ghost visited_before = visited@;
        let current = stack.pop().unwrap();
        assert(current == stack_before[stack_before.len() - 1]);
        assert(forall|x: PortAddress|
            stack_before.contains(x) ==> x == current || stack@.contains(x)) by {
            assert forall|x: PortAddress| stack_before.contains(x) implies x == current
                || stack@.contains(x) by {
                let k = choose|k: int| 0 <= k < stack_before.len() && stack_before[k] == x;
                if k < stack@.len() {
                    assert(stack@[k] == x);
                }
            }
        }
        if current == goal {
            return true;
        }
        if !holds_address(&visited, current) {
            visited.push(current);
            proof {
                assert(visited@.no_duplicates());
                lemma_scope_bound(edges@, start, visited@);
                assert(visited@[visited.len() - 1] == current);
                assert(forall|x: PortAddress|
                    visited_before.contains(x) ==> visited@.contains(x)) by {
                    assert forall|x: PortAddress| visited_before.contains(x) implies visited@.contains(
                        x,
                    ) by {
                        let k = choose|k: int|
                            0 <= k < visited_before.len() && visited_before[k] == x;
                        assert(visited@[k] == x);
                    }
                }
            }
            let ghost stack_popped = stack@;
            let mut i: usize = 0;
            while i < edges.len()
                invariant
                    i <= edges.len(),
                    reaches(edges@, start, current),
                    forall|k: int|
                        0 <= k < stack.len() ==> reaches(edges@, start, #[trigger] stack[k]),
                    forall|k: int|
                        0 <= k < stack.len() ==> in_scope(edges@, start, #[trigger] stack[k]),
                    forall|x: PortAddress| stack_popped.contains(x) ==> stack@.contains(x),
                    forall|j: int|
                        0 <= j < i && (#[trigger] edges[j]).sender == current ==> visited@.contains(
                            edges[j].receiver,
                        ) || stack@.contains(edges[j].receiver),
                decreases edges.len() - i,
            {
                let e = edges[i];
                let ghost stack_inner = stack@;
                if e.sender == current && !holds_address(&visited, e.receiver) {
                    stack.push(e.receiver);
                    proof {
                        assert(edges@.contains(e));
                        lemma_reaches_step(edges@, start, current, e.receiver);
                        assert(stack@[stack.len() - 1] == e.receiver);
                        assert forall|x: PortAddress| stack_inner.contains(x) implies stack@.contains(
                            x,
                        ) by {
                            let k = choose|k: int|
                                0 <= k < stack_inner.len() && stack_inner[k] == x;
                            assert(stack@[k] == x);
                        }
                    }
                }
                i += 1;
            }
            assert forall|k: int, j: int|
                0 <= k < visited.len() && 0 <= j < edges.len() && (#[trigger] edges[j]).sender
                    == #[trigger] visited[k] implies visited@.contains(edges[j].receiver)
                || stack@.contains(edges[j].receiver) by {
                if k < visited_before.len() {
                    assert(visited_before[k] == visited[k]);
                    let r = edges[j].receiver;
                    assert(visited_before.contains(r) || stack_before.contains(r));
                }
            }
        } else {
            assert forall|k: int, j: int|
                0 <= k < visited.len() && 0 <= j < edges.len() && (#[trigger] edges[j]).sender
                    == #[trigger] visited[k] implies visited@.contains(edges[j].receiver)
                || stack@.contains(edges[j].receiver) by {
                let r = edges[j].receiver;
                assert(visited_before.contains(r) || stack_before.contains(r));
            }
        }
    }
    proof {
        let inside = visited@.to_set();
        assert(closed_under(edges@, inside)) by {
            assert forall|j: int|
                0 <= j < edges.len() && inside.contains(
                    #[trigger] edges[j].sender,
                ) implies inside.contains(edges[j].receiver) by {
                let k = choose|k: int| 0 <= k < visited.len() && visited[k] == edges[j].sender;
                assert(visited@.contains(edges[j].receiver) || stack@.contains(edges[j].receiver));
            }
        }
        if reaches(edges@, start, goal) {
            lemma_closed_set_confines(edges@, inside, start, goal);
        }
    }
    false
}

} // verus!
