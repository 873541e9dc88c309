//! The store that the synchronizer and the interactive thread share: the
//! current snapshot and the selection, kept consistent with each other.

use vstd::prelude::*;

use crate::address::{Edge, PortAddress};
use crate::snapshot::{GraphSnapshot, GraphView};

verus! {

/// One crossing of the matrix: an index into the sender view and an index
/// into the receiver view.
#[derive(Clone, Copy, Debug, PartialEq, Eq, Structural)]
pub struct MatrixCell {
    pub sender_index: usize,
    pub receiver_index: usize,
}

/// What the pointer selects in the matrix, and whether the button is held.
#[derive(Clone, Copy, Debug, PartialEq, Eq, Structural)]
pub struct SelectionState {
    pub cell: Option<MatrixCell>,
    pub pressed: bool,
}

/// Whether a cell lies inside the matrix of a graph; no cell always does.
pub open spec fn cell_fits(graph: GraphView, cell: Option<MatrixCell>) -> bool {
    cell matches Some(c) ==> c.sender_index < graph.senders.len() && c.receiver_index
        < graph.receivers.len()
}

/// Mathematical value of a [`SharedGraphStore`].
pub struct StoreView {
    pub snapshot: GraphView,
    pub selection: SelectionState,
    pub stale: bool,
}

impl StoreView {
    /// What holds of every store: its snapshot is well formed and its
    /// selection points into that snapshot.
    pub open spec fn wf(self) -> bool {
        self.snapshot.wf() && cell_fits(self.snapshot, self.selection.cell)
    }

    /// The store after a publish: the new snapshot, fresh, with the selected
    /// cell cleared where it no longer lies inside the matrix.
    pub open spec fn published(self, graph: GraphView) -> StoreView {
        StoreView {
            snapshot: graph,
            selection: SelectionState {
                cell: if cell_fits(graph, self.selection.cell) {
                    self.selection.cell
                } else {
                    None
                },
                pressed: self.selection.pressed,
            },
            stale: false,
        }
    }

    /// The store after the pointer moved to `cell`: a cell outside the matrix
    /// selects nothing.
    pub open spec fn pointed_at(self, cell: Option<MatrixCell>) -> StoreView {
        StoreView {
            selection: SelectionState {
                cell: if cell_fits(self.snapshot, cell) {
                    cell
                } else {
                    None
                },
                pressed: self.selection.pressed,
            },
            ..self
        }
    }

    /// The addresses of the selected sender and receiver.
    pub open spec fn selected_pair(self) -> Option<(PortAddress, PortAddress)> {
        match self.selection.cell {
            Some(c) => Some(
                (
                    self.snapshot.senders[c.sender_index as int].address,
                    self.snapshot.receivers[c.receiver_index as int].address,
                ),
            ),
            None => None,
        }
    }
}

/// Holder of the current snapshot and the selection. One lock around the whole
/// value serializes the synchronizer, the interactive thread and the readers.
#[derive(Debug)]
pub struct SharedGraphStore {
    snapshot: GraphSnapshot,
    selection: SelectionState,
    stale: bool,
}

impl View for SharedGraphStore {
    type V = StoreView;

    closed spec fn view(&self) -> StoreView {
        StoreView { snapshot: self.snapshot@, selection: self.selection, stale: self.stale }
    }
}

impl SharedGraphStore {
    /// Holds of every store there is.
    #[verifier::type_invariant]
    pub open spec fn well_formed(&self) -> bool {
        self@.wf()
    }

    /// A store with the empty snapshot and nothing selected.
    pub fn new() -> (store: SharedGraphStore)
        ensures
            store@ == (StoreView {
                snapshot: GraphView::empty(),
                selection: SelectionState { cell: None, pressed: false },
                stale: false,
            }),
            store@.wf(),
    {
        SharedGraphStore {
            snapshot: GraphSnapshot::new(),
            selection: SelectionState { cell: None, pressed: false },
            stale: false,
        }
    }

    /// Swaps in a new snapshot. A selected cell that lies outside the new
    /// matrix is cleared; the pressed flag stays; the store is fresh again.
    pub fn publish(&mut self, snapshot: GraphSnapshot)
        ensures
            final(self)@ == old(self)@.published(snapshot@),
            final(self)@.wf(),
    {
        proof {
            use_type_invariant(&*self);
        }
        let senders = snapshot.senders().len();
        let receivers = snapshot.receivers().len();
        let cell = match self.selection.cell {
            Some(c) => if c.sender_index < senders && c.receiver_index < receivers {
                Some(c)
            } else {
                None
            },
            None => None,
        };
        self.selection = SelectionState { cell, pressed: self.selection.pressed };
        self.snapshot = snapshot;
        self.stale = false;
    }

    /// Marks the snapshot as stale: the synchronizer has stopped and nothing
    /// will replace it.
    pub fn mark_stale(&mut self)
        ensures
            final(self)@ == (StoreView { stale: true, ..old(self)@ }),
            final(self)@.wf(),
    {
        proof {
            use_type_invariant(&*self);
            use_type_invariant(&self.snapshot);
        }
        self.stale = true;
    }

    /// Whether the synchronizer has stopped since the last publish.
    pub fn is_stale(&self) -> (stale: bool)
        ensures
            stale == self@.stale,
    {
        self.stale
    }

    /// The current snapshot.
    pub fn snapshot(&self) -> (snapshot: &GraphSnapshot)
        ensures
            snapshot@ == self@.snapshot,
            self@.wf(),
    {
        proof {
            use_type_invariant(self);
        }
        proof {
            use_type_invariant(&self.snapshot);
        }
        &self.snapshot
    }

    /// The current selection.
    pub fn selection(&self) -> (selection: SelectionState)
        ensures
            selection == self@.selection,
            cell_fits(self@.snapshot, selection.cell),
    {
        proof {
            use_type_invariant(self);
        }
        self.selection
    }

    /// Moves the selection to `cell`, or to nothing where `cell` lies outside
    /// the matrix. Tells whether the selected cell changed.
    pub fn point_at(&mut self, cell: Option<MatrixCell>) -> (changed: bool)
        ensures
            final(self)@ == old(self)@.pointed_at(cell),
            final(self)@.wf(),
            changed == (final(self)@.selection.cell != old(self)@.selection.cell),
    {
        proof {
            use_type_invariant(&*self);
            use_type_invariant(&self.snapshot);
        }
        let fitted = match cell {
            Some(c) => if c.sender_index < self.snapshot.senders().len() && c.receiver_index
                < self.snapshot.receivers().len() {
                Some(c)
            } else {
                None
            },
            None => None,
        };
        let changed = fitted != self.selection.cell;
        self.selection = SelectionState { cell: fitted, pressed: self.selection.pressed };
        changed
    }

    /// Records whether the button is held.
    pub fn set_pressed(&mut self, pressed: bool)
        ensures
            final(self)@ == (StoreView {
                selection: SelectionState { cell: old(self)@.selection.cell, pressed },
                ..old(self)@
            }),
            final(self)@.wf(),
    {
        proof {
            use_type_invariant(&*self);
            use_type_invariant(&self.snapshot);
        }
        self.selection = SelectionState { cell: self.selection.cell, pressed };
    }

    /// The addresses that the selected cell stands for.
    pub fn selected_pair(&self) -> (pair: Option<(PortAddress, PortAddress)>)
        ensures
            pair == self@.selected_pair(),
    {
        proof {
            use_type_invariant(self);
        }
        match self.selection.cell {
            Some(c) => {
                let senders = self.snapshot.senders();
                let receivers = self.snapshot.receivers();
                Some((senders[c.sender_index].address, receivers[c.receiver_index].address))
            },
            None => None,
        }
    }

    /// Swaps in the optimistic copy of the snapshot with `edge` added.
    pub fn note_connected(&mut self, edge: Edge)
        ensures
            final(self)@ == (StoreView {
                snapshot: old(self)@.snapshot.with_edge(edge),
                ..old(self)@
            }),
            final(self)@.wf(),
    {
        proof {
            use_type_invariant(&*self);
        }
        let copy = self.snapshot.with_edge(edge);
        self.snapshot = copy;
    }

    /// Swaps in the optimistic copy of the snapshot with `edge` dropped.
    pub fn note_disconnected(&mut self, edge: Edge)
        ensures
            final(self)@ == (StoreView {
                snapshot: old(self)@.snapshot.without_edge(edge),
                ..old(self)@
            }),
            final(self)@.wf(),
    {
        proof {
            use_type_invariant(&*self);
        }
        let copy = self.snapshot.without_edge(edge);
        self.snapshot = copy;
    }
}

} // verus!
