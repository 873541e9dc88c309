//! The state of the interactive side of the application, and what it does
//! with the events of the user interface.

use vstd::prelude::*;
use vstd::utf8::encode_utf8;

use crate::config::AppConfig;
use crate::graphics::PixelPosition;
use crate::layout::WindowSize;
use crate::snapshot::{records_view, GraphView, PortRecord, PortRecordView};
use crate::store::{MatrixCell, SelectionState, SharedGraphStore, StoreView};
use crate::text::{
    receiver_label, receiver_label_string, sender_label, sender_label_string, texts,
};
use crate::theme::Theme;

verus! {

/// The labelling of sending ports.
pub open spec fn as_sender(show_addresses: bool) -> spec_fn(PortRecordView) -> Seq<char> {
    |p: PortRecordView| sender_label(p.display_name, p.address, show_addresses)
}

/// The labelling of receiving ports.
pub open spec fn as_receiver(show_addresses: bool) -> spec_fn(PortRecordView) -> Seq<char> {
    |p: PortRecordView| receiver_label(p.display_name, p.address, show_addresses)
}

/// The labels of the columns: one for each sending port.
pub open spec fn sender_labels(graph: GraphView, show_addresses: bool) -> Seq<Seq<char>> {
    graph.senders.map_values(as_sender(show_addresses))
}

/// The labels of the rows: one for each receiving port.
pub open spec fn receiver_labels(graph: GraphView, show_addresses: bool) -> Seq<Seq<char>> {
    graph.receivers.map_values(as_receiver(show_addresses))
}

/// The length by which a label is measured: the number of bytes that it
/// takes in UTF-8.
pub open spec fn measure(label: Seq<char>) -> usize {
    encode_utf8(label).len() as usize
}

/// The measure of the longest of the labels; 0 where there is none.
pub open spec fn longest(labels: Seq<Seq<char>>) -> usize
    decreases labels.len(),
{
    if labels.len() == 0 {
        0
    } else if longest(labels.drop_last()) >= measure(labels.last()) {
        longest(labels.drop_last())
    } else {
        measure(labels.last())
    }
}

/// The measure of the longest of the strings.
pub fn longest_of(labels: &Vec<String>) -> (length: usize)
    ensures
        length == longest(texts(labels@)),
{
    let mut length: usize = 0;
    let mut i: usize = 0;
    assert(texts(labels@).take(0) =~= Seq::empty());
    while i < labels.len()
        invariant
            i <= labels.len(),
            length == longest(texts(labels@).take(i as int)),
        decreases labels.len() - i,
    {
        let this = labels[i].as_str().len();
        proof {
            let all = texts(labels@);
            assert(all.take(i + 1).drop_last() =~= all.take(i as int));
            assert(all.take(i + 1).last() == labels[i as int]@);
        }
        if this > length {
            length = this;
        }
        i += 1;
    }
    assert(texts(labels@).take(labels.len() as int) =~= texts(labels@));
    length
}

/// The state of the interactive side: the shared store, where the pointer
/// was last seen, and the settings.
#[derive(Debug)]
pub struct AppState {
    pub store: SharedGraphStore,
    pub mouse_last_position: Option<PixelPosition>,
    pub config: AppConfig,
}

/// Mathematical value of an [`AppState`].
pub struct AppView {
    pub store: StoreView,
    pub pointer: Option<PixelPosition>,
    pub show_addresses: bool,
    pub theme_manifest_path: Seq<char>,
}

impl View for AppState {
    type V = AppView;

    open spec fn view(&self) -> AppView {
        AppView {
            store: self.store@,
            pointer: self.mouse_last_position,
            show_addresses: self.config.show_addresses,
            theme_manifest_path: self.config.theme_manifest_path@,
        }
    }
}

/// What the user interface reports.
#[derive(Copy, Clone, Debug, PartialEq, Eq, Structural)]
pub enum UiEvent {
    /// The window was closed, or the key that quits was pressed.
    Quit,
    /// The pointer moved to a place of the window.
    PointerMoved(PixelPosition),
    /// The left mouse button went down.
    ButtonPressed(PixelPosition),
    /// The left mouse button came up.
    ButtonReleased(PixelPosition),
    /// The notifier signalled a new snapshot.
    GraphChanged,
    /// The key that shows or hides addresses was pressed.
    AddressesKey,
    /// The key that moves on to the next theme was pressed.
    NextThemeKey,
    /// The key that loads the theme again was pressed.
    ReloadThemeKey,
}

/// What the caller is to do after an event, in the order of the fields.
#[derive(Copy, Clone, Debug, PartialEq, Eq, Structural)]
pub struct UiReaction {
    /// Leave the event loop.
    pub quit: bool,
    /// Pick the theme that follows the current one.
    pub next_theme: bool,
    /// Write the settings to disk.
    pub save_config: bool,
    /// Load the theme that the settings name.
    pub load_theme: bool,
    /// Fit the window to the matrix.
    pub resize: bool,
    /// Draw the window.
    pub redraw: bool,
    /// Toggle the connection of the selected cell.
    pub toggle: bool,
}

impl UiReaction {
    /// Nothing to do.
    pub open spec fn idle() -> UiReaction {
        UiReaction {
            quit: false,
            next_theme: false,
            save_config: false,
            load_theme: false,
            resize: false,
            redraw: false,
            toggle: false,
        }
    }
}

impl AppView {
    /// The number of columns of the matrix.
    pub open spec fn columns(self) -> int {
        self.store.snapshot.senders.len() as int
    }

    /// The number of rows of the matrix.
    pub open spec fn rows(self) -> int {
        self.store.snapshot.receivers.len() as int
    }

    /// The button under a place of the window.
    pub open spec fn control_under(self, theme: Theme, position: PixelPosition) -> Option<
        MatrixCell,
    > {
        theme.button_at(self.columns(), self.rows(), position.x as int, position.y as int)
    }

    /// The state with the selection moved to the button under `position`.
    pub open spec fn pointed(self, theme: Theme, position: PixelPosition) -> AppView {
        AppView { store: self.store.pointed_at(self.control_under(theme, position)), ..self }
    }

    /// The state with the pressed flag set as given.
    pub open spec fn pressed(self, pressed: bool) -> AppView {
        AppView {
            store: StoreView {
                selection: SelectionState { cell: self.store.selection.cell, pressed },
                ..self.store
            },
            ..self
        }
    }

    /// The state after fitting the window: the selection follows the place
    /// where the pointer was last seen, if it was seen.
    pub open spec fn refitted(self, theme: Theme) -> AppView {
        match self.pointer {
            Some(position) => self.pointed(theme, position),
            None => self,
        }
    }

    /// The size of the window that fits the matrix and its labels.
    pub open spec fn window_size(self, theme: Theme) -> Option<WindowSize> {
        theme.window_size_for(
            self.columns(),
            self.rows(),
            longest(receiver_labels(self.store.snapshot, self.show_addresses)) as int,
            longest(sender_labels(self.store.snapshot, self.show_addresses)) as int,
        )
    }

    /// The state after an event.
    ///
    /// A move of the pointer is remembered and moves the selection. A press
    /// on a selected button holds it down. A release after such a press lets
    /// go and moves the selection to where the pointer is. The key for
    /// addresses flips the setting. Nothing else changes the state.
    pub open spec fn after(self, theme: Theme, event: UiEvent) -> AppView {
        match event {
            UiEvent::PointerMoved(position) => AppView {
                pointer: Some(position),
                ..self
            }.pointed(theme, position),
            UiEvent::ButtonPressed(position) => if self.store.selection.cell is Some {
                self.pressed(true).pointed(theme, position)
            } else {
                self
            },
            UiEvent::ButtonReleased(position) => if self.store.selection.pressed {
                self.pressed(false).pointed(theme, position)
            } else {
                self
            },
            UiEvent::AddressesKey => AppView { show_addresses: !self.show_addresses, ..self },
            _ => self,
        }
    }

    /// What the caller is to do after an event.
    ///
    /// A move of the pointer asks for a redraw where it changed the
    /// selection. A press on a selected button and a release after it ask
    /// for a redraw; the release also asks for the toggle of the button that
    /// is selected then. A new snapshot asks for a resize and a redraw. The
    /// keys ask for what they stand for, and then for a resize and a redraw.
    pub open spec fn reaction(self, theme: Theme, event: UiEvent) -> UiReaction {
        match event {
            UiEvent::Quit => UiReaction { quit: true, ..UiReaction::idle() },
            UiEvent::PointerMoved(position) => UiReaction {
                redraw: self.after(theme, event).store.selection.cell != self.store.selection.cell,
                ..UiReaction::idle()
            },
            UiEvent::ButtonPressed(position) => UiReaction {
                redraw: self.store.selection.cell is Some,
                ..UiReaction::idle()
            },
            UiEvent::ButtonReleased(position) => UiReaction {
                redraw: self.store.selection.pressed,
                toggle: self.store.selection.pressed && self.after(
                    theme,
                    event,
                ).store.selection.cell is Some,
                ..UiReaction::idle()
            },
            UiEvent::GraphChanged => UiReaction { resize: true, redraw: true, ..UiReaction::idle() },
            UiEvent::AddressesKey => UiReaction {
                save_config: true,
                resize: true,
                redraw: true,
                ..UiReaction::idle()
            },
            UiEvent::NextThemeKey => UiReaction {
                next_theme: true,
                save_config: true,
                load_theme: true,
                resize: true,
                redraw: true,
                ..UiReaction::idle()
            },
            UiEvent::ReloadThemeKey => UiReaction {
                load_theme: true,
                resize: true,
                redraw: true,
                ..UiReaction::idle()
            },
        }
    }
}

impl AppState {
    /// The state at the start: an empty store, a pointer not yet seen, and
    /// the given settings.
    pub fn new(config: AppConfig) -> (state: AppState)
        ensures
            state.config == config,
            state.mouse_last_position is None,
            state.store@ == (StoreView {
                snapshot: GraphView::empty(),
                selection: SelectionState { cell: None, pressed: false },
                stale: false,
            }),
    {
        AppState { store: SharedGraphStore::new(), mouse_last_position: None, config }
    }

    /// The labels of the columns: the names of the sending ports, followed
    /// by their addresses where addresses are shown.
    pub fn input_names(&self) -> (names: Vec<String>)
        ensures
            texts(names@) == sender_labels(self@.store.snapshot, self@.show_addresses),
    {
        let ports = self.store.snapshot().senders();
        let show = self.config.show_addresses;
        let mut names: Vec<String> = Vec::new();
        let mut i: usize = 0;
        while i < ports.len()
            invariant
                i <= ports.len(),
                texts(names@) =~= records_view(ports@).take(i as int).map_values(as_sender(show)),
            decreases ports.len() - i,
        {
            let port = &ports[i];
            let ghost before = names@;
            names.push(sender_label_string(&port.display_name, port.address, show));
            proof {
                let shown = records_view(ports@).take(i + 1).map_values(as_sender(show));
                assert(records_view(ports@)[i as int] == port@);
                assert(records_view(ports@).len() == ports@.len());
                assert(texts(before).len() == before.len());
                assert(before.len() == i);
                assert(names@.len() == i + 1);
                assert(texts(names@).len() == shown.len());
                assert forall|k: int| 0 <= k < shown.len() implies texts(names@)[k] == shown[k] by {
                    if k < i {
                        assert(texts(before)[k] == records_view(ports@).take(i as int).map_values(
                            as_sender(show),
                        )[k]);
                        assert(names@[k] == before[k]);
                    }
                }
            }
            i += 1;
        }
        assert(records_view(ports@).take(ports.len() as int) =~= records_view(ports@));
        names
    }

    /// The labels of the rows: the names of the receiving ports, preceded by
    /// their addresses where addresses are shown.
    pub fn output_names(&self) -> (names: Vec<String>)
        ensures
            texts(names@) == receiver_labels(self@.store.snapshot, self@.show_addresses),
    {
        let ports = self.store.snapshot().receivers();
        let show = self.config.show_addresses;
        let mut names: Vec<String> = Vec::new();
        let mut i: usize = 0;
        while i < ports.len()
            invariant
                i <= ports.len(),
                texts(names@) =~= records_view(ports@).take(i as int).map_values(as_receiver(show)),
            decreases ports.len() - i,
        {
            let port = &ports[i];
            let ghost before = names@;
            names.push(receiver_label_string(&port.display_name, port.address, show));
            proof {
                let shown = records_view(ports@).take(i + 1).map_values(as_receiver(show));
                assert(records_view(ports@)[i as int] == port@);
                assert(records_view(ports@).len() == ports@.len());
                assert(texts(before).len() == before.len());
                assert(before.len() == i);
                assert(names@.len() == i + 1);
                assert(texts(names@).len() == shown.len());
                assert forall|k: int| 0 <= k < shown.len() implies texts(names@)[k] == shown[k] by {
                    if k < i {
                        assert(texts(before)[k] == records_view(ports@).take(i as int).map_values(
                            as_receiver(show),
                        )[k]);
                        assert(names@[k] == before[k]);
                    }
                }
            }
            i += 1;
        }
        assert(records_view(ports@).take(ports.len() as int) =~= records_view(ports@));
        names
    }

    /// The button under a place of the window.
    pub fn control_under_position(&self, theme: &Theme, position: PixelPosition) -> (cell: Option<
        MatrixCell,
    >)
        ensures
            cell == self@.control_under(*theme, position),
    {
        let snapshot = self.store.snapshot();
        theme.button_under(snapshot.senders().len(), snapshot.receivers().len(), position)
    }

    /// Moves the selection to the button under `position` and tells whether
    /// the window is to be drawn again: where the selection changed, and
    /// where the caller forces it.
    pub fn update_selection(&mut self, theme: &Theme, position: PixelPosition, force_redraw: bool)
        -> (redraw: bool)
        ensures
            final(self)@ == old(self)@.pointed(*theme, position),
            redraw == (force_redraw || final(self)@.store.selection.cell
                != old(self)@.store.selection.cell),
    {
        let cell = self.control_under_position(theme, position);
        let changed = self.store.point_at(cell);
        changed || force_redraw
    }

    /// Fits the window to the matrix: gives the size that the window is to
    /// have, `None` where the window system cannot take it, and lets the
    /// selection follow the place where the pointer was last seen.
    pub fn resize_window(&mut self, theme: &Theme) -> (size: Option<WindowSize>)
        ensures
            size == old(self)@.window_size(*theme),
            final(self)@ == old(self)@.refitted(*theme),
    {
        let columns = self.store.snapshot().senders().len();
        let rows = self.store.snapshot().receivers().len();
        let longest_row_label = longest_of(&self.output_names());
        let longest_column_label = longest_of(&self.input_names());
        let size = theme.window_size(columns, rows, longest_row_label, longest_column_label);
        match self.mouse_last_position {
            Some(position) => {
                self.update_selection(theme, position, false);
            },
            None => {},
        }
        size
    }

    /// Takes an event of the user interface and says what to do about it.
    pub fn handle(&mut self, theme: &Theme, event: UiEvent) -> (reaction: UiReaction)
        ensures
            final(self)@ == old(self)@.after(*theme, event),
            reaction == old(self)@.reaction(*theme, event),
    {
        let idle = UiReaction {
            quit: false,
            next_theme: false,
            save_config: false,
            load_theme: false,
            resize: false,
            redraw: false,
            toggle: false,
        };
        match event {
            UiEvent::Quit => UiReaction { quit: true, ..idle },
            UiEvent::PointerMoved(position) => {
                self.mouse_last_position = Some(position);
                let redraw = self.update_selection(theme, position, false);
                UiReaction { redraw, ..idle }
            },
            UiEvent::ButtonPressed(position) => {
                if self.store.selection().cell.is_some() {
                    self.store.set_pressed(true);
                    let redraw = self.update_selection(theme, position, true);
                    UiReaction { redraw, ..idle }
                } else {
                    idle
                }
            },
            UiEvent::ButtonReleased(position) => {
                if self.store.selection().pressed {
                    self.store.set_pressed(false);
                    let redraw = self.update_selection(theme, position, true);
                    let toggle = self.store.selection().cell.is_some();
                    UiReaction { redraw, toggle, ..idle }
                } else {
                    idle
                }
            },
            UiEvent::GraphChanged => UiReaction { resize: true, redraw: true, ..idle },
            UiEvent::AddressesKey => {
                self.config.toggle_addresses();
                UiReaction { save_config: true, resize: true, redraw: true, ..idle }
            },
            UiEvent::NextThemeKey => UiReaction {
                next_theme: true,
                save_config: true,
                load_theme: true,
                resize: true,
                redraw: true,
                ..idle
            },
            UiEvent::ReloadThemeKey => UiReaction {
                load_theme: true,
                resize: true,
                redraw: true,
                ..idle
            },
        }
    }
}

} // verus!
