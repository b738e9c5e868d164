//! The session: a selection state driven by the messages of a front end.
//!
//! The front end owns the window and the process.  It hands each message to
//! [`Tabsel::update`], which changes the selection state and answers with the
//! one [`Effect`] the front end is to carry out.

use vstd::prelude::*;

use crate::data::output::{cell_text, column_text, format_cell, format_column, format_row, row_text};
use crate::data::{OutputFormat, SelectionMode, Table};
use state::{lemma_visible_indices, State, StateView};

pub mod state;

verus! {

/// The keys a session reacts to.
#[derive(Debug, Clone, Copy, PartialEq, Eq, Structural)]
pub enum Key {
    Tab,
    ArrowUp,
    ArrowDown,
    ArrowLeft,
    ArrowRight,
    Enter,
    Escape,
    Other,
}

/// The modifier keys held while a key was pressed.
#[derive(Debug, Clone, Copy, PartialEq, Eq, Structural)]
pub struct Modifiers {
    pub shift: bool,
}

/// What the front end reports to the session.
#[derive(Debug, Clone)]
pub enum Message {
    /// The window is up.
    Loading,
    /// The row at this position among the filtered rows was clicked.
    Click(usize),
    /// The filter text was edited and now reads so.
    InputChanged(String),
    /// A key was pressed.
    KeyboardEvent(Key, Modifiers),
    /// The window lost the focus.
    Unfocused,
}

/// The mathematical value of a [`Message`].
pub enum MessageView {
    Loading,
    Click(nat),
    InputChanged(Seq<char>),
    KeyboardEvent(Key, Modifiers),
    Unfocused,
}

impl View for Message {
    type V = MessageView;

    open spec fn view(&self) -> MessageView {
        match self {
            Message::Loading => MessageView::Loading,
            Message::Click(pos) => MessageView::Click(*pos as nat),
            Message::InputChanged(text) => MessageView::InputChanged(text@),
            Message::KeyboardEvent(key, modifiers) => MessageView::KeyboardEvent(
                *key,
                *modifiers,
            ),
            Message::Unfocused => MessageView::Unfocused,
        }
    }
}

/// Where the list of rows is to be scrolled: to its start, or so far down
/// that row `position` of `last + 1` rows is in reach, as the fraction
/// `position / last` of the way.
#[derive(Debug, Clone, Copy, PartialEq, Eq, Structural)]
pub enum Scroll {
    Start,
    Fraction { position: usize, last: usize },
}

/// What the front end is to do after a message.
#[derive(Debug, Clone, PartialEq, Eq)]
pub enum Effect {
    /// Nothing.
    Idle,
    /// Give the filter input the focus.
    FocusInput,
    /// Scroll the list of rows.
    Snap(Scroll),
    /// Write this text as the result of the session and end it in success.
    Emit(String),
    /// End the session with this exit status and no output.
    Exit(i32),
}

/// The mathematical value of an [`Effect`].
pub enum EffectView {
    Idle,
    FocusInput,
    Snap(Scroll),
    Emit(Seq<char>),
    Exit(int),
}

impl View for Effect {
    type V = EffectView;

    open spec fn view(&self) -> EffectView {
        match self {
            Effect::Idle => EffectView::Idle,
            Effect::FocusInput => EffectView::FocusInput,
            Effect::Snap(scroll) => EffectView::Snap(*scroll),
            Effect::Emit(text) => EffectView::Emit(text@),
            Effect::Exit(code) => EffectView::Exit(*code as int),
        }
    }
}

/// What a session is started with.
pub struct TabselFlags {
    pub table: Table,
    pub available_modes: Vec<SelectionMode>,
    pub filter_enabled: bool,
    pub output_format: OutputFormat,
    /// Whether the session ends when its window loses the focus.
    pub exit_unfocused: bool,
}

/// A session: the selection state over one table, and what was configured.
#[derive(Debug)]
pub struct Tabsel {
    state: State,
    exit_unfocused: bool,
}

/// The mathematical value of a [`Tabsel`].
pub struct TabselView {
    pub state: StateView,
    pub exit_unfocused: bool,
}

impl StateView {
    /// The scroll that brings the selected row in reach.
    pub open spec fn snap(self) -> EffectView {
        if self.filtered_indices.len() <= 1 {
            EffectView::Snap(Scroll::Start)
        } else {
            EffectView::Snap(
                Scroll::Fraction {
                    position: self.selected_row as usize,
                    last: (self.filtered_indices.len() - 1) as usize,
                },
            )
        }
    }

    /// The end of the session on a confirmation: the text of what the
    /// cursor selects in the active mode, or a failure without output where
    /// no row or no column is to be had.
    pub open spec fn on_confirm(self) -> EffectView {
        match self.confirm() {
            Ok(c) => EffectView::Emit(
                match c.mode {
                    SelectionMode::Row => row_text(self.table, self.output_format, c.row as int),
                    SelectionMode::Column => column_text(
                        self.table,
                        self.output_format,
                        c.col as nat,
                    ),
                    SelectionMode::Cell => cell_text(
                        self.table,
                        self.output_format,
                        c.row as int,
                        c.col as nat,
                    ),
                },
            ),
            Err(_) => EffectView::Exit(1),
        }
    }

    /// The state and the effect after a key was pressed.
    ///
    /// Tab with shift cycles the mode.  The vertical arrows move the row
    /// cursor where rows are selected, the horizontal arrows the column
    /// cursor where columns are.  Enter confirms, Escape gives up.
    pub open spec fn handle_input(self, key: Key, modifiers: Modifiers) -> (StateView, EffectView) {
        let rows = self.active_mode != SelectionMode::Column;
        let cols = self.active_mode != SelectionMode::Row;
        match key {
            Key::Tab if modifiers.shift => (self.cycle_mode(), EffectView::Idle),
            Key::ArrowUp if rows => (self.move_row(-1), self.move_row(-1).snap()),
            Key::ArrowDown if rows => (self.move_row(1), self.move_row(1).snap()),
            Key::ArrowLeft if cols => (self.move_col(-1), EffectView::Idle),
            Key::ArrowRight if cols => (self.move_col(1), EffectView::Idle),
            Key::Enter => (self, self.on_confirm()),
            Key::Escape => (self, EffectView::Exit(1)),
            _ => (self, EffectView::Idle),
        }
    }
}

impl TabselView {
    /// The session and the effect after a message.
    pub open spec fn update(self, message: MessageView) -> (TabselView, EffectView) {
        match message {
            MessageView::Loading => (
                self,
                if self.state.filter_enabled {
                    EffectView::FocusInput
                } else {
                    EffectView::Idle
                },
            ),
            MessageView::InputChanged(text) => (
                TabselView { state: self.state.set_filter(text), ..self },
                self.state.set_filter(text).snap(),
            ),
            MessageView::KeyboardEvent(key, modifiers) => (
                TabselView { state: self.state.handle_input(key, modifiers).0, ..self },
                self.state.handle_input(key, modifiers).1,
            ),
            MessageView::Click(pos) => (
                TabselView { state: self.state.select_row(pos), ..self },
                self.state.select_row(pos).on_confirm(),
            ),
            MessageView::Unfocused => (
                self,
                if self.exit_unfocused {
                    EffectView::Exit(0)
                } else {
                    EffectView::Idle
                },
            ),
        }
    }
}

impl View for Tabsel {
    type V = TabselView;

    closed spec fn view(&self) -> TabselView {
        TabselView { state: self.state@, exit_unfocused: self.exit_unfocused }
    }
}

impl Tabsel {
    /// The state of a session is well-formed at all times.
    #[verifier::type_invariant]
    spec fn inv(self) -> bool {
        self.state@.wf()
    }

    /// Starts a session: the cursor at the first row and column, the first
    /// of the modes active, no filter, every row and every column shown.
    pub fn new(flags: TabselFlags) -> (tabsel: Tabsel)
        requires
            flags.available_modes.len() > 0,
        ensures
            tabsel@ == (TabselView {
                state: StateView::initial(
                    flags.table@,
                    flags.available_modes@,
                    flags.filter_enabled,
                    flags.output_format,
                ),
                exit_unfocused: flags.exit_unfocused,
            }),
    {
        Tabsel {
            state: State::new(
                flags.table,
                flags.available_modes,
                flags.filter_enabled,
                flags.output_format,
            ),
            exit_unfocused: flags.exit_unfocused,
        }
    }

    /// The selection state, which is well-formed at all times.
    pub fn state(&self) -> (state: &State)
        ensures
            state@ == self@.state,
            state@.wf(),
    {
        proof {
            use_type_invariant(self);
        }
        &self.state
    }

    /// Takes the selection state out to work on it, and leaves the state
    /// over the empty table in its place.
    fn take_state(&mut self) -> (state: State)
        ensures
            state == old(self).state,
            final(self).exit_unfocused == old(self).exit_unfocused,
    {
        let mut state = State::default();
        proof {
            state::lemma_empty_filter_shows_all(state@.table.rows, 0);
        }
        std::mem::swap(&mut state, &mut self.state);
        state
    }

    /// Takes `message` in and says what the front end is to do.
    pub fn update(&mut self, message: Message) -> (effect: Effect)
        ensures
            (final(self)@, effect@) == old(self)@.update(message@),
    {
        proof {
            use_type_invariant(&*self);
        }
        match message {
            Message::Loading => {
                if self.state.filter_enabled {
                    Effect::FocusInput
                } else {
                    Effect::Idle
                }
            },
            Message::InputChanged(value) => {
                let mut state = self.take_state();
                state.set_filter(value);
                self.state = state;
                self.snap()
            },
            Message::KeyboardEvent(key, modifiers) => self.handle_input(key, modifiers),
            Message::Click(filtered_pos) => {
                let mut state = self.take_state();
                state.select_row(filtered_pos);
                self.state = state;
                self.on_confirm()
            },
            Message::Unfocused => {
                if self.exit_unfocused {
                    Effect::Exit(0)
                } else {
                    Effect::Idle
                }
            },
        }
    }

    /// Reacts to a key.
    pub fn handle_input(&mut self, key_code: Key, modifiers: Modifiers) -> (effect: Effect)
        ensures
            final(self)@.exit_unfocused == old(self)@.exit_unfocused,
            (final(self)@.state, effect@) == old(self)@.state.handle_input(key_code, modifiers),
    {
        proof {
            use_type_invariant(&*self);
        }
        // Shift+Tab cycles the selection mode.
        if key_code == Key::Tab && modifiers.shift {
            let mut state = self.take_state();
            state.cycle_mode();
            self.state = state;
            return Effect::Idle;
        }
        match key_code {
            Key::ArrowUp => match self.state.active_mode {
                SelectionMode::Row | SelectionMode::Cell => self.dec_selected_row(),
                SelectionMode::Column => Effect::Idle,
            },
            Key::ArrowDown => match self.state.active_mode {
                SelectionMode::Row | SelectionMode::Cell => self.inc_selected_row(),
                SelectionMode::Column => Effect::Idle,
            },
            Key::ArrowLeft => match self.state.active_mode {
                SelectionMode::Column | SelectionMode::Cell => self.dec_selected_col(),
                SelectionMode::Row => Effect::Idle,
            },
            Key::ArrowRight => match self.state.active_mode {
                SelectionMode::Column | SelectionMode::Cell => self.inc_selected_col(),
                SelectionMode::Row => Effect::Idle,
            },
            Key::Enter => self.on_confirm(),
            Key::Escape => Effect::Exit(1),
            _ => Effect::Idle,
        }
    }

    /// Ends the session on a confirmation.
    pub fn on_confirm(&self) -> (effect: Effect)
        ensures
            effect@ == self@.state.on_confirm(),
    {
        proof {
            use_type_invariant(self);
            assert(self.state@.table.rows.len() == self.state.table.rows.len());
            lemma_visible_indices(self.state@.table.rows, self.state@.filter_text);
        }
        let fmt = self.state.output_format;
        let table = &self.state.table;
        match self.state.confirm() {
            Ok(c) => {
                let result = match c.mode {
                    SelectionMode::Row => format_row(table, fmt, c.row),
                    SelectionMode::Column => format_column(table, fmt, c.col),
                    SelectionMode::Cell => format_cell(table, fmt, c.row, c.col),
                };
                Effect::Emit(result)
            },
            Err(_) => Effect::Exit(1),
        }
    }

    /// Moves the row cursor one row down.
    pub fn inc_selected_row(&mut self) -> (effect: Effect)
        ensures
            final(self)@.exit_unfocused == old(self)@.exit_unfocused,
            final(self)@.state == old(self)@.state.move_row(1),
            effect@ == final(self)@.state.snap(),
    {
        proof {
            use_type_invariant(&*self);
        }
        let mut state = self.take_state();
        state.move_row(1);
        self.state = state;
        self.snap()
    }

    /// Moves the row cursor one row up.
    pub fn dec_selected_row(&mut self) -> (effect: Effect)
        ensures
            final(self)@.exit_unfocused == old(self)@.exit_unfocused,
            final(self)@.state == old(self)@.state.move_row(-1),
            effect@ == final(self)@.state.snap(),
    {
        proof {
            use_type_invariant(&*self);
        }
        let mut state = self.take_state();
        state.move_row(-1);
        self.state = state;
        self.snap()
    }

    /// Moves the column cursor one column to the right.
    pub fn inc_selected_col(&mut self) -> (effect: Effect)
        ensures
            final(self)@.exit_unfocused == old(self)@.exit_unfocused,
            final(self)@.state == old(self)@.state.move_col(1),
            effect@ == EffectView::Idle,
    {
        proof {
            use_type_invariant(&*self);
        }
        let mut state = self.take_state();
        state.move_col(1);
        self.state = state;
        Effect::Idle
    }

    /// Moves the column cursor one column to the left.
    pub fn dec_selected_col(&mut self) -> (effect: Effect)
        ensures
            final(self)@.exit_unfocused == old(self)@.exit_unfocused,
            final(self)@.state == old(self)@.state.move_col(-1),
            effect@ == EffectView::Idle,
    {
        proof {
            use_type_invariant(&*self);
        }
        let mut state = self.take_state();
        state.move_col(-1);
        self.state = state;
        Effect::Idle
    }

    /// The scroll that brings the selected row in reach.
    pub fn snap(&self) -> (effect: Effect)
        ensures
            effect@ == self@.state.snap(),
    {
        let total = self.state.visible_rows();
        if total <= 1 {
            Effect::Snap(Scroll::Start)
        } else {
            Effect::Snap(Scroll::Fraction { position: self.state.selected_row, last: total - 1 })
        }
    }
}

/// Where no row passes the filter, a confirmation ends the session in
/// failure and writes nothing, in every mode and whatever the cursors.
pub proof fn lemma_no_rows_no_output(s: StateView)
    requires
        s.filtered_indices.len() == 0,
    ensures
        s.on_confirm() == EffectView::Exit(1),
        s.handle_input(Key::Enter, Modifiers { shift: false }).1 == EffectView::Exit(1),
        forall|pos: nat| #[trigger] s.select_row(pos).on_confirm() == EffectView::Exit(1),
{
}

/// A session that only takes messages in stays well-formed.
pub proof fn lemma_update_keeps_wf(t: TabselView, message: MessageView)
    requires
        t.state.wf(),
    ensures
        t.update(message).0.state.wf(),
        t.update(message).0.exit_unfocused == t.exit_unfocused,
        t.update(message).0.state.table == t.state.table,
{
}

} // verus!
