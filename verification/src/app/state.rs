//! The selection state and its transitions: cursor, mode, filter and the
//! two index arrays that map what is shown to what is stored.

use vstd::prelude::*;

use crate::data::text::{contains, lowercase, occurs_in, to_lowercase};
use crate::data::{OutputFormat, SelectionMode, Table, TableView};

verus! {

/// Cursor, mode, filter and visibility over one table.
///
/// `filtered_indices` maps a position among the rows that pass the filter to
/// a row of the table, and `visible_columns` maps a position among the
/// columns that are shown to a column of the table.
#[derive(Debug)]
pub struct State {
    pub selected_row: usize,
    pub selected_col: usize,
    pub active_mode: SelectionMode,
    pub available_modes: Vec<SelectionMode>,
    pub table: Table,
    pub filter_enabled: bool,
    pub filter_text: String,
    pub filtered_indices: Vec<usize>,
    pub output_format: OutputFormat,
    pub visible_columns: Vec<usize>,
}

/// The mathematical value of a [`State`].
pub struct StateView {
    pub selected_row: nat,
    pub selected_col: nat,
    pub active_mode: SelectionMode,
    pub available_modes: Seq<SelectionMode>,
    pub table: TableView,
    pub filter_enabled: bool,
    pub filter_text: Seq<char>,
    pub filtered_indices: Seq<usize>,
    pub output_format: OutputFormat,
    pub visible_columns: Seq<usize>,
}

impl View for State {
    type V = StateView;

    open spec fn view(&self) -> StateView {
        StateView {
            selected_row: self.selected_row as nat,
            selected_col: self.selected_col as nat,
            active_mode: self.active_mode,
            available_modes: self.available_modes@,
            table: self.table@,
            filter_enabled: self.filter_enabled,
            filter_text: self.filter_text@,
            filtered_indices: self.filtered_indices@,
            output_format: self.output_format,
            visible_columns: self.visible_columns@,
        }
    }
}

/// What a confirmation resolves to: the mode, and the row and the column of
/// the table under the cursor.
#[derive(Debug, Clone, Copy, PartialEq, Eq, Structural)]
pub struct Confirmation {
    pub mode: SelectionMode,
    pub row: usize,
    pub col: usize,
}

/// Why a confirmation selects nothing.
#[derive(Debug, Clone, Copy, PartialEq, Eq, Structural)]
pub enum SelectionError {
    /// No row passes the filter.
    NoVisibleRows,
    /// No column is shown.
    NoVisibleColumns,
}

/// The indices `0, 1, .., n - 1`.
pub open spec fn all_indices(n: nat) -> Seq<usize> {
    Seq::new(n, |i: int| i as usize)
}

/// Whether `row` passes a non-empty `filter`: some cell, in lowercase, holds
/// the filter in lowercase.
pub open spec fn row_matches(row: Seq<Seq<char>>, filter: Seq<char>) -> bool {
    exists|j: int|
        0 <= j < row.len() && occurs_in(lowercase(filter), lowercase(#[trigger] row[j]))
}

/// Whether `row` is shown under `filter`.  The empty filter shows every row.
pub open spec fn row_visible(row: Seq<Seq<char>>, filter: Seq<char>) -> bool {
    filter.len() == 0 || row_matches(row, filter)
}

/// The indices below `n` of the rows shown under `filter`, ascending.
pub open spec fn visible_below(rows: Seq<Seq<Seq<char>>>, filter: Seq<char>, n: nat) -> Seq<usize>
    decreases n,
{
    if n == 0 {
        Seq::empty()
    } else if row_visible(rows[n - 1], filter) {
        visible_below(rows, filter, (n - 1) as nat).push((n - 1) as usize)
    } else {
        visible_below(rows, filter, (n - 1) as nat)
    }
}

/// The indices of the rows shown under `filter`, ascending.
pub open spec fn visible_indices(rows: Seq<Seq<Seq<char>>>, filter: Seq<char>) -> Seq<usize> {
    visible_below(rows, filter, rows.len())
}

/// The position of the first `mode` in `modes`, or the length of `modes`
/// where there is none.
pub open spec fn first_position(modes: Seq<SelectionMode>, mode: SelectionMode) -> nat
    decreases modes.len(),
{
    if modes.len() == 0 {
        0
    } else if modes[0] == mode {
        0
    } else {
        1 + first_position(modes.drop_first(), mode)
    }
}

/// The mode that follows `current` in `modes`, going round; `current` itself
/// where there is no choice.  A mode that is not in `modes` counts as the
/// first.
pub open spec fn next_mode(modes: Seq<SelectionMode>, current: SelectionMode) -> SelectionMode {
    if modes.len() <= 1 {
        current
    } else {
        let found = first_position(modes, current);
        let at = if found < modes.len() {
            found
        } else {
            0
        };
        modes[((at + 1) % modes.len()) as int]
    }
}

/// `cursor` moved by `delta` and held inside `0 .. count`; unchanged where
/// `count` is zero.
pub open spec fn moved(cursor: nat, delta: int, count: nat) -> nat {
    if count == 0 {
        cursor
    } else if cursor + delta < 0 {
        0
    } else if cursor + delta >= count {
        (count - 1) as nat
    } else {
        (cursor + delta) as nat
    }
}

impl StateView {
    /// What holds of every state that the transitions produce: there is a
    /// mode to choose, the filtered indices are those of the rows shown under
    /// the filter text, and each cursor is inside its range where the range
    /// is not empty.
    pub open spec fn wf(self) -> bool {
        &&& self.available_modes.len() > 0
        &&& self.filtered_indices == visible_indices(self.table.rows, self.filter_text)
        &&& self.filtered_indices.len() > 0 ==> self.selected_row < self.filtered_indices.len()
        &&& self.visible_columns.len() > 0 ==> self.selected_col < self.visible_columns.len()
    }

    /// The state a session starts in.
    pub open spec fn initial(
        table: TableView,
        available_modes: Seq<SelectionMode>,
        filter_enabled: bool,
        output_format: OutputFormat,
    ) -> StateView
        recommends
            available_modes.len() > 0,
    {
        StateView {
            selected_row: 0,
            selected_col: 0,
            active_mode: available_modes[0],
            available_modes,
            table,
            filter_enabled,
            filter_text: Seq::empty(),
            filtered_indices: all_indices(table.rows.len()),
            output_format,
            visible_columns: all_indices(table.column_count()),
        }
    }

    /// Whether the cell at the given positions is highlighted.
    pub open spec fn cell_is_selected(self, filtered_pos: nat, col: nat) -> bool {
        match self.active_mode {
            SelectionMode::Row => filtered_pos == self.selected_row,
            SelectionMode::Column => col == self.selected_col,
            SelectionMode::Cell => filtered_pos == self.selected_row && col == self.selected_col,
        }
    }

    /// The state after the mode was cycled.
    pub open spec fn cycle_mode(self) -> StateView {
        StateView { active_mode: next_mode(self.available_modes, self.active_mode), ..self }
    }

    /// The state after the column cursor was forced into range.
    pub open spec fn clamp_col(self) -> StateView {
        StateView { selected_col: moved(self.selected_col, 0, self.visible_columns.len()), ..self }
    }

    /// The state after the filtered indices were computed anew.
    pub open spec fn update_filtered_indices(self) -> StateView {
        StateView {
            filtered_indices: visible_indices(self.table.rows, self.filter_text),
            ..self
        }
    }

    /// The state after every row was made to pass.
    pub open spec fn init_filtered_indices(self) -> StateView {
        StateView { filtered_indices: all_indices(self.table.rows.len()), ..self }
    }

    /// The state after the filter text was set.
    pub open spec fn set_filter(self, text: Seq<char>) -> StateView {
        StateView {
            filter_text: text,
            filtered_indices: visible_indices(self.table.rows, text),
            selected_row: 0,
            ..self
        }
    }

    /// The state with the row cursor put on `pos`, held inside the rows
    /// that pass the filter.
    pub open spec fn select_row(self, pos: nat) -> StateView {
        StateView { selected_row: moved(pos, 0, self.filtered_indices.len()), ..self }
    }

    /// The state after the row cursor was moved by `delta`.
    pub open spec fn move_row(self, delta: int) -> StateView {
        StateView {
            selected_row: moved(self.selected_row, delta, self.filtered_indices.len()),
            ..self
        }
    }

    /// The state after the column cursor was moved by `delta`.
    pub open spec fn move_col(self, delta: int) -> StateView {
        StateView {
            selected_col: moved(self.selected_col, delta, self.visible_columns.len()),
            ..self
        }
    }

    /// What a confirmation resolves to.
    pub open spec fn confirm(self) -> Result<Confirmation, SelectionError> {
        if self.filtered_indices.len() == 0 {
            Err(SelectionError::NoVisibleRows)
        } else if self.visible_columns.len() == 0 {
            Err(SelectionError::NoVisibleColumns)
        } else {
            Ok(
                Confirmation {
                    mode: self.active_mode,
                    row: self.filtered_indices[moved(
                        self.selected_row,
                        0,
                        self.filtered_indices.len(),
                    ) as int],
                    col: self.visible_columns[moved(
                        self.selected_col,
                        0,
                        self.visible_columns.len(),
                    ) as int],
                },
            )
        }
    }
}

/// The indices `0, 1, .., n - 1` as a vector.
fn index_range(n: usize) -> (out: Vec<usize>)
    ensures
        out@ == all_indices(n as nat),
{
    let mut out: Vec<usize> = Vec::new();
    let mut i: usize = 0;
    while i < n
        invariant
            i <= n,
            out@ == all_indices(i as nat),
        decreases n - i,
    {
        out.push(i);
        i += 1;
    }
    out
}

/// `cursor` moved by `delta` and held inside `0 .. count`.
fn move_cursor(cursor: usize, delta: isize, count: usize) -> (out: usize)
    ensures
        out == moved(cursor as nat, delta as int, count as nat),
{
    if count == 0 {
        cursor
    } else if delta >= 0 {
        let step = delta as usize;
        if cursor >= count - 1 || step >= count - 1 - cursor {
            count - 1
        } else {
            cursor + step
        }
    } else {
        let step = (-(delta + 1)) as usize;
        if step >= cursor {
            0
        } else if cursor - step - 1 >= count {
            count - 1
        } else {
            cursor - step - 1
        }
    }
}

/// Whether some cell of `row`, in lowercase, holds `query`.
fn row_holds(row: &Vec<String>, query: &str) -> (found: bool)
    ensures
        found == exists|j: int|
            0 <= j < row.len() && occurs_in(query@, lowercase(#[trigger] row.deep_view()[j])),
{
    let mut j: usize = 0;
    while j < row.len()
        invariant
            j <= row.len(),
            forall|k: int|
                0 <= k < j ==> !occurs_in(query@, lowercase(#[trigger] row.deep_view()[k])),
        decreases row.len() - j,
    {
        let cell = to_lowercase(row[j].as_str());
        if contains(cell.as_str(), query) {
            assert(occurs_in(query@, lowercase(row.deep_view()[j as int])));
            return true;
        }
        j += 1;
    }
    false
}

/// The indices of the rows of `table` shown under `filter`.
fn filter_rows(table: &Table, filter: &str) -> (out: Vec<usize>)
    ensures
        out@ == visible_indices(table@.rows, filter@),
{
    let shows_all = filter.is_empty();
    let query = to_lowercase(filter);
    let mut out: Vec<usize> = Vec::new();
    let mut i: usize = 0;
    while i < table.rows.len()
        invariant
            i <= table.rows.len(),
            shows_all == (filter@.len() == 0),
            query@ == lowercase(filter@),
            out@ == visible_below(table@.rows, filter@, i as nat),
        decreases table.rows.len() - i,
    {
        if shows_all || row_holds(&table.rows[i], query.as_str()) {
            out.push(i);
        }
        i += 1;
    }
    out
}

impl State {
    /// The state a session over `table` starts in: the cursor at the first
    /// row and column, the first of the modes active, no filter, every row
    /// and every column shown.
    pub fn new(
        table: Table,
        available_modes: Vec<SelectionMode>,
        filter_enabled: bool,
        output_format: OutputFormat,
    ) -> (state: State)
        requires
            available_modes.len() > 0,
        ensures
            state@ == StateView::initial(
                table@,
                available_modes@,
                filter_enabled,
                output_format,
            ),
            state@.wf(),
    {
        let filtered_indices = index_range(table.rows.len());
        let visible_columns = index_range(table.column_count());
        proof {
            lemma_empty_filter_shows_all(table@.rows, table@.rows.len());
        }
        State {
            selected_row: 0,
            selected_col: 0,
            active_mode: available_modes[0],
            available_modes,
            table,
            filter_enabled,
            filter_text: String::new(),
            filtered_indices,
            output_format,
            visible_columns,
        }
    }

    /// The number of rows that pass the filter.
    pub fn visible_rows(&self) -> (n: usize)
        ensures
            n == self@.filtered_indices.len(),
    {
        self.filtered_indices.len()
    }

    /// The number of columns that are shown.
    pub fn num_columns(&self) -> (n: usize)
        ensures
            n == self@.visible_columns.len(),
    {
        self.visible_columns.len()
    }

    /// The column of the table at position `visible_col` among the columns
    /// shown.
    pub fn actual_col_index(&self, visible_col: usize) -> (col: usize)
        requires
            visible_col < self@.visible_columns.len(),
        ensures
            col == self@.visible_columns[visible_col as int],
    {
        self.visible_columns[visible_col]
    }

    /// The row of the table at position `filtered_pos` among the rows that
    /// pass the filter.
    pub fn actual_row_index(&self, filtered_pos: usize) -> (row: usize)
        requires
            filtered_pos < self@.filtered_indices.len(),
        ensures
            row == self@.filtered_indices[filtered_pos as int],
    {
        self.filtered_indices[filtered_pos]
    }

    /// Whether the cell at the given positions is highlighted: in row mode
    /// the cells of the selected row, in column mode those of the selected
    /// column, in cell mode the one cell under both cursors.
    pub fn cell_is_selected(&self, filtered_pos: usize, col: usize) -> (selected: bool)
        ensures
            selected == self@.cell_is_selected(filtered_pos as nat, col as nat),
    {
        match self.active_mode {
            SelectionMode::Row => filtered_pos == self.selected_row,
            SelectionMode::Column => col == self.selected_col,
            SelectionMode::Cell => filtered_pos == self.selected_row && col == self.selected_col,
        }
    }

    /// Makes the mode after the active one active, going round.  Nothing
    /// changes where there is at most one mode.
    pub fn cycle_mode(&mut self)
        ensures
            final(self)@ == old(self)@.cycle_mode(),
    {
        let count = self.available_modes.len();
        if count <= 1 {
            return ;
        }
        let mut at: usize = 0;
        assert(self.available_modes@.skip(0) == self.available_modes@);
        while at < count && self.available_modes[at] != self.active_mode
            invariant
                at <= count,
                count == self.available_modes.len(),
                *self == *old(self),
                first_position(self.available_modes@, self.active_mode) == at + first_position(
                    self.available_modes@.skip(at as int),
                    self.active_mode,
                ),
            decreases count - at,
        {
            proof {
                let rest = self.available_modes@.skip(at as int);
                assert(rest.drop_first() == self.available_modes@.skip(at + 1));
            }
            at += 1;
        }
        if at == count {
            at = 0;
        }
        self.active_mode = self.available_modes[(at + 1) % count];
    }

    /// Forces the column cursor into the range of the columns shown.
    pub fn clamp_col(&mut self)
        ensures
            final(self)@ == old(self)@.clamp_col(),
    {
        let num_cols = self.num_columns();
        if num_cols > 0 && self.selected_col >= num_cols {
            self.selected_col = num_cols - 1;
        }
    }

    /// Computes the filtered indices anew from the table and the filter
    /// text.  The row cursor stays where it is.
    pub fn update_filtered_indices(&mut self)
        ensures
            final(self)@ == old(self)@.update_filtered_indices(),
    {
        self.filtered_indices = filter_rows(&self.table, self.filter_text.as_str());
    }

    /// Lets every row pass, whatever the filter text.
    pub fn init_filtered_indices(&mut self)
        ensures
            final(self)@ == old(self)@.init_filtered_indices(),
    {
        self.filtered_indices = index_range(self.table.rows.len());
    }

    /// Sets the filter text, computes the filtered indices anew and puts the
    /// row cursor on the first of them.
    pub fn set_filter(&mut self, text: String)
        ensures
            final(self)@ == old(self)@.set_filter(text@),
    {
        self.filtered_indices = filter_rows(&self.table, text.as_str());
        self.filter_text = text;
        self.selected_row = 0;
    }

    /// Puts the row cursor on `filtered_pos`, held inside the rows that pass
    /// the filter.
    pub fn select_row(&mut self, filtered_pos: usize)
        ensures
            final(self)@ == old(self)@.select_row(filtered_pos as nat),
    {
        self.selected_row = move_cursor(filtered_pos, 0, self.filtered_indices.len());
    }

    /// Moves the row cursor by `delta`, held inside the rows that pass the
    /// filter.
    pub fn move_row(&mut self, delta: isize)
        ensures
            final(self)@ == old(self)@.move_row(delta as int),
    {
        self.selected_row = move_cursor(self.selected_row, delta, self.filtered_indices.len());
    }

    /// Moves the column cursor by `delta`, held inside the columns shown.
    pub fn move_col(&mut self, delta: isize)
        ensures
            final(self)@ == old(self)@.move_col(delta as int),
    {
        self.selected_col = move_cursor(self.selected_col, delta, self.visible_columns.len());
    }

    /// Resolves the cursor to a row and a column of the table.
    pub fn confirm(&self) -> (result: Result<Confirmation, SelectionError>)
        ensures
            result == self@.confirm(),
    {
        let rows = self.filtered_indices.len();
        let cols = self.visible_columns.len();
        if rows == 0 {
            Err(SelectionError::NoVisibleRows)
        } else if cols == 0 {
            Err(SelectionError::NoVisibleColumns)
        } else {
            let at_row = move_cursor(self.selected_row, 0, rows);
            let at_col = move_cursor(self.selected_col, 0, cols);
            Ok(
                Confirmation {
                    mode: self.active_mode,
                    row: self.filtered_indices[at_row],
                    col: self.visible_columns[at_col],
                },
            )
        }
    }
}

impl Default for State {
    /// The state over the empty table, in row mode.
    fn default() -> (state: State)
        ensures
            state@ == StateView::initial(
                (TableView { headers: None, rows: Seq::empty() }),
                seq![SelectionMode::Row],
                true,
                OutputFormat::Plain,
            ),
    {
        let mut available_modes: Vec<SelectionMode> = Vec::new();
        available_modes.push(SelectionMode::Row);
        let table = Table { headers: None, rows: Vec::new() };
        proof {
            assert(table@.rows == Seq::<Seq<Seq<char>>>::empty());
            assert(all_indices(0) == Seq::<usize>::empty());
        }
        State {
            selected_row: 0,
            selected_col: 0,
            active_mode: SelectionMode::Row,
            available_modes,
            table,
            filter_enabled: true,
            filter_text: String::new(),
            filtered_indices: Vec::new(),
            output_format: OutputFormat::Plain,
            visible_columns: Vec::new(),
        }
    }
}

/// Under the empty filter every row is shown.
pub proof fn lemma_empty_filter_shows_all(rows: Seq<Seq<Seq<char>>>, n: nat)
    ensures
        visible_below(rows, Seq::empty(), n) == all_indices(n),
    decreases n,
{
    if n > 0 {
        lemma_empty_filter_shows_all(rows, (n - 1) as nat);
    }
}

/// The indices below `n` of the rows shown under a filter are exactly those
/// of the rows below `n` that pass it, each once, in ascending order.
pub proof fn lemma_visible_below(rows: Seq<Seq<Seq<char>>>, filter: Seq<char>, n: nat)
    requires
        n <= usize::MAX,
    ensures
        visible_below(rows, filter, n).len() <= n,
        forall|k: int|
            0 <= k < visible_below(rows, filter, n).len() ==> #[trigger] visible_below(
                rows,
                filter,
                n,
            )[k] < n,
        forall|k: int, l: int|
            0 <= k < l < visible_below(rows, filter, n).len() ==> visible_below(rows, filter, n)[k]
                < visible_below(rows, filter, n)[l],
        forall|i: int|
            0 <= i < n ==> (visible_below(rows, filter, n).contains(i as usize) <==> row_visible(
                #[trigger] rows[i],
                filter,
            )),
    decreases n,
{
    if n > 0 {
        let before = visible_below(rows, filter, (n - 1) as nat);
        let now = visible_below(rows, filter, n);
        lemma_visible_below(rows, filter, (n - 1) as nat);
        assert forall|i: int| 0 <= i < n implies (now.contains(i as usize) <==> row_visible(
            #[trigger] rows[i],
            filter,
        )) by {
            if row_visible(rows[n - 1], filter) {
                assert(now.last() == (n - 1) as usize);
                if i < n - 1 && before.contains(i as usize) {
                    let k = choose|k: int| 0 <= k < before.len() && before[k] == i as usize;
                    assert(now[k] == i as usize);
                }
            }
        }
    }
}

/// The filtered indices of a state are exactly the indices of the rows that
/// pass the filter, each once, in the order of the table.
pub proof fn lemma_visible_indices(rows: Seq<Seq<Seq<char>>>, filter: Seq<char>)
    requires
        rows.len() <= usize::MAX,
    ensures
        forall|k: int|
            0 <= k < visible_indices(rows, filter).len() ==> #[trigger] visible_indices(
                rows,
                filter,
            )[k] < rows.len(),
        forall|k: int, l: int|
            0 <= k < l < visible_indices(rows, filter).len() ==> visible_indices(rows, filter)[k]
                < visible_indices(rows, filter)[l],
        forall|i: int|
            0 <= i < rows.len() ==> (visible_indices(rows, filter).contains(i as usize)
                <==> row_visible(#[trigger] rows[i], filter)),
{
    lemma_visible_below(rows, filter, rows.len());
}

/// Setting the empty filter shows every row, in the order of the table.
pub proof fn lemma_set_filter_empty(s: StateView)
    ensures
        s.set_filter(Seq::empty()).filtered_indices == all_indices(s.table.rows.len()),
{
    lemma_empty_filter_shows_all(s.table.rows, s.table.rows.len());
}

/// Setting the same filter twice gives the state that setting it once gives.
pub proof fn lemma_set_filter_idempotent(s: StateView, text: Seq<char>)
    ensures
        s.set_filter(text).set_filter(text) == s.set_filter(text),
{
}

/// In row mode the highlight of a cell depends on its row alone, in column
/// mode on its column alone, and in cell mode one cell is highlighted: the
/// one under both cursors.
pub proof fn lemma_highlight_by_mode(s: StateView, row: nat, col: nat, other: nat)
    ensures
        s.active_mode == SelectionMode::Row ==> s.cell_is_selected(row, col) == s.cell_is_selected(
            row,
            other,
        ),
        s.active_mode == SelectionMode::Row ==> (s.cell_is_selected(row, col) <==> row
            == s.selected_row),
        s.active_mode == SelectionMode::Column ==> s.cell_is_selected(row, col)
            == s.cell_is_selected(other, col),
        s.active_mode == SelectionMode::Column ==> (s.cell_is_selected(row, col) <==> col
            == s.selected_col),
        s.active_mode == SelectionMode::Cell ==> (s.cell_is_selected(row, col) <==> row
            == s.selected_row && col == s.selected_col),
{
}

/// Where no row passes the filter, a confirmation fails for want of rows,
/// whatever else the state holds.
pub proof fn lemma_confirm_without_rows(s: StateView)
    requires
        s.filtered_indices.len() == 0,
    ensures
        s.confirm() == Err::<Confirmation, SelectionError>(SelectionError::NoVisibleRows),
{
}

/// A confirmation in a well-formed state over a table that fits in memory
/// resolves to the row and the column under the cursors, and the row is a
/// row of the table.
pub proof fn lemma_confirm_resolves(s: StateView)
    requires
        s.wf(),
        s.table.rows.len() <= usize::MAX,
        s.filtered_indices.len() > 0,
        s.visible_columns.len() > 0,
    ensures
        s.confirm() == Ok::<Confirmation, SelectionError>(
            Confirmation {
                mode: s.active_mode,
                row: s.filtered_indices[s.selected_row as int],
                col: s.visible_columns[s.selected_col as int],
            },
        ),
        s.filtered_indices[s.selected_row as int] < s.table.rows.len(),
{
    lemma_visible_indices(s.table.rows, s.filter_text);
}

/// Every transition leads from a well-formed state to a well-formed state.
pub proof fn lemma_transitions_keep_wf(s: StateView, text: Seq<char>, delta: int)
    requires
        s.wf(),
    ensures
        s.cycle_mode().wf(),
        s.clamp_col().wf(),
        s.update_filtered_indices().wf(),
        s.set_filter(text).wf(),
        s.move_row(delta).wf(),
        s.move_col(delta).wf(),
        forall|pos: nat| #[trigger] s.select_row(pos).wf(),
        s.filter_text.len() == 0 ==> s.init_filtered_indices().wf(),
{
    if s.filter_text.len() == 0 {
        assert(s.filter_text == Seq::<char>::empty());
        lemma_empty_filter_shows_all(s.table.rows, s.table.rows.len());
    }
}

} // verus!
