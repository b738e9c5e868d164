use tabsel::app::state::{Confirmation, SelectionError, State};
use tabsel::data::{OutputFormat, SelectionMode, Table};

fn strings(cells: &[&str]) -> Vec<String> {
    cells.iter().map(|c| c.to_string()).collect()
}

fn people() -> Table {
    Table {
        headers: Some(strings(&["name", "city", "age"])),
        rows: vec![
            strings(&["Alice", "Paris", "30"]),
            strings(&["Bob", "Berlin", "25"]),
            strings(&["Carol", "PARMA", "41"]),
            strings(&["Dave", "Oslo"]),
            strings(&["Eve", "Bern", "30"]),
        ],
    }
}

fn all_modes() -> Vec<SelectionMode> {
    vec![SelectionMode::Row, SelectionMode::Column, SelectionMode::Cell]
}

fn state_over(table: Table, modes: Vec<SelectionMode>) -> State {
    State::new(table, modes, true, OutputFormat::Plain)
}

#[test]
fn new_state_shows_everything() {
    let state = state_over(people(), all_modes());
    assert_eq!(state.selected_row, 0);
    assert_eq!(state.selected_col, 0);
    assert_eq!(state.active_mode, SelectionMode::Row);
    assert_eq!(state.available_modes, all_modes());
    assert_eq!(state.filter_text, "");
    assert_eq!(state.filtered_indices, vec![0, 1, 2, 3, 4]);
    assert_eq!(state.visible_columns, vec![0, 1, 2]);
    assert_eq!(state.visible_rows(), 5);
    assert_eq!(state.num_columns(), 3);
    assert!(state.filter_enabled);
    assert_eq!(state.output_format, OutputFormat::Plain);
}

#[test]
fn new_state_starts_in_the_first_mode() {
    let state = state_over(people(), vec![SelectionMode::Cell, SelectionMode::Row]);
    assert_eq!(state.active_mode, SelectionMode::Cell);
}

#[test]
fn column_count_without_headers_is_the_first_row() {
    let table = Table {
        headers: None,
        rows: vec![strings(&["a", "b"]), strings(&["c", "d", "e"])],
    };
    assert_eq!(table.column_count(), 2);
    let state = state_over(table, all_modes());
    assert_eq!(state.visible_columns, vec![0, 1]);

    let empty = Table { headers: None, rows: vec![] };
    assert_eq!(empty.column_count(), 0);
    let headed = Table { headers: Some(strings(&["x"])), rows: vec![strings(&["1", "2"])] };
    assert_eq!(headed.column_count(), 1);
}

#[test]
fn default_state_is_empty_in_row_mode() {
    let state = State::default();
    assert_eq!(state.selected_row, 0);
    assert_eq!(state.selected_col, 0);
    assert_eq!(state.active_mode, SelectionMode::Row);
    assert_eq!(state.available_modes, vec![SelectionMode::Row]);
    assert_eq!(state.table, Table { headers: None, rows: vec![] });
    assert!(state.filter_enabled);
    assert_eq!(state.filter_text, "");
    assert!(state.filtered_indices.is_empty());
    assert_eq!(state.output_format, OutputFormat::Plain);
    assert!(state.visible_columns.is_empty());
}

#[test]
fn actual_indices_go_through_the_index_arrays() {
    let mut state = state_over(people(), all_modes());
    state.set_filter("30".to_string());
    assert_eq!(state.filtered_indices, vec![0, 4]);
    assert_eq!(state.actual_row_index(0), 0);
    assert_eq!(state.actual_row_index(1), 4);
    state.visible_columns = vec![2, 0];
    assert_eq!(state.actual_col_index(0), 2);
    assert_eq!(state.actual_col_index(1), 0);
}

#[test]
fn set_filter_empty_shows_all_rows_in_order() {
    let mut state = state_over(people(), all_modes());
    state.set_filter("zzz".to_string());
    assert!(state.filtered_indices.is_empty());
    state.set_filter(String::new());
    assert_eq!(state.filtered_indices, vec![0, 1, 2, 3, 4]);
    assert_eq!(state.filter_text, "");
}

#[test]
fn set_filter_matches_any_cell_without_regard_to_case() {
    let mut state = state_over(people(), all_modes());
    state.set_filter("par".to_string());
    assert_eq!(state.filtered_indices, vec![0, 2]);
    state.set_filter("PAR".to_string());
    assert_eq!(state.filtered_indices, vec![0, 2]);
    state.set_filter("ber".to_string());
    assert_eq!(state.filtered_indices, vec![1, 4]);
    state.set_filter("e".to_string());
    assert_eq!(state.filtered_indices, vec![0, 1, 3, 4]);
    state.set_filter("41".to_string());
    assert_eq!(state.filtered_indices, vec![2]);
    state.set_filter("alice paris".to_string());
    assert!(state.filtered_indices.is_empty());
}

#[test]
fn set_filter_folds_case_beyond_ascii() {
    let table = Table {
        headers: None,
        rows: vec![strings(&["\u{c9}cole"]), strings(&["\u{e9}t\u{e9}"]), strings(&["ecole"])],
    };
    let mut state = state_over(table, all_modes());
    state.set_filter("\u{c9}".to_string());
    assert_eq!(state.filtered_indices, vec![0, 1]);
    state.set_filter("\u{e9}".to_string());
    assert_eq!(state.filtered_indices, vec![0, 1]);
}

#[test]
fn set_filter_is_idempotent() {
    for query in ["", "a", "PAR", "30", "nothing matches this"] {
        let mut once = state_over(people(), all_modes());
        once.move_row(3);
        once.set_filter(query.to_string());
        let mut twice = state_over(people(), all_modes());
        twice.move_row(3);
        twice.set_filter(query.to_string());
        twice.set_filter(query.to_string());
        assert_eq!(once.filtered_indices, twice.filtered_indices);
        assert_eq!(once.filter_text, twice.filter_text);
        assert_eq!(once.selected_row, twice.selected_row);
    }
}

#[test]
fn set_filter_puts_the_row_cursor_first() {
    let mut state = state_over(people(), all_modes());
    state.move_row(4);
    assert_eq!(state.selected_row, 4);
    state.set_filter("30".to_string());
    assert_eq!(state.selected_row, 0);
    assert_eq!(state.filter_text, "30");
}

#[test]
fn update_filtered_indices_follows_the_filter_text() {
    let mut state = state_over(people(), all_modes());
    state.selected_row = 1;
    state.filter_text = "bob".to_string();
    state.update_filtered_indices();
    assert_eq!(state.filtered_indices, vec![1]);
    assert_eq!(state.selected_row, 1);
    state.filter_text = String::new();
    state.update_filtered_indices();
    assert_eq!(state.filtered_indices, vec![0, 1, 2, 3, 4]);
}

#[test]
fn init_filtered_indices_lets_every_row_pass() {
    let mut state = state_over(people(), all_modes());
    state.set_filter("bob".to_string());
    state.init_filtered_indices();
    assert_eq!(state.filtered_indices, vec![0, 1, 2, 3, 4]);
    assert_eq!(state.filter_text, "bob");
}

#[test]
fn move_row_clamps_and_never_wraps() {
    let mut state = state_over(people(), all_modes());
    state.move_row(-1);
    assert_eq!(state.selected_row, 0);
    state.move_row(1);
    assert_eq!(state.selected_row, 1);
    state.move_row(2);
    assert_eq!(state.selected_row, 3);
    state.move_row(1);
    assert_eq!(state.selected_row, 4);
    state.move_row(1);
    assert_eq!(state.selected_row, 4);
    state.move_row(100);
    assert_eq!(state.selected_row, 4);
    state.move_row(-2);
    assert_eq!(state.selected_row, 2);
    state.move_row(-100);
    assert_eq!(state.selected_row, 0);
    state.move_row(isize::MAX);
    assert_eq!(state.selected_row, 4);
    state.move_row(isize::MIN);
    assert_eq!(state.selected_row, 0);
    state.move_row(0);
    assert_eq!(state.selected_row, 0);
}

#[test]
fn move_row_counts_filtered_rows() {
    let mut state = state_over(people(), all_modes());
    state.set_filter("30".to_string());
    state.move_row(5);
    assert_eq!(state.selected_row, 1);
}

#[test]
fn move_col_clamps_and_never_wraps() {
    let mut state = state_over(people(), all_modes());
    state.move_col(-1);
    assert_eq!(state.selected_col, 0);
    state.move_col(1);
    assert_eq!(state.selected_col, 1);
    state.move_col(5);
    assert_eq!(state.selected_col, 2);
    state.move_col(-1);
    assert_eq!(state.selected_col, 1);
    state.move_col(isize::MIN);
    assert_eq!(state.selected_col, 0);
}

#[test]
fn moves_on_an_empty_table_change_nothing() {
    let mut state = state_over(Table { headers: None, rows: vec![] }, all_modes());
    state.move_row(1);
    state.move_row(-1);
    state.move_col(1);
    state.move_col(-1);
    state.clamp_col();
    state.select_row(3);
    state.move_row(0);
    assert_eq!(state.selected_row, 3);
    assert_eq!(state.selected_col, 0);
}

#[test]
fn move_pulls_a_stray_cursor_into_range() {
    let mut state = state_over(people(), all_modes());
    state.selected_row = 40;
    state.move_row(0);
    assert_eq!(state.selected_row, 4);
    state.selected_row = 40;
    state.move_row(-1);
    assert_eq!(state.selected_row, 4);
    state.selected_row = 40;
    state.move_row(-38);
    assert_eq!(state.selected_row, 2);
    state.selected_row = usize::MAX;
    state.move_row(isize::MAX);
    assert_eq!(state.selected_row, 4);
}

#[test]
fn select_row_clamps() {
    let mut state = state_over(people(), all_modes());
    state.select_row(2);
    assert_eq!(state.selected_row, 2);
    state.select_row(9);
    assert_eq!(state.selected_row, 4);
}

#[test]
fn clamp_col_after_columns_were_hidden() {
    let mut state = state_over(people(), all_modes());
    state.move_col(2);
    state.visible_columns = vec![0, 2];
    state.clamp_col();
    assert_eq!(state.selected_col, 1);
    state.clamp_col();
    assert_eq!(state.selected_col, 1);
    state.visible_columns = vec![];
    state.clamp_col();
    assert_eq!(state.selected_col, 1);
    state.visible_columns = vec![1];
    state.clamp_col();
    assert_eq!(state.selected_col, 0);
}

#[test]
fn cycle_mode_goes_round() {
    let mut state = state_over(people(), all_modes());
    state.cycle_mode();
    assert_eq!(state.active_mode, SelectionMode::Column);
    state.cycle_mode();
    assert_eq!(state.active_mode, SelectionMode::Cell);
    state.cycle_mode();
    assert_eq!(state.active_mode, SelectionMode::Row);
}

#[test]
fn cycle_mode_with_one_mode_changes_nothing() {
    let mut state = state_over(people(), vec![SelectionMode::Cell]);
    state.cycle_mode();
    assert_eq!(state.active_mode, SelectionMode::Cell);
    state.available_modes = vec![];
    state.cycle_mode();
    assert_eq!(state.active_mode, SelectionMode::Cell);
}

#[test]
fn cycle_mode_from_a_mode_that_is_not_offered() {
    let mut state = state_over(people(), vec![SelectionMode::Row, SelectionMode::Column]);
    state.active_mode = SelectionMode::Cell;
    state.cycle_mode();
    assert_eq!(state.active_mode, SelectionMode::Column);
}

#[test]
fn cycle_mode_with_a_repeated_mode_goes_by_its_first_place() {
    let mut state = state_over(
        people(),
        vec![SelectionMode::Row, SelectionMode::Cell, SelectionMode::Row, SelectionMode::Column],
    );
    state.cycle_mode();
    assert_eq!(state.active_mode, SelectionMode::Cell);
    state.cycle_mode();
    assert_eq!(state.active_mode, SelectionMode::Row);
    state.cycle_mode();
    assert_eq!(state.active_mode, SelectionMode::Cell);
}

#[test]
fn cell_is_selected_on_every_cell_of_a_small_table() {
    for mode in all_modes() {
        for selected_row in 0..4usize {
            for selected_col in 0..3usize {
                let mut state = state_over(people(), vec![mode]);
                state.move_row(selected_row as isize);
                state.move_col(selected_col as isize);
                for row in 0..5usize {
                    for col in 0..4usize {
                        let expected = match mode {
                            SelectionMode::Row => row == selected_row,
                            SelectionMode::Column => col == selected_col,
                            SelectionMode::Cell => row == selected_row && col == selected_col,
                        };
                        assert_eq!(state.cell_is_selected(row, col), expected);
                    }
                }
            }
        }
    }
}

#[test]
fn confirm_resolves_through_filter_and_visibility() {
    let mut state = state_over(people(), all_modes());
    assert_eq!(
        state.confirm(),
        Ok(Confirmation { mode: SelectionMode::Row, row: 0, col: 0 })
    );
    state.set_filter("30".to_string());
    state.move_row(1);
    state.visible_columns = vec![2, 1];
    state.move_col(1);
    state.cycle_mode();
    state.cycle_mode();
    assert_eq!(
        state.confirm(),
        Ok(Confirmation { mode: SelectionMode::Cell, row: 4, col: 1 })
    );
    state.move_col(-1);
    assert_eq!(
        state.confirm(),
        Ok(Confirmation { mode: SelectionMode::Cell, row: 4, col: 2 })
    );
}

#[test]
fn confirm_without_rows() {
    let mut state = state_over(people(), all_modes());
    state.set_filter("matches nothing".to_string());
    for _ in 0..3 {
        assert_eq!(state.confirm(), Err(SelectionError::NoVisibleRows));
        state.cycle_mode();
    }
    let empty = state_over(Table { headers: None, rows: vec![] }, all_modes());
    assert_eq!(empty.confirm(), Err(SelectionError::NoVisibleRows));
}

#[test]
fn confirm_without_columns() {
    let mut state = state_over(people(), all_modes());
    state.visible_columns = vec![];
    assert_eq!(state.confirm(), Err(SelectionError::NoVisibleColumns));
    let bare = state_over(Table { headers: None, rows: vec![vec![]] }, all_modes());
    assert_eq!(bare.confirm(), Err(SelectionError::NoVisibleColumns));
}

#[test]
fn confirm_does_not_change_the_state() {
    let state = state_over(people(), all_modes());
    let before = format!("{:?}", state);
    let _ = state.confirm();
    assert_eq!(format!("{:?}", state), before);
}
