use tabsel::app::{Effect, Key, Message, Modifiers, Scroll, Tabsel, TabselFlags};
use tabsel::data::parse::parse_string;
use tabsel::data::{InputFormat, OutputFormat, SelectionMode, Table};

const NONE: Modifiers = Modifiers { shift: false };
const SHIFT: Modifiers = Modifiers { shift: true };

fn strings(cells: &[&str]) -> Vec<String> {
    cells.iter().map(|c| c.to_string()).collect()
}

fn people() -> Table {
    Table {
        headers: Some(strings(&["name", "age"])),
        rows: vec![
            strings(&["Alice", "30"]),
            strings(&["Bob", "25"]),
            strings(&["Carol", "41"]),
        ],
    }
}

fn session(modes: Vec<SelectionMode>, format: OutputFormat) -> Tabsel {
    Tabsel::new(TabselFlags {
        table: people(),
        available_modes: modes,
        filter_enabled: true,
        output_format: format,
        exit_unfocused: false,
    })
}

fn all_modes() -> Vec<SelectionMode> {
    vec![SelectionMode::Row, SelectionMode::Column, SelectionMode::Cell]
}

fn press(tabsel: &mut Tabsel, key: Key) -> Effect {
    tabsel.update(Message::KeyboardEvent(key, NONE))
}

#[test]
fn loading_focuses_the_filter_where_there_is_one() {
    let mut with = session(all_modes(), OutputFormat::Plain);
    assert_eq!(with.update(Message::Loading), Effect::FocusInput);
    let mut without = Tabsel::new(TabselFlags {
        table: people(),
        available_modes: all_modes(),
        filter_enabled: false,
        output_format: OutputFormat::Plain,
        exit_unfocused: false,
    });
    assert_eq!(without.update(Message::Loading), Effect::Idle);
}

#[test]
fn unfocused_ends_the_session_only_where_configured() {
    let mut stays = session(all_modes(), OutputFormat::Plain);
    assert_eq!(stays.update(Message::Unfocused), Effect::Idle);
    let mut leaves = Tabsel::new(TabselFlags {
        table: people(),
        available_modes: all_modes(),
        filter_enabled: true,
        output_format: OutputFormat::Plain,
        exit_unfocused: true,
    });
    assert_eq!(leaves.update(Message::Unfocused), Effect::Exit(0));
}

#[test]
fn enter_emits_the_selected_row() {
    let mut tabsel = session(all_modes(), OutputFormat::Plain);
    assert_eq!(
        press(&mut tabsel, Key::ArrowDown),
        Effect::Snap(Scroll::Fraction { position: 1, last: 2 })
    );
    assert_eq!(press(&mut tabsel, Key::Enter), Effect::Emit("Bob,25".to_string()));
}

#[test]
fn enter_emits_in_the_configured_encoding() {
    let mut tabsel = session(all_modes(), OutputFormat::Json);
    assert_eq!(
        press(&mut tabsel, Key::Enter),
        Effect::Emit(r#"{"name":"Alice","age":"30"}"#.to_string())
    );
    assert_eq!(tabsel.update(Message::KeyboardEvent(Key::Tab, SHIFT)), Effect::Idle);
    assert_eq!(press(&mut tabsel, Key::ArrowRight), Effect::Idle);
    assert_eq!(
        press(&mut tabsel, Key::Enter),
        Effect::Emit(r#"{"column":"age"}"#.to_string())
    );
    assert_eq!(tabsel.update(Message::KeyboardEvent(Key::Tab, SHIFT)), Effect::Idle);
    press(&mut tabsel, Key::ArrowDown);
    press(&mut tabsel, Key::ArrowDown);
    assert_eq!(
        press(&mut tabsel, Key::Enter),
        Effect::Emit(r#"{"value":"41","row":2,"column":"age"}"#.to_string())
    );
}

#[test]
fn arrows_move_only_what_the_mode_selects() {
    let mut tabsel = session(all_modes(), OutputFormat::Plain);
    assert_eq!(press(&mut tabsel, Key::ArrowRight), Effect::Idle);
    assert_eq!(tabsel.state().selected_col, 0);
    assert_eq!(press(&mut tabsel, Key::ArrowLeft), Effect::Idle);
    press(&mut tabsel, Key::ArrowDown);
    assert_eq!(tabsel.state().selected_row, 1);

    tabsel.update(Message::KeyboardEvent(Key::Tab, SHIFT));
    assert_eq!(tabsel.state().active_mode, SelectionMode::Column);
    assert_eq!(press(&mut tabsel, Key::ArrowDown), Effect::Idle);
    assert_eq!(press(&mut tabsel, Key::ArrowUp), Effect::Idle);
    assert_eq!(tabsel.state().selected_row, 1);
    press(&mut tabsel, Key::ArrowRight);
    assert_eq!(tabsel.state().selected_col, 1);

    tabsel.update(Message::KeyboardEvent(Key::Tab, SHIFT));
    assert_eq!(tabsel.state().active_mode, SelectionMode::Cell);
    press(&mut tabsel, Key::ArrowLeft);
    assert_eq!(
        press(&mut tabsel, Key::ArrowUp),
        Effect::Snap(Scroll::Fraction { position: 0, last: 2 })
    );
    assert_eq!(tabsel.state().selected_col, 0);
    assert_eq!(tabsel.state().selected_row, 0);
}

#[test]
fn tab_without_shift_and_other_keys_do_nothing() {
    let mut tabsel = session(all_modes(), OutputFormat::Plain);
    assert_eq!(press(&mut tabsel, Key::Tab), Effect::Idle);
    assert_eq!(press(&mut tabsel, Key::Other), Effect::Idle);
    assert_eq!(tabsel.update(Message::KeyboardEvent(Key::Other, SHIFT)), Effect::Idle);
    assert_eq!(tabsel.state().active_mode, SelectionMode::Row);
    assert_eq!(tabsel.state().selected_row, 0);
}

#[test]
fn escape_gives_up() {
    let mut tabsel = session(all_modes(), OutputFormat::Plain);
    assert_eq!(press(&mut tabsel, Key::Escape), Effect::Exit(1));
    assert_eq!(tabsel.update(Message::KeyboardEvent(Key::Escape, SHIFT)), Effect::Exit(1));
}

#[test]
fn input_changed_filters_and_scrolls_to_the_start() {
    let mut tabsel = session(all_modes(), OutputFormat::Plain);
    press(&mut tabsel, Key::ArrowDown);
    assert_eq!(
        tabsel.update(Message::InputChanged("o".to_string())),
        Effect::Snap(Scroll::Fraction { position: 0, last: 1 })
    );
    assert_eq!(tabsel.state().filtered_indices, vec![1, 2]);
    assert_eq!(tabsel.state().filter_text, "o");
    assert_eq!(
        tabsel.update(Message::InputChanged("bob".to_string())),
        Effect::Snap(Scroll::Start)
    );
    assert_eq!(press(&mut tabsel, Key::Enter), Effect::Emit("Bob,25".to_string()));
}

#[test]
fn confirming_with_no_rows_fails_without_output() {
    for mode in all_modes() {
        let mut tabsel = session(vec![mode], OutputFormat::Json);
        assert_eq!(
            tabsel.update(Message::InputChanged("matches nothing".to_string())),
            Effect::Snap(Scroll::Start)
        );
        assert_eq!(press(&mut tabsel, Key::Enter), Effect::Exit(1));
        assert_eq!(tabsel.update(Message::Click(0)), Effect::Exit(1));
        assert_eq!(tabsel.on_confirm(), Effect::Exit(1));
    }
}

#[test]
fn click_selects_and_confirms() {
    let mut tabsel = session(all_modes(), OutputFormat::Csv);
    assert_eq!(
        tabsel.update(Message::Click(2)),
        Effect::Emit("Carol,41".to_string())
    );
    assert_eq!(tabsel.state().selected_row, 2);
    assert_eq!(
        tabsel.update(Message::Click(17)),
        Effect::Emit("Carol,41".to_string())
    );
}

#[test]
fn click_counts_filtered_rows() {
    let mut tabsel = session(all_modes(), OutputFormat::Plain);
    tabsel.update(Message::InputChanged("o".to_string()));
    assert_eq!(
        tabsel.update(Message::Click(1)),
        Effect::Emit("Carol,41".to_string())
    );
}

#[test]
fn row_steps_stop_at_both_ends() {
    let mut tabsel = session(all_modes(), OutputFormat::Plain);
    assert_eq!(
        tabsel.dec_selected_row(),
        Effect::Snap(Scroll::Fraction { position: 0, last: 2 })
    );
    tabsel.inc_selected_row();
    tabsel.inc_selected_row();
    assert_eq!(
        tabsel.inc_selected_row(),
        Effect::Snap(Scroll::Fraction { position: 2, last: 2 })
    );
    assert_eq!(tabsel.state().selected_row, 2);
    assert_eq!(tabsel.snap(), Effect::Snap(Scroll::Fraction { position: 2, last: 2 }));
}

#[test]
fn column_steps_stop_at_both_ends() {
    let mut tabsel = session(all_modes(), OutputFormat::Plain);
    assert_eq!(tabsel.dec_selected_col(), Effect::Idle);
    assert_eq!(tabsel.state().selected_col, 0);
    assert_eq!(tabsel.inc_selected_col(), Effect::Idle);
    assert_eq!(tabsel.inc_selected_col(), Effect::Idle);
    assert_eq!(tabsel.state().selected_col, 1);
}

#[test]
fn session_over_an_empty_table() {
    let mut tabsel = Tabsel::new(TabselFlags {
        table: Table { headers: None, rows: vec![] },
        available_modes: vec![SelectionMode::Row],
        filter_enabled: true,
        output_format: OutputFormat::Plain,
        exit_unfocused: false,
    });
    assert_eq!(press(&mut tabsel, Key::ArrowDown), Effect::Snap(Scroll::Start));
    assert_eq!(press(&mut tabsel, Key::ArrowUp), Effect::Snap(Scroll::Start));
    assert_eq!(tabsel.update(Message::KeyboardEvent(Key::Tab, SHIFT)), Effect::Idle);
    assert_eq!(press(&mut tabsel, Key::Enter), Effect::Exit(1));
}

#[test]
fn from_text_to_text() {
    let table = parse_string("name,age\nAlice,30\nBob,25", InputFormat::Csv, true).unwrap();
    let mut tabsel = Tabsel::new(TabselFlags {
        table,
        available_modes: vec![SelectionMode::Cell],
        filter_enabled: true,
        output_format: OutputFormat::Json,
        exit_unfocused: false,
    });
    tabsel.update(Message::InputChanged("BOB".to_string()));
    press(&mut tabsel, Key::ArrowRight);
    assert_eq!(
        press(&mut tabsel, Key::Enter),
        Effect::Emit(r#"{"value":"25","row":1,"column":"age"}"#.to_string())
    );
}
