use sheet_wizard::App;
use sheet_wizard::ColumnState;
use sheet_wizard::ExportEdit;
use sheet_wizard::Key;
use sheet_wizard::KeyEvent;
use sheet_wizard::Outcome;
use sheet_wizard::Step;

fn grid(rows: &[&[&str]]) -> Vec<Vec<String>> {
    rows.iter().map(|r| r.iter().map(|c| c.to_string()).collect()).collect()
}

fn plain(code: Key) -> KeyEvent {
    KeyEvent { code, ctrl: false }
}

fn ctrl(code: Key) -> KeyEvent {
    KeyEvent { code, ctrl: true }
}

fn app_with_sheet(rows: &[&[&str]]) -> App {
    let mut app = App::new(
        vec!["Data".to_string()],
        vec![Some(grid(rows))],
        "book.xlsx".to_string(),
    );
    assert!(app.load_sheet());
    app
}

#[test]
fn new_app_defaults() {
    let app = App::new(vec!["A".to_string()], vec![None], "wb.xlsx".to_string());
    assert_eq!(app.selected_sheet, Some(0));
    assert!(matches!(app.step, Step::SheetSelect));
    assert_eq!(app.rows_per_page, 10);
    assert_eq!(app.current_page, 0);
    assert!(app.deduplicate);
    assert_eq!(app.export_filename, "export");
    assert!(app.export_toast.is_none());
}

#[test]
fn back_navigation_table() {
    let mut app = App::new(Vec::new(), Vec::new(), "wb.xlsx".to_string());
    app.step = Step::SheetSelect;
    assert!(matches!(app.handle_back(), Step::SheetSelect));
    app.step = Step::RowTrim;
    assert!(matches!(app.handle_back(), Step::SheetSelect));
    app.step = Step::MergePrompt;
    assert!(matches!(app.handle_back(), Step::RowTrim));
    app.step = Step::ColSelect;
    assert!(matches!(app.handle_back(), Step::RowTrim));
    app.step = Step::Preview;
    assert!(matches!(app.handle_back(), Step::ColSelect));
    app.step = Step::Export;
    assert!(matches!(app.handle_back(), Step::Preview));
}

#[test]
fn quit_key_terminates() {
    let mut app = app_with_sheet(&[&["h"], &["v"]]);
    let out = app.handle_key(ctrl(Key::Char('q')));
    assert!(matches!(out, Outcome::Quit));
}

#[test]
fn load_sheet_resets_columns() {
    let app = app_with_sheet(&[&["Name", "Age"], &["Ann", "30"]]);
    assert_eq!(app.columns.len(), 2);
    assert!(app.columns.iter().all(|c| matches!(c, ColumnState::Hidden)));
    assert_eq!(app.custom_keys, vec![String::new(), String::new()]);
    assert_eq!(app.export_filename, "data");
    assert_eq!(app.data.len(), 2);
}

#[test]
fn load_sheet_fails_on_missing_or_empty() {
    let mut app = App::new(
        vec!["A".to_string(), "B".to_string()],
        vec![None, Some(Vec::new())],
        "wb.xlsx".to_string(),
    );
    app.selected_sheet = Some(0);
    assert!(!app.load_sheet());
    app.selected_sheet = Some(1);
    assert!(!app.load_sheet());
    app.selected_sheet = Some(7);
    assert!(!app.load_sheet());
}

#[test]
fn visible_columns_ordered_subset() {
    let mut app = app_with_sheet(&[&["a", "b", "c", "d"], &["1", "2", "3", "4"]]);
    app.columns = vec![
        ColumnState::NonEmpty,
        ColumnState::Hidden,
        ColumnState::Original,
        ColumnState::Hidden,
    ];
    assert_eq!(app.visible_columns(), vec![0, 2]);
}

#[test]
fn row_visible_without_nonempty_columns() {
    let mut app = app_with_sheet(&[&["a", "b"], &["", ""]]);
    app.columns = vec![ColumnState::Original, ColumnState::Hidden];
    assert!(app.is_row_visible(&vec!["".to_string(), "".to_string()]));
}

#[test]
fn row_visibility_checks_trimmed_cells() {
    let mut app = app_with_sheet(&[&["a", "b"], &["x", "y"]]);
    app.columns = vec![ColumnState::NonEmpty, ColumnState::Original];
    assert!(!app.is_row_visible(&vec!["   ".to_string(), "y".to_string()]));
    assert!(app.is_row_visible(&vec![" x ".to_string(), "".to_string()]));
}

#[test]
fn total_pages_is_ceiling_division() {
    let mut rows: Vec<Vec<String>> = vec![vec!["h".to_string()]];
    for i in 0..12 {
        rows.push(vec![format!("r{}", i)]);
    }
    let mut app = App::new(
        vec!["S".to_string()],
        vec![Some(rows)],
        "wb.xlsx".to_string(),
    );
    assert!(app.load_sheet());
    app.columns = vec![ColumnState::Original];
    app.first_row = 0;
    app.rows_per_page = 5;
    assert_eq!(app.total_pages(), 3);
    app.rows_per_page = 12;
    assert_eq!(app.total_pages(), 1);
    app.rows_per_page = 13;
    assert_eq!(app.total_pages(), 1);
}

#[test]
fn total_pages_zero_without_visible_rows() {
    let mut app = app_with_sheet(&[&["h"], &[""], &["  "]]);
    app.columns = vec![ColumnState::NonEmpty];
    app.first_row = 0;
    assert_eq!(app.total_pages(), 0);
}

#[test]
fn page_resize_and_end_key_land_on_last_page() {
    // Twelve visible rows; shrinking the page size from ten to five gives
    // three pages, and End lands on page index two.
    let mut rows: Vec<Vec<String>> = vec![vec!["h".to_string()]];
    for i in 0..12 {
        rows.push(vec![format!("r{}", i)]);
    }
    let mut app = App::new(
        vec!["S".to_string()],
        vec![Some(rows)],
        "wb.xlsx".to_string(),
    );
    assert!(app.load_sheet());
    app.columns = vec![ColumnState::Original];
    app.first_row = 0;
    app.step = Step::Preview;
    for _ in 0..5 {
        app.handle_key(plain(Key::Char('-')));
    }
    assert_eq!(app.rows_per_page, 5);
    assert_eq!(app.current_page, 0);
    assert_eq!(app.total_pages(), 3);
    app.handle_key(plain(Key::End));
    assert_eq!(app.current_page, 2);
    app.handle_key(plain(Key::Right));
    assert_eq!(app.current_page, 2);
    app.handle_key(plain(Key::Left));
    assert_eq!(app.current_page, 1);
    app.handle_key(plain(Key::Home));
    assert_eq!(app.current_page, 0);
    app.handle_key(plain(Key::Left));
    assert_eq!(app.current_page, 0);
}

#[test]
fn rows_per_page_floor_is_five() {
    let mut app = app_with_sheet(&[&["h"], &["v"]]);
    app.step = Step::Preview;
    app.rows_per_page = 5;
    app.handle_key(plain(Key::Char('-')));
    assert_eq!(app.rows_per_page, 5);
    app.handle_key(plain(Key::Char('+')));
    assert_eq!(app.rows_per_page, 6);
}

#[test]
fn navigate_index_wraps_both_ways() {
    assert_eq!(navigate(0, 3, Key::Down), 1);
    assert_eq!(navigate(2, 3, Key::Down), 0);
    assert_eq!(navigate(0, 3, Key::Up), 2);
    assert_eq!(navigate(1, 3, Key::Up), 0);
    assert_eq!(navigate(1, 3, Key::Enter), 1);
}

fn navigate(cur: usize, len: usize, key: Key) -> usize {
    sheet_wizard::navigate_index(cur, len, key)
}

#[test]
fn col_select_toggles() {
    let mut app = app_with_sheet(&[&["a", "b"], &["1", "2"]]);
    app.step = Step::ColSelect;
    app.selected_column = 0;
    app.handle_key(plain(Key::Char(' ')));
    assert!(matches!(app.columns[0], ColumnState::NonEmpty));
    app.handle_key(plain(Key::Char(' ')));
    assert!(matches!(app.columns[0], ColumnState::Hidden));
    app.handle_key(plain(Key::Char('a')));
    assert!(app.columns.iter().all(|c| matches!(c, ColumnState::NonEmpty)));
    app.handle_key(plain(Key::Char('a')));
    assert!(app.columns.iter().all(|c| matches!(c, ColumnState::Hidden)));
    app.handle_key(plain(Key::Enter));
    assert!(matches!(app.step, Step::Preview));
    assert_eq!(app.selected_column, 0);
}

#[test]
fn preview_toggle_keeps_column_visible() {
    let mut app = app_with_sheet(&[&["a", "b"], &["1", "2"]]);
    app.step = Step::Preview;
    app.columns = vec![ColumnState::NonEmpty, ColumnState::Hidden];
    app.selected_column = 0;
    app.handle_key(plain(Key::Char(' ')));
    assert!(matches!(app.columns[0], ColumnState::Original));
    app.handle_key(plain(Key::Char(' ')));
    assert!(matches!(app.columns[0], ColumnState::NonEmpty));
    assert!(matches!(app.columns[1], ColumnState::Hidden));
}

#[test]
fn sheet_search_filters_case_insensitively() {
    let mut app = App::new(
        vec!["Alpha".to_string(), "Beta".to_string(), "alphabet".to_string()],
        vec![None, None, None],
        "wb.xlsx".to_string(),
    );
    app.selected_sheet = Some(1);
    app.handle_key(plain(Key::Char('A')));
    app.handle_key(plain(Key::Char('l')));
    assert_eq!(app.sheet_search, "Al");
    assert_eq!(app.matching_sheets, vec![0, 2]);
    assert_eq!(app.selected_sheet, Some(0));
    app.handle_key(plain(Key::Backspace));
    assert_eq!(app.sheet_search, "A");
    assert_eq!(app.matching_sheets, vec![0, 1, 2]);
}

#[test]
fn row_trim_accepts_only_valid_row_numbers() {
    let mut app = app_with_sheet(&[&["h"], &["a"], &["b"]]);
    app.step = Step::RowTrim;
    app.row_input = "7".to_string();
    app.handle_key(plain(Key::Enter));
    assert!(matches!(app.step, Step::RowTrim));
    assert_eq!(app.first_row, 0);
    app.row_input = "x".to_string();
    app.handle_key(plain(Key::Enter));
    assert!(matches!(app.step, Step::RowTrim));
    app.row_input = " 1 ".to_string();
    app.handle_key(plain(Key::Enter));
    assert_eq!(app.first_row, 1);
    assert!(matches!(app.step, Step::ColSelect));
}

#[test]
fn export_focus_cycles_fields() {
    let mut app = app_with_sheet(&[&["a"], &["1"]]);
    app.columns = vec![ColumnState::Original];
    app.step = Step::Export;
    app.export_focus_row = 0;
    app.export_edit = ExportEdit::FileName;
    app.handle_key(plain(Key::Tab));
    assert!(matches!(app.export_edit, ExportEdit::Deduplicate));
    app.handle_key(plain(Key::Char(' ')));
    assert!(!app.deduplicate);
    app.handle_key(plain(Key::Down));
    assert_eq!(app.export_focus_row, 1);
    assert!(matches!(app.export_edit, ExportEdit::KeyStr));
    app.handle_key(plain(Key::Char('k')));
    assert_eq!(app.custom_keys[0], "k");
    app.handle_key(plain(Key::Tab));
    assert!(matches!(app.export_edit, ExportEdit::Prefix));
    app.handle_key(plain(Key::Char('p')));
    assert_eq!(app.column_configs[0].prefix, "p");
    app.handle_key(plain(Key::Tab));
    assert!(matches!(app.export_edit, ExportEdit::Postfix));
    app.handle_key(plain(Key::Char('s')));
    assert_eq!(app.column_configs[0].postfix, "s");
    app.handle_key(plain(Key::Down));
    assert_eq!(app.export_focus_row, 0);
    app.handle_key(plain(Key::Up));
    assert_eq!(app.export_focus_row, 1);
    app.handle_key(plain(Key::Up));
    assert_eq!(app.export_focus_row, 0);
}

#[test]
fn ctrl_b_intercepts_and_only_moves_back() {
    let mut app = app_with_sheet(&[&["a"], &["1"]]);
    app.step = Step::Export;
    let out = app.handle_key(ctrl(Key::Char('b')));
    assert!(matches!(out, Outcome::Continue));
    assert!(matches!(app.step, Step::Preview));
    // On the first step, back loops in place and the intercepted event
    // never reaches the search field.
    let mut app = App::new(
        vec!["Alpha".to_string(), "Beta".to_string()],
        vec![None, None],
        "wb.xlsx".to_string(),
    );
    app.selected_sheet = Some(1);
    app.handle_key(ctrl(Key::Char('b')));
    assert!(matches!(app.step, Step::SheetSelect));
    assert_eq!(app.sheet_search, "");
    assert_eq!(app.matching_sheets, Vec::<usize>::new());
    assert_eq!(app.selected_sheet, Some(1));
}

#[test]
fn toast_set_and_cleared() {
    let mut app = app_with_sheet(&[&["a"], &["1"]]);
    app.set_export_success("data");
    assert_eq!(
        app.export_toast.as_deref(),
        Some("Exported to data.json successfully")
    );
    app.clear_export_toast();
    assert!(app.export_toast.is_none());
}
