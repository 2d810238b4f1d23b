use sheet_wizard::App;
use sheet_wizard::ColumnState;
use sheet_wizard::Key;
use sheet_wizard::KeyEvent;
use sheet_wizard::Outcome;
use sheet_wizard::Step;
use sheet_wizard::deduplicate_records;
use sheet_wizard::is_blank;
use sheet_wizard::normalize_text;
use sheet_wizard::parse_usize;
use sheet_wizard::str_contains;
use sheet_wizard::trimmed;

fn grid(rows: &[&[&str]]) -> Vec<Vec<String>> {
    rows.iter().map(|r| r.iter().map(|c| c.to_string()).collect()).collect()
}

fn pairs(fields: &[(&str, &str)]) -> Vec<(String, String)> {
    fields.iter().map(|(k, v)| (k.to_string(), v.to_string())).collect()
}

fn app_with_sheet(rows: &[&[&str]]) -> App {
    let mut app = App::new(
        vec!["Data".to_string()],
        vec![Some(grid(rows))],
        "book.xlsx".to_string(),
    );
    assert!(app.load_sheet());
    app
}

#[test]
fn normalizer_lowercases_and_substitutes() {
    assert_eq!(normalize_text("First Name"), "first_name");
    assert_eq!(normalize_text("Æneid"), "aeneid");
    assert_eq!(normalize_text("A-B C"), "a_b_c");
    assert_eq!(normalize_text("ABC"), "abc");
    assert_eq!(normalize_text(""), "");
}

#[test]
fn normalizer_is_idempotent() {
    for s in ["Æ First-Name", "already_normal", "Mixed CASE-Text", ""] {
        let once = normalize_text(s);
        assert_eq!(normalize_text(&once), once);
    }
}

#[test]
fn text_helpers_behave() {
    assert!(is_blank("   "));
    assert!(!is_blank(" x "));
    assert_eq!(trimmed("  x y  "), "x y");
    assert_eq!(parse_usize("42"), Some(42));
    assert_eq!(parse_usize("+7"), Some(7));
    assert_eq!(parse_usize(""), None);
    assert_eq!(parse_usize("4x"), None);
    assert_eq!(parse_usize("99999999999999999999999999"), None);
    assert!(str_contains("alphabet", "phab"));
    assert!(str_contains("alphabet", ""));
    assert!(!str_contains("alpha", "beta"));
}

#[test]
fn blank_row_excluded_from_export() {
    // Header ["Name","Age"] at row zero, one full row and one blank row;
    // with Age filtering blanks only the full row is exported, under
    // normalized default keys.
    let mut app = app_with_sheet(&[&["Name", "Age"], &["Ann", "30"], &["", ""]]);
    app.first_row = 0;
    app.columns = vec![ColumnState::Original, ColumnState::NonEmpty];
    let records = app.create_json_records();
    assert_eq!(records.len(), 1);
    assert_eq!(records[0], pairs(&[("name", "Ann"), ("age", "30")]));
}

#[test]
fn blank_custom_key_falls_back_to_normalized_header() {
    let mut app = app_with_sheet(&[&["First Name"], &["Ann"]]);
    app.first_row = 0;
    app.columns = vec![ColumnState::Original];
    app.custom_keys = vec![String::new()];
    let records = app.create_json_records();
    assert_eq!(records[0], pairs(&[("first_name", "Ann")]));
    app.custom_keys = vec!["   ".to_string()];
    let records = app.create_json_records();
    assert_eq!(records[0], pairs(&[("first_name", "Ann")]));
    app.custom_keys = vec!["Given".to_string()];
    let records = app.create_json_records();
    assert_eq!(records[0], pairs(&[("given", "Ann")]));
}

#[test]
fn prefix_and_postfix_wrap_values() {
    let mut app = app_with_sheet(&[&["n"], &["5"]]);
    app.first_row = 0;
    app.columns = vec![ColumnState::Original];
    app.column_configs[0].prefix = "<".to_string();
    app.column_configs[0].postfix = ">".to_string();
    let records = app.create_json_records();
    assert_eq!(records[0], pairs(&[("n", "<5>")]));
}

#[test]
fn hidden_columns_never_exported() {
    let mut app = app_with_sheet(&[&["a", "b"], &["1", "2"]]);
    app.first_row = 0;
    app.columns = vec![ColumnState::Hidden, ColumnState::Original];
    let records = app.create_json_records();
    assert_eq!(records[0], pairs(&[("b", "2")]));
}

#[test]
fn deduplication_is_idempotent_and_keeps_first_occurrence_order() {
    let records = vec![
        pairs(&[("a", "1")]),
        pairs(&[("a", "2")]),
        pairs(&[("a", "1")]),
        pairs(&[("a", "3")]),
        pairs(&[("a", "2")]),
    ];
    let once = deduplicate_records(&records);
    assert_eq!(
        once,
        vec![pairs(&[("a", "1")]), pairs(&[("a", "2")]), pairs(&[("a", "3")])]
    );
    let twice = deduplicate_records(&once);
    assert_eq!(twice, once);
}

#[test]
fn duplicate_records_collapse_only_when_enabled() {
    let mut app = app_with_sheet(&[&["a"], &["1"], &["1"]]);
    app.first_row = 0;
    app.columns = vec![ColumnState::Original];
    app.deduplicate = true;
    let (_, deduped) = app.build_export();
    assert_eq!(deduped.len(), 1);
    app.deduplicate = false;
    let (_, kept) = app.build_export();
    assert_eq!(kept.len(), 2);
    assert_eq!(kept[0], kept[1]);
}

#[test]
fn export_filename_normalizes_or_falls_back() {
    let mut app = app_with_sheet(&[&["a"], &["1"]]);
    app.columns = vec![ColumnState::Original];
    app.export_filename = "My Export".to_string();
    let (name, _) = app.build_export();
    assert_eq!(name, "my_export");
    app.export_filename = String::new();
    let (name, _) = app.build_export();
    assert_eq!(name, "data");
    app.export_filename = "   ".to_string();
    let (name, _) = app.build_export();
    assert_eq!(name, "data");
}

#[test]
fn export_key_event_assembles_records() {
    let mut app = app_with_sheet(&[&["a"], &["1"], &[""]]);
    app.first_row = 0;
    app.columns = vec![ColumnState::NonEmpty];
    app.step = Step::Export;
    let out = app.handle_key(KeyEvent { code: Key::Enter, ctrl: false });
    match out {
        Outcome::Export(name, records) => {
            assert_eq!(name, "data");
            assert_eq!(records, vec![pairs(&[("a", "1")])]);
        }
        _ => panic!("expected an export outcome"),
    }
}

#[test]
fn merge_candidates_need_shared_trimmed_names() {
    let mut app = App::new(
        vec!["P".to_string(), "Q".to_string(), "R".to_string()],
        vec![
            Some(grid(&[&["id ", "x"], &["1", "a"]])),
            Some(grid(&[&[" id", "y"], &["2", "b"]])),
            Some(grid(&[&["z"], &["3"]])),
        ],
        "book.xlsx".to_string(),
    );
    assert!(app.load_sheet());
    app.first_row = 0;
    let cands = app.check_merge_options();
    assert_eq!(cands.len(), 1);
    assert_eq!(cands[0].index, 1);
    assert_eq!(cands[0].name, "Q");
    assert_eq!(cands[0].shared, vec!["id".to_string()]);
}

#[test]
fn merge_joins_on_shared_column() {
    // Two sheets sharing only "id": the merged header is exactly ["id"]
    // and the rows are both sheets' id values in sheet-then-row order.
    let mut app = App::new(
        vec!["P".to_string(), "Q".to_string()],
        vec![
            Some(grid(&[&["id", "x"], &["1", "a"], &["2", "b"]])),
            Some(grid(&[&["y", "id"], &["c", "3"]])),
        ],
        "book.xlsx".to_string(),
    );
    assert!(app.load_sheet());
    app.first_row = 0;
    app.step = Step::RowTrim;
    app.row_input = "0".to_string();
    app.handle_key(KeyEvent { code: Key::Enter, ctrl: false });
    assert!(matches!(app.step, Step::MergePrompt));
    app.handle_key(KeyEvent { code: Key::Char('y'), ctrl: false });
    assert!(matches!(app.step, Step::ColSelect));
    assert_eq!(
        app.data,
        grid(&[&["id"], &["1"], &["2"], &["3"]])
    );
    assert_eq!(app.sheets, vec!["[Merged]".to_string()]);
    assert_eq!(app.selected_sheet, Some(0));
    assert_eq!(app.first_row, 0);
    assert_eq!(app.export_filename, "book");
}

#[test]
fn merge_row_count_sums_contributions() {
    let mut app = App::new(
        vec!["P".to_string(), "Q".to_string(), "R".to_string()],
        vec![
            Some(grid(&[&["k"], &["1"], &["2"]])),
            Some(grid(&[&["k"], &["3"]])),
            Some(grid(&[&["k"], &["4"], &["5"], &["6"]])),
        ],
        "book.xlsx".to_string(),
    );
    assert!(app.load_sheet());
    app.first_row = 0;
    let cands = app.check_merge_options();
    app.merge_info = Some(cands);
    app.perform_merge();
    assert_eq!(app.data.len(), 1 + 2 + 1 + 3);
}

#[test]
fn merge_fills_missing_names_with_empty_text() {
    let mut app = App::new(
        vec!["P".to_string(), "Q".to_string()],
        vec![
            Some(grid(&[&["a", "b"], &["1", "2"]])),
            Some(grid(&[&["a", "b"], &["3"]])),
        ],
        "book.xlsx".to_string(),
    );
    assert!(app.load_sheet());
    app.first_row = 0;
    let cands = app.check_merge_options();
    app.merge_info = Some(cands);
    app.perform_merge();
    assert_eq!(app.data, grid(&[&["a", "b"], &["1", "2"], &["3", ""]]));
}

#[test]
fn merge_common_set_ignores_candidate_order() {
    // The same three sheets, with the two candidates in swapped workbook
    // order, produce the same merged header.
    let p = grid(&[&["a", "b", "c"], &["1", "2", "3"]]);
    let s1 = grid(&[&["a", "b"], &["4", "5"]]);
    let s2 = grid(&[&["b", "c"], &["6", "7"]]);
    let mut first = App::new(
        vec!["P".to_string(), "X".to_string(), "Y".to_string()],
        vec![Some(p.clone()), Some(s1.clone()), Some(s2.clone())],
        "book.xlsx".to_string(),
    );
    assert!(first.load_sheet());
    first.first_row = 0;
    let cands = first.check_merge_options();
    first.merge_info = Some(cands);
    first.perform_merge();
    let mut second = App::new(
        vec!["P".to_string(), "Y".to_string(), "X".to_string()],
        vec![Some(p), Some(s2), Some(s1)],
        "book.xlsx".to_string(),
    );
    assert!(second.load_sheet());
    second.first_row = 0;
    let cands = second.check_merge_options();
    second.merge_info = Some(cands);
    second.perform_merge();
    assert_eq!(first.data[0], vec!["b".to_string()]);
    assert_eq!(first.data[0], second.data[0]);
}

#[test]
fn page_rows_slice_visible_rows() {
    let mut rows: Vec<Vec<String>> = vec![vec!["h".to_string()]];
    for i in 0..7 {
        rows.push(vec![format!("r{}", i)]);
    }
    let mut app = App::new(
        vec!["S".to_string()],
        vec![Some(rows)],
        "wb.xlsx".to_string(),
    );
    assert!(app.load_sheet());
    app.columns = vec![ColumnState::Original];
    app.first_row = 0;
    app.rows_per_page = 5;
    app.current_page = 1;
    let page = app.page_rows();
    assert_eq!(page, grid(&[&["r5"], &["r6"]]));
    app.current_page = 9;
    assert_eq!(app.page_rows(), Vec::<Vec<String>>::new());
}

#[test]
fn default_filename_uses_stem_after_merge() {
    let mut app = App::new(
        vec!["[Merged]".to_string()],
        vec![None],
        "dir/work book.xlsx".to_string(),
    );
    app.selected_sheet = Some(0);
    assert_eq!(app.get_default_filename(), "work book");
    app.sheets = vec!["Sheet One".to_string()];
    assert_eq!(app.get_default_filename(), "sheet_one");
}
