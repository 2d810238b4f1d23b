//! The wizard's data model: column states, per-column export configuration,
//! the interaction steps, and the central `App` state that every step
//! handler reads and mutates.
use vstd::prelude::*;

use crate::text::normalize_spec;
use crate::text::normalize_text;
use crate::text::stem_of;
use crate::text::file_stem_str;
use crate::text::str_eq;

verus! {

/// State of one column in the filter model.
#[derive(Copy, Clone, PartialEq, Eq, Structural, Debug)]
pub enum ColumnState {
    /// Never shown, never exported.
    Hidden,
    /// Shown and exported; imposes no constraint on row visibility.
    Original,
    /// Shown and exported; rows whose cell in this column is blank are dropped.
    NonEmpty,
}

/// True for the states that let a column take part in preview and export.
pub open spec fn is_shown(c: ColumnState) -> bool {
    c == ColumnState::Original || c == ColumnState::NonEmpty
}

/// Whether a column in state `c` is shown, decided in executable code.
pub fn column_is_shown(c: ColumnState) -> (r: bool)
    ensures
        r == is_shown(c),
{
    match c {
        ColumnState::Hidden => false,
        ColumnState::Original => true,
        ColumnState::NonEmpty => true,
    }
}

/// Editable text put around a cell value at export time.
#[derive(Clone)]
pub struct ColumnConfig {
    pub prefix: String,
    pub postfix: String,
}

impl Default for ColumnConfig {
    /// An empty prefix and an empty postfix.
    fn default() -> (r: Self)
        ensures
            r.prefix@ == Seq::<char>::empty(),
            r.postfix@ == Seq::<char>::empty(),
    {
        Self { prefix: String::new(), postfix: String::new() }
    }
}

/// The ordered steps of the wizard.
#[derive(Copy, Clone, PartialEq, Eq, Structural, Debug)]
pub enum Step {
    SheetSelect,
    RowTrim,
    MergePrompt,
    ColSelect,
    Preview,
    Export,
}

/// Which editable sub-field of the export screen has focus.
#[derive(Copy, Clone, PartialEq, Eq, Structural, Debug)]
pub enum ExportEdit {
    FileName,
    Deduplicate,
    KeyStr,
    Prefix,
    Postfix,
}

/// One sheet that can be merged into the selected one: its position in the
/// workbook, its name, and the trimmed header names it shares with the
/// selected sheet's header row.
#[derive(Clone)]
pub struct MergeCandidate {
    pub index: usize,
    pub name: String,
    pub shared: Vec<String>,
}

/// The whole wizard state.
pub struct App {
    /// Names of the workbook's sheets, in workbook order.
    pub sheets: Vec<String>,
    /// The decoded grid of each sheet, in the same order as `sheets`;
    /// `None` where the sheet could not be decoded.
    pub grids: Vec<Option<Vec<Vec<String>>>>,
    /// The sheet the selection cursor rests on.
    pub selected_sheet: Option<usize>,
    /// The grid of the loaded sheet (or the merged grid).
    pub data: Vec<Vec<String>>,
    /// The row of `data` holding the column names.
    pub first_row: usize,
    /// Per-column filter state; parallel to `column_configs` and `custom_keys`.
    pub columns: Vec<ColumnState>,
    /// The column the cursor rests on (an index into the visible columns
    /// while previewing, into all columns while selecting).
    pub selected_column: usize,
    /// The current wizard step.
    pub step: Step,
    /// The text of the header-row number field.
    pub row_input: String,
    /// The page of visible rows currently shown.
    pub current_page: usize,
    /// How many visible rows one page holds.
    pub rows_per_page: usize,
    /// The text of the sheet search field.
    pub sheet_search: String,
    /// Indices of the sheets whose name matches the search text.
    pub matching_sheets: Vec<usize>,
    /// Per-column prefix and postfix; parallel to `columns`.
    pub column_configs: Vec<ColumnConfig>,
    /// The export-screen row that has focus: 0 is the filename/deduplicate
    /// row, row k+1 is the k-th visible column.
    pub export_focus_row: usize,
    /// The editable sub-field that has focus on the export screen.
    pub export_edit: ExportEdit,
    /// Per-column custom export key; parallel to `columns`.
    pub custom_keys: Vec<String>,
    /// The text of the export filename field.
    pub export_filename: String,
    /// The transient success message, while one is shown.
    pub export_toast: Option<String>,
    /// The merge candidates found for the chosen header row, while the
    /// merge prompt is open.
    pub merge_info: Option<Vec<MergeCandidate>>,
    /// Whether duplicate records collapse to one at export time.
    pub deduplicate: bool,
    /// The workbook's path as given on the command line.
    pub original_filename: String,
}

impl App {
    /// The structural invariant of the wizard state: the three per-column
    /// sequences stay parallel, one grid is recorded per sheet, the page
    /// size keeps its floor, every search match names an existing sheet,
    /// and past the header-row step the header row lies inside the data.
    pub open spec fn wf(self) -> bool {
        &&& self.columns@.len() == self.column_configs@.len()
        &&& self.columns@.len() == self.custom_keys@.len()
        &&& self.grids@.len() == self.sheets@.len()
        &&& self.rows_per_page >= 5
        &&& forall|i: int|
            0 <= i < self.matching_sheets@.len() ==> self.matching_sheets@[i]
                < self.sheets@.len()
        &&& (self.step == Step::MergePrompt || self.step == Step::ColSelect || self.step
            == Step::Preview || self.step == Step::Export) ==> self.first_row
            < self.data@.len()
    }

    /// Builds the initial state over an already decoded workbook: the
    /// wizard starts on the sheet-selection step with the first sheet
    /// under the cursor and every setting at its default.
    pub fn new(
        sheets: Vec<String>,
        grids: Vec<Option<Vec<Vec<String>>>>,
        original_filename: String,
    ) -> (r: App)
        requires
            sheets@.len() == grids@.len(),
        ensures
            r.wf(),
            r.sheets == sheets,
            r.grids == grids,
            r.selected_sheet == Some(0usize),
            r.data@.len() == 0,
            r.first_row == 0,
            r.columns@.len() == 0,
            r.selected_column == 0,
            r.step == Step::SheetSelect,
            r.row_input@ == Seq::<char>::empty(),
            r.current_page == 0,
            r.rows_per_page == 10,
            r.sheet_search@ == Seq::<char>::empty(),
            r.matching_sheets@.len() == 0,
            r.export_focus_row == 0,
            r.export_edit == ExportEdit::FileName,
            r.export_filename@ == "export"@,
            r.export_toast is None,
            r.merge_info is None,
            r.deduplicate == true,
            r.original_filename == original_filename,
    {
        App {
            sheets,
            grids,
            selected_sheet: Some(0),
            data: Vec::new(),
            first_row: 0,
            columns: Vec::new(),
            selected_column: 0,
            step: Step::SheetSelect,
            row_input: String::new(),
            current_page: 0,
            rows_per_page: 10,
            sheet_search: String::new(),
            matching_sheets: Vec::new(),
            column_configs: Vec::new(),
            export_focus_row: 0,
            export_edit: ExportEdit::FileName,
            custom_keys: Vec::new(),
            export_filename: "export".to_owned(),
            export_toast: None,
            merge_info: None,
            deduplicate: true,
            original_filename,
        }
    }

    /// The predecessor of each step for back-navigation; the first step
    /// loops on itself.
    pub open spec fn back_step(s: Step) -> Step {
        match s {
            Step::SheetSelect => Step::SheetSelect,
            Step::Export => Step::Preview,
            Step::Preview => Step::ColSelect,
            Step::ColSelect => Step::RowTrim,
            Step::MergePrompt => Step::RowTrim,
            Step::RowTrim => Step::SheetSelect,
        }
    }

    /// The step the wizard returns to when the user navigates back.
    pub fn handle_back(&self) -> (r: Step)
        ensures
            r == Self::back_step(self.step),
    {
        match self.step {
            Step::SheetSelect => Step::SheetSelect,
            Step::Export => Step::Preview,
            Step::Preview => Step::ColSelect,
            Step::ColSelect => Step::RowTrim,
            Step::MergePrompt => Step::RowTrim,
            Step::RowTrim => Step::SheetSelect,
        }
    }

    /// The sentinel sheet name that stands for a merged table.
    pub open spec fn merged_label() -> Seq<char> {
        "[Merged]"@
    }

    /// The default export filename: once the sheet list has collapsed to
    /// the merged sentinel, the workbook file's stem; otherwise the
    /// normalized name of the sheet under the cursor, or a fixed fallback
    /// when no sheet is under it.
    pub open spec fn default_filename_spec(self) -> Seq<char> {
        if self.sheets@.len() > 0 && self.sheets@[0]@ == Self::merged_label() {
            match stem_of(self.original_filename@) {
                Some(t) => t,
                None => self.original_filename@,
            }
        } else {
            match self.selected_sheet {
                Some(idx) => if idx < self.sheets@.len() {
                    normalize_spec(self.sheets@[idx as int]@)
                } else {
                    "export"@
                },
                None => "export"@,
            }
        }
    }

    /// Derives the default export filename.
    pub fn get_default_filename(&self) -> (r: String)
        ensures
            r@ == self.default_filename_spec(),
    {
        let is_merged = self.sheets.len() > 0 && str_eq(self.sheets[0].as_str(), "[Merged]");
        if is_merged {
            match file_stem_str(self.original_filename.as_str()) {
                Some(t) => t,
                None => self.original_filename.clone(),
            }
        } else {
            match self.selected_sheet {
                Some(idx) => if idx < self.sheets.len() {
                    normalize_text(self.sheets[idx].as_str())
                } else {
                    "export".to_owned()
                },
                None => "export".to_owned(),
            }
        }
    }
}

} // verus!
