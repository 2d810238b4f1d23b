//! An interactive wizard core that turns a spreadsheet workbook into
//! structured JSON records: sheet selection, header-row choice, cross-sheet
//! merging on shared column names, column filtering, pagination, and
//! record construction with per-column key/prefix/postfix configuration.
pub mod export;
pub mod filter;
pub mod merge;
pub mod text;
pub mod types;
pub mod wizard;

pub use export::JsonRecord;
pub use export::deduplicate_records;
pub use text::is_blank;
pub use text::normalize_text;
pub use text::parse_usize;
pub use text::str_contains;
pub use text::str_eq;
pub use text::trimmed;
pub use types::App;
pub use types::ColumnConfig;
pub use types::ColumnState;
pub use types::ExportEdit;
pub use types::MergeCandidate;
pub use types::Step;
pub use wizard::Key;
pub use wizard::KeyEvent;
pub use wizard::Outcome;
pub use wizard::navigate_index;
