//! The wizard state machine: one key event at a time moves the state
//! through sheet selection, header-row choice, the optional merge prompt,
//! column selection, preview, and export.
use vstd::prelude::*;

use crate::export::JsonRecord;
use crate::filter::visible_cols_spec;
use crate::text::contains_sub;
use crate::text::lower_of;
use crate::text::pop_char;
use crate::text::push_char;
use crate::text::str_contains;
use crate::text::to_lowercase_str;
use crate::types::App;
use crate::types::ColumnState;
use vstd::arithmetic::div_mod::lemma_fundamental_div_mod;
use vstd::arithmetic::div_mod::lemma_fundamental_div_mod_converse;
use vstd::arithmetic::div_mod::lemma_mod_bound;
use vstd::string::StringExecFns;

verus! {

/// One key, as the terminal layer reports it.
#[derive(Copy, Clone, PartialEq, Eq, Structural, Debug)]
pub enum Key {
    Char(char),
    Up,
    Down,
    Left,
    Right,
    Home,
    End,
    Enter,
    Tab,
    Backspace,
    Other,
}

/// One key event: the key plus whether the control modifier was held.
#[derive(Copy, Clone, PartialEq, Eq, Structural, Debug)]
pub struct KeyEvent {
    pub code: Key,
    pub ctrl: bool,
}

/// What the caller must do after one event is handled: keep looping,
/// terminate, or write the assembled export to disk.
pub enum Outcome {
    Continue,
    Quit,
    Export(String, Vec<JsonRecord>),
}

/// How one key event edits a text field: a plain character is appended,
/// backspace removes the last character, everything else leaves the text.
pub open spec fn text_edited(s: Seq<char>, key: KeyEvent) -> Seq<char> {
    match key.code {
        Key::Char(c) => if !key.ctrl {
            s.push(c)
        } else {
            s
        },
        Key::Backspace => if s.len() > 0 {
            s.drop_last()
        } else {
            s
        },
        _ => s,
    }
}

/// Applies one key event to an editable text field.
pub fn apply_text_edit(field: &mut String, key: KeyEvent)
    ensures
        final(field)@ == text_edited(old(field)@, key),
{
    match key.code {
        Key::Char(c) => {
            if !key.ctrl {
                push_char(field, c);
            }
        },
        Key::Backspace => {
            let popped = pop_char(field);
        },
        _ => {},
    }
}

/// Where a wrap-around cursor lands: down moves one forward, up one back,
/// both modulo the sequence length; other keys hold still.
pub open spec fn navigate_spec(cur: int, len: int, key: Key) -> int
    recommends
        len > 0,
{
    match key {
        Key::Down => (cur + 1) % len,
        Key::Up => (cur + len - 1) % len,
        _ => cur,
    }
}

/// Moves a wrap-around cursor over a non-empty sequence.
pub fn navigate_index(cur: usize, len: usize, key: Key) -> (r: usize)
    requires
        len > 0,
    ensures
        r as int == navigate_spec(cur as int, len as int, key),
{
    let c: usize = cur % len;
    proof {
        lemma_fundamental_div_mod(cur as int, len as int);
        lemma_mod_bound(cur as int, len as int);
    }
    let ghost q = cur as int / len as int;
    match key {
        Key::Down => {
            let r: usize = if c + 1 == len {
                0
            } else {
                c + 1
            };
            proof {
                assert(q * (len as int) == (len as int) * q) by (nonlinear_arith);
                if c + 1 == len {
                    assert((q + 1) * (len as int) == q * (len as int) + len) by (nonlinear_arith);
                    lemma_fundamental_div_mod_converse(cur as int + 1, len as int, q + 1, 0);
                } else {
                    lemma_fundamental_div_mod_converse(
                        cur as int + 1,
                        len as int,
                        q,
                        c as int + 1,
                    );
                }
            }
            r
        },
        Key::Up => {
            let r: usize = if c == 0 {
                len - 1
            } else {
                c - 1
            };
            proof {
                assert(q * (len as int) == (len as int) * q) by (nonlinear_arith);
                if c == 0 {
                    lemma_fundamental_div_mod_converse(
                        cur as int + len - 1,
                        len as int,
                        q,
                        len as int - 1,
                    );
                } else {
                    assert((q + 1) * (len as int) == q * (len as int) + len) by (nonlinear_arith);
                    lemma_fundamental_div_mod_converse(
                        cur as int + len - 1,
                        len as int,
                        q + 1,
                        c as int - 1,
                    );
                }
            }
            r
        },
        _ => cur,
    }
}

/// Whether the sheet name at position `i` contains the search text,
/// ignoring case.
pub open spec fn sheet_matches(sheets: Seq<String>, search: Seq<char>, i: int) -> bool {
    contains_sub(lower_of(sheets[i]@), lower_of(search))
}

/// The positions among the first `n` sheets whose name matches the
/// search text, in order.
pub open spec fn matches_upto(sheets: Seq<String>, search: Seq<char>, n: int) -> Seq<usize>
    decreases n,
{
    if n <= 0 {
        Seq::empty()
    } else {
        matches_upto(sheets, search, n - 1) + (if sheet_matches(sheets, search, n - 1) {
            seq![(n - 1) as usize]
        } else {
            Seq::empty()
        })
    }
}

impl App {
    /// Recomputes which sheet names contain the search text, ignoring
    /// case, and moves the cursor to the first match if any sheet
    /// matches.
    pub fn update_sheet_search(&mut self)
        requires
            old(self).wf(),
        ensures
            final(self).wf(),
            final(self).matching_sheets@ == matches_upto(
                old(self).sheets@,
                old(self).sheet_search@,
                old(self).sheets@.len() as int,
            ),
            final(self).selected_sheet == (if final(self).matching_sheets@.len() > 0 {
                Some(final(self).matching_sheets@[0])
            } else {
                old(self).selected_sheet
            }),
            *final(self) == (App {
                matching_sheets: final(self).matching_sheets,
                selected_sheet: final(self).selected_sheet,
                ..*old(self)
            }),
    {
        let search_lower = to_lowercase_str(self.sheet_search.as_str());
        let n: usize = self.sheets.len();
        let mut found: Vec<usize> = Vec::new();
        let mut i: usize = 0;
        while i < n
            invariant
                search_lower@ == lower_of(self.sheet_search@),
                n == self.sheets@.len(),
                i <= n,
                found@ == matches_upto(self.sheets@, self.sheet_search@, i as int),
                forall|j: int| 0 <= j < found@.len() ==> found@[j] < n,
            decreases n - i,
        {
            let name_lower = to_lowercase_str(self.sheets[i].as_str());
            if str_contains(name_lower.as_str(), search_lower.as_str()) {
                found.push(i);
            }
            proof {
                assert(found@ =~= matches_upto(self.sheets@, self.sheet_search@, i + 1));
            }
            i = i + 1;
        }
        let first_match: Option<usize> = if found.len() > 0 {
            Some(found[0])
        } else {
            None
        };
        self.matching_sheets = found;
        match first_match {
            Some(f) => {
                self.selected_sheet = Some(f);
            },
            None => {},
        }
    }
}

} // verus!

verus! {

/// What a space toggle does on the column-selection step: a hidden column
/// starts filtering blanks, any shown column hides.
pub open spec fn toggle_select(c: ColumnState) -> ColumnState {
    match c {
        ColumnState::Hidden => ColumnState::NonEmpty,
        _ => ColumnState::Hidden,
    }
}

/// What a space toggle does on the preview step: an always-shown column
/// starts filtering blanks, any other shown column stops.
pub open spec fn toggle_filter(c: ColumnState) -> ColumnState {
    match c {
        ColumnState::Original => ColumnState::NonEmpty,
        _ => ColumnState::Original,
    }
}

/// Whether every column is hidden.
pub open spec fn all_hidden(cols: Seq<ColumnState>) -> bool {
    forall|i: int| 0 <= i < cols.len() ==> cols[i] == ColumnState::Hidden
}

fn clone_grid(g: &Vec<Vec<String>>) -> (r: Vec<Vec<String>>)
    ensures
        r.deep_view() == g.deep_view(),
        r@.len() == g@.len(),
{
    let n: usize = g.len();
    let mut out: Vec<Vec<String>> = Vec::new();
    let mut i: usize = 0;
    while i < n
        invariant
            n == g@.len(),
            i <= n,
            out.deep_view() == g.deep_view().take(i as int),
            out@.len() == i,
        decreases n - i,
    {
        let ghost pre = out.deep_view();
        let row = crate::merge::clone_cells(&g[i]);
        let ghost rdv = row.deep_view();
        proof {
            assert(rdv =~~= g.deep_view()[i as int]);
        }
        out.push(row);
        proof {
            assert(out.deep_view() =~~= pre.push(rdv));
            assert(out.deep_view() =~~= g.deep_view().take(i + 1));
        }
        i = i + 1;
    }
    proof {
        assert(g.deep_view().take(n as int) =~= g.deep_view());
    }
    out
}

impl App {
    /// Whether a sheet can be loaded: the cursor rests on a sheet of the
    /// workbook whose grid decoded and holds at least one row.
    pub open spec fn load_applicable(self) -> bool {
        match self.selected_sheet {
            Some(i) => i < self.grids@.len() && (match self.grids.deep_view()[i as int] {
                Some(g) => g.len() > 0,
                None => false,
            }),
            None => false,
        }
    }

    /// The decoded grid under the selection cursor.
    pub open spec fn selected_grid(self) -> Seq<Seq<Seq<char>>> {
        self.grids.deep_view()[self.selected_index()]->Some_0
    }

    /// Loads the sheet under the cursor: the grid becomes the working
    /// data, every per-column state resets to hidden with empty
    /// configuration, and the export filename takes its derived default.
    /// Reports failure, changing nothing, when the sheet did not decode
    /// or holds no rows.
    pub fn load_sheet(&mut self) -> (r: bool)
        requires
            old(self).wf(),
            old(self).step == crate::types::Step::SheetSelect,
        ensures
            final(self).wf(),
            r == old(self).load_applicable(),
            !old(self).load_applicable() ==> *final(self) == *old(self),
            old(self).load_applicable() ==> {
                &&& final(self).data.deep_view() == old(self).selected_grid()
                &&& final(self).columns@.len() == old(self).selected_grid()[0].len()
                &&& (forall|k: int|
                    0 <= k < final(self).columns@.len() ==> final(self).columns@[k]
                        == ColumnState::Hidden)
                &&& final(self).column_configs@.len() == final(self).columns@.len()
                &&& (forall|k: int|
                    0 <= k < final(self).column_configs@.len() ==> final(self).column_configs@[k].prefix@.len() == 0 && final(self).column_configs@[k].postfix@.len() == 0)
                &&& final(self).custom_keys@.len() == final(self).columns@.len()
                &&& (forall|k: int|
                    0 <= k < final(self).custom_keys@.len() ==> final(self).custom_keys@[k]@.len()
                        == 0)
                &&& final(self).export_filename@ == old(self).default_filename_spec()
                &&& *final(self) == (App {
                    data: final(self).data,
                    columns: final(self).columns,
                    column_configs: final(self).column_configs,
                    custom_keys: final(self).custom_keys,
                    export_filename: final(self).export_filename,
                    ..*old(self)
                })
            },
    {
        let idx: usize = match self.selected_sheet {
            Some(i) => i,
            None => {
                return false;
            },
        };
        if idx >= self.grids.len() {
            return false;
        }
        let loaded: Option<Vec<Vec<String>>> = match &self.grids[idx] {
            Some(grid) => {
                if grid.len() == 0 {
                    None
                } else {
                    Some(clone_grid(grid))
                }
            },
            None => None,
        };
        proof {
            assert(self.grids.deep_view()[idx as int] == self.grids@[idx as int].deep_view());
        }
        match loaded {
            Some(data_new) => {
                proof {
                    assert(data_new.deep_view() == old(self).selected_grid());
                    assert(data_new@.len() > 0);
                    assert(data_new.deep_view()[0] == data_new@[0].deep_view());
                }
                let col_count: usize = data_new[0].len();
                self.data = data_new;
                let mut cols: Vec<ColumnState> = Vec::new();
                let mut configs: Vec<crate::types::ColumnConfig> = Vec::new();
                let mut keys: Vec<String> = Vec::new();
                let mut k: usize = 0;
                while k < col_count
                    invariant
                        k <= col_count,
                        cols@.len() == k,
                        configs@.len() == k,
                        keys@.len() == k,
                        forall|j: int| 0 <= j < k ==> cols@[j] == ColumnState::Hidden,
                        forall|j: int|
                            0 <= j < k ==> configs@[j].prefix@.len() == 0 && configs@[
                                j].postfix@.len() == 0,
                        forall|j: int| 0 <= j < k ==> keys@[j]@.len() == 0,
                    decreases col_count - k,
                {
                    cols.push(ColumnState::Hidden);
                    configs.push(crate::types::ColumnConfig::default());
                    keys.push(String::new());
                    k = k + 1;
                }
                self.columns = cols;
                self.column_configs = configs;
                self.custom_keys = keys;
                let df = self.get_default_filename();
                self.export_filename = df;
                true
            },
            None => false,
        }
    }

    /// Toggles the focused column between hidden and blank-filtering on
    /// the column-selection step; out-of-range focus changes nothing.
    pub fn toggle_col_select(&mut self)
        requires
            old(self).wf(),
        ensures
            final(self).wf(),
            old(self).selected_column < old(self).columns@.len() ==> final(self).columns@ == old(self).columns@.update(
                old(self).selected_column as int,
                toggle_select(old(self).columns@[old(self).selected_column as int]),
            ),
            old(self).selected_column >= old(self).columns@.len() ==> final(self).columns@ == old(self).columns@,
            *final(self) == (App { columns: final(self).columns, ..*old(self) }),
    {
        if self.selected_column < self.columns.len() {
            let cur = self.columns[self.selected_column];
            let newv = match cur {
                ColumnState::Hidden => ColumnState::NonEmpty,
                _ => ColumnState::Hidden,
            };
            self.columns[self.selected_column] = newv;
        }
    }

    /// Toggles the focused visible column between always-shown and
    /// blank-filtering on the preview step; with no visible column under
    /// the focus nothing changes.
    pub fn toggle_col_filter(&mut self)
        requires
            old(self).wf(),
        ensures
            final(self).wf(),
            old(self).selected_column < visible_cols_spec(old(self).columns@).len() ==> final(self).columns@ == old(self).columns@.update(
                visible_cols_spec(old(self).columns@)[old(self).selected_column as int] as int,
                toggle_filter(
                    old(self).columns@[visible_cols_spec(old(self).columns@)[old(self).selected_column as int] as int],
                ),
            ),
            old(self).selected_column >= visible_cols_spec(old(self).columns@).len() ==> final(self).columns@ == old(self).columns@,
            *final(self) == (App { columns: final(self).columns, ..*old(self) }),
    {
        let vis = self.visible_columns();
        let ncols: usize = self.columns.len();
        proof {
            assert(self.columns@.len() == ncols);
            crate::filter::lemma_visible_cols_ordered(self.columns@);
        }
        if self.selected_column < vis.len() {
            let col: usize = vis[self.selected_column];
            let cur = self.columns[col];
            let newv = match cur {
                ColumnState::Original => ColumnState::NonEmpty,
                _ => ColumnState::Original,
            };
            self.columns[col] = newv;
        }
    }

    /// Sets every column at once: all blank-filtering when all are
    /// hidden, else all hidden.
    pub fn toggle_all_col(&mut self)
        requires
            old(self).wf(),
        ensures
            final(self).wf(),
            final(self).columns@.len() == old(self).columns@.len(),
            forall|k: int|
                0 <= k < final(self).columns@.len() ==> final(self).columns@[k] == (if all_hidden(
                    old(self).columns@,
                ) {
                    ColumnState::NonEmpty
                } else {
                    ColumnState::Hidden
                }),
            *final(self) == (App { columns: final(self).columns, ..*old(self) }),
    {
        let n: usize = self.columns.len();
        let mut every_hidden = true;
        let mut i: usize = 0;
        while i < n
            invariant
                n == self.columns@.len(),
                i <= n,
                every_hidden == all_hidden(self.columns@.take(i as int)),
            decreases n - i,
        {
            let shown = match self.columns[i] {
                ColumnState::Hidden => false,
                _ => true,
            };
            proof {
                assert(self.columns@.take(i + 1).drop_last() =~= self.columns@.take(i as int));
                assert(self.columns@.take(i + 1).last() == self.columns@[i as int]);
                assert(forall|j: int|
                    0 <= j < i + 1 ==> self.columns@.take(i + 1)[j] == self.columns@[j]);
            }
            if shown {
                every_hidden = false;
            }
            i = i + 1;
        }
        proof {
            assert(self.columns@.take(n as int) =~= self.columns@);
        }
        let fill = if every_hidden {
            ColumnState::NonEmpty
        } else {
            ColumnState::Hidden
        };
        let mut cols: Vec<ColumnState> = Vec::new();
        let mut k: usize = 0;
        while k < n
            invariant
                n == old(self).columns@.len(),
                k <= n,
                cols@.len() == k,
                forall|j: int| 0 <= j < k ==> cols@[j] == fill,
            decreases n - k,
        {
            cols.push(fill);
            k = k + 1;
        }
        self.columns = cols;
    }

    /// Moves one page forward when a further page exists.
    pub fn next_page(&mut self)
        requires
            old(self).wf(),
        ensures
            final(self).wf(),
            final(self).current_page as int == (if old(self).current_page + 1 < old(self).total_pages_spec() {
                old(self).current_page + 1
            } else {
                old(self).current_page as int
            }),
            *final(self) == (App { current_page: final(self).current_page, ..*old(self) }),
    {
        let t = self.total_pages();
        if t > 0 && self.current_page < t - 1 {
            self.current_page = self.current_page + 1;
        }
    }

    /// Moves one page back when not on the first page.
    pub fn prev_page(&mut self)
        requires
            old(self).wf(),
        ensures
            final(self).wf(),
            final(self).current_page as int == (if old(self).current_page > 0 {
                old(self).current_page - 1
            } else {
                0
            }),
            *final(self) == (App { current_page: final(self).current_page, ..*old(self) }),
    {
        if self.current_page > 0 {
            self.current_page = self.current_page - 1;
        }
    }

    /// Records the success message shown after an export lands on disk.
    pub fn set_export_success(&mut self, filename: &str)
        ensures
            final(self).export_toast matches Some(m) && m@ == "Exported to "@ + filename@
                + ".json successfully"@,
            *final(self) == (App { export_toast: final(self).export_toast, ..*old(self) }),
    {
        let mut msg: String = "Exported to ".to_owned();
        msg.append(filename);
        msg.append(".json successfully");
        self.export_toast = Some(msg);
    }

    /// Clears the transient success message once its display time is up.
    pub fn clear_export_toast(&mut self)
        ensures
            final(self).export_toast is None,
            *final(self) == (App { export_toast: final(self).export_toast, ..*old(self) }),
    {
        self.export_toast = None;
    }
}

} // verus!

verus! {

impl App {
    /// The current page of visible rows, as the preview shows them: the
    /// slice of the visible rows after the header row that the current
    /// page and page size select.
    pub open spec fn page_slice_spec(self) -> Seq<Seq<Seq<char>>> {
        let vis = crate::filter::visible_rows_after(
            self.columns@,
            self.data.deep_view(),
            self.first_row as int,
        );
        let lo = vstd::math::min(
            self.current_page as int * self.rows_per_page as int,
            vis.len() as int,
        );
        let hi = vstd::math::min(lo + self.rows_per_page as int, vis.len() as int);
        vis.subrange(lo, hi)
    }

    /// The rows of the current preview page.
    pub fn page_rows(&self) -> (r: Vec<Vec<String>>)
        requires
            self.wf(),
        ensures
            r.deep_view() == self.page_slice_spec(),
    {
        let ghost dv = self.data.deep_view();
        let ghost pred = |row: Seq<Seq<char>>| crate::filter::row_visible_spec(self.columns@, row);
        let len: usize = self.data.len();
        let start: usize = if self.first_row < len {
            self.first_row + 1
        } else {
            len
        };
        proof {
            if self.first_row < len {
                assert(crate::filter::rows_after(dv, self.first_row as int) == dv.skip(
                    start as int,
                ));
            } else {
                assert(crate::filter::rows_after(dv, self.first_row as int) =~= dv.skip(
                    start as int,
                ));
            }
        }
        let mut vis: Vec<Vec<String>> = Vec::new();
        let mut i: usize = start;
        while i < len
            invariant
                dv == self.data.deep_view(),
                pred == (|row: Seq<Seq<char>>|
                    crate::filter::row_visible_spec(self.columns@, row)),
                len == dv.len(),
                len == self.data@.len(),
                start <= i <= len,
                vis.deep_view() == dv.skip(start as int).take(i - start).filter(pred),
            decreases len - i,
        {
            proof {
                assert(dv[i as int] == self.data@[i as int].deep_view());
            }
            let ghost pre = vis.deep_view();
            if self.is_row_visible(&self.data[i]) {
                let row = crate::merge::clone_cells(&self.data[i]);
                let ghost rdv = row.deep_view();
                proof {
                    assert(rdv =~~= dv[i as int]);
                }
                vis.push(row);
                proof {
                    assert(vis.deep_view() =~~= pre.push(dv[i as int]));
                }
            }
            proof {
                reveal_with_fuel(Seq::filter, 2);
                assert(dv.skip(start as int).take(i - start + 1).drop_last() =~= dv.skip(
                    start as int,
                ).take(i - start));
                assert(dv.skip(start as int).take(i - start + 1).last() == dv[i as int]);
                assert(vis.deep_view() =~~= dv.skip(start as int).take(i - start + 1).filter(
                    pred,
                ));
            }
            i = i + 1;
        }
        proof {
            assert(dv.skip(start as int).take(len - start) =~= dv.skip(start as int));
        }
        let vlen: usize = vis.len();
        let lo: usize = match self.current_page.checked_mul(self.rows_per_page) {
            Some(x) => if x < vlen {
                x
            } else {
                vlen
            },
            None => vlen,
        };
        let hi: usize = match lo.checked_add(self.rows_per_page) {
            Some(x) => if x < vlen {
                x
            } else {
                vlen
            },
            None => vlen,
        };
        let ghost visdv = vis.deep_view();
        let mut out: Vec<Vec<String>> = Vec::new();
        let mut k: usize = lo;
        while k < hi
            invariant
                visdv == vis.deep_view(),
                vlen == vis@.len(),
                lo <= k <= hi <= vlen,
                out.deep_view() == visdv.subrange(lo as int, k as int),
            decreases hi - k,
        {
            let ghost pre = out.deep_view();
            let row = crate::merge::clone_cells(&vis[k]);
            let ghost rdv = row.deep_view();
            proof {
                assert(rdv =~~= visdv[k as int]);
            }
            out.push(row);
            proof {
                assert(out.deep_view() =~~= pre.push(visdv[k as int]));
                assert(out.deep_view() =~~= visdv.subrange(lo as int, k + 1));
            }
            k = k + 1;
        }
        proof {
            assert(out.deep_view() == self.page_slice_spec());
        }
        out
    }
}

} // verus!

verus! {

use crate::merge::cand_view;
use crate::merge::contrib_rows;
use crate::text::parse_usize;
use crate::text::parse_usize_spec;
use crate::text::stem_of;
use crate::text::trim_of;
use crate::text::trimmed;
use crate::types::MergeCandidate;
use crate::types::Step;

/// Where the sheet cursor lands on an up-arrow: one back, clamped at the
/// first sheet.
pub open spec fn sel_up(s: Option<usize>) -> Option<usize> {
    match s {
        Some(i) => if i > 0 {
            Some((i - 1) as usize)
        } else {
            Some(0usize)
        },
        None => Some(0usize),
    }
}

/// Where the sheet cursor lands on a down-arrow over `n` sheets: one
/// forward, clamped at the last sheet.
pub open spec fn sel_down(s: Option<usize>, n: int) -> Option<usize>
    recommends
        n > 0,
{
    match s {
        Some(i) => if i + 1 < n {
            Some((i + 1) as usize)
        } else {
            Some((n - 1) as usize)
        },
        None => Some(0usize),
    }
}

impl App {
    /// What a successful sheet load leaves behind, with the step the
    /// caller moves to: the grid as working data, all columns hidden
    /// with empty configuration and keys, the default export filename,
    /// and nothing else changed.
    pub open spec fn sheet_loaded_state(o: App, f: App, st: Step) -> bool {
        &&& f.data.deep_view() == o.selected_grid()
        &&& f.columns@.len() == o.selected_grid()[0].len()
        &&& (forall|k: int|
            0 <= k < f.columns@.len() ==> f.columns@[k] == ColumnState::Hidden)
        &&& f.column_configs@.len() == f.columns@.len()
        &&& (forall|k: int|
            0 <= k < f.column_configs@.len() ==> f.column_configs@[k].prefix@.len() == 0
                && f.column_configs@[k].postfix@.len() == 0)
        &&& f.custom_keys@.len() == f.columns@.len()
        &&& (forall|k: int| 0 <= k < f.custom_keys@.len() ==> f.custom_keys@[k]@.len() == 0)
        &&& f.export_filename@ == o.default_filename_spec()
        &&& f == (App {
            data: f.data,
            columns: f.columns,
            column_configs: f.column_configs,
            custom_keys: f.custom_keys,
            export_filename: f.export_filename,
            step: st,
            ..o
        })
    }

    /// The whole effect of one key on the sheet-selection step: `o` is the
    /// state before the key, `f` the state after.
    pub open spec fn sheet_select_post(o: App, f: App, key: KeyEvent) -> bool {
        &&& (key.code == Key::Up ==> f == (App {
                selected_sheet: sel_up(o.selected_sheet),
                ..o
            }))
        &&& (key.code == Key::Down && o.sheets@.len() > 0 ==> f == (App {
                selected_sheet: sel_down(
                    o.selected_sheet,
                    o.sheets@.len() as int,
                ),
                ..o
            }))
        &&& (key.code == Key::Down && o.sheets@.len() == 0 ==> f == o)
        &&& (key.code == Key::Enter && o.load_applicable() ==> Self::sheet_loaded_state(
                o,
                f,
                Step::RowTrim,
            ))
        &&& (key.code == Key::Enter && !o.load_applicable() ==> f == o)
        &&& ((key.code != Key::Up && key.code != Key::Down && key.code != Key::Enter) ==> {
                &&& f.sheet_search@ == text_edited(o.sheet_search@, key)
                &&& f.matching_sheets@ == matches_upto(
                    o.sheets@,
                    text_edited(o.sheet_search@, key),
                    o.sheets@.len() as int,
                )
                &&& f.selected_sheet == (if f.matching_sheets@.len() > 0 {
                    Some(f.matching_sheets@[0])
                } else {
                    o.selected_sheet
                })
                &&& f == (App {
                    sheet_search: f.sheet_search,
                    matching_sheets: f.matching_sheets,
                    selected_sheet: f.selected_sheet,
                    ..o
                })
            })
    }

    /// Handles one key on the sheet-selection step: arrows move the
    /// cursor, enter loads the sheet and advances on success, and any
    /// other key edits the live search filter.
    pub fn handle_sheet_select(&mut self, key: KeyEvent)
        requires
            old(self).wf(),
            old(self).step == Step::SheetSelect,
        ensures
            final(self).wf(),
            Self::sheet_select_post(*old(self), *final(self), key),
    {
        match key.code {
            Key::Up => {
                let next: usize = match self.selected_sheet {
                    Some(i) => if i > 0 {
                        i - 1
                    } else {
                        0
                    },
                    None => 0,
                };
                self.selected_sheet = Some(next);
            },
            Key::Down => {
                if self.sheets.len() > 0 {
                    let last: usize = self.sheets.len() - 1;
                    let next: usize = match self.selected_sheet {
                        Some(i) => if i < last {
                            i + 1
                        } else {
                            last
                        },
                        None => 0,
                    };
                    self.selected_sheet = Some(next);
                }
            },
            Key::Enter => {
                if self.load_sheet() {
                    self.step = Step::RowTrim;
                }
            },
            _ => {
                apply_text_edit(&mut self.sheet_search, key);
                self.update_sheet_search();
            },
        }
    }

    /// The whole effect of one key on the header-row step: `o` is the
    /// state before the key, `f` the state after.
    pub open spec fn row_trim_post(o: App, f: App, key: KeyEvent) -> bool {
        &&& (key.code == Key::Enter ==> (match parse_usize_spec(trim_of(o.row_input@)) {
                Some(v) => if v < o.data@.len() {
                    ({
                        let mid = App { first_row: v as usize, ..o };
                        let cands = mid.candidates_spec();
                        &&& f.first_row == v
                        &&& (cands.len() > 0 ==> (f.merge_info matches Some(ci)
                            && ci@.map_values(|c: MergeCandidate| cand_view(c)) == cands) && f.step == Step::MergePrompt && f == (App {
                            first_row: f.first_row,
                            merge_info: f.merge_info,
                            step: f.step,
                            ..o
                        }))
                        &&& (cands.len() == 0 ==> f.step == Step::ColSelect && f == (App {
                            first_row: f.first_row,
                            step: f.step,
                            ..o
                        }))
                    })
                } else {
                    f == o
                },
                None => f == o,
            }))
        &&& (key.code != Key::Enter ==> f.row_input@ == text_edited(
                o.row_input@,
                key,
            ) && f == (App { row_input: f.row_input, ..o }))
    }

    /// Handles one key on the header-row step: enter accepts the typed
    /// row number when it parses and lies inside the data, computes the
    /// merge candidates, and advances — to the merge prompt when any
    /// sheet shares a header name, else straight to column selection.
    /// Any other key edits the number field; invalid input changes
    /// nothing.
    pub fn handle_row_trim(&mut self, key: KeyEvent)
        requires
            old(self).wf(),
            old(self).step == Step::RowTrim,
        ensures
            final(self).wf(),
            Self::row_trim_post(*old(self), *final(self), key),
    {
        match key.code {
            Key::Enter => {
                let trimmed_input = trimmed(self.row_input.as_str());
                match parse_usize(trimmed_input.as_str()) {
                    Some(row) => {
                        if row < self.data.len() {
                            self.first_row = row;
                            let info = self.check_merge_options();
                            if info.len() > 0 {
                                proof {
                                    assert(info@.map_values(
                                        |c: MergeCandidate| cand_view(c),
                                    ).len() > 0);
                                }
                                self.merge_info = Some(info);
                                self.step = Step::MergePrompt;
                            } else {
                                proof {
                                    assert(info@.map_values(
                                        |c: MergeCandidate| cand_view(c),
                                    ).len() == 0);
                                }
                                self.step = Step::ColSelect;
                            }
                        }
                    },
                    None => {},
                }
            },
            _ => {
                apply_text_edit(&mut self.row_input, key);
            },
        }
    }

    /// What answering yes to the merge prompt leaves behind when the
    /// merge can run: the merged table and collapsed sheet list, the
    /// prompt dismissed, and the wizard on column selection.
    pub open spec fn merged_state(o: App, f: App) -> bool {
        &&& f.data.deep_view() == o.merged_data_spec()
        &&& f.data@.len() == 1 + contrib_rows(
            o.grid_dv_of(o.selected_index()),
            o.first_row as int,
        ) + o.merge_contrib_rows(o.merge_shares().len() as int)
        &&& f.sheets@.len() == 1 && f.sheets@[0]@ == App::merged_label()
        &&& f.grids@.len() == 1 && (f.grids@[0] is None)
        &&& f.selected_sheet == Some(0usize) && f.first_row == 0 && f.matching_sheets@.len() == 0
        &&& f.export_filename@ == (match stem_of(o.original_filename@) {
            Some(t) => t,
            None => o.original_filename@,
        })
        &&& f == (App {
            data: f.data,
            sheets: f.sheets,
            grids: f.grids,
            selected_sheet: f.selected_sheet,
            first_row: f.first_row,
            matching_sheets: f.matching_sheets,
            export_filename: f.export_filename,
            merge_info: None,
            step: Step::ColSelect,
            ..o
        })
    }

    /// The whole effect of one key on the merge-prompt step: `o` is the
    /// state before the key, `f` the state after.
    pub open spec fn merge_prompt_post(o: App, f: App, key: KeyEvent) -> bool {
        &&& ((key.code == Key::Char('y') || key.code == Key::Char('Y')) ==> {
                &&& o.merge_applicable() ==> Self::merged_state(o, f)
                &&& !o.merge_applicable() ==> f == (App {
                    merge_info: None,
                    step: Step::ColSelect,
                    ..o
                })
            })
        &&& ((key.code == Key::Char('n') || key.code == Key::Char('N')) ==> f == (App {
                merge_info: None,
                step: Step::ColSelect,
                ..o
            }))
        &&& ((match key.code {
                Key::Char(c) => c != 'y' && c != 'Y' && c != 'n' && c != 'N',
                _ => true,
            }) ==> f == o)
    }

    /// Handles one key on the merge prompt: yes merges and advances, no
    /// discards the candidates and advances, anything else does nothing.
    pub fn handle_merge_prompt(&mut self, key: KeyEvent)
        requires
            old(self).wf(),
            old(self).step == Step::MergePrompt,
        ensures
            final(self).wf(),
            Self::merge_prompt_post(*old(self), *final(self), key),
    {
        match key.code {
            Key::Char(c) => {
                if c == 'y' || c == 'Y' {
                    self.perform_merge();
                    self.merge_info = None;
                    self.step = Step::ColSelect;
                } else if c == 'n' || c == 'N' {
                    self.merge_info = None;
                    self.step = Step::ColSelect;
                }
            },
            _ => {},
        }
    }
}

} // verus!

verus! {

use crate::types::ExportEdit;

/// The sub-field tab moves to: on the filename row it swaps filename and
/// deduplicate; on a column row it cycles key, prefix, postfix.
pub open spec fn tab_next(focus: usize, e: ExportEdit) -> ExportEdit {
    if focus == 0 {
        match e {
            ExportEdit::FileName => ExportEdit::Deduplicate,
            _ => ExportEdit::FileName,
        }
    } else {
        match e {
            ExportEdit::KeyStr => ExportEdit::Prefix,
            ExportEdit::Prefix => ExportEdit::Postfix,
            _ => ExportEdit::KeyStr,
        }
    }
}

impl App {
    /// The whole effect of one key on the column-selection step: `o` is the
    /// state before the key, `f` the state after.
    pub open spec fn col_select_post(o: App, f: App, key: KeyEvent) -> bool {
        &&& (key.code == Key::Char(' ') ==> {
                &&& o.selected_column < o.columns@.len() ==> f.columns@
                    == o.columns@.update(
                    o.selected_column as int,
                    toggle_select(o.columns@[o.selected_column as int]),
                )
                &&& o.selected_column >= o.columns@.len() ==> f.columns@
                    == o.columns@
                &&& f == (App { columns: f.columns, ..o })
            })
        &&& (key.code == Key::Char('a') ==> {
                &&& f.columns@.len() == o.columns@.len()
                &&& (forall|k: int|
                    0 <= k < f.columns@.len() ==> f.columns@[k] == (
                    if all_hidden(o.columns@) {
                        ColumnState::NonEmpty
                    } else {
                        ColumnState::Hidden
                    }))
                &&& f == (App { columns: f.columns, ..o })
            })
        &&& ((key.code == Key::Up || key.code == Key::Down) ==> {
                &&& o.columns@.len() > 0 ==> f.selected_column as int
                    == navigate_spec(
                    o.selected_column as int,
                    o.columns@.len() as int,
                    key.code,
                ) && f == (App {
                    selected_column: f.selected_column,
                    ..o
                })
                &&& o.columns@.len() == 0 ==> f == o
            })
        &&& (key.code == Key::Enter ==> f == (App {
                selected_column: 0usize,
                step: Step::Preview,
                ..o
            }))
        &&& ((match key.code {
                Key::Char(c) => c != ' ' && c != 'a',
                Key::Up => false,
                Key::Down => false,
                Key::Enter => false,
                _ => true,
            }) ==> f == o)
    }

    /// Handles one key on the column-selection step: space toggles the
    /// focused column, `a` toggles all, arrows wrap the cursor over all
    /// columns, enter resets the cursor and advances to the preview.
    pub fn handle_col_select(&mut self, key: KeyEvent)
        requires
            old(self).wf(),
            old(self).step == Step::ColSelect,
        ensures
            final(self).wf(),
            Self::col_select_post(*old(self), *final(self), key),
    {
        match key.code {
            Key::Char(c) => {
                if c == ' ' {
                    self.toggle_col_select();
                } else if c == 'a' {
                    self.toggle_all_col();
                }
            },
            Key::Up | Key::Down => {
                let n = self.columns.len();
                if n > 0 {
                    self.selected_column = navigate_index(self.selected_column, n, key.code);
                }
            },
            Key::Enter => {
                self.selected_column = 0;
                self.step = Step::Preview;
            },
            _ => {},
        }
    }

    /// The whole effect of one key on the preview step: `o` is the
    /// state before the key, `f` the state after.
    pub open spec fn preview_post(o: App, f: App, key: KeyEvent) -> bool {
        &&& (key.code == Key::Left ==> f.current_page as int == (if o.current_page > 0 {
                o.current_page - 1
            } else {
                0
            }) && f == (App { current_page: f.current_page, ..o }))
        &&& (key.code == Key::Right ==> f.current_page as int == (if o.current_page + 1 < o.total_pages_spec() {
                o.current_page + 1
            } else {
                o.current_page as int
            }) && f == (App { current_page: f.current_page, ..o }))
        &&& (key.code == Key::Char(' ') ==> {
                &&& o.selected_column < visible_cols_spec(o.columns@).len()
                    ==> f.columns@ == o.columns@.update(
                    visible_cols_spec(o.columns@)[o.selected_column as int] as int,
                    toggle_filter(
                        o.columns@[visible_cols_spec(o.columns@)[o.selected_column as int] as int],
                    ),
                )
                &&& o.selected_column >= visible_cols_spec(o.columns@).len()
                    ==> f.columns@ == o.columns@
                &&& f == (App { columns: f.columns, ..o })
            })
        &&& (key.code == Key::Char('+') ==> f.rows_per_page as int == (if o.rows_per_page < usize::MAX {
                o.rows_per_page + 1
            } else {
                usize::MAX as int
            }) && f.current_page == 0 && f == (App {
                rows_per_page: f.rows_per_page,
                current_page: 0usize,
                ..o
            }))
        &&& (key.code == Key::Char('-') ==> f.rows_per_page as int == (if o.rows_per_page > 5 {
                o.rows_per_page - 1
            } else {
                5
            }) && f.current_page == 0 && f == (App {
                rows_per_page: f.rows_per_page,
                current_page: 0usize,
                ..o
            }))
        &&& (key.code == Key::Home ==> f == (App {
                current_page: 0usize,
                ..o
            }))
        &&& (key.code == Key::End ==> f.current_page as int == (if o.total_pages_spec() > 0 {
                o.total_pages_spec() - 1
            } else {
                0
            }) && f == (App { current_page: f.current_page, ..o }))
        &&& ((key.code == Key::Up || key.code == Key::Down) ==> {
                &&& visible_cols_spec(o.columns@).len() > 0 ==> f.selected_column as int == navigate_spec(
                    o.selected_column as int,
                    visible_cols_spec(o.columns@).len() as int,
                    key.code,
                ) && f == (App {
                    selected_column: f.selected_column,
                    ..o
                })
                &&& visible_cols_spec(o.columns@).len() == 0 ==> f == o
            })
        &&& (key.code == Key::Enter ==> f == (App {
                step: Step::Export,
                export_focus_row: 0usize,
                export_edit: ExportEdit::FileName,
                ..o
            }))
        &&& ((match key.code {
                Key::Char(c) => c != ' ' && c != '+' && c != '-',
                Key::Left => false,
                Key::Right => false,
                Key::Home => false,
                Key::End => false,
                Key::Up => false,
                Key::Down => false,
                Key::Enter => false,
                _ => true,
            }) ==> f == o)
    }

    /// Handles one key on the preview step: left/right page within
    /// bounds, space toggles the focused visible column's filter,
    /// plus/minus resize the page (floor five rows) and return to the
    /// first page, home/end jump to the first/last page, arrows wrap the
    /// cursor over the visible columns, enter advances to the export
    /// screen with the filename field focused.
    pub fn handle_preview(&mut self, key: KeyEvent)
        requires
            old(self).wf(),
            old(self).step == Step::Preview,
        ensures
            final(self).wf(),
            Self::preview_post(*old(self), *final(self), key),
    {
        match key.code {
            Key::Left => {
                self.prev_page();
            },
            Key::Right => {
                self.next_page();
            },
            Key::Char(c) => {
                if c == ' ' {
                    self.toggle_col_filter();
                } else if c == '+' {
                    if self.rows_per_page < usize::MAX {
                        self.rows_per_page = self.rows_per_page + 1;
                    }
                    self.current_page = 0;
                } else if c == '-' {
                    if self.rows_per_page > 5 {
                        self.rows_per_page = self.rows_per_page - 1;
                    }
                    self.current_page = 0;
                }
            },
            Key::Home => {
                self.current_page = 0;
            },
            Key::End => {
                let t = self.total_pages();
                self.current_page = if t > 0 {
                    t - 1
                } else {
                    0
                };
            },
            Key::Up | Key::Down => {
                let vis = self.visible_columns();
                if vis.len() > 0 {
                    self.selected_column = navigate_index(
                        self.selected_column,
                        vis.len(),
                        key.code,
                    );
                }
            },
            Key::Enter => {
                self.step = Step::Export;
                self.export_focus_row = 0;
                self.export_edit = ExportEdit::FileName;
            },
            _ => {},
        }
    }

    /// The whole effect of one key on the export step: `o` is the
    /// state before the key, `f` the state after.
    pub open spec fn export_post(o: App, f: App, key: KeyEvent, r: Outcome) -> bool {
        &&& ((r is Export) == (key.code == Key::Enter))
        &&& (!(r is Export) ==> (r is Continue))
        &&& (key.code == Key::Enter ==> f == o && (r matches Outcome::Export(
                f,
                recs,
            ) && f@ == o.export_filename_spec() && recs.deep_view() == o.export_records_spec()))
        &&& ((key.code == Key::Up || key.code == Key::Down) ==> {
                &&& visible_cols_spec(o.columns@).len() + 1 <= usize::MAX ==> f.export_focus_row as int == navigate_spec(
                    o.export_focus_row as int,
                    visible_cols_spec(o.columns@).len() as int + 1,
                    key.code,
                ) && f.export_edit == (if f.export_focus_row == 0 {
                    ExportEdit::FileName
                } else {
                    ExportEdit::KeyStr
                }) && f == (App {
                    export_focus_row: f.export_focus_row,
                    export_edit: f.export_edit,
                    ..o
                })
                &&& visible_cols_spec(o.columns@).len() + 1 > usize::MAX ==> f
                    == o
            })
        &&& (key.code == Key::Tab ==> f == (App {
                export_edit: tab_next(o.export_focus_row, o.export_edit),
                ..o
            }))
        &&& ((match key.code {
                Key::Up => false,
                Key::Down => false,
                Key::Tab => false,
                Key::Enter => false,
                _ => true,
            }) ==> {
                &&& (o.export_focus_row == 0 && o.export_edit
                    == ExportEdit::FileName) ==> f.export_filename@ == text_edited(
                    o.export_filename@,
                    key,
                ) && f == (App {
                    export_filename: f.export_filename,
                    ..o
                })
                &&& (o.export_focus_row == 0 && o.export_edit
                    == ExportEdit::Deduplicate) ==> {
                    &&& key.code == Key::Char(' ') ==> f == (App {
                        deduplicate: !o.deduplicate,
                        ..o
                    })
                    &&& key.code != Key::Char(' ') ==> f == o
                }
                &&& (o.export_focus_row == 0 && o.export_edit
                    != ExportEdit::FileName && o.export_edit != ExportEdit::Deduplicate)
                    ==> f == o
                &&& o.export_focus_row > 0 ==> {
                    let vis = visible_cols_spec(o.columns@);
                    let p = o.export_focus_row - 1;
                    &&& (p < vis.len() && o.export_edit == ExportEdit::KeyStr) ==> {
                        let col = vis[p] as int;
                        &&& f.custom_keys@.len() == o.custom_keys@.len()
                        &&& f.custom_keys@[col]@ == text_edited(
                            o.custom_keys@[col]@,
                            key,
                        )
                        &&& (forall|j: int|
                            0 <= j < o.custom_keys@.len() && j != col ==> f.custom_keys@[j] == o.custom_keys@[j])
                        &&& f == (App {
                            custom_keys: f.custom_keys,
                            ..o
                        })
                    }
                    &&& (p < vis.len() && o.export_edit == ExportEdit::Prefix) ==> {
                        let col = vis[p] as int;
                        &&& f.column_configs@.len() == o.column_configs@.len()
                        &&& f.column_configs@[col].prefix@ == text_edited(
                            o.column_configs@[col].prefix@,
                            key,
                        )
                        &&& f.column_configs@[col].postfix == o.column_configs@[col].postfix
                        &&& (forall|j: int|
                            0 <= j < o.column_configs@.len() && j != col ==> f.column_configs@[j] == o.column_configs@[j])
                        &&& f == (App {
                            column_configs: f.column_configs,
                            ..o
                        })
                    }
                    &&& (p < vis.len() && o.export_edit == ExportEdit::Postfix) ==> {
                        let col = vis[p] as int;
                        &&& f.column_configs@.len() == o.column_configs@.len()
                        &&& f.column_configs@[col].postfix@ == text_edited(
                            o.column_configs@[col].postfix@,
                            key,
                        )
                        &&& f.column_configs@[col].prefix == o.column_configs@[col].prefix
                        &&& (forall|j: int|
                            0 <= j < o.column_configs@.len() && j != col ==> f.column_configs@[j] == o.column_configs@[j])
                        &&& f == (App {
                            column_configs: f.column_configs,
                            ..o
                        })
                    }
                    &&& (p < vis.len() && (o.export_edit == ExportEdit::FileName || o.export_edit == ExportEdit::Deduplicate)) ==> f == o
                    &&& p >= vis.len() ==> f == o
                }
            })
    }

    /// Handles one key on the export screen: arrows wrap the focus over
    /// the filename row and one row per visible column, tab cycles the
    /// focused row's sub-fields, characters edit the focused text field
    /// (space toggles the deduplicate flag when it is focused), and
    /// enter assembles the export for the caller to write.
    pub fn handle_export(&mut self, key: KeyEvent) -> (r: Outcome)
        requires
            old(self).wf(),
            old(self).step == Step::Export,
        ensures
            final(self).wf(),
            Self::export_post(*old(self), *final(self), key, r),
    {
        match key.code {
            Key::Up | Key::Down => {
                let vis = self.visible_columns();
                match vis.len().checked_add(1) {
                    Some(total) => {
                        self.export_focus_row = navigate_index(
                            self.export_focus_row,
                            total,
                            key.code,
                        );
                        self.export_edit = if self.export_focus_row == 0 {
                            ExportEdit::FileName
                        } else {
                            ExportEdit::KeyStr
                        };
                    },
                    None => {},
                }
                Outcome::Continue
            },
            Key::Tab => {
                self.export_edit = if self.export_focus_row == 0 {
                    match self.export_edit {
                        ExportEdit::FileName => ExportEdit::Deduplicate,
                        _ => ExportEdit::FileName,
                    }
                } else {
                    match self.export_edit {
                        ExportEdit::KeyStr => ExportEdit::Prefix,
                        ExportEdit::Prefix => ExportEdit::Postfix,
                        _ => ExportEdit::KeyStr,
                    }
                };
                Outcome::Continue
            },
            Key::Enter => {
                let built = self.build_export();
                let (filename, records) = built;
                Outcome::Export(filename, records)
            },
            _ => {
                if self.export_focus_row == 0 {
                    match self.export_edit {
                        ExportEdit::FileName => {
                            apply_text_edit(&mut self.export_filename, key);
                        },
                        ExportEdit::Deduplicate => {
                            match key.code {
                                Key::Char(c) => {
                                    if c == ' ' {
                                        self.deduplicate = !self.deduplicate;
                                    }
                                },
                                _ => {},
                            }
                        },
                        _ => {},
                    }
                } else {
                    let vis = self.visible_columns();
                    let ncols: usize = self.columns.len();
                    proof {
                        assert(self.columns@.len() == ncols);
                        crate::filter::lemma_visible_cols_ordered(self.columns@);
                    }
                    let p: usize = self.export_focus_row - 1;
                    if p < vis.len() {
                        let col: usize = vis[p];
                        match self.export_edit {
                            ExportEdit::KeyStr => {
                                let mut field = self.custom_keys[col].clone();
                                apply_text_edit(&mut field, key);
                                self.custom_keys[col] = field;
                            },
                            ExportEdit::Prefix => {
                                let mut field = self.column_configs[col].prefix.clone();
                                apply_text_edit(&mut field, key);
                                let postfix = self.column_configs[col].postfix.clone();
                                self.column_configs[col] = crate::types::ColumnConfig {
                                    prefix: field,
                                    postfix,
                                };
                            },
                            ExportEdit::Postfix => {
                                let mut field = self.column_configs[col].postfix.clone();
                                apply_text_edit(&mut field, key);
                                let prefix = self.column_configs[col].prefix.clone();
                                self.column_configs[col] = crate::types::ColumnConfig {
                                    prefix,
                                    postfix: field,
                                };
                            },
                            _ => {},
                        }
                    }
                }
                Outcome::Continue
            },
        }
    }

    /// Whether the global modifier check intercepts the event before any
    /// step handler sees it: control-q quits, control-b navigates back.
    pub open spec fn intercepted(key: KeyEvent) -> bool {
        key.ctrl && (key.code == Key::Char('q') || key.code == Key::Char('b'))
    }

    /// Handles one key event wherever the wizard stands. The global
    /// modifier check comes first and consumes its events: control-q
    /// terminates at once and control-b only moves one step back. Every
    /// other event reaches the current step's handler, and the step never
    /// moves further than one legal transition.
    pub fn handle_key(&mut self, key: KeyEvent) -> (r: Outcome)
        requires
            old(self).wf(),
        ensures
            final(self).wf(),
            (r is Quit) == (key.ctrl && key.code == Key::Char('q')),
            (r is Quit) ==> *final(self) == *old(self),
            key.ctrl && key.code == Key::Char('b') ==> *final(self) == (App {
                step: Self::back_step(old(self).step),
                ..*old(self)
            }) && (r is Continue),
            !Self::intercepted(key) ==> (match old(self).step {
                Step::SheetSelect => Self::sheet_select_post(*old(self), *final(self), key)
                    && (r is Continue),
                Step::RowTrim => Self::row_trim_post(*old(self), *final(self), key) && (
                r is Continue),
                Step::MergePrompt => Self::merge_prompt_post(*old(self), *final(self), key)
                    && (r is Continue),
                Step::ColSelect => Self::col_select_post(*old(self), *final(self), key) && (
                r is Continue),
                Step::Preview => Self::preview_post(*old(self), *final(self), key) && (
                r is Continue),
                Step::Export => Self::export_post(*old(self), *final(self), key, r),
            }),
            (r is Export) == (old(self).step == Step::Export && key.code == Key::Enter),
            r matches Outcome::Export(f, recs) ==> f@ == old(self).export_filename_spec()
                && recs.deep_view() == old(self).export_records_spec() && *final(self) == *old(self),
            final(self).step == old(self).step || final(self).step == Self::back_step(
                old(self).step,
            ) || (old(self).step == Step::SheetSelect && final(self).step == Step::RowTrim) || (
            old(self).step == Step::RowTrim && (final(self).step == Step::MergePrompt || final(self).step == Step::ColSelect)) || (old(self).step == Step::MergePrompt && final(self).step == Step::ColSelect) || (old(self).step == Step::ColSelect && final(self).step
                == Step::Preview) || (old(self).step == Step::Preview && final(self).step
                == Step::Export),
    {
        if key.ctrl {
            match key.code {
                Key::Char(c) => {
                    if c == 'q' {
                        return Outcome::Quit;
                    }
                    if c == 'b' {
                        self.step = self.handle_back();
                        return Outcome::Continue;
                    }
                },
                _ => {},
            }
        }
        match self.step {
            Step::SheetSelect => {
                self.handle_sheet_select(key);
                Outcome::Continue
            },
            Step::RowTrim => {
                self.handle_row_trim(key);
                Outcome::Continue
            },
            Step::MergePrompt => {
                self.handle_merge_prompt(key);
                Outcome::Continue
            },
            Step::ColSelect => {
                self.handle_col_select(key);
                Outcome::Continue
            },
            Step::Preview => {
                self.handle_preview(key);
                Outcome::Continue
            },
            Step::Export => self.handle_export(key),
        }
    }
}

} // verus!
