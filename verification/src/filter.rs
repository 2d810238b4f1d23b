//! The row/column filter model and pagination: which columns and rows are
//! visible for preview and export, and how the visible rows split into
//! pages.
use vstd::prelude::*;

use crate::text::is_blank;
use crate::text::is_blank_spec;
use crate::types::App;
use crate::types::ColumnState;
use crate::types::column_is_shown;
use crate::types::is_shown;
use vstd::arithmetic::div_mod::lemma_fundamental_div_mod;
use vstd::arithmetic::div_mod::lemma_fundamental_div_mod_converse;
use vstd::arithmetic::div_mod::lemma_mod_bound;

verus! {

/// The indices of the shown columns, in column order.
pub open spec fn visible_cols_spec(cols: Seq<ColumnState>) -> Seq<usize>
    decreases cols.len(),
{
    if cols.len() == 0 {
        Seq::empty()
    } else {
        visible_cols_spec(cols.drop_last()) + (if is_shown(cols.last()) {
            seq![(cols.len() - 1) as usize]
        } else {
            Seq::empty()
        })
    }
}

/// Whether a row passes the blank-cell filter: every cell that lies under
/// a `NonEmpty` column must hold more than whitespace. Hidden and
/// `Original` columns impose nothing, and cells beyond either sequence
/// impose nothing.
pub open spec fn row_visible_spec(cols: Seq<ColumnState>, row: Seq<Seq<char>>) -> bool {
    forall|i: int|
        0 <= i < row.len() && i < cols.len() && cols[i] == ColumnState::NonEmpty
            ==> !is_blank_spec(row[i])
}

/// The rows strictly after the header row.
pub open spec fn rows_after(data: Seq<Seq<Seq<char>>>, first: int) -> Seq<Seq<Seq<char>>> {
    if 0 <= first && first + 1 <= data.len() {
        data.skip(first + 1)
    } else {
        Seq::empty()
    }
}

/// The visible rows strictly after the header row, in row order.
pub open spec fn visible_rows_after(
    cols: Seq<ColumnState>,
    data: Seq<Seq<Seq<char>>>,
    first: int,
) -> Seq<Seq<Seq<char>>> {
    rows_after(data, first).filter(|row: Seq<Seq<char>>| row_visible_spec(cols, row))
}

/// Ceiling division: how many pages of size `rpp` the `count` rows need.
pub open spec fn pages_for(count: int, rpp: int) -> int
    recommends
        count >= 0,
        rpp > 0,
{
    (count + rpp - 1) / rpp
}

/// Pagination covers every visible row and wastes no whole page: the pages
/// hold at least `count` rows, all pages but the last are strictly needed,
/// and no rows need no page.
pub proof fn lemma_pages_bound(count: int, rpp: int)
    requires
        count >= 0,
        rpp > 0,
    ensures
        pages_for(count, rpp) * rpp >= count,
        count > 0 ==> (pages_for(count, rpp) - 1) * rpp < count,
        count == 0 ==> pages_for(count, rpp) == 0,
        pages_for(count, rpp) >= 0,
{
    lemma_fundamental_div_mod(count, rpp);
    lemma_mod_bound(count, rpp);
    let q = count / rpp;
    let r = count % rpp;
    lemma_ceil_div(count, rpp, q, r);
    let p = pages_for(count, rpp);
    if r == 0 {
        assert(q * rpp == rpp * q) by (nonlinear_arith);
        if count > 0 {
            assert((q - 1) * rpp == rpp * q - rpp) by (nonlinear_arith);
        }
    } else {
        assert((q + 1) * rpp == rpp * q + rpp) by (nonlinear_arith);
        assert(q * rpp == rpp * q) by (nonlinear_arith);
    }
}

/// The ceiling division computed from an exact quotient and remainder.
proof fn lemma_ceil_div(c: int, p: int, q: int, r: int)
    requires
        p > 0,
        c == q * p + r,
        0 <= r < p,
    ensures
        pages_for(c, p) == if r != 0 {
            q + 1
        } else {
            q
        },
{
    if r == 0 {
        lemma_fundamental_div_mod_converse(c + p - 1, p, q, p - 1);
    } else {
        assert((q + 1) * p + (r - 1) == q * p + r + p - 1) by (nonlinear_arith);
        lemma_fundamental_div_mod_converse(c + p - 1, p, q + 1, r - 1);
    }
}

impl App {
    /// The number of pages the visible rows after the header fill.
    pub open spec fn total_pages_spec(self) -> int {
        pages_for(
            visible_rows_after(
                self.columns@,
                self.data.deep_view(),
                self.first_row as int,
            ).len() as int,
            self.rows_per_page as int,
        )
    }

    /// The ordered indices of the columns shown in preview and export.
    pub fn visible_columns(&self) -> (r: Vec<usize>)
        ensures
            r@ == visible_cols_spec(self.columns@),
    {
        let n: usize = self.columns.len();
        let mut out: Vec<usize> = Vec::new();
        let mut i: usize = 0;
        while i < n
            invariant
                n == self.columns@.len(),
                i <= n,
                out@ == visible_cols_spec(self.columns@.take(i as int)),
            decreases n - i,
        {
            proof {
                assert(self.columns@.take(i + 1).drop_last() =~= self.columns@.take(i as int));
            }
            if column_is_shown(self.columns[i]) {
                out.push(i);
            }
            proof {
                assert(out@ =~= visible_cols_spec(self.columns@.take(i + 1)));
            }
            i = i + 1;
        }
        proof {
            assert(self.columns@.take(n as int) =~= self.columns@);
        }
        out
    }

    /// Whether the given row passes the blank-cell filter.
    pub fn is_row_visible(&self, row: &Vec<String>) -> (r: bool)
        ensures
            r == row_visible_spec(self.columns@, row.deep_view()),
    {
        let n: usize = if row.len() < self.columns.len() {
            row.len()
        } else {
            self.columns.len()
        };
        let mut i: usize = 0;
        while i < n
            invariant
                n <= row@.len(),
                n <= self.columns@.len(),
                n == vstd::math::min(row@.len() as int, self.columns@.len() as int),
                i <= n,
                forall|j: int|
                    0 <= j < i && self.columns@[j] == ColumnState::NonEmpty
                        ==> !is_blank_spec(row.deep_view()[j]),
            decreases n - i,
        {
            let constrained = match self.columns[i] {
                ColumnState::NonEmpty => true,
                _ => false,
            };
            if constrained && is_blank(row[i].as_str()) {
                proof {
                    assert(row.deep_view()[i as int] == row@[i as int]@);
                }
                return false;
            }
            i = i + 1;
        }
        true
    }

    /// The number of pages of visible rows, at the configured page size.
    pub fn total_pages(&self) -> (r: usize)
        requires
            self.wf(),
        ensures
            r as int == self.total_pages_spec(),
    {
        let ghost dv = self.data.deep_view();
        let ghost pred = |row: Seq<Seq<char>>| row_visible_spec(self.columns@, row);
        let len: usize = self.data.len();
        let start: usize = if self.first_row < len {
            self.first_row + 1
        } else {
            len
        };
        proof {
            assert(dv.len() == len);
            if self.first_row < len {
                assert(rows_after(dv, self.first_row as int) == dv.skip(start as int));
            } else {
                assert(rows_after(dv, self.first_row as int) =~= dv.skip(start as int));
            }
        }
        let mut cnt: usize = 0;
        let mut i: usize = start;
        while i < len
            invariant
                dv == self.data.deep_view(),
                len == dv.len(),
                len == self.data@.len(),
                start <= i <= len,
                pred == (|row: Seq<Seq<char>>| row_visible_spec(self.columns@, row)),
                cnt <= i - start,
                cnt == dv.skip(start as int).take(i - start).filter(pred).len(),
            decreases len - i,
        {
            let ghost prefix = dv.skip(start as int).take(i - start);
            proof {
                assert(dv.skip(start as int).take(i - start + 1).drop_last() =~= prefix);
                assert(dv.skip(start as int).take(i - start + 1).last() == dv[i as int]);
                assert(dv[i as int] == self.data@[i as int].deep_view());
            }
            if self.is_row_visible(&self.data[i]) {
                cnt = cnt + 1;
            }
            proof {
                reveal_with_fuel(Seq::filter, 2);
                assert(cnt == dv.skip(start as int).take(i - start + 1).filter(pred).len());
            }
            i = i + 1;
        }
        proof {
            assert(dv.skip(start as int).take(len - start) =~= dv.skip(start as int));
        }
        let rpp: usize = self.rows_per_page;
        let q: usize = cnt / rpp;
        let rem: usize = cnt % rpp;
        let pages: usize = if rem != 0 {
            q + 1
        } else {
            q
        };
        proof {
            lemma_fundamental_div_mod(cnt as int, rpp as int);
            lemma_mod_bound(cnt as int, rpp as int);
            assert(cnt == (cnt / rpp) * rpp + cnt % rpp) by (nonlinear_arith)
                requires
                    rpp > 0,
                    cnt == rpp * (cnt as int / rpp as int) + cnt as int % rpp as int,
            ;
            lemma_ceil_div(cnt as int, rpp as int, q as int, rem as int);
        }
        pages
    }
}

/// The visible column indices are strictly increasing, lie inside the
/// column range, point only at shown columns, and miss no shown column.
pub proof fn lemma_visible_cols_ordered(cols: Seq<ColumnState>)
    requires
        cols.len() <= usize::MAX,
    ensures
        forall|a: int, b: int|
            0 <= a < b < visible_cols_spec(cols).len() ==> visible_cols_spec(cols)[a]
                < visible_cols_spec(cols)[b],
        forall|k: int|
            0 <= k < visible_cols_spec(cols).len() ==> (visible_cols_spec(cols)[k] as int)
                < cols.len() && is_shown(cols[visible_cols_spec(cols)[k] as int]),
        forall|i: int|
            0 <= i < cols.len() && is_shown(cols[i]) ==> visible_cols_spec(cols).contains(
                i as usize,
            ),
    decreases cols.len(),
{
    if cols.len() > 0 {
        lemma_visible_cols_ordered(cols.drop_last());
        let prefix = visible_cols_spec(cols.drop_last());
        let whole = visible_cols_spec(cols);
        assert(forall|i: int|
            0 <= i < cols.len() - 1 ==> cols.drop_last()[i] == cols[i]);
        if is_shown(cols.last()) {
            assert(whole == prefix + seq![(cols.len() - 1) as usize]);
            assert(forall|k: int| 0 <= k < prefix.len() ==> whole[k] == prefix[k]);
            assert(whole[whole.len() - 1] == (cols.len() - 1) as usize);
            assert(forall|i: int|
                0 <= i < cols.len() && is_shown(cols[i]) ==> whole.contains(i as usize)) by {
                assert forall|i: int|
                    0 <= i < cols.len() && is_shown(cols[i]) implies whole.contains(
                    i as usize,
                ) by {
                    if i < cols.len() - 1 {
                        assert(prefix.contains(i as usize));
                        let k = choose|k: int| 0 <= k < prefix.len() && prefix[k] == i as usize;
                        assert(whole[k] == i as usize);
                    } else {
                        assert(whole[whole.len() - 1] == i as usize);
                    }
                }
            }
        } else {
            assert(whole =~= prefix);
            assert(forall|i: int|
                0 <= i < cols.len() && is_shown(cols[i]) ==> whole.contains(i as usize)) by {
                assert forall|i: int|
                    0 <= i < cols.len() && is_shown(cols[i]) implies whole.contains(
                    i as usize,
                ) by {
                    assert(i < cols.len() - 1);
                    assert(prefix.contains(i as usize));
                }
            }
        }
    }
}

/// A row passes the filter whenever no column asks for non-empty cells,
/// whatever the row holds.
pub proof fn lemma_row_visible_without_filters(cols: Seq<ColumnState>, row: Seq<Seq<char>>)
    requires
        forall|i: int| 0 <= i < cols.len() ==> cols[i] != ColumnState::NonEmpty,
    ensures
        row_visible_spec(cols, row),
{
}

} // verus!

verus! {

impl App {
    /// The page count covers every visible row and wastes no whole page:
    /// the pages hold at least as many rows as are visible after the
    /// header, all pages but the last are strictly needed when any row
    /// is visible, and no visible rows need no page.
    pub proof fn lemma_total_pages_bounds(self)
        requires
            self.rows_per_page >= 1,
        ensures
            self.total_pages_spec() * self.rows_per_page >= visible_rows_after(
                self.columns@,
                self.data.deep_view(),
                self.first_row as int,
            ).len(),
            visible_rows_after(
                self.columns@,
                self.data.deep_view(),
                self.first_row as int,
            ).len() > 0 ==> (self.total_pages_spec() - 1) * self.rows_per_page
                < visible_rows_after(
                self.columns@,
                self.data.deep_view(),
                self.first_row as int,
            ).len(),
            visible_rows_after(
                self.columns@,
                self.data.deep_view(),
                self.first_row as int,
            ).len() == 0 ==> self.total_pages_spec() == 0,
    {
        lemma_pages_bound(
            visible_rows_after(
                self.columns@,
                self.data.deep_view(),
                self.first_row as int,
            ).len() as int,
            self.rows_per_page as int,
        );
    }
}

} // verus!
