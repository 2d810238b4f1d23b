//! The merge engine: finds the sheets that share header names with the
//! selected one, and joins them into a single table over the common
//! columns.
use vstd::prelude::*;

use crate::text::stem_of;
use crate::text::str_eq;
use crate::text::trim_of;
use crate::text::trimmed;
use crate::types::App;
use crate::types::MergeCandidate;

verus! {

/// Every cell of the row with its whitespace trimmed.
pub open spec fn trimmed_cells(row: Seq<Seq<char>>) -> Seq<Seq<char>> {
    row.map_values(|c: Seq<char>| trim_of(c))
}

/// The trimmed primary header names that also occur, trimmed, in the other
/// sheet's header row, in primary order.
pub open spec fn mutual_names(primary: Seq<Seq<char>>, other: Seq<Seq<char>>) -> Seq<Seq<char>> {
    trimmed_cells(primary).filter(
        |n: Seq<char>| trimmed_cells(other).contains(n),
    )
}

/// Filtering keeps exactly the elements that satisfy the predicate.
pub proof fn lemma_filter_membership<A>(s: Seq<A>, pred: spec_fn(A) -> bool)
    ensures
        forall|x: A| #[trigger] s.filter(pred).contains(x) == (s.contains(x) && pred(x)),
    decreases s.len(),
{
    reveal_with_fuel(Seq::filter, 2);
    if s.len() > 0 {
        let dl = s.drop_last();
        lemma_filter_membership(dl, pred);
        assert forall|x: A| #[trigger]
            s.filter(pred).contains(x) == (s.contains(x) && pred(x)) by {
            if s.filter(pred).contains(x) {
                let w = choose|w: int|
                    0 <= w < s.filter(pred).len() && s.filter(pred)[w] == x;
                if pred(s.last()) {
                    if w < s.filter(pred).len() - 1 {
                        assert(dl.filter(pred)[w] == x);
                        assert(dl.filter(pred).contains(x));
                        let u = choose|u: int| 0 <= u < dl.len() && dl[u] == x;
                        assert(s[u] == x);
                    } else {
                        assert(x == s.last());
                        assert(s[s.len() - 1] == x);
                    }
                } else {
                    assert(dl.filter(pred)[w] == x);
                    assert(dl.filter(pred).contains(x));
                    let u = choose|u: int| 0 <= u < dl.len() && dl[u] == x;
                    assert(s[u] == x);
                }
                assert(s.contains(x) && pred(x));
            }
            if s.contains(x) && pred(x) {
                let w = choose|w: int| 0 <= w < s.len() && s[w] == x;
                if w < s.len() - 1 {
                    assert(dl[w] == x);
                    assert(dl.contains(x));
                    assert(dl.filter(pred).contains(x));
                    let u = choose|u: int|
                        0 <= u < dl.filter(pred).len() && dl.filter(pred)[u] == x;
                    assert(s.filter(pred)[u] == x);
                } else {
                    assert(x == s.last());
                    assert(s.filter(pred).last() == x);
                }
                assert(s.filter(pred).contains(x));
            }
        }
    }
}

/// Two pointwise-equal predicates filter a sequence to the same thing.
pub proof fn lemma_filter_congruent<A>(s: Seq<A>, p1: spec_fn(A) -> bool, p2: spec_fn(A) -> bool)
    requires
        forall|x: A| #[trigger] p1(x) == #[trigger] p2(x),
    ensures
        s.filter(p1) == s.filter(p2),
    decreases s.len(),
{
    reveal_with_fuel(Seq::filter, 2);
    if s.len() > 0 {
        lemma_filter_congruent(s.drop_last(), p1, p2);
    } else {
        assert(s.filter(p1) =~= s.filter(p2));
    }
}

/// The common-column name set after intersecting the first `k` candidates'
/// shared-name lists into the base set, kept as a sequence in base order.
pub open spec fn common_names_upto(
    base: Seq<Seq<char>>,
    shares: Seq<Seq<Seq<char>>>,
    k: int,
) -> Seq<Seq<char>>
    decreases k,
{
    if k <= 0 {
        base
    } else {
        common_names_upto(base, shares, k - 1).filter(
            |n: Seq<char>| shares[k - 1].contains(n),
        )
    }
}

/// A name survives the intersection exactly when the base holds it and
/// every candidate's shared list holds it — whatever order the candidates
/// come in.
pub proof fn lemma_common_names_membership(
    base: Seq<Seq<char>>,
    shares: Seq<Seq<Seq<char>>>,
    k: int,
)
    requires
        0 <= k <= shares.len(),
    ensures
        forall|x: Seq<char>| #[trigger]
            common_names_upto(base, shares, k).contains(x) == (base.contains(x) && (forall|
                t: int,
            |
                0 <= t < k ==> #[trigger] shares[t].contains(x))),
    decreases k,
{
    if k > 0 {
        lemma_common_names_membership(base, shares, k - 1);
        lemma_filter_membership(
            common_names_upto(base, shares, k - 1),
            |n: Seq<char>| shares[k - 1].contains(n),
        );
    }
}

/// Merging two candidate sheets in either order leaves the same
/// common-name set.
pub proof fn lemma_common_names_commute(
    base: Seq<Seq<char>>,
    shares_one: Seq<Seq<Seq<char>>>,
    shares_two: Seq<Seq<Seq<char>>>,
)
    requires
        shares_one.len() == 2,
        shares_two.len() == 2,
        shares_one[0] == shares_two[1],
        shares_one[1] == shares_two[0],
    ensures
        forall|x: Seq<char>| #[trigger]
            common_names_upto(base, shares_one, 2).contains(x) == #[trigger] common_names_upto(
                base,
                shares_two,
                2,
            ).contains(x),
{
    lemma_common_names_membership(base, shares_one, 2);
    lemma_common_names_membership(base, shares_two, 2);
    assert forall|x: Seq<char>| #[trigger]
        common_names_upto(base, shares_one, 2).contains(x) == #[trigger] common_names_upto(
            base,
            shares_two,
            2,
        ).contains(x) by {
        assert((forall|t: int| 0 <= t < 2 ==> #[trigger] shares_one[t].contains(x)) == (
        shares_one[0].contains(x) && shares_one[1].contains(x)));
        assert((forall|t: int| 0 <= t < 2 ==> #[trigger] shares_two[t].contains(x)) == (
        shares_two[0].contains(x) && shares_two[1].contains(x)));
    }
}

/// The merged header: the primary header cells, original casing and order,
/// restricted to those whose trimmed text lies in the common set.
pub open spec fn merged_header(
    primary: Seq<Seq<char>>,
    common: Seq<Seq<char>>,
) -> Seq<Seq<char>> {
    primary.filter(|cell: Seq<char>| common.contains(trim_of(cell)))
}

/// Common-name sets with the same members pick the same merged header.
pub proof fn lemma_merged_header_same(
    primary: Seq<Seq<char>>,
    c1: Seq<Seq<char>>,
    c2: Seq<Seq<char>>,
)
    requires
        forall|x: Seq<char>| #[trigger] c1.contains(x) == #[trigger] c2.contains(x),
    ensures
        merged_header(primary, c1) == merged_header(primary, c2),
{
    lemma_filter_congruent(
        primary,
        |cell: Seq<char>| c1.contains(trim_of(cell)),
        |cell: Seq<char>| c2.contains(trim_of(cell)),
    );
}

fn trim_cells(row: &Vec<String>) -> (r: Vec<String>)
    ensures
        r.deep_view() == trimmed_cells(row.deep_view()),
{
    let n: usize = row.len();
    let mut out: Vec<String> = Vec::new();
    let mut i: usize = 0;
    while i < n
        invariant
            n == row@.len(),
            i <= n,
            out.deep_view() == trimmed_cells(row.deep_view().take(i as int)),
        decreases n - i,
    {
        let ghost pre = out.deep_view();
        let t = trimmed(row[i].as_str());
        let ghost tv = t@;
        out.push(t);
        proof {
            assert(out.deep_view() =~~= pre.push(tv));
            assert(row.deep_view()[i as int] == row@[i as int]@);
            assert(out.deep_view() =~~= trimmed_cells(row.deep_view().take(i + 1)));
        }
        i = i + 1;
    }
    proof {
        assert(row.deep_view().take(n as int) =~= row.deep_view());
    }
    out
}

fn names_contain(list: &Vec<String>, name: &str) -> (r: bool)
    ensures
        r == list.deep_view().contains(name@),
{
    let n: usize = list.len();
    let mut i: usize = 0;
    while i < n
        invariant
            n == list@.len(),
            i <= n,
            forall|j: int| 0 <= j < i ==> list.deep_view()[j] != name@,
        decreases n - i,
    {
        proof {
            assert(list.deep_view()[i as int] == list@[i as int]@);
        }
        if str_eq(list[i].as_str(), name) {
            proof {
                assert(list.deep_view()[i as int] == name@);
            }
            return true;
        }
        i = i + 1;
    }
    false
}

/// The trimmed names the two header rows share, in primary order.
fn mutual_of(primary: &Vec<String>, other: &Vec<String>) -> (r: Vec<String>)
    ensures
        r.deep_view() == mutual_names(primary.deep_view(), other.deep_view()),
{
    let ghost pdv = primary.deep_view();
    let ghost odv = other.deep_view();
    let ghost keep = |n: Seq<char>| trimmed_cells(odv).contains(n);
    let other_trimmed = trim_cells(other);
    let n: usize = primary.len();
    let mut out: Vec<String> = Vec::new();
    let mut i: usize = 0;
    while i < n
        invariant
            pdv == primary.deep_view(),
            odv == other.deep_view(),
            keep == (|n: Seq<char>| trimmed_cells(odv).contains(n)),
            other_trimmed.deep_view() == trimmed_cells(odv),
            n == primary@.len(),
            i <= n,
            out.deep_view() == trimmed_cells(pdv).take(i as int).filter(keep),
        decreases n - i,
    {
        let t = trimmed(primary[i].as_str());
        let ghost tv = t@;
        proof {
            assert(pdv[i as int] == primary@[i as int]@);
            assert(trimmed_cells(pdv)[i as int] == tv);
            assert(trimmed_cells(pdv).take(i + 1).drop_last() =~= trimmed_cells(pdv).take(
                i as int,
            ));
            assert(trimmed_cells(pdv).take(i + 1).last() == tv);
        }
        let ghost pre = out.deep_view();
        if names_contain(&other_trimmed, t.as_str()) {
            out.push(t);
            proof {
                assert(out.deep_view() =~~= pre.push(tv));
            }
        }
        proof {
            reveal_with_fuel(Seq::filter, 2);
            assert(out.deep_view() =~~= trimmed_cells(pdv).take(i + 1).filter(keep));
        }
        i = i + 1;
    }
    proof {
        assert(trimmed_cells(pdv).take(n as int) =~= trimmed_cells(pdv));
    }
    out
}

/// What one candidate records, viewed abstractly: its sheet index, its
/// sheet name, and its shared trimmed names.
pub open spec fn cand_view(c: MergeCandidate) -> (int, Seq<char>, Seq<Seq<char>>) {
    (c.index as int, c.name@, c.shared.deep_view())
}

impl App {
    /// The sheet index under the selection cursor, or a sentinel below the
    /// range when none is.
    pub open spec fn selected_index(self) -> int {
        match self.selected_sheet {
            Some(i) => i as int,
            None => -1,
        }
    }

    /// The header row of the loaded data at the chosen header-row index.
    pub open spec fn primary_header(self) -> Seq<Seq<char>> {
        self.data.deep_view()[self.first_row as int]
    }

    /// Whether sheet `i` can contribute to a merge: it is not the selected
    /// sheet, it decoded, its grid reaches the header row, and its header
    /// shares at least one trimmed name with the primary header.
    pub open spec fn is_merge_candidate(self, i: int) -> bool {
        &&& 0 <= i < self.sheets@.len()
        &&& i != self.selected_index()
        &&& match self.grids.deep_view()[i] {
            Some(g) => g.len() > self.first_row && mutual_names(
                self.primary_header(),
                g[self.first_row as int],
            ).len() > 0,
            None => false,
        }
    }

    /// The merge candidates among the first `n` sheets, in sheet order.
    pub open spec fn candidates_upto(self, n: int) -> Seq<(int, Seq<char>, Seq<Seq<char>>)>
        decreases n,
    {
        if n <= 0 {
            Seq::empty()
        } else {
            self.candidates_upto(n - 1) + (if self.is_merge_candidate(n - 1) {
                seq![
                    (
                        n - 1,
                        self.sheets@[n - 1]@,
                        mutual_names(
                            self.primary_header(),
                            self.grids.deep_view()[n - 1]->Some_0[self.first_row as int],
                        ),
                    ),
                ]
            } else {
                Seq::empty()
            })
        }
    }

    /// All merge candidates for the chosen header row; none when the
    /// header row lies outside the loaded data.
    pub open spec fn candidates_spec(self) -> Seq<(int, Seq<char>, Seq<Seq<char>>)> {
        if self.first_row < self.data@.len() {
            self.candidates_upto(self.sheets@.len() as int)
        } else {
            Seq::empty()
        }
    }

    /// Finds every other sheet whose header row shares at least one
    /// trimmed name with the selected sheet's header row.
    pub fn check_merge_options(&self) -> (r: Vec<MergeCandidate>)
        requires
            self.wf(),
        ensures
            r@.map_values(|c: MergeCandidate| cand_view(c)) == self.candidates_spec(),
    {
        let mut out: Vec<MergeCandidate> = Vec::new();
        if self.first_row >= self.data.len() {
            proof {
                assert(out@.map_values(|c: MergeCandidate| cand_view(c)) =~= self
                    .candidates_spec());
            }
            return out;
        }
        let n: usize = self.sheets.len();
        let primary: &Vec<String> = &self.data[self.first_row];
        let mut i: usize = 0;
        while i < n
            invariant
                self.wf(),
                self.first_row < self.data@.len(),
                n == self.sheets@.len(),
                primary@ == self.data@[self.first_row as int]@,
                i <= n,
                out@.map_values(|c: MergeCandidate| cand_view(c)) == self.candidates_upto(
                    i as int,
                ),
            decreases n - i,
        {
            let is_selected = match self.selected_sheet {
                Some(s) => s == i,
                None => false,
            };
            let ghost pre = out@.map_values(|c: MergeCandidate| cand_view(c));
            if !is_selected {
                match &self.grids[i] {
                    Some(grid) => {
                        if grid.len() > self.first_row {
                            let mutual = mutual_of(primary, &grid[self.first_row]);
                            proof {
                                assert(self.grids.deep_view()[i as int] == self.grids@[
                                    i as int].deep_view());
                                assert(self.grids@[i as int].deep_view()->Some_0[self.first_row
                                    as int] == grid.deep_view()[self.first_row as int]);
                                assert(grid.deep_view()[self.first_row as int] == grid@[
                                    self.first_row as int].deep_view());
                                assert(primary.deep_view() == self.data@[self.first_row
                                    as int].deep_view());
                                assert(self.primary_header() == primary.deep_view());
                            }
                            if mutual.len() > 0 {
                                let cand = MergeCandidate {
                                    index: i,
                                    name: self.sheets[i].clone(),
                                    shared: mutual,
                                };
                                out.push(cand);
                                proof {
                                    assert(out@.map_values(
                                        |c: MergeCandidate| cand_view(c),
                                    ) =~~= pre.push(
                                        (
                                            i as int,
                                            self.sheets@[i as int]@,
                                            mutual_names(
                                                self.primary_header(),
                                                self.grids.deep_view()[
                                                    i as int]->Some_0[self.first_row as int],
                                            ),
                                        ),
                                    ));
                                }
                            } else {
                                proof {
                                    assert(mutual.deep_view().len() == 0);
                                }
                            }
                        }
                    },
                    None => {},
                }
            }
            proof {
                assert(out@.map_values(|c: MergeCandidate| cand_view(c)) =~~= self
                    .candidates_upto(i + 1));
            }
            i = i + 1;
        }
        out
    }
}

} // verus!

verus! {

/// The position a name resolves to in a trimmed header row: the last cell
/// holding exactly that name, as collecting a name-to-index lookup from
/// the row leaves the last occurrence in place; below zero when absent.
pub open spec fn header_index(theader: Seq<Seq<char>>, name: Seq<char>) -> int
    decreases theader.len(),
{
    if theader.len() == 0 {
        -1
    } else if theader.last() == name {
        theader.len() - 1
    } else {
        header_index(theader.drop_last(), name)
    }
}

/// One row of a contributing sheet, rebuilt over the merged header: each
/// merged column takes the cell its trimmed name resolves to in that
/// sheet, or empty text where the sheet lacks the name or the row is too
/// short.
pub open spec fn merged_row(
    theader: Seq<Seq<char>>,
    row: Seq<Seq<char>>,
    new_header: Seq<Seq<char>>,
) -> Seq<Seq<char>> {
    new_header.map_values(
        |cell: Seq<char>|
            {
                let idx = header_index(theader, trim_of(cell));
                if 0 <= idx < row.len() {
                    row[idx]
                } else {
                    Seq::<char>::empty()
                }
            },
    )
}

/// The rows one sheet contributes to the merge: every row after its own
/// header row, rebuilt over the merged header; none when the sheet did
/// not decode or does not reach the header row.
pub open spec fn sheet_contrib(
    gopt: Option<Seq<Seq<Seq<char>>>>,
    first: int,
    new_header: Seq<Seq<char>>,
) -> Seq<Seq<Seq<char>>> {
    match gopt {
        Some(g) => if g.len() > first && first >= 0 {
            g.skip(first + 1).map_values(
                |row: Seq<Seq<char>>| merged_row(trimmed_cells(g[first]), row, new_header),
            )
        } else {
            Seq::empty()
        },
        None => Seq::empty(),
    }
}

/// How many rows one sheet contributes.
pub open spec fn contrib_rows(gopt: Option<Seq<Seq<Seq<char>>>>, first: int) -> int {
    match gopt {
        Some(g) => if g.len() > first && first >= 0 {
            g.len() - first - 1
        } else {
            0
        },
        None => 0,
    }
}

impl App {
    /// The decoded grid recorded for sheet `idx`, or nothing when the
    /// index lies outside the workbook.
    pub open spec fn grid_dv_of(self, idx: int) -> Option<Seq<Seq<Seq<char>>>> {
        if 0 <= idx < self.grids@.len() {
            self.grids.deep_view()[idx]
        } else {
            None
        }
    }

    /// The shared-name lists of the recorded merge candidates, in order.
    pub open spec fn merge_shares(self) -> Seq<Seq<Seq<char>>> {
        match self.merge_info {
            Some(v) => v@.map_values(|c: MergeCandidate| c.shared.deep_view()),
            None => Seq::empty(),
        }
    }

    /// The sheet index of each recorded merge candidate, in order.
    pub open spec fn merge_indices(self) -> Seq<int> {
        match self.merge_info {
            Some(v) => v@.map_values(|c: MergeCandidate| c.index as int),
            None => Seq::empty(),
        }
    }

    /// The final common-column name set: the primary header's trimmed
    /// names intersected with every candidate's shared names.
    pub open spec fn merge_common(self) -> Seq<Seq<char>> {
        common_names_upto(
            trimmed_cells(self.primary_header()),
            self.merge_shares(),
            self.merge_shares().len() as int,
        )
    }

    /// The header row of the merged table.
    pub open spec fn merge_header_spec(self) -> Seq<Seq<char>> {
        merged_header(self.primary_header(), self.merge_common())
    }

    /// The rows the first `k` candidates contribute, in candidate order.
    pub open spec fn merge_contribs(self, k: int) -> Seq<Seq<Seq<char>>>
        decreases k,
    {
        if k <= 0 {
            Seq::empty()
        } else {
            self.merge_contribs(k - 1) + sheet_contrib(
                self.grid_dv_of(self.merge_indices()[k - 1]),
                self.first_row as int,
                self.merge_header_spec(),
            )
        }
    }

    /// The row count the first `k` candidates contribute.
    pub open spec fn merge_contrib_rows(self, k: int) -> int
        decreases k,
    {
        if k <= 0 {
            0
        } else {
            self.merge_contrib_rows(k - 1) + contrib_rows(
                self.grid_dv_of(self.merge_indices()[k - 1]),
                self.first_row as int,
            )
        }
    }

    /// The whole merged table: one header row, then the selected sheet's
    /// rows, then each candidate's rows, in candidate order.
    pub open spec fn merged_data_spec(self) -> Seq<Seq<Seq<char>>> {
        seq![self.merge_header_spec()] + sheet_contrib(
            self.grid_dv_of(self.selected_index()),
            self.first_row as int,
            self.merge_header_spec(),
        ) + self.merge_contribs(self.merge_shares().len() as int)
    }

    /// Whether a merge can run: the header row lies inside the loaded
    /// data and the selection cursor rests on a sheet of the workbook.
    pub open spec fn merge_applicable(self) -> bool {
        &&& self.first_row < self.data@.len()
        &&& match self.selected_sheet {
            Some(i) => i < self.sheets@.len(),
            None => false,
        }
    }
}

/// The merged table always holds its header row, and each contributing
/// sheet adds exactly its rows after that sheet's own header row.
pub proof fn lemma_merged_row_count(app: App)
    ensures
        app.merged_data_spec().len() == 1 + contrib_rows(
            app.grid_dv_of(app.selected_index()),
            app.first_row as int,
        ) + app.merge_contrib_rows(app.merge_shares().len() as int),
{
    lemma_contrib_rows(app, app.merge_shares().len() as int);
}

proof fn lemma_contrib_rows(app: App, k: int)
    ensures
        app.merge_contribs(k).len() == app.merge_contrib_rows(k),
    decreases k,
{
    if k > 0 {
        lemma_contrib_rows(app, k - 1);
    }
}

fn filter_names(cur: &Vec<String>, allowed: &Vec<String>) -> (r: Vec<String>)
    ensures
        r.deep_view() == cur.deep_view().filter(
            |n: Seq<char>| allowed.deep_view().contains(n),
        ),
{
    let ghost keep = |n: Seq<char>| allowed.deep_view().contains(n);
    let n: usize = cur.len();
    let mut out: Vec<String> = Vec::new();
    let mut i: usize = 0;
    while i < n
        invariant
            keep == (|n: Seq<char>| allowed.deep_view().contains(n)),
            n == cur@.len(),
            i <= n,
            out.deep_view() == cur.deep_view().take(i as int).filter(keep),
        decreases n - i,
    {
        proof {
            assert(cur.deep_view().take(i + 1).drop_last() =~= cur.deep_view().take(i as int));
            assert(cur.deep_view().take(i + 1).last() == cur.deep_view()[i as int]);
            assert(cur.deep_view()[i as int] == cur@[i as int]@);
        }
        let ghost pre = out.deep_view();
        if names_contain(allowed, cur[i].as_str()) {
            let kept = cur[i].clone();
            out.push(kept);
            proof {
                assert(out.deep_view() =~~= pre.push(cur.deep_view()[i as int]));
            }
        }
        proof {
            reveal_with_fuel(Seq::filter, 2);
            assert(out.deep_view() =~~= cur.deep_view().take(i + 1).filter(keep));
        }
        i = i + 1;
    }
    proof {
        assert(cur.deep_view().take(n as int) =~= cur.deep_view());
    }
    out
}

pub(crate) fn clone_cells(row: &Vec<String>) -> (r: Vec<String>)
    ensures
        r@ == row@,
{
    let n: usize = row.len();
    let mut out: Vec<String> = Vec::new();
    let mut i: usize = 0;
    while i < n
        invariant
            n == row@.len(),
            i <= n,
            out@ == row@.take(i as int),
        decreases n - i,
    {
        out.push(row[i].clone());
        proof {
            assert(out@ =~= row@.take(i + 1));
        }
        i = i + 1;
    }
    proof {
        assert(row@.take(n as int) =~= row@);
    }
    out
}

fn header_index_exec(theader: &Vec<String>, name: &str) -> (r: Option<usize>)
    ensures
        match r {
            Some(f) => header_index(theader.deep_view(), name@) == f as int,
            None => header_index(theader.deep_view(), name@) == -1,
        },
{
    let ghost tdv = theader.deep_view();
    let n: usize = theader.len();
    let mut found: Option<usize> = None;
    let mut j: usize = 0;
    while j < n
        invariant
            tdv == theader.deep_view(),
            n == theader@.len(),
            j <= n,
            match found {
                Some(f) => f < j && header_index(tdv.take(j as int), name@) == f as int,
                None => header_index(tdv.take(j as int), name@) == -1,
            },
        decreases n - j,
    {
        proof {
            assert(tdv.take(j + 1).drop_last() =~= tdv.take(j as int));
            assert(tdv.take(j + 1).last() == tdv[j as int]);
            assert(tdv[j as int] == theader@[j as int]@);
        }
        if str_eq(theader[j].as_str(), name) {
            found = Some(j);
        }
        j = j + 1;
    }
    proof {
        assert(tdv.take(n as int) =~= tdv);
    }
    found
}

/// Appends one sheet's rows, rebuilt over the merged header, to the
/// merged table being assembled.
fn append_sheet_rows(
    grid: &Vec<Vec<String>>,
    first: usize,
    new_header: &Vec<String>,
    merged: &mut Vec<Vec<String>>,
)
    ensures
        final(merged).deep_view() == old(merged).deep_view() + sheet_contrib(
            Some(grid.deep_view()),
            first as int,
            new_header.deep_view(),
        ),
{
    let ghost gdv = grid.deep_view();
    let ghost nhdv = new_header.deep_view();
    let ghost base = merged.deep_view();
    if grid.len() <= first {
        proof {
            assert(final(merged).deep_view() =~= base + sheet_contrib(
                Some(gdv),
                first as int,
                nhdv,
            ));
        }
        return;
    }
    let theader = trim_cells(&grid[first]);
    let ghost tdv = trimmed_cells(gdv[first as int]);
    proof {
        assert(gdv[first as int] == grid@[first as int].deep_view());
        assert(theader.deep_view() == tdv);
    }
    let ghost rowmap = |row: Seq<Seq<char>>| merged_row(tdv, row, nhdv);
    let len: usize = grid.len();
    let start: usize = first + 1;
    let mut r: usize = start;
    while r < len
        invariant
            gdv == grid.deep_view(),
            nhdv == new_header.deep_view(),
            tdv == trimmed_cells(gdv[first as int]),
            theader.deep_view() == tdv,
            rowmap == (|row: Seq<Seq<char>>| merged_row(tdv, row, nhdv)),
            len == grid@.len(),
            start == first + 1,
            start <= r <= len,
            merged.deep_view() == base + gdv.skip(start as int).take(r - start).map_values(
                rowmap,
            ),
        decreases len - r,
    {
        let row: &Vec<String> = &grid[r];
        let ghost rdv = gdv[r as int];
        proof {
            assert(rdv == grid@[r as int].deep_view());
            assert(rdv == row.deep_view());
        }
        let m: usize = new_header.len();
        let mut new_row: Vec<String> = Vec::new();
        let mut c: usize = 0;
        while c < m
            invariant
                gdv == grid.deep_view(),
                nhdv == new_header.deep_view(),
                tdv == trimmed_cells(gdv[first as int]),
                theader.deep_view() == tdv,
                rdv == grid@[r as int].deep_view(),
                rdv == row.deep_view(),
                r < len,
                len == grid@.len(),
                m == new_header@.len(),
                c <= m,
                new_row.deep_view() == merged_row(tdv, rdv, nhdv.take(c as int)),
            decreases m - c,
        {
            let name = trimmed(new_header[c].as_str());
            proof {
                assert(nhdv[c as int] == new_header@[c as int]@);
                assert(name@ == trim_of(nhdv[c as int]));
            }
            let ghost pre = new_row.deep_view();
            let cell: String = match header_index_exec(&theader, name.as_str()) {
                Some(hidx) => if hidx < row.len() {
                    row[hidx].clone()
                } else {
                    String::new()
                },
                None => String::new(),
            };
            let ghost cv = cell@;
            proof {
                let idx = header_index(tdv, trim_of(nhdv[c as int]));
                assert(rdv.len() == row@.len());
                if 0 <= idx < rdv.len() {
                    assert(rdv[idx] == row@[idx]@);
                }
                assert(cv == (if 0 <= idx < rdv.len() {
                    rdv[idx]
                } else {
                    Seq::<char>::empty()
                }));
            }
            new_row.push(cell);
            proof {
                assert(new_row.deep_view() =~~= pre.push(cv));
                assert(nhdv.take(c + 1).drop_last() =~= nhdv.take(c as int));
                assert(new_row.deep_view() =~~= merged_row(tdv, rdv, nhdv.take(c + 1)));
            }
            c = c + 1;
        }
        proof {
            assert(nhdv.take(m as int) =~= nhdv);
            assert(new_row.deep_view() == merged_row(tdv, rdv, nhdv));
        }
        let ghost premerged = merged.deep_view();
        let ghost nrv = new_row.deep_view();
        merged.push(new_row);
        proof {
            assert(merged.deep_view() =~~= premerged.push(nrv));
            assert(gdv.skip(start as int).take(r - start + 1).drop_last() =~= gdv.skip(
                start as int,
            ).take(r - start));
            assert(gdv.skip(start as int).take(r - start + 1).last() == gdv[r as int]);
            assert(merged.deep_view() =~~= base + gdv.skip(start as int).take(
                r - start + 1,
            ).map_values(rowmap));
        }
        r = r + 1;
    }
    proof {
        assert(gdv.skip(start as int).take(len - start) =~= gdv.skip(start as int));
        assert(merged.deep_view() =~= base + sheet_contrib(Some(gdv), first as int, nhdv));
    }
}

} // verus!

verus! {

impl App {
    /// Executes the merge: intersects the primary header's trimmed names
    /// with every candidate's shared names, rebuilds every contributing
    /// sheet's rows over the common columns, and replaces the loaded data
    /// with the merged table under the sentinel sheet name. Does nothing
    /// when the header row lies outside the data or no sheet is under the
    /// cursor.
    pub fn perform_merge(&mut self)
        requires
            old(self).wf(),
        ensures
            final(self).wf(),
            !old(self).merge_applicable() ==> *final(self) == *old(self),
            old(self).merge_applicable() ==> final(self).data.deep_view() == old(self).merged_data_spec(),
            old(self).merge_applicable() ==> final(self).data@.len() == 1 + contrib_rows(
                old(self).grid_dv_of(old(self).selected_index()),
                old(self).first_row as int,
            ) + old(self).merge_contrib_rows(old(self).merge_shares().len() as int),
            old(self).merge_applicable() ==> final(self).sheets@.len() == 1
                && final(self).sheets@[0]@ == Self::merged_label(),
            old(self).merge_applicable() ==> final(self).grids@.len() == 1
                && (final(self).grids@[0] is None),
            old(self).merge_applicable() ==> final(self).selected_sheet == Some(0usize)
                && final(self).first_row == 0 && final(self).matching_sheets@.len() == 0,
            old(self).merge_applicable() ==> final(self).export_filename@ == (match stem_of(
                old(self).original_filename@,
            ) {
                Some(t) => t,
                None => old(self).original_filename@,
            }),
            old(self).merge_applicable() ==> *final(self) == (App {
                data: final(self).data,
                sheets: final(self).sheets,
                grids: final(self).grids,
                selected_sheet: final(self).selected_sheet,
                first_row: final(self).first_row,
                matching_sheets: final(self).matching_sheets,
                export_filename: final(self).export_filename,
                ..*old(self)
            }),
    {
        let applicable = self.first_row < self.data.len() && (match self.selected_sheet {
            Some(i) => i < self.sheets.len(),
            None => false,
        });
        if !applicable {
            return;
        }
        let sel: usize = match self.selected_sheet {
            Some(i) => i,
            None => 0,
        };
        let ghost oldapp = *self;
        let ghost base = trimmed_cells(oldapp.primary_header());
        let ghost shares = oldapp.merge_shares();
        let mut common: Vec<String>;
        {
            let primary: &Vec<String> = &self.data[self.first_row];
            common = trim_cells(primary);
            proof {
                assert(oldapp.primary_header() == self.data@[self.first_row as int].deep_view());
                assert(primary.deep_view() == oldapp.primary_header());
            }
        }
        match &self.merge_info {
            Some(info) => {
                let m: usize = info.len();
                let mut k: usize = 0;
                while k < m
                    invariant
                        oldapp.merge_info == Some(*info),
                        shares == oldapp.merge_shares(),
                        base == trimmed_cells(oldapp.primary_header()),
                        m == info@.len(),
                        m == shares.len(),
                        k <= m,
                        common.deep_view() == common_names_upto(base, shares, k as int),
                    decreases m - k,
                {
                    proof {
                        assert(shares[k as int] == info@[k as int].shared.deep_view());
                    }
                    let next = filter_names(&common, &info[k].shared);
                    common = next;
                    k = k + 1;
                }
            },
            None => {},
        }
        proof {
            assert(common.deep_view() == oldapp.merge_common());
        }
        let ghost cdv = common.deep_view();
        let ghost hkeep = |cell: Seq<char>| cdv.contains(trim_of(cell));
        let mut new_header: Vec<String> = Vec::new();
        {
            let primary: &Vec<String> = &self.data[self.first_row];
            let ghost pdv = primary.deep_view();
            proof {
                assert(pdv == oldapp.primary_header());
            }
            let pn: usize = primary.len();
            let mut c: usize = 0;
            while c < pn
                invariant
                    pdv == primary.deep_view(),
                    cdv == common.deep_view(),
                    hkeep == (|cell: Seq<char>| cdv.contains(trim_of(cell))),
                    pn == primary@.len(),
                    c <= pn,
                    new_header.deep_view() == pdv.take(c as int).filter(hkeep),
                decreases pn - c,
            {
                proof {
                    assert(pdv.take(c + 1).drop_last() =~= pdv.take(c as int));
                    assert(pdv.take(c + 1).last() == pdv[c as int]);
                    assert(pdv[c as int] == primary@[c as int]@);
                }
                let t = trimmed(primary[c].as_str());
                let ghost pre = new_header.deep_view();
                if names_contain(&common, t.as_str()) {
                    let kept = primary[c].clone();
                    new_header.push(kept);
                    proof {
                        assert(new_header.deep_view() =~~= pre.push(pdv[c as int]));
                    }
                }
                proof {
                    reveal_with_fuel(Seq::filter, 2);
                    assert(new_header.deep_view() =~~= pdv.take(c + 1).filter(hkeep));
                }
                c = c + 1;
            }
            proof {
                assert(pdv.take(pn as int) =~= pdv);
            }
        }
        proof {
            assert(new_header.deep_view() == oldapp.merge_header_spec());
        }
        let ghost nhdv = new_header.deep_view();
        let mut merged: Vec<Vec<String>> = Vec::new();
        let header_clone = clone_cells(&new_header);
        proof {
            assert(header_clone.deep_view() =~~= nhdv);
        }
        merged.push(header_clone);
        proof {
            assert(merged.deep_view() =~~= seq![nhdv]);
        }
        match &self.grids[sel] {
            Some(g) => {
                proof {
                    assert(self.grids.deep_view()[sel as int] == self.grids@[
                        sel as int].deep_view());
                    assert(oldapp.grid_dv_of(sel as int) == Some(g.deep_view()));
                }
                append_sheet_rows(g, self.first_row, &new_header, &mut merged);
            },
            None => {
                proof {
                    assert(self.grids.deep_view()[sel as int] == self.grids@[
                        sel as int].deep_view());
                    assert(oldapp.grid_dv_of(sel as int) is None);
                    assert(merged.deep_view() =~= seq![nhdv] + sheet_contrib(
                        oldapp.grid_dv_of(sel as int),
                        oldapp.first_row as int,
                        nhdv,
                    ));
                }
            },
        }
        let ghost selpart = seq![nhdv] + sheet_contrib(
            oldapp.grid_dv_of(oldapp.selected_index()),
            oldapp.first_row as int,
            nhdv,
        );
        proof {
            assert(oldapp.selected_index() == sel as int);
            assert(merged.deep_view() == selpart);
            assert(oldapp.merge_contribs(0) =~= Seq::empty());
        }
        match &self.merge_info {
            Some(info) => {
                let m: usize = info.len();
                let mut k: usize = 0;
                while k < m
                    invariant
                        *self == oldapp,
                        oldapp.wf(),
                        oldapp.merge_info == Some(*info),
                        nhdv == oldapp.merge_header_spec(),
                        nhdv == new_header.deep_view(),
                        selpart == seq![nhdv] + sheet_contrib(
                            oldapp.grid_dv_of(oldapp.selected_index()),
                            oldapp.first_row as int,
                            nhdv,
                        ),
                        m == info@.len(),
                        m == oldapp.merge_indices().len(),
                        k <= m,
                        merged.deep_view() == selpart + oldapp.merge_contribs(k as int),
                    decreases m - k,
                {
                    let ghost ci_spec = oldapp.merge_indices()[k as int];
                    proof {
                        assert(ci_spec == info@[k as int].index as int);
                    }
                    let ci: usize = info[k].index;
                    if ci < self.grids.len() {
                        match &self.grids[ci] {
                            Some(g) => {
                                proof {
                                    assert(self.grids.deep_view()[ci as int] == self.grids@[
                                        ci as int].deep_view());
                                    assert(oldapp.grid_dv_of(ci_spec) == Some(g.deep_view()));
                                }
                                append_sheet_rows(g, self.first_row, &new_header, &mut merged);
                            },
                            None => {
                                proof {
                                    assert(self.grids.deep_view()[ci as int] == self.grids@[
                                        ci as int].deep_view());
                                    assert(oldapp.grid_dv_of(ci_spec) is None);
                                }
                            },
                        }
                    }
                    proof {
                        assert(merged.deep_view() =~= selpart + oldapp.merge_contribs(
                            k + 1,
                        ));
                    }
                    k = k + 1;
                }
                proof {
                    assert(m == oldapp.merge_shares().len());
                }
            },
            None => {
                proof {
                    assert(oldapp.merge_shares().len() == 0);
                }
            },
        }
        proof {
            assert(merged.deep_view() == oldapp.merged_data_spec());
            lemma_merged_row_count(oldapp);
            assert(merged.deep_view().len() == merged@.len());
        }
        self.data = merged;
        let mut sheets_new: Vec<String> = Vec::new();
        sheets_new.push("[Merged]".to_owned());
        self.sheets = sheets_new;
        let mut grids_new: Vec<Option<Vec<Vec<String>>>> = Vec::new();
        grids_new.push(None);
        self.grids = grids_new;
        self.selected_sheet = Some(0);
        self.first_row = 0;
        self.matching_sheets = Vec::new();
        let df = self.get_default_filename();
        self.export_filename = df;
        proof {
            assert(self.sheets@[0]@ == Self::merged_label());
            assert(self.data@.len() >= 1);
        }
    }
}

} // verus!
