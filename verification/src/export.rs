//! The export builder: projects the visible rows into flat key/value
//! records, collapses duplicate keys the way a JSON object does, and
//! optionally deduplicates whole records.
use vstd::prelude::*;

use crate::filter::row_visible_spec;
use crate::filter::visible_cols_spec;
use crate::filter::visible_rows_after;
use crate::text::is_blank;
use crate::text::is_blank_spec;
use crate::text::normalize_spec;
use crate::text::normalize_text;
use crate::text::str_eq;
use crate::types::App;
use vstd::string::StringExecFns;
use vstd::string::StrSliceExecFns;

verus! {

/// One exported record: export keys paired with rendered cell values, in
/// visible-column order, each key kept once.
pub type JsonRecord = Vec<(String, String)>;

/// The export key of column `c`: the column's custom key if it holds more
/// than whitespace, else the header cell under the column (or nothing
/// where the header row is too short), always normalized.
pub open spec fn export_key_spec(app: App, c: int) -> Seq<char> {
    let ck = app.custom_keys@[c]@;
    let header = app.data.deep_view()[app.first_row as int];
    let source = if is_blank_spec(ck) {
        if c < header.len() {
            header[c]
        } else {
            Seq::<char>::empty()
        }
    } else {
        ck
    };
    normalize_spec(source)
}

/// The export value of column `c` in the given row: the cell wrapped in
/// the column's prefix and postfix.
pub open spec fn export_value_spec(app: App, c: int, row: Seq<Seq<char>>) -> Seq<char> {
    app.column_configs@[c].prefix@ + row[c] + app.column_configs@[c].postfix@
}

/// The key/value pairs of one row before duplicate keys collapse: one
/// pair per visible column that the row reaches, in column order.
pub open spec fn raw_pairs_spec(app: App, row: Seq<Seq<char>>) -> Seq<(Seq<char>, Seq<char>)> {
    visible_cols_spec(app.columns@).filter(|c: usize| (c as int) < row.len()).map_values(
        |c: usize| (export_key_spec(app, c as int), export_value_spec(app, c as int, row)),
    )
}

/// Whether position `i` holds the first occurrence of its key.
pub open spec fn first_occurrence(pairs: Seq<(Seq<char>, Seq<char>)>, i: int) -> bool {
    forall|j: int| 0 <= j < i ==> pairs[j].0 != pairs[i].0
}

/// The value the last pair with key `k` carries, or nothing when no pair
/// does.
pub open spec fn last_val_of_key(pairs: Seq<(Seq<char>, Seq<char>)>, k: Seq<char>) -> Seq<char>
    decreases pairs.len(),
{
    if pairs.len() == 0 {
        Seq::empty()
    } else if pairs.last().0 == k {
        pairs.last().1
    } else {
        last_val_of_key(pairs.drop_last(), k)
    }
}

/// The positions among the first `n` that hold the first occurrence of
/// their key.
pub open spec fn kept_positions(pairs: Seq<(Seq<char>, Seq<char>)>, n: int) -> Seq<int> {
    Seq::new(n as nat, |t: int| t).filter(|t: int| first_occurrence(pairs, t))
}

/// The pairs as a JSON object holds them: each key once, at its first
/// position, carrying the value of its last occurrence.
pub open spec fn collapse_spec(pairs: Seq<(Seq<char>, Seq<char>)>) -> Seq<(Seq<char>, Seq<char>)> {
    kept_positions(pairs, pairs.len() as int).map_values(
        |t: int| (pairs[t].0, last_val_of_key(pairs, pairs[t].0)),
    )
}

/// Collapses duplicate keys: every key keeps its first position and takes
/// the value of its last occurrence, as collecting the pairs into a JSON
/// object does.
fn collapse_pairs(pairs: &Vec<(String, String)>) -> (r: Vec<(String, String)>)
    ensures
        r.deep_view() == collapse_spec(pairs.deep_view()),
{
    let ghost pv = pairs.deep_view();
    let n: usize = pairs.len();
    let mut out: Vec<(String, String)> = Vec::new();
    let mut i: usize = 0;
    while i < n
        invariant
            pv == pairs.deep_view(),
            n == pairs@.len(),
            i <= n,
            out.deep_view() == kept_positions(pv, i as int).map_values(
                |t: int| (pv[t].0, last_val_of_key(pv, pv[t].0)),
            ),
        decreases n - i,
    {
        let mut dup = false;
        let mut j: usize = 0;
        while j < i
            invariant
                pv == pairs.deep_view(),
                n == pairs@.len(),
                i < n,
                j <= i,
                dup == !(forall|t: int| 0 <= t < j ==> pv[t].0 != pv[i as int].0),
            decreases i - j,
        {
            proof {
                assert(pv[j as int].0 == pairs@[j as int].0@);
                assert(pv[i as int].0 == pairs@[i as int].0@);
            }
            if str_eq(pairs[j].0.as_str(), pairs[i].0.as_str()) {
                dup = true;
            }
            j = j + 1;
        }
        let ghost pre = out.deep_view();
        let ghost fpair = |t: int| (pv[t].0, last_val_of_key(pv, pv[t].0));
        if !dup {
            let mut v: String = String::new();
            let mut j2: usize = 0;
            while j2 < n
                invariant
                    pv == pairs.deep_view(),
                    n == pairs@.len(),
                    i < n,
                    j2 <= n,
                    v@ == last_val_of_key(pv.take(j2 as int), pv[i as int].0),
                decreases n - j2,
            {
                proof {
                    assert(pv.take(j2 + 1).drop_last() =~= pv.take(j2 as int));
                    assert(pv[j2 as int] == (pairs@[j2 as int].0@, pairs@[j2 as int].1@));
                    assert(pv[i as int].0 == pairs@[i as int].0@);
                }
                if str_eq(pairs[j2].0.as_str(), pairs[i].0.as_str()) {
                    v = pairs[j2].1.clone();
                }
                j2 = j2 + 1;
            }
            proof {
                assert(pv.take(n as int) =~= pv);
                assert(v@ == last_val_of_key(pv, pv[i as int].0));
            }
            let ghost vv = v@;
            out.push((pairs[i].0.clone(), v));
            proof {
                assert(out.deep_view() =~~= pre.push((pairs@[i as int].0@, vv)));
                assert(pv[i as int].0 == pairs@[i as int].0@);
                assert((pairs@[i as int].0@, vv) == fpair(i as int));
            }
        }
        proof {
            reveal_with_fuel(Seq::<_>::filter, 2);
            assert(dup == !first_occurrence(pv, i as int));
            assert(Seq::new((i + 1) as nat, |t: int| t).drop_last() =~= Seq::new(
                i as nat,
                |t: int| t,
            ));
            assert(Seq::new((i + 1) as nat, |t: int| t).last() == i as int);
            assert(kept_positions(pv, i + 1) =~= (if first_occurrence(pv, i as int) {
                kept_positions(pv, i as int).push(i as int)
            } else {
                kept_positions(pv, i as int)
            }));
            if !dup {
                assert(kept_positions(pv, i + 1).map_values(fpair) =~~= kept_positions(
                    pv,
                    i as int,
                ).map_values(fpair).push(fpair(i as int)));
            }
            assert(out.deep_view() =~~= kept_positions(pv, i + 1).map_values(
                |t: int| (pv[t].0, last_val_of_key(pv, pv[t].0)),
            ));
        }
        i = i + 1;
    }
    proof {
        assert(kept_positions(pv, n as int) == kept_positions(pv, pv.len() as int));
    }
    out
}

impl App {
    /// The record one visible row exports.
    pub open spec fn record_spec(self, row: Seq<Seq<char>>) -> Seq<(Seq<char>, Seq<char>)> {
        collapse_spec(raw_pairs_spec(self, row))
    }

    /// Every record of the export, in row order: one per visible row
    /// strictly after the header row.
    pub open spec fn records_spec(self) -> Seq<Seq<(Seq<char>, Seq<char>)>> {
        visible_rows_after(self.columns@, self.data.deep_view(), self.first_row as int)
            .map_values(|row: Seq<Seq<char>>| self.record_spec(row))
    }

    fn record_for_row(&self, row: &Vec<String>, vis: &Vec<usize>) -> (r: JsonRecord)
        requires
            self.wf(),
            self.first_row < self.data@.len(),
            vis@ == visible_cols_spec(self.columns@),
        ensures
            r.deep_view() == self.record_spec(row.deep_view()),
    {
        let ghost rowv = row.deep_view();
        let ghost keep = |c: usize| (c as int) < rowv.len();
        let ghost build = |c: usize|
            (export_key_spec(*self, c as int), export_value_spec(*self, c as int, rowv));
        let ncols: usize = self.columns.len();
        proof {
            assert(self.columns@.len() == ncols);
            crate::filter::lemma_visible_cols_ordered(self.columns@);
        }
        let mut pairs: Vec<(String, String)> = Vec::new();
        let mut t: usize = 0;
        while t < vis.len()
            invariant
                self.wf(),
                self.first_row < self.data@.len(),
                vis@ == visible_cols_spec(self.columns@),
                rowv == row.deep_view(),
                keep == (|c: usize| (c as int) < rowv.len()),
                build == (|c: usize|
                    (export_key_spec(*self, c as int), export_value_spec(*self, c as int, rowv))),
                forall|k: int|
                    0 <= k < vis@.len() ==> (vis@[k] as int) < self.columns@.len(),
                t <= vis@.len(),
                pairs.deep_view() == vis@.take(t as int).filter(keep).map_values(build),
            decreases vis@.len() - t,
        {
            let c: usize = vis[t];
            if c < row.len() {
                let custom_empty = is_blank(self.custom_keys[c].as_str());
                let key: String = if custom_empty {
                    let header = &self.data[self.first_row];
                    if c < header.len() {
                        normalize_text(header[c].as_str())
                    } else {
                        normalize_text("")
                    }
                } else {
                    normalize_text(self.custom_keys[c].as_str())
                };
                proof {
                    assert(self.data.deep_view()[self.first_row as int] == self.data@[
                        self.first_row as int].deep_view());
                    if custom_empty && c < self.data@[self.first_row as int]@.len() {
                        assert(self.data@[self.first_row as int].deep_view()[c as int]
                            == self.data@[self.first_row as int]@[c as int]@);
                    }
                    reveal_strlit("");
                    assert(""@ =~= Seq::<char>::empty());
                    assert(key@ == export_key_spec(*self, c as int));
                }
                let mut v: String = self.column_configs[c].prefix.clone();
                v.append(row[c].as_str());
                v.append(self.column_configs[c].postfix.as_str());
                proof {
                    assert(rowv[c as int] == row@[c as int]@);
                    assert(v@ == export_value_spec(*self, c as int, rowv));
                }
                let ghost prepairs = pairs.deep_view();
                let ghost kk = key@;
                let ghost vv = v@;
                pairs.push((key, v));
                proof {
                    assert(pairs.deep_view() =~~= prepairs.push((kk, vv)));
                    assert((kk, vv) == build(c));
                }
            }
            proof {
                reveal_with_fuel(Seq::<_>::filter, 2);
                assert(vis@.take(t + 1).drop_last() =~= vis@.take(t as int));
                assert(vis@.take(t + 1).last() == vis@[t as int]);
                assert(vis@.take(t + 1).filter(keep) =~= (if keep(vis@[t as int]) {
                    vis@.take(t as int).filter(keep).push(vis@[t as int])
                } else {
                    vis@.take(t as int).filter(keep)
                }));
                if keep(vis@[t as int]) {
                    assert(vis@.take(t + 1).filter(keep).map_values(build) =~~= vis@.take(
                        t as int,
                    ).filter(keep).map_values(build).push(build(vis@[t as int])));
                }
                assert(pairs.deep_view() =~~= vis@.take(t + 1).filter(keep).map_values(build));
            }
            t = t + 1;
        }
        proof {
            assert(vis@.take(vis@.len() as int) =~= vis@);
            assert(pairs.deep_view() == raw_pairs_spec(*self, rowv));
        }
        collapse_pairs(&pairs)
    }

    /// Builds one record per visible row after the header row, keys and
    /// values rendered per the per-column configuration.
    pub fn create_json_records(&self) -> (r: Vec<JsonRecord>)
        requires
            self.wf(),
            self.first_row < self.data@.len(),
        ensures
            r.deep_view() == self.records_spec(),
    {
        let ghost dv = self.data.deep_view();
        let ghost pred = |row: Seq<Seq<char>>| row_visible_spec(self.columns@, row);
        let ghost torec = |row: Seq<Seq<char>>| self.record_spec(row);
        let vis = self.visible_columns();
        let len: usize = self.data.len();
        let start: usize = self.first_row + 1;
        let mut out: Vec<JsonRecord> = Vec::new();
        let mut i: usize = start;
        while i < len
            invariant
                self.wf(),
                self.first_row < self.data@.len(),
                dv == self.data.deep_view(),
                pred == (|row: Seq<Seq<char>>| row_visible_spec(self.columns@, row)),
                torec == (|row: Seq<Seq<char>>| self.record_spec(row)),
                vis@ == visible_cols_spec(self.columns@),
                len == dv.len(),
                len == self.data@.len(),
                start == self.first_row + 1,
                start <= i <= len,
                out.deep_view() == dv.skip(start as int).take(i - start).filter(pred).map_values(
                    torec,
                ),
            decreases len - i,
        {
            proof {
                assert(dv[i as int] == self.data@[i as int].deep_view());
            }
            let ghost prerecs = out.deep_view();
            if self.is_row_visible(&self.data[i]) {
                let rec = self.record_for_row(&self.data[i], &vis);
                let ghost recv = rec.deep_view();
                out.push(rec);
                proof {
                    assert(out.deep_view() =~~= prerecs.push(recv));
                    assert(recv == torec(dv[i as int]));
                }
            }
            proof {
                reveal_with_fuel(Seq::<_>::filter, 2);
                assert(dv.skip(start as int).take(i - start + 1).drop_last() =~= dv.skip(
                    start as int,
                ).take(i - start));
                assert(dv.skip(start as int).take(i - start + 1).last() == dv[i as int]);
                assert(dv[i as int] == self.data@[i as int].deep_view());
                assert(dv.skip(start as int).take(i - start + 1).filter(pred) =~= (if pred(
                    dv[i as int],
                ) {
                    dv.skip(start as int).take(i - start).filter(pred).push(dv[i as int])
                } else {
                    dv.skip(start as int).take(i - start).filter(pred)
                }));
                if pred(dv[i as int]) {
                    assert(dv.skip(start as int).take(i - start + 1).filter(pred).map_values(
                        torec,
                    ) =~~= dv.skip(start as int).take(i - start).filter(pred).map_values(
                        torec,
                    ).push(torec(dv[i as int])));
                }
                assert(out.deep_view() =~~= dv.skip(start as int).take(i - start + 1).filter(
                    pred,
                ).map_values(torec));
            }
            i = i + 1;
        }
        proof {
            assert(dv.skip(start as int).take(len - start) =~= dv.skip(start as int));
            assert(visible_rows_after(self.columns@, dv, self.first_row as int) == dv.skip(
                start as int,
            ).filter(pred));
        }
        out
    }
}

} // verus!

verus! {

/// Whether no two records of the sequence are equal.
pub open spec fn no_dup_records(s: Seq<Seq<(Seq<char>, Seq<char>)>>) -> bool {
    forall|i: int, j: int| 0 <= i < j < s.len() ==> s[i] != s[j]
}

/// First-occurrence deduplication: a record stays exactly where it first
/// appears, and later equal records are dropped.
pub open spec fn dedup_spec(s: Seq<Seq<(Seq<char>, Seq<char>)>>) -> Seq<
    Seq<(Seq<char>, Seq<char>)>,
>
    decreases s.len(),
{
    if s.len() == 0 {
        Seq::empty()
    } else {
        let rest = dedup_spec(s.drop_last());
        if s.drop_last().contains(s.last()) {
            rest
        } else {
            rest.push(s.last())
        }
    }
}

/// Deduplication drops no record kind and invents none: a record occurs in
/// the result exactly when it occurs in the input.
pub proof fn lemma_dedup_keeps_membership(s: Seq<Seq<(Seq<char>, Seq<char>)>>)
    ensures
        forall|x: Seq<(Seq<char>, Seq<char>)>| #[trigger]
            dedup_spec(s).contains(x) == s.contains(x),
    decreases s.len(),
{
    if s.len() > 0 {
        let dl = s.drop_last();
        lemma_dedup_keeps_membership(dl);
        assert(dl.push(s.last()) =~= s);
        assert forall|x: Seq<(Seq<char>, Seq<char>)>| #[trigger]
            dedup_spec(s).contains(x) == s.contains(x) by {
            if s.contains(x) {
                let w = choose|w: int| 0 <= w < s.len() && s[w] == x;
                if w < s.len() - 1 {
                    assert(dl[w] == x);
                    assert(dl.contains(x));
                } else {
                    assert(x == s.last());
                }
                if dl.contains(x) {
                    assert(dedup_spec(dl).contains(x));
                    if !dl.contains(s.last()) {
                        let u = choose|u: int|
                            0 <= u < dedup_spec(dl).len() && dedup_spec(dl)[u] == x;
                        assert(dedup_spec(s)[u] == x);
                    }
                    assert(dedup_spec(s).contains(x));
                } else {
                    assert(x == s.last());
                    assert(dedup_spec(s).last() == x);
                }
            }
            if dedup_spec(s).contains(x) {
                let w = choose|w: int| 0 <= w < dedup_spec(s).len() && dedup_spec(s)[w] == x;
                if dl.contains(s.last()) {
                    assert(dedup_spec(dl).contains(x));
                    assert(dl.contains(x));
                    let u = choose|u: int| 0 <= u < dl.len() && dl[u] == x;
                    assert(s[u] == x);
                } else {
                    if w < dedup_spec(s).len() - 1 {
                        assert(dedup_spec(dl)[w] == x);
                        assert(dedup_spec(dl).contains(x));
                        assert(dl.contains(x));
                        let u = choose|u: int| 0 <= u < dl.len() && dl[u] == x;
                        assert(s[u] == x);
                    } else {
                        assert(x == s.last());
                    }
                }
                assert(s.contains(x));
            }
        }
    }
}

/// Deduplication leaves no two equal records behind.
pub proof fn lemma_dedup_no_dups(s: Seq<Seq<(Seq<char>, Seq<char>)>>)
    ensures
        no_dup_records(dedup_spec(s)),
    decreases s.len(),
{
    if s.len() > 0 {
        let dl = s.drop_last();
        lemma_dedup_no_dups(dl);
        lemma_dedup_keeps_membership(dl);
        if !dl.contains(s.last()) {
            let d = dedup_spec(s);
            assert forall|i: int, j: int| 0 <= i < j < d.len() implies d[i] != d[j] by {
                if j == d.len() - 1 {
                    assert(d[j] == s.last());
                    assert(d[i] == dedup_spec(dl)[i]);
                    if d[i] == s.last() {
                        assert(dedup_spec(dl).contains(s.last()));
                        assert(dl.contains(s.last()));
                    }
                } else {
                    assert(d[i] == dedup_spec(dl)[i]);
                    assert(d[j] == dedup_spec(dl)[j]);
                }
            }
        }
    }
}

/// On a sequence without equal records, deduplication changes nothing.
pub proof fn lemma_dedup_identity_on_distinct(s: Seq<Seq<(Seq<char>, Seq<char>)>>)
    requires
        no_dup_records(s),
    ensures
        dedup_spec(s) == s,
    decreases s.len(),
{
    if s.len() > 0 {
        let dl = s.drop_last();
        assert(forall|i: int, j: int| 0 <= i < j < dl.len() ==> dl[i] != dl[j]);
        lemma_dedup_identity_on_distinct(dl);
        if dl.contains(s.last()) {
            let w = choose|w: int| 0 <= w < dl.len() && dl[w] == s.last();
            assert(s[w] == s[s.len() - 1]);
            assert(false);
        }
        assert(dedup_spec(s) =~= s);
    }
}

/// Deduplicating twice yields what deduplicating once does.
pub proof fn lemma_dedup_idempotent(s: Seq<Seq<(Seq<char>, Seq<char>)>>)
    ensures
        dedup_spec(dedup_spec(s)) == dedup_spec(s),
{
    lemma_dedup_no_dups(s);
    lemma_dedup_identity_on_distinct(dedup_spec(s));
}

fn record_eq(a: &JsonRecord, b: &JsonRecord) -> (r: bool)
    ensures
        r == (a.deep_view() == b.deep_view()),
{
    let n: usize = a.len();
    if n != b.len() {
        proof {
            assert(a.deep_view().len() == a@.len());
            assert(b.deep_view().len() == b@.len());
        }
        return false;
    }
    let mut i: usize = 0;
    while i < n
        invariant
            n == a@.len(),
            n == b@.len(),
            i <= n,
            forall|j: int| 0 <= j < i ==> a.deep_view()[j] == b.deep_view()[j],
        decreases n - i,
    {
        proof {
            assert(a.deep_view()[i as int] == (a@[i as int].0@, a@[i as int].1@));
            assert(b.deep_view()[i as int] == (b@[i as int].0@, b@[i as int].1@));
        }
        if !str_eq(a[i].0.as_str(), b[i].0.as_str()) {
            return false;
        }
        if !str_eq(a[i].1.as_str(), b[i].1.as_str()) {
            return false;
        }
        i = i + 1;
    }
    proof {
        assert(a.deep_view() =~~= b.deep_view());
    }
    true
}

fn records_contain(list: &Vec<JsonRecord>, rec: &JsonRecord) -> (r: bool)
    ensures
        r == list.deep_view().contains(rec.deep_view()),
{
    let n: usize = list.len();
    let mut i: usize = 0;
    while i < n
        invariant
            n == list@.len(),
            i <= n,
            forall|j: int| 0 <= j < i ==> list.deep_view()[j] != rec.deep_view(),
        decreases n - i,
    {
        if record_eq(&list[i], rec) {
            proof {
                assert(list.deep_view()[i as int] == rec.deep_view());
            }
            return true;
        }
        i = i + 1;
    }
    false
}

fn clone_record(rec: &JsonRecord) -> (r: JsonRecord)
    ensures
        r.deep_view() == rec.deep_view(),
{
    let n: usize = rec.len();
    let mut out: JsonRecord = Vec::new();
    let mut i: usize = 0;
    while i < n
        invariant
            n == rec@.len(),
            i <= n,
            out.deep_view() == rec.deep_view().take(i as int),
        decreases n - i,
    {
        let ghost pre = out.deep_view();
        out.push((rec[i].0.clone(), rec[i].1.clone()));
        proof {
            assert(out.deep_view() =~~= pre.push((rec@[i as int].0@, rec@[i as int].1@)));
            assert(rec.deep_view()[i as int] == (rec@[i as int].0@, rec@[i as int].1@));
            assert(out.deep_view() =~~= rec.deep_view().take(i + 1));
        }
        i = i + 1;
    }
    proof {
        assert(rec.deep_view().take(n as int) =~= rec.deep_view());
    }
    out
}

/// Keeps the first occurrence of every distinct record, in order of first
/// appearance.
pub fn deduplicate_records(records: &Vec<JsonRecord>) -> (r: Vec<JsonRecord>)
    ensures
        r.deep_view() == dedup_spec(records.deep_view()),
{
    let ghost rv = records.deep_view();
    let n: usize = records.len();
    let mut out: Vec<JsonRecord> = Vec::new();
    let mut i: usize = 0;
    while i < n
        invariant
            rv == records.deep_view(),
            n == records@.len(),
            i <= n,
            out.deep_view() == dedup_spec(rv.take(i as int)),
        decreases n - i,
    {
        proof {
            assert(rv.take(i + 1).drop_last() =~= rv.take(i as int));
            assert(rv.take(i + 1).last() == rv[i as int]);
            assert(rv[i as int] == records@[i as int].deep_view());
            lemma_dedup_keeps_membership(rv.take(i as int));
        }
        let ghost pre = out.deep_view();
        if !records_contain(&out, &records[i]) {
            let rec = clone_record(&records[i]);
            out.push(rec);
            proof {
                assert(out.deep_view() =~~= pre.push(rv[i as int]));
            }
        }
        proof {
            assert(out.deep_view() =~~= dedup_spec(rv.take(i + 1)));
        }
        i = i + 1;
    }
    proof {
        assert(rv.take(n as int) =~= rv);
    }
    out
}

impl App {
    /// The filename the export writes under (without its extension): the
    /// normalized entered name, or the derived default when the field
    /// holds nothing but whitespace.
    pub open spec fn export_filename_spec(self) -> Seq<char> {
        if !is_blank_spec(self.export_filename@) {
            normalize_spec(self.export_filename@)
        } else {
            self.default_filename_spec()
        }
    }

    /// The records the export writes: every visible row's record, first
    /// occurrences only when deduplication is on.
    pub open spec fn export_records_spec(self) -> Seq<Seq<(Seq<char>, Seq<char>)>> {
        if self.deduplicate {
            dedup_spec(self.records_spec())
        } else {
            self.records_spec()
        }
    }

    /// Assembles the export: the output filename (extension left to the
    /// writer) and the records to serialize, in order.
    pub fn build_export(&self) -> (r: (String, Vec<JsonRecord>))
        requires
            self.wf(),
            self.first_row < self.data@.len(),
        ensures
            r.0@ == self.export_filename_spec(),
            r.1.deep_view() == self.export_records_spec(),
    {
        let filename: String = if !is_blank(self.export_filename.as_str()) {
            normalize_text(self.export_filename.as_str())
        } else {
            self.get_default_filename()
        };
        let records = self.create_json_records();
        if self.deduplicate {
            let deduped = deduplicate_records(&records);
            (filename, deduped)
        } else {
            (filename, records)
        }
    }
}

} // verus!

verus! {

/// Filtering two predicates that agree on the sequence's elements leaves
/// the same thing.
proof fn lemma_filter_agreeing<A>(s: Seq<A>, p1: spec_fn(A) -> bool, p2: spec_fn(A) -> bool)
    requires
        forall|k: int| 0 <= k < s.len() ==> p1(#[trigger] s[k]) == p2(s[k]),
    ensures
        s.filter(p1) == s.filter(p2),
    decreases s.len(),
{
    reveal_with_fuel(Seq::<_>::filter, 2);
    if s.len() > 0 {
        assert(forall|k: int|
            0 <= k < s.drop_last().len() ==> p1(#[trigger] s.drop_last()[k]) == p2(
                s.drop_last()[k],
            ));
        lemma_filter_agreeing(s.drop_last(), p1, p2);
    } else {
        assert(s.filter(p1) =~= s.filter(p2));
    }
}

/// Mapping two functions that agree on the sequence's elements gives the
/// same thing.
proof fn lemma_map_agreeing<A, B>(s: Seq<A>, f1: spec_fn(A) -> B, f2: spec_fn(A) -> B)
    requires
        forall|k: int| 0 <= k < s.len() ==> f1(#[trigger] s[k]) == f2(s[k]),
    ensures
        s.map_values(f1) == s.map_values(f2),
{
    assert(s.map_values(f1) =~= s.map_values(f2));
}

/// The positions whose record occurs at no earlier position.
pub open spec fn first_record_positions(s: Seq<Seq<(Seq<char>, Seq<char>)>>) -> Seq<int> {
    Seq::new(s.len(), |i: int| i).filter(
        |i: int| forall|j: int| 0 <= j < i ==> s[j] != s[i],
    )
}

/// Deduplication keeps exactly the records standing at the first
/// occurrence of their value, in position order: the order among the
/// survivors is the order of first appearance.
pub proof fn lemma_dedup_keeps_first_occurrences(s: Seq<Seq<(Seq<char>, Seq<char>)>>)
    ensures
        dedup_spec(s) == first_record_positions(s).map_values(|i: int| s[i]),
    decreases s.len(),
{
    reveal_with_fuel(Seq::<_>::filter, 2);
    let ps = |i: int| forall|j: int| 0 <= j < i ==> s[j] != s[i];
    let ms = |i: int| s[i];
    if s.len() == 0 {
        assert(first_record_positions(s) =~= Seq::<int>::empty());
        assert(dedup_spec(s) =~= first_record_positions(s).map_values(ms));
    } else {
        let dl = s.drop_last();
        let pd = |i: int| forall|j: int| 0 <= j < i ==> dl[j] != dl[i];
        let md = |i: int| dl[i];
        lemma_dedup_keeps_first_occurrences(dl);
        let idx = Seq::new(dl.len(), |i: int| i);
        assert(Seq::new(s.len(), |i: int| i).drop_last() =~= idx);
        assert(Seq::new(s.len(), |i: int| i).last() == s.len() - 1);
        assert forall|k: int| 0 <= k < idx.len() implies ps(#[trigger] idx[k]) == pd(
            idx[k],
        ) by {
            assert(idx[k] == k);
            if ps(k) {
                assert forall|j: int| 0 <= j < k implies dl[j] != dl[k] by {
                    assert(s[j] == dl[j]);
                    assert(s[k] == dl[k]);
                }
                assert(pd(k));
            }
            if pd(k) {
                assert forall|j: int| 0 <= j < k implies s[j] != s[k] by {
                    assert(s[j] == dl[j]);
                    assert(s[k] == dl[k]);
                }
                assert(ps(k));
            }
        }
        lemma_filter_agreeing(idx, ps, pd);
        lemma_first_positions_bound(dl);
        assert(first_record_positions(dl) == idx.filter(pd));
        assert(forall|k: int|
            0 <= k < idx.filter(pd).len() ==> ms(#[trigger] idx.filter(pd)[k]) == md(
                idx.filter(pd)[k],
            )) by {
            assert forall|k: int| 0 <= k < idx.filter(pd).len() implies ms(
                #[trigger] idx.filter(pd)[k],
            ) == md(idx.filter(pd)[k]) by {
                assert(0 <= idx.filter(pd)[k] < dl.len());
            }
        }
        lemma_map_agreeing(idx.filter(pd), ms, md);
        assert(first_record_positions(dl).map_values(ms) == first_record_positions(
            dl,
        ).map_values(md));
        let keep_last = ps(s.len() - 1);
        assert(keep_last == !dl.contains(s.last())) by {
            if dl.contains(s.last()) {
                let w = choose|w: int| 0 <= w < dl.len() && dl[w] == s.last();
                assert(s[w] == s[s.len() - 1]);
            }
            if !keep_last {
                let w = choose|w: int|
                    0 <= w < s.len() - 1 && (#[trigger] s[w]) == s[s.len() - 1];
                assert(dl[w] == s.last());
            }
        }
        if keep_last {
            assert(first_record_positions(s) == first_record_positions(dl).push(s.len() - 1));
            assert(first_record_positions(s).map_values(ms) =~= first_record_positions(
                dl,
            ).map_values(ms).push(s.last()));
            assert(dedup_spec(s) =~= first_record_positions(s).map_values(ms));
        } else {
            assert(first_record_positions(s) == first_record_positions(dl));
            assert(first_record_positions(s).map_values(ms) =~= first_record_positions(
                dl,
            ).map_values(md));
            assert(dedup_spec(s) == first_record_positions(s).map_values(ms));
        }
    }
}

/// Every kept position indexes into the sequence it came from.
proof fn lemma_first_positions_bound(s: Seq<Seq<(Seq<char>, Seq<char>)>>)
    ensures
        forall|k: int|
            0 <= k < first_record_positions(s).len() ==> 0 <= #[trigger] first_record_positions(
                s,
            )[k] < s.len(),
{
    let idx = Seq::new(s.len(), |i: int| i);
    let p = |i: int| forall|j: int| 0 <= j < i ==> s[j] != s[i];
    crate::merge::lemma_filter_membership(idx, p);
    assert forall|k: int| 0 <= k < first_record_positions(s).len() implies 0 <= #[trigger]
        first_record_positions(s)[k] < s.len() by {
        assert(first_record_positions(s) == idx.filter(p));
        assert(idx.filter(p).contains(idx.filter(p)[k]));
        assert(idx.contains(idx.filter(p)[k]));
        let w = choose|w: int| 0 <= w < idx.len() && idx[w] == idx.filter(p)[k];
        assert(idx[w] == w);
    }
}

} // verus!
