//! # Lineage Diffing
//!
//! Computes the difference between two lineage graphs, edge by edge, to
//! detect breaking changes or logic shifts.

use vstd::prelude::*;
use crate::text::str_eq;
use crate::seqs::{distinct, last_index_of, first_index_of, lemma_last_index_of, lemma_first_index_of,
    lemma_last_index_unique, lemma_first_index_unique, lemma_distinct, lemma_seq_push_contains};
use crate::titan_core::lineage::{ColumnLineage, ColumnLineageView, LineageResult, TransformKind,
    TransformView, edge_views};

verus! {

/// An edge is identified by its source model, source column and target column.
pub open spec fn edge_key(c: ColumnLineageView) -> (Seq<char>, Seq<char>, Seq<char>) {
    (c.model, c.column, c.target)
}

pub open spec fn edge_keys(cols: Seq<ColumnLineageView>) -> Seq<(Seq<char>, Seq<char>, Seq<char>)> {
    cols.map_values(|c: ColumnLineageView| edge_key(c))
}

/// A change of transformation on an edge present in both graphs.
#[derive(Debug)]
pub struct TransformChange {
    pub model: String,
    pub column: String,
    pub old_transform: TransformKind,
    pub new_transform: TransformKind,
}

pub struct TransformChangeView {
    pub model: Seq<char>,
    pub column: Seq<char>,
    pub old_transform: TransformView,
    pub new_transform: TransformView,
}

impl View for TransformChange {
    type V = TransformChangeView;

    open spec fn view(&self) -> TransformChangeView {
        TransformChangeView {
            model: self.model@,
            column: self.column@,
            old_transform: self.old_transform@,
            new_transform: self.new_transform@,
        }
    }
}

/// Edges added and removed between two lineage graphs, and the edges whose
/// transformation changed.
#[derive(Debug)]
pub struct LineageDiff {
    pub added_edges: Vec<ColumnLineage>,
    pub removed_edges: Vec<ColumnLineage>,
    pub transform_changes: Vec<TransformChange>,
}

pub open spec fn change_views(s: Seq<TransformChange>) -> Seq<TransformChangeView> {
    s.map_values(|c: TransformChange| c@)
}

/// Transformation changes over the keys `ks` of the new graph.
pub open spec fn spec_changes(old: Seq<ColumnLineageView>, new: Seq<ColumnLineageView>,
    ks: Seq<(Seq<char>, Seq<char>, Seq<char>)>) -> Seq<TransformChangeView>
    decreases ks.len(),
{
    if ks.len() == 0 {
        Seq::empty()
    } else {
        let prev = spec_changes(old, new, ks.drop_last());
        let k = ks.last();
        let io = last_index_of(edge_keys(old), k);
        let inew = last_index_of(edge_keys(new), k);
        if io >= 0 && old[io].transform != new[inew].transform {
            prev.push(TransformChangeView {
                model: k.0,
                column: k.2,
                old_transform: old[io].transform,
                new_transform: new[inew].transform,
            })
        } else {
            prev
        }
    }
}

/// For each key of `ks` absent from `other`, the first edge of `cols` with
/// that key.
pub open spec fn spec_unmatched(cols: Seq<ColumnLineageView>, other: Seq<ColumnLineageView>,
    ks: Seq<(Seq<char>, Seq<char>, Seq<char>)>) -> Seq<ColumnLineageView>
    decreases ks.len(),
{
    if ks.len() == 0 {
        Seq::empty()
    } else {
        let prev = spec_unmatched(cols, other, ks.drop_last());
        let k = ks.last();
        if edge_keys(other).contains(k) {
            prev
        } else {
            prev.push(cols[first_index_of(edge_keys(cols), k)])
        }
    }
}

/// Position of the last edge of `cols` with the key of `probe`.
fn last_key_index(cols: &Vec<ColumnLineage>, probe: &ColumnLineage) -> (r: Option<usize>)
    ensures
        match r {
            Some(j) => j as int == last_index_of(edge_keys(edge_views(cols@)), edge_key(probe@)),
            None => last_index_of(edge_keys(edge_views(cols@)), edge_key(probe@)) == -1,
        },
{
    let ghost ks = edge_keys(edge_views(cols@));
    let ghost k = edge_key(probe@);
    proof { lemma_last_index_of(ks, k); }
    let mut j: usize = cols.len();
    while j > 0
        invariant
            j <= cols.len(),
            ks == edge_keys(edge_views(cols@)),
            k == edge_key(probe@),
            forall|q: int| j <= q < cols.len() ==> ks[q] != k,
        decreases j,
    {
        let c = &cols[j - 1];
        assert(ks[j - 1] == edge_key(c@));
        if str_eq(c.source.model.as_str(), probe.source.model.as_str())
            && str_eq(c.source.column.as_str(), probe.source.column.as_str())
            && str_eq(c.target_column.as_str(), probe.target_column.as_str()) {
            proof { lemma_last_index_unique(ks, k, j - 1); }
            return Some(j - 1);
        }
        j = j - 1;
    }
    proof {
        if ks.contains(k) {
            let q = choose|q: int| 0 <= q < ks.len() && ks[q] == k;
        }
    }
    None
}

/// Positions of the first edge of each distinct key of `cols`, in order.
fn first_key_positions(cols: &Vec<ColumnLineage>) -> (r: Vec<usize>)
    ensures
        r@.map_values(|p: usize| edge_keys(edge_views(cols@))[p as int]) == distinct(edge_keys(edge_views(cols@))),
        forall|m: int| 0 <= m < r@.len() ==> r@[m] < cols@.len()
            && r@[m] as int == first_index_of(edge_keys(edge_views(cols@)), edge_keys(edge_views(cols@))[r@[m] as int]),
{
    let ghost ks = edge_keys(edge_views(cols@));
    let mut r: Vec<usize> = Vec::new();
    let mut i: usize = 0;
    while i < cols.len()
        invariant
            ks == edge_keys(edge_views(cols@)),
            i <= cols.len(),
            r@.map_values(|p: usize| ks[p as int]) == distinct(ks.take(i as int)),
            forall|m: int| 0 <= m < r@.len() ==> r@[m] < i
                && r@[m] as int == first_index_of(ks, ks[r@[m] as int]),
        decreases cols.len() - i,
    {
        let ghost rv = r@.map_values(|p: usize| ks[p as int]);
        let ghost k = ks[i as int];
        assert(ks.take(i as int + 1).drop_last() =~= ks.take(i as int));
        assert(ks.take(i as int + 1).last() == k);
        let mut seen = false;
        let mut m: usize = 0;
        while m < r.len()
            invariant
                ks == edge_keys(edge_views(cols@)),
                i < cols.len(),
                k == ks[i as int],
                rv == r@.map_values(|p: usize| ks[p as int]),
                forall|q: int| 0 <= q < r@.len() ==> r@[q] < i,
                m <= r.len(),
                seen == exists|q: int| 0 <= q < m && rv[q] == k,
            decreases r.len() - m,
        {
            let p = r[m];
            let c = &cols[p];
            let d = &cols[i];
            assert(ks[p as int] == edge_key(c@));
            assert(rv[m as int] == ks[p as int]);
            if str_eq(c.source.model.as_str(), d.source.model.as_str())
                && str_eq(c.source.column.as_str(), d.source.column.as_str())
                && str_eq(c.target_column.as_str(), d.target_column.as_str()) {
                seen = true;
            }
            assert(seen == exists|q: int| 0 <= q < m + 1 && rv[q] == k) by {
                if seen && rv[m as int] != k {
                    let w = choose|w: int| 0 <= w < m && rv[w] == k;
                    assert(0 <= w < m + 1);
                }
            }
            m = m + 1;
        }
        assert(seen == rv.contains(k));
        if !seen {
            proof {
                lemma_distinct(ks.take(i as int));
                assert forall|q: int| 0 <= q < i implies ks[q] != k by {
                    assert(ks.take(i as int)[q] == ks[q]);
                    if ks[q] == k {
                        assert(ks.take(i as int).contains(k));
                    }
                }
                lemma_first_index_unique(ks, k, i as int);
            }
            let ghost before = r@;
            r.push(i);
            assert(r@.map_values(|p: usize| ks[p as int]) =~= rv.push(k));
        }
        i = i + 1;
    }
    assert(ks.take(cols.len() as int) =~= ks);
    r
}

pub struct LineageDiffer;

impl LineageDiffer {
    /// Compares the edges of two lineage graphs: edges whose key (source
    /// model, source column, target column) appears only in `new` are added,
    /// those only in `old` removed, and keys present in both whose
    /// transformation differs give a transformation change.
    pub fn diff(old: &LineageResult, new: &LineageResult) -> (d: LineageDiff)
        ensures
            edge_views(d.added_edges@) == spec_unmatched(edge_views(new.columns@), edge_views(old.columns@),
                distinct(edge_keys(edge_views(new.columns@)))),
            edge_views(d.removed_edges@) == spec_unmatched(edge_views(old.columns@), edge_views(new.columns@),
                distinct(edge_keys(edge_views(old.columns@)))),
            change_views(d.transform_changes@) == spec_changes(edge_views(old.columns@), edge_views(new.columns@),
                distinct(edge_keys(edge_views(new.columns@)))),
    {
        let ghost ov = edge_views(old.columns@);
        let ghost nv = edge_views(new.columns@);
        let ghost ok = edge_keys(ov);
        let ghost nk = edge_keys(nv);
        let pos_new = first_key_positions(&new.columns);
        let pos_old = first_key_positions(&old.columns);
        let ghost dn = pos_new@.map_values(|p: usize| nk[p as int]);
        let ghost dold = pos_old@.map_values(|p: usize| ok[p as int]);
        let mut added_edges: Vec<ColumnLineage> = Vec::new();
        let mut transform_changes: Vec<TransformChange> = Vec::new();
        let mut i: usize = 0;
        while i < pos_new.len()
            invariant
                ov == edge_views(old.columns@),
                nv == edge_views(new.columns@),
                ok == edge_keys(ov),
                nk == edge_keys(nv),
                dn == pos_new@.map_values(|p: usize| nk[p as int]),
                forall|m: int| 0 <= m < pos_new@.len() ==> pos_new@[m] < new.columns@.len()
                    && pos_new@[m] as int == first_index_of(nk, nk[pos_new@[m] as int]),
                i <= pos_new.len(),
                edge_views(added_edges@) == spec_unmatched(nv, ov, dn.take(i as int)),
                change_views(transform_changes@) == spec_changes(ov, nv, dn.take(i as int)),
            decreases pos_new.len() - i,
        {
            let p = pos_new[i];
            let e = &new.columns[p];
            let ghost k = nk[p as int];
            assert(k == edge_key(e@));
            assert(dn[i as int] == k);
            assert(dn.take(i as int + 1).drop_last() =~= dn.take(i as int));
            assert(dn.take(i as int + 1).last() == k);
            let io = last_key_index(&old.columns, e);
            let inew = last_key_index(&new.columns, e);
            proof {
                lemma_last_index_of(ok, k);
                lemma_last_index_of(nk, k);
                assert(nk.contains(k)) by { assert(nk[p as int] == k); }
            }
            let ghost ac_before = edge_views(added_edges@);
            let ghost tc_before = change_views(transform_changes@);
            match io {
                Some(io) => {
                    let inew = inew.unwrap();
                    let oc = &old.columns[io];
                    let nc = &new.columns[inew];
                    assert(ov[io as int] == oc@);
                    assert(nv[inew as int] == nc@);
                    if !oc.transform.same_as(&nc.transform) {
                        transform_changes.push(TransformChange {
                            model: e.source.model.clone(),
                            column: e.target_column.clone(),
                            old_transform: oc.transform.clone(),
                            new_transform: nc.transform.clone(),
                        });
                        assert(change_views(transform_changes@) =~= tc_before.push(TransformChangeView {
                            model: k.0,
                            column: k.2,
                            old_transform: ov[io as int].transform,
                            new_transform: nv[inew as int].transform,
                        }));
                    }
                    assert(ok.contains(k)) by { assert(ok[io as int] == k); }
                },
                None => {
                    added_edges.push(e.clone());
                    assert(edge_views(added_edges@) =~= ac_before.push(nv[first_index_of(nk, k)]));
                },
            }
            i = i + 1;
        }
        assert(dn.take(pos_new.len() as int) =~= dn);
        let mut removed_edges: Vec<ColumnLineage> = Vec::new();
        let mut j: usize = 0;
        while j < pos_old.len()
            invariant
                ov == edge_views(old.columns@),
                nv == edge_views(new.columns@),
                ok == edge_keys(ov),
                nk == edge_keys(nv),
                dold == pos_old@.map_values(|p: usize| ok[p as int]),
                forall|m: int| 0 <= m < pos_old@.len() ==> pos_old@[m] < old.columns@.len()
                    && pos_old@[m] as int == first_index_of(ok, ok[pos_old@[m] as int]),
                j <= pos_old.len(),
                edge_views(removed_edges@) == spec_unmatched(ov, nv, dold.take(j as int)),
            decreases pos_old.len() - j,
        {
            let p = pos_old[j];
            let e = &old.columns[p];
            let ghost k = ok[p as int];
            assert(k == edge_key(e@));
            assert(dold[j as int] == k);
            assert(dold.take(j as int + 1).drop_last() =~= dold.take(j as int));
            assert(dold.take(j as int + 1).last() == k);
            let inew = last_key_index(&new.columns, e);
            proof { lemma_last_index_of(nk, k); }
            if inew.is_none() {
                let ghost before = edge_views(removed_edges@);
                removed_edges.push(e.clone());
                assert(edge_views(removed_edges@) =~= before.push(ov[first_index_of(ok, k)]));
            }
            j = j + 1;
        }
        assert(dold.take(pos_old.len() as int) =~= dold);
        LineageDiff { added_edges, removed_edges, transform_changes }
    }
}


proof fn lemma_changes_self(a: Seq<ColumnLineageView>, ks: Seq<(Seq<char>, Seq<char>, Seq<char>)>)
    ensures
        spec_changes(a, a, ks) =~= Seq::<TransformChangeView>::empty(),
    decreases ks.len(),
{
    if ks.len() > 0 {
        lemma_changes_self(a, ks.drop_last());
    }
}

proof fn lemma_unmatched_self(a: Seq<ColumnLineageView>, ks: Seq<(Seq<char>, Seq<char>, Seq<char>)>)
    requires
        forall|i: int| 0 <= i < ks.len() ==> edge_keys(a).contains(#[trigger] ks[i]),
    ensures
        spec_unmatched(a, a, ks) =~= Seq::<ColumnLineageView>::empty(),
    decreases ks.len(),
{
    if ks.len() > 0 {
        let d = ks.drop_last();
        assert forall|i: int| 0 <= i < d.len() implies edge_keys(a).contains(#[trigger] d[i]) by {
            assert(d[i] == ks[i]);
        }
        lemma_unmatched_self(a, d);
        assert(edge_keys(a).contains(ks[ks.len() - 1]));
    }
}

/// A lineage graph compared with itself has no added or removed edge and
/// no changed transformation.
pub proof fn lemma_graph_diff_self(a: Seq<ColumnLineageView>)
    ensures
        spec_unmatched(a, a, distinct(edge_keys(a))) =~= Seq::<ColumnLineageView>::empty(),
        spec_changes(a, a, distinct(edge_keys(a))) =~= Seq::<TransformChangeView>::empty(),
{
    let ks = distinct(edge_keys(a));
    crate::seqs::lemma_distinct(edge_keys(a));
    assert forall|i: int| 0 <= i < ks.len() implies edge_keys(a).contains(#[trigger] ks[i]) by {
        assert(ks.contains(ks[i]));
    }
    lemma_unmatched_self(a, ks);
    lemma_changes_self(a, ks);
}

/// The change of transformation that the key `k` gives when diffing `old`
/// against `new`, if any.
pub open spec fn change_for_key(old: Seq<ColumnLineageView>, new: Seq<ColumnLineageView>,
    k: (Seq<char>, Seq<char>, Seq<char>)) -> Option<TransformChangeView> {
    let io = last_index_of(edge_keys(old), k);
    let inew = last_index_of(edge_keys(new), k);
    if io >= 0 && old[io].transform != new[inew].transform {
        Some(TransformChangeView {
            model: k.0,
            column: k.2,
            old_transform: old[io].transform,
            new_transform: new[inew].transform,
        })
    } else {
        None
    }
}

/// A transformation change read in the other direction.
pub open spec fn swap_change(c: TransformChangeView) -> TransformChangeView {
    TransformChangeView {
        model: c.model,
        column: c.column,
        old_transform: c.new_transform,
        new_transform: c.old_transform,
    }
}

proof fn lemma_changes_member(old: Seq<ColumnLineageView>, new: Seq<ColumnLineageView>,
    ks: Seq<(Seq<char>, Seq<char>, Seq<char>)>, c: TransformChangeView)
    ensures
        spec_changes(old, new, ks).contains(c)
            <==> exists|j: int| 0 <= j < ks.len() && change_for_key(old, new, #[trigger] ks[j]) == Some(c),
    decreases ks.len(),
{
    if ks.len() > 0 {
        let prev = spec_changes(old, new, ks.drop_last());
        lemma_changes_member(old, new, ks.drop_last(), c);
        let k = ks.last();
        if spec_changes(old, new, ks).contains(c) {
            if prev.contains(c) {
                let j = choose|j: int| 0 <= j < ks.drop_last().len()
                    && change_for_key(old, new, #[trigger] ks.drop_last()[j]) == Some(c);
                assert(ks[j] == ks.drop_last()[j]);
            } else {
                lemma_seq_push_contains(prev, spec_changes(old, new, ks).last(), c);
                assert(change_for_key(old, new, ks[ks.len() - 1]) == Some(c));
            }
        }
        if exists|j: int| 0 <= j < ks.len() && change_for_key(old, new, #[trigger] ks[j]) == Some(c) {
            let j = choose|j: int| 0 <= j < ks.len() && change_for_key(old, new, #[trigger] ks[j]) == Some(c);
            if j < ks.len() - 1 {
                assert(ks.drop_last()[j] == ks[j]);
                assert(prev.contains(c));
                if change_for_key(old, new, k) is Some {
                    lemma_seq_push_contains(prev, change_for_key(old, new, k)->0, c);
                }
            } else {
                assert(spec_changes(old, new, ks) == prev.push(c));
                lemma_seq_push_contains(prev, c, c);
            }
        }
    }
}

/// A key gives a change in one direction exactly when it gives the swapped
/// change in the other, provided it occurs in both graphs.
proof fn lemma_change_for_key_swap(a: Seq<ColumnLineageView>, b: Seq<ColumnLineageView>,
    k: (Seq<char>, Seq<char>, Seq<char>), c: TransformChangeView)
    requires
        edge_keys(b).contains(k),
    ensures
        change_for_key(a, b, k) == Some(c) <==>
            (edge_keys(a).contains(k) && change_for_key(b, a, k) == Some(swap_change(c))),
{
    lemma_last_index_of(edge_keys(a), k);
    lemma_last_index_of(edge_keys(b), k);
}

/// `d` is what `LineageDiffer::diff` gives for the graphs `old` and `new`.
pub open spec fn is_graph_diff(old: Seq<ColumnLineageView>, new: Seq<ColumnLineageView>, d: LineageDiff) -> bool {
    &&& edge_views(d.added_edges@) == spec_unmatched(new, old, distinct(edge_keys(new)))
    &&& edge_views(d.removed_edges@) == spec_unmatched(old, new, distinct(edge_keys(old)))
    &&& change_views(d.transform_changes@) == spec_changes(old, new, distinct(edge_keys(new)))
}

/// Diffing in the other direction swaps the roles: the edges added going
/// from `a` to `b` are those removed going from `b` to `a` and the other
/// way round, and a transformation change appears going from `a` to `b`
/// exactly when the same change with old and new transformations swapped
/// appears going from `b` to `a`.
pub proof fn lemma_graph_diff_swap(a: Seq<ColumnLineageView>, b: Seq<ColumnLineageView>, d1: LineageDiff,
    d2: LineageDiff)
    requires
        is_graph_diff(a, b, d1),
        is_graph_diff(b, a, d2),
    ensures
        edge_views(d1.added_edges@) == edge_views(d2.removed_edges@),
        edge_views(d1.removed_edges@) == edge_views(d2.added_edges@),
        forall|c: TransformChangeView|
            #[trigger] change_views(d1.transform_changes@).contains(c)
                <==> change_views(d2.transform_changes@).contains(swap_change(c)),
{
    let ka = distinct(edge_keys(a));
    let kb = distinct(edge_keys(b));
    lemma_distinct(edge_keys(a));
    lemma_distinct(edge_keys(b));
    assert forall|c: TransformChangeView|
        #[trigger] change_views(d1.transform_changes@).contains(c)
            <==> change_views(d2.transform_changes@).contains(swap_change(c)) by {
        lemma_changes_member(a, b, kb, c);
        lemma_changes_member(b, a, ka, swap_change(c));
        if spec_changes(a, b, kb).contains(c) {
            let j = choose|j: int| 0 <= j < kb.len() && change_for_key(a, b, #[trigger] kb[j]) == Some(c);
            let k = kb[j];
            assert(kb.contains(k));
            lemma_change_for_key_swap(a, b, k, c);
            let i = choose|i: int| 0 <= i < ka.len() && ka[i] == k;
            assert(change_for_key(b, a, ka[i]) == Some(swap_change(c)));
        }
        if spec_changes(b, a, ka).contains(swap_change(c)) {
            let j = choose|j: int| 0 <= j < ka.len() && change_for_key(b, a, #[trigger] ka[j]) == Some(swap_change(c));
            let k = ka[j];
            assert(ka.contains(k));
            lemma_last_index_of(edge_keys(b), k);
            assert(swap_change(swap_change(c)) == c);
            lemma_change_for_key_swap(a, b, k, c);
            let i = choose|i: int| 0 <= i < kb.len() && kb[i] == k;
            assert(change_for_key(a, b, kb[i]) == Some(c));
        }
    }
}

} // verus!
