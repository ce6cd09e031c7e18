//! # Column-Level Lineage
//!
//! Static analysis of SQL that traces column origins and transformations
//! across models, and the comparison of two lineage results.

use vstd::prelude::*;
use crate::text::{views, str_eq, last_index_of_str, distinct_strings, index_of_str};
use crate::seqs::{distinct, last_index_of, lemma_last_index_of};

verus! {

/// How a column value is transformed from source to target.
#[derive(Debug)]
pub enum TransformKind {
    /// Direct column reference (no transformation).
    Direct,
    /// Explicit type cast.
    Cast,
    /// Aggregate function (SUM, COUNT, etc.).
    Aggregation(String),
    /// Complex expression (arithmetic, CASE, etc.).
    Expression,
}

/// The mathematical value of a `TransformKind`.
pub enum TransformView {
    Direct,
    Cast,
    Aggregation(Seq<char>),
    Expression,
}

impl View for TransformKind {
    type V = TransformView;

    open spec fn view(&self) -> TransformView {
        match self {
            TransformKind::Direct => TransformView::Direct,
            TransformKind::Cast => TransformView::Cast,
            TransformKind::Aggregation(f) => TransformView::Aggregation(f@),
            TransformKind::Expression => TransformView::Expression,
        }
    }
}

impl Clone for TransformKind {
    fn clone(&self) -> (r: Self)
        ensures
            r@ == self@,
    {
        match self {
            TransformKind::Direct => TransformKind::Direct,
            TransformKind::Cast => TransformKind::Cast,
            TransformKind::Aggregation(f) => TransformKind::Aggregation(f.clone()),
            TransformKind::Expression => TransformKind::Expression,
        }
    }
}

impl TransformKind {
    /// Equality of two transformations.
    pub fn same_as(&self, other: &TransformKind) -> (r: bool)
        ensures
            r == (self@ == other@),
    {
        match (self, other) {
            (TransformKind::Direct, TransformKind::Direct) => true,
            (TransformKind::Cast, TransformKind::Cast) => true,
            (TransformKind::Aggregation(f), TransformKind::Aggregation(g)) => str_eq(f.as_str(), g.as_str()),
            (TransformKind::Expression, TransformKind::Expression) => true,
            _ => false,
        }
    }
}

/// A column fully qualified by its model (or source) name.
#[derive(Debug)]
pub struct QualifiedColumn {
    pub model: String,
    pub column: String,
}

impl Clone for QualifiedColumn {
    fn clone(&self) -> (r: Self)
        ensures
            r.model@ == self.model@,
            r.column@ == self.column@,
    {
        QualifiedColumn { model: self.model.clone(), column: self.column.clone() }
    }
}

/// A column lineage edge: source_table.column -> target alias.
#[derive(Debug)]
pub struct ColumnLineage {
    pub source: QualifiedColumn,
    pub target_column: String,
    pub transform: TransformKind,
}

/// The mathematical value of a lineage edge.
pub struct ColumnLineageView {
    pub model: Seq<char>,
    pub column: Seq<char>,
    pub target: Seq<char>,
    pub transform: TransformView,
}

impl View for ColumnLineage {
    type V = ColumnLineageView;

    open spec fn view(&self) -> ColumnLineageView {
        ColumnLineageView {
            model: self.source.model@,
            column: self.source.column@,
            target: self.target_column@,
            transform: self.transform@,
        }
    }
}

impl Clone for ColumnLineage {
    fn clone(&self) -> (r: Self)
        ensures
            r@ == self@,
    {
        ColumnLineage {
            source: self.source.clone(),
            target_column: self.target_column.clone(),
            transform: self.transform.clone(),
        }
    }
}

/// Full lineage result for a SQL statement.
#[derive(Debug)]
pub struct LineageResult {
    pub source_models: Vec<String>,
    pub columns: Vec<ColumnLineage>,
    pub has_star: bool,
}

/// The views of a sequence of lineage edges.
pub open spec fn edge_views(cols: Seq<ColumnLineage>) -> Seq<ColumnLineageView> {
    cols.map_values(|c: ColumnLineage| c@)
}

/// The target columns of a sequence of lineage edges.
pub open spec fn targets(cols: Seq<ColumnLineageView>) -> Seq<Seq<char>> {
    cols.map_values(|c: ColumnLineageView| c.target)
}

/// One difference between two lineage results, keyed by target column.
#[derive(Debug)]
pub enum LineageDiff {
    AddedColumn(String),
    RemovedColumn(String),
    ChangedSource { column: String, old: String, new: String },
    ChangedTransform { column: String, old: TransformKind, new: TransformKind },
}

pub enum LineageDiffView {
    AddedColumn(Seq<char>),
    RemovedColumn(Seq<char>),
    ChangedSource { column: Seq<char>, old: Seq<char>, new: Seq<char> },
    ChangedTransform { column: Seq<char>, old: TransformView, new: TransformView },
}

impl View for LineageDiff {
    type V = LineageDiffView;

    open spec fn view(&self) -> LineageDiffView {
        match self {
            LineageDiff::AddedColumn(c) => LineageDiffView::AddedColumn(c@),
            LineageDiff::RemovedColumn(c) => LineageDiffView::RemovedColumn(c@),
            LineageDiff::ChangedSource { column, old, new } =>
                LineageDiffView::ChangedSource { column: column@, old: old@, new: new@ },
            LineageDiff::ChangedTransform { column, old, new } =>
                LineageDiffView::ChangedTransform { column: column@, old: old@, new: new@ },
        }
    }
}

/// The differences that target column `name` of `b` shows against `a`
/// (each side's edge for a name is its last edge with that target).
pub open spec fn changes_for(a: Seq<ColumnLineageView>, b: Seq<ColumnLineageView>, name: Seq<char>) -> Seq<LineageDiffView> {
    let ia = last_index_of(targets(a), name);
    let ib = last_index_of(targets(b), name);
    if ia >= 0 {
        let ca = a[ia];
        let cb = b[ib];
        let s1 = if ca.model != cb.model || ca.column != cb.column {
            seq![LineageDiffView::ChangedSource { column: name, old: ca.model, new: cb.model }]
        } else {
            Seq::empty()
        };
        let s2 = if ca.transform != cb.transform {
            seq![LineageDiffView::ChangedTransform { column: name, old: ca.transform, new: cb.transform }]
        } else {
            Seq::empty()
        };
        s1 + s2
    } else {
        seq![LineageDiffView::AddedColumn(name)]
    }
}

pub open spec fn changes_over(a: Seq<ColumnLineageView>, b: Seq<ColumnLineageView>, names: Seq<Seq<char>>) -> Seq<LineageDiffView>
    decreases names.len(),
{
    if names.len() == 0 {
        Seq::empty()
    } else {
        changes_over(a, b, names.drop_last()) + changes_for(a, b, names.last())
    }
}

pub open spec fn removals_over(b: Seq<ColumnLineageView>, names: Seq<Seq<char>>) -> Seq<LineageDiffView>
    decreases names.len(),
{
    if names.len() == 0 {
        Seq::empty()
    } else if targets(b).contains(names.last()) {
        removals_over(b, names.drop_last())
    } else {
        removals_over(b, names.drop_last()).push(LineageDiffView::RemovedColumn(names.last()))
    }
}

/// The differences between two lineage results: for each target column of
/// `b` (in order of first appearance) an addition, or a change of source
/// model/column and a change of transformation; then a removal for each
/// target column of `a` that `b` lacks.
pub open spec fn spec_lineage_diff(a: Seq<ColumnLineageView>, b: Seq<ColumnLineageView>) -> Seq<LineageDiffView> {
    changes_over(a, b, distinct(targets(b))) + removals_over(b, distinct(targets(a)))
}

/// The views of a sequence of differences.
pub open spec fn diff_views(d: Seq<LineageDiff>) -> Seq<LineageDiffView> {
    d.map_values(|x: LineageDiff| x@)
}

/// The target columns of `cols`, in order.
pub fn target_names(cols: &Vec<ColumnLineage>) -> (r: Vec<String>)
    ensures
        views(r@) == targets(edge_views(cols@)),
{
    let mut r: Vec<String> = Vec::new();
    let mut i: usize = 0;
    while i < cols.len()
        invariant
            i <= cols.len(),
            views(r@) == targets(edge_views(cols@)).take(i as int),
        decreases cols.len() - i,
    {
        let ghost before = r@;
        r.push(cols[i].target_column.clone());
        assert(views(r@) =~= targets(edge_views(cols@)).take(i as int + 1)) by {
            assert(views(r@) =~= views(before).push(cols@[i as int].target_column@));
        }
        i = i + 1;
    }
    assert(targets(edge_views(cols@)).take(cols.len() as int) =~= targets(edge_views(cols@)));
    r
}

pub struct LineageDiffer;

impl LineageDiffer {
    pub fn diff(&self, a: &LineageResult, b: &LineageResult) -> (diffs: Vec<LineageDiff>)
        ensures
            diff_views(diffs@) == spec_lineage_diff(edge_views(a.columns@), edge_views(b.columns@)),
    {
        let ghost av = edge_views(a.columns@);
        let ghost bv = edge_views(b.columns@);
        let ta = target_names(&a.columns);
        let tb = target_names(&b.columns);
        let names_b = distinct_strings(&tb);
        let names_a = distinct_strings(&ta);
        let mut diffs: Vec<LineageDiff> = Vec::new();
        let mut i: usize = 0;
        while i < names_b.len()
            invariant
                av == edge_views(a.columns@),
                bv == edge_views(b.columns@),
                views(ta@) == targets(av),
                views(tb@) == targets(bv),
                views(names_b@) == distinct(targets(bv)),
                i <= names_b.len(),
                diff_views(diffs@) == changes_over(av, bv, views(names_b@).take(i as int)),
            decreases names_b.len() - i,
        {
            let name = names_b[i].as_str();
            let ghost nm = name@;
            assert(views(names_b@)[i as int] == nm);
            assert(views(names_b@).take(i as int + 1).drop_last() =~= views(names_b@).take(i as int));
            assert(views(names_b@).take(i as int + 1).last() == nm);
            let ghost before = diff_views(diffs@);
            proof {
                crate::seqs::lemma_distinct(targets(bv));
                assert(distinct(targets(bv)).contains(nm));
                lemma_last_index_of(targets(bv), nm);
                lemma_last_index_of(targets(av), nm);
            }
            let ib = last_index_of_str(&tb, name);
            let ia = last_index_of_str(&ta, name);
            match (ia, ib) {
                (Some(ia), Some(ib)) => {
                    let ca = &a.columns[ia];
                    let cb = &b.columns[ib];
                    assert(av[ia as int] == ca@);
                    assert(bv[ib as int] == cb@);
                    let src_differs = !str_eq(ca.source.model.as_str(), cb.source.model.as_str())
                        || !str_eq(ca.source.column.as_str(), cb.source.column.as_str());
                    if src_differs {
                        diffs.push(LineageDiff::ChangedSource {
                            column: names_b[i].clone(),
                            old: ca.source.model.clone(),
                            new: cb.source.model.clone(),
                        });
                    }
                    if !ca.transform.same_as(&cb.transform) {
                        diffs.push(LineageDiff::ChangedTransform {
                            column: names_b[i].clone(),
                            old: ca.transform.clone(),
                            new: cb.transform.clone(),
                        });
                    }
                    assert(diff_views(diffs@) =~= before + changes_for(av, bv, nm));
                },
                (None, Some(_)) => {
                    diffs.push(LineageDiff::AddedColumn(names_b[i].clone()));
                    assert(diff_views(diffs@) =~= before + changes_for(av, bv, nm));
                },
                (_, None) => {
                    assert(false);
                },
            }
            i = i + 1;
        }
        assert(views(names_b@).take(names_b.len() as int) =~= views(names_b@));
        let ghost mid = diff_views(diffs@);
        let mut j: usize = 0;
        while j < names_a.len()
            invariant
                av == edge_views(a.columns@),
                bv == edge_views(b.columns@),
                views(tb@) == targets(bv),
                views(names_a@) == distinct(targets(av)),
                j <= names_a.len(),
                diff_views(diffs@) == mid + removals_over(bv, views(names_a@).take(j as int)),
            decreases names_a.len() - j,
        {
            let ghost nm = names_a@[j as int]@;
            assert(views(names_a@)[j as int] == nm);
            assert(views(names_a@).take(j as int + 1).drop_last() =~= views(names_a@).take(j as int));
            assert(views(names_a@).take(j as int + 1).last() == nm);
            let found = index_of_str(&tb, names_a[j].as_str());
            if found.is_none() {
                let ghost before = diff_views(diffs@);
                diffs.push(LineageDiff::RemovedColumn(names_a[j].clone()));
                assert(diff_views(diffs@) =~= before.push(LineageDiffView::RemovedColumn(nm)));
            }
            j = j + 1;
        }
        assert(views(names_a@).take(names_a.len() as int) =~= views(names_a@));
        diffs
    }
}


proof fn lemma_changes_over_self(a: Seq<ColumnLineageView>, names: Seq<Seq<char>>)
    requires
        forall|i: int| 0 <= i < names.len() ==> targets(a).contains(#[trigger] names[i]),
    ensures
        changes_over(a, a, names) =~= Seq::<LineageDiffView>::empty(),
    decreases names.len(),
{
    if names.len() > 0 {
        let d = names.drop_last();
        assert forall|i: int| 0 <= i < d.len() implies targets(a).contains(#[trigger] d[i]) by {
            assert(d[i] == names[i]);
        }
        lemma_changes_over_self(a, d);
        let name = names.last();
        assert(targets(a).contains(names[names.len() - 1]));
        lemma_last_index_of(targets(a), name);
        let ia = last_index_of(targets(a), name);
        assert(changes_for(a, a, name) =~= Seq::<LineageDiffView>::empty());
    }
}

proof fn lemma_removals_over_self(a: Seq<ColumnLineageView>, names: Seq<Seq<char>>)
    requires
        forall|i: int| 0 <= i < names.len() ==> targets(a).contains(#[trigger] names[i]),
    ensures
        removals_over(a, names) =~= Seq::<LineageDiffView>::empty(),
    decreases names.len(),
{
    if names.len() > 0 {
        let d = names.drop_last();
        assert forall|i: int| 0 <= i < d.len() implies targets(a).contains(#[trigger] d[i]) by {
            assert(d[i] == names[i]);
        }
        lemma_removals_over_self(a, d);
        assert(targets(a).contains(names[names.len() - 1]));
    }
}

/// A lineage compared with itself shows no difference.
pub proof fn lemma_lineage_diff_self(a: Seq<ColumnLineageView>)
    ensures
        spec_lineage_diff(a, a) =~= Seq::<LineageDiffView>::empty(),
{
    let names = distinct(targets(a));
    crate::seqs::lemma_distinct(targets(a));
    assert forall|i: int| 0 <= i < names.len() implies targets(a).contains(#[trigger] names[i]) by {
        assert(names.contains(names[i]));
    }
    lemma_changes_over_self(a, names);
    lemma_removals_over_self(a, names);
}

/// `e` reports that the source of target column `n` changed.
pub open spec fn is_source_change_of(e: LineageDiffView, n: Seq<char>) -> bool {
    e matches LineageDiffView::ChangedSource { column, .. } && column == n
}

/// The differences `d` report that the source of target column `n` changed.
pub open spec fn reports_source_change(d: Seq<LineageDiffView>, n: Seq<char>) -> bool {
    exists|k: int| 0 <= k < d.len() && is_source_change_of(#[trigger] d[k], n)
}

proof fn lemma_reports_concat(x: Seq<LineageDiffView>, y: Seq<LineageDiffView>, n: Seq<char>)
    ensures
        reports_source_change(x + y, n) <==> reports_source_change(x, n) || reports_source_change(y, n),
{
    let xy = x + y;
    if reports_source_change(xy, n) {
        let k = choose|k: int| 0 <= k < xy.len() && is_source_change_of(#[trigger] xy[k], n);
        if k < x.len() {
            assert(xy[k] == x[k]);
        } else {
            assert(xy[k] == y[k - x.len()]);
        }
    }
    if reports_source_change(x, n) {
        let k = choose|k: int| 0 <= k < x.len() && is_source_change_of(#[trigger] x[k], n);
        assert(xy[k] == x[k]);
    }
    if reports_source_change(y, n) {
        let k = choose|k: int| 0 <= k < y.len() && is_source_change_of(#[trigger] y[k], n);
        assert(xy[k + x.len()] == y[k]);
    }
}

proof fn lemma_removals_report_nothing(b: Seq<ColumnLineageView>, names: Seq<Seq<char>>, n: Seq<char>)
    ensures
        !reports_source_change(removals_over(b, names), n),
    decreases names.len(),
{
    if names.len() > 0 {
        lemma_removals_report_nothing(b, names.drop_last(), n);
        let p = removals_over(b, names.drop_last());
        if !targets(b).contains(names.last()) {
            let q = p.push(LineageDiffView::RemovedColumn(names.last()));
            assert(q =~= p + seq![LineageDiffView::RemovedColumn(names.last())]);
            lemma_reports_concat(p, seq![LineageDiffView::RemovedColumn(names.last())], n);
            let one = seq![LineageDiffView::RemovedColumn(names.last())];
            if reports_source_change(one, n) {
                let k = choose|k: int| 0 <= k < one.len() && is_source_change_of(#[trigger] one[k], n);
            }
        }
    }
}

/// The last edges of `a` and `b` with target `n` read different sources.
pub open spec fn source_differs(a: Seq<ColumnLineageView>, b: Seq<ColumnLineageView>, n: Seq<char>) -> bool {
    let ea = a[last_index_of(targets(a), n)];
    let eb = b[last_index_of(targets(b), n)];
    ea.model != eb.model || ea.column != eb.column
}

proof fn lemma_changes_for_reports(a: Seq<ColumnLineageView>, b: Seq<ColumnLineageView>, m: Seq<char>, n: Seq<char>)
    ensures
        reports_source_change(changes_for(a, b, m), n) <==>
            (m == n && last_index_of(targets(a), m) >= 0 && source_differs(a, b, m)),
{
    let c = changes_for(a, b, m);
    let ia = last_index_of(targets(a), m);
    if reports_source_change(c, n) {
        let k = choose|k: int| 0 <= k < c.len() && is_source_change_of(#[trigger] c[k], n);
    }
    if m == n && ia >= 0 && source_differs(a, b, m) {
        assert(is_source_change_of(c[0], n));
    }
}

proof fn lemma_changes_over_reports(a: Seq<ColumnLineageView>, b: Seq<ColumnLineageView>, names: Seq<Seq<char>>,
    n: Seq<char>)
    ensures
        reports_source_change(changes_over(a, b, names), n) <==>
            (names.contains(n) && last_index_of(targets(a), n) >= 0 && source_differs(a, b, n)),
    decreases names.len(),
{
    if names.len() == 0 {
        let e = changes_over(a, b, names);
        if reports_source_change(e, n) {
            let k = choose|k: int| 0 <= k < e.len() && is_source_change_of(#[trigger] e[k], n);
        }
    } else {
        let d = names.drop_last();
        lemma_changes_over_reports(a, b, d, n);
        lemma_reports_concat(changes_over(a, b, d), changes_for(a, b, names.last()), n);
        lemma_changes_for_reports(a, b, names.last(), n);
        crate::seqs::lemma_seq_drop_last_contains(names, n);
    }
}

/// For a target column present in both lineage results, the diff reports
/// a change of source exactly when the column's edge (the last edge with
/// that target) reads a different source model or a different source
/// column in the two results.
pub proof fn lemma_diff_reports_source_change(a: Seq<ColumnLineageView>, b: Seq<ColumnLineageView>, n: Seq<char>)
    requires
        targets(a).contains(n),
        targets(b).contains(n),
    ensures
        reports_source_change(spec_lineage_diff(a, b), n) <==> ({
            let ea = a[last_index_of(targets(a), n)];
            let eb = b[last_index_of(targets(b), n)];
            ea.model != eb.model || ea.column != eb.column
        }),
{
    crate::seqs::lemma_distinct(targets(b));
    lemma_last_index_of(targets(a), n);
    lemma_reports_concat(changes_over(a, b, distinct(targets(b))), removals_over(b, distinct(targets(a))), n);
    lemma_changes_over_reports(a, b, distinct(targets(b)), n);
    lemma_removals_report_nothing(b, distinct(targets(a)), n);
}

} // verus!
