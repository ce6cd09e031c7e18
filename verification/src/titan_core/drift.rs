//! # Schema Drift Detection
//!
//! Identifies differences between the schema a model's SQL produces and the
//! physical table in the warehouse, and the DDL that reconciles them.

use vstd::prelude::*;
use crate::text::{views, to_lowercase, str_to_lowercase, str_eq, index_of_str, last_index_of_str};
use crate::seqs::{last_index_of, lemma_last_index_of};
use crate::titan_core::dialect::{SqlDialect, spec_add_column_sql, spec_alter_column_type_sql};

verus! {

#[derive(Debug)]
pub struct ColumnInfo {
    pub name: String,
    pub data_type: String,
}

impl Clone for ColumnInfo {
    fn clone(&self) -> (r: Self)
        ensures
            r.name@ == self.name@,
            r.data_type@ == self.data_type@,
    {
        ColumnInfo { name: self.name.clone(), data_type: self.data_type.clone() }
    }
}

#[derive(Clone, Copy, Debug, PartialEq, Eq, Structural)]
pub enum DriftAction {
    /// No changes needed.
    Ignore,
    /// Only safe type changes (widening) or new columns.
    AlterTable,
    /// Unsafe changes requiring a table recreation.
    DropAndRecreate,
}

#[derive(Debug)]
pub struct ChangedColumn {
    pub name: String,
    pub source_type: String,
    pub target_type: String,
    pub is_safe: bool,
}

#[derive(Debug)]
pub struct DriftResult {
    pub action: DriftAction,
    pub added_columns: Vec<ColumnInfo>,
    pub changed_columns: Vec<ChangedColumn>,
    pub dropped_columns: Vec<String>,
}

/// A column as (name, type).
pub open spec fn col_view(c: ColumnInfo) -> (Seq<char>, Seq<char>) {
    (c.name@, c.data_type@)
}

pub open spec fn col_views(s: Seq<ColumnInfo>) -> Seq<(Seq<char>, Seq<char>)> {
    s.map_values(|c: ColumnInfo| col_view(c))
}

/// A changed column as (name, source type, target type, is_safe).
pub open spec fn changed_view(c: ChangedColumn) -> (Seq<char>, Seq<char>, Seq<char>, bool) {
    (c.name@, c.source_type@, c.target_type@, c.is_safe)
}

pub open spec fn changed_views(s: Seq<ChangedColumn>) -> Seq<(Seq<char>, Seq<char>, Seq<char>, bool)> {
    s.map_values(|c: ChangedColumn| changed_view(c))
}

/// The lower-cased names of columns.
pub open spec fn lower_names(cols: Seq<(Seq<char>, Seq<char>)>) -> Seq<Seq<char>> {
    cols.map_values(|c: (Seq<char>, Seq<char>)| str_to_lowercase(c.0))
}

/// The type a target column has under a (lower-cased) name: that of the
/// last target column with that name.
pub open spec fn target_type_of(tgt: Seq<(Seq<char>, Seq<char>)>, lname: Seq<char>) -> Seq<char> {
    tgt[last_index_of(lower_names(tgt), lname)].1
}

/// Source columns absent from the target (by lower-cased name).
pub open spec fn spec_added(src: Seq<(Seq<char>, Seq<char>)>, tgt: Seq<(Seq<char>, Seq<char>)>) -> Seq<(Seq<char>, Seq<char>)>
    decreases src.len(),
{
    if src.len() == 0 {
        Seq::empty()
    } else {
        let prev = spec_added(src.drop_last(), tgt);
        if lower_names(tgt).contains(str_to_lowercase(src.last().0)) {
            prev
        } else {
            prev.push(src.last())
        }
    }
}

/// Source columns present in the target whose type differs (compared
/// lower-cased), with whether the dialect counts the change as a safe
/// widening of the target type.
pub open spec fn spec_changed<D: SqlDialect>(d: D, src: Seq<(Seq<char>, Seq<char>)>, tgt: Seq<(Seq<char>, Seq<char>)>)
    -> Seq<(Seq<char>, Seq<char>, Seq<char>, bool)>
    decreases src.len(),
{
    if src.len() == 0 {
        Seq::empty()
    } else {
        let prev = spec_changed(d, src.drop_last(), tgt);
        let c = src.last();
        let lname = str_to_lowercase(c.0);
        if lower_names(tgt).contains(lname) {
            let tt = target_type_of(tgt, lname);
            if str_to_lowercase(c.1) != str_to_lowercase(tt) {
                prev.push((c.0, c.1, tt, d.spec_is_safe_widening(tt, c.1)))
            } else {
                prev
            }
        } else {
            prev
        }
    }
}

/// Names of target columns absent from the source (by lower-cased name).
pub open spec fn spec_dropped(src: Seq<(Seq<char>, Seq<char>)>, tgt: Seq<(Seq<char>, Seq<char>)>) -> Seq<Seq<char>>
    decreases tgt.len(),
{
    if tgt.len() == 0 {
        Seq::empty()
    } else {
        let prev = spec_dropped(src, tgt.drop_last());
        if lower_names(src).contains(str_to_lowercase(tgt.last().0)) {
            prev
        } else {
            prev.push(tgt.last().0)
        }
    }
}

/// The action that a drift calls for.
pub open spec fn spec_action(added_len: nat, changed: Seq<(Seq<char>, Seq<char>, Seq<char>, bool)>) -> DriftAction {
    if added_len == 0 && changed.len() == 0 {
        DriftAction::Ignore
    } else if exists|i: int| 0 <= i < changed.len() && !changed[i].3 {
        DriftAction::DropAndRecreate
    } else {
        DriftAction::AlterTable
    }
}

/// The lower-cased names of `cols`.
fn lowered_names(cols: &Vec<ColumnInfo>) -> (r: Vec<String>)
    ensures
        views(r@) == lower_names(col_views(cols@)),
{
    let mut r: Vec<String> = Vec::new();
    let mut i: usize = 0;
    while i < cols.len()
        invariant
            i <= cols.len(),
            views(r@) == lower_names(col_views(cols@)).take(i as int),
        decreases cols.len() - i,
    {
        let l = to_lowercase(cols[i].name.as_str());
        let ghost before = r@;
        r.push(l);
        assert(views(r@) =~= lower_names(col_views(cols@)).take(i as int + 1)) by {
            assert(views(r@) =~= views(before).push(str_to_lowercase(cols@[i as int].name@)));
        }
        i = i + 1;
    }
    assert(lower_names(col_views(cols@)).take(cols.len() as int) =~= lower_names(col_views(cols@)));
    r
}

pub struct DriftDetector;

impl DriftDetector {
    pub fn detect<D: SqlDialect>(source_columns: &Vec<ColumnInfo>, target_columns: &Vec<ColumnInfo>, dialect: &D)
        -> (r: DriftResult)
        ensures
            col_views(r.added_columns@) == spec_added(col_views(source_columns@), col_views(target_columns@)),
            changed_views(r.changed_columns@) == spec_changed(*dialect, col_views(source_columns@),
                col_views(target_columns@)),
            views(r.dropped_columns@) == spec_dropped(col_views(source_columns@), col_views(target_columns@)),
            r.action == spec_action(r.added_columns@.len(), changed_views(r.changed_columns@)),
            // one unsafe change is enough to rebuild the table
            (exists|i: int| 0 <= i < r.changed_columns@.len() && !(#[trigger] r.changed_columns@[i]).is_safe)
                ==> r.action == DriftAction::DropAndRecreate,
            r.action == DriftAction::AlterTable ==>
                forall|i: int| 0 <= i < r.changed_columns@.len() ==> (#[trigger] r.changed_columns@[i]).is_safe,
            (r.added_columns@.len() > 0 || r.changed_columns@.len() > 0)
                && (forall|i: int| 0 <= i < r.changed_columns@.len() ==> (#[trigger] r.changed_columns@[i]).is_safe)
                ==> r.action == DriftAction::AlterTable,
            r.action == DriftAction::Ignore <==> (r.added_columns@.len() == 0 && r.changed_columns@.len() == 0),
    {
        let ghost sv = col_views(source_columns@);
        let ghost tv = col_views(target_columns@);
        let tnames = lowered_names(target_columns);
        let snames = lowered_names(source_columns);
        let mut added_columns: Vec<ColumnInfo> = Vec::new();
        let mut changed_columns: Vec<ChangedColumn> = Vec::new();
        let mut i: usize = 0;
        while i < source_columns.len()
            invariant
                sv == col_views(source_columns@),
                tv == col_views(target_columns@),
                views(tnames@) == lower_names(tv),
                i <= source_columns.len(),
                col_views(added_columns@) == spec_added(sv.take(i as int), tv),
                changed_views(changed_columns@) == spec_changed(*dialect, sv.take(i as int), tv),
            decreases source_columns.len() - i,
        {
            let sc = &source_columns[i];
            let ghost st = sv.take(i as int + 1);
            assert(st.drop_last() =~= sv.take(i as int));
            assert(st.last() == col_view(*sc));
            let name_lower = to_lowercase(sc.name.as_str());
            let found = last_index_of_str(&tnames, name_lower.as_str());
            proof { lemma_last_index_of(lower_names(tv), name_lower@); }
            match found {
                Some(t) => {
                    let tc = &target_columns[t];
                    assert(tv[t as int] == col_view(*tc));
                    let sl = to_lowercase(sc.data_type.as_str());
                    let tl = to_lowercase(tc.data_type.as_str());
                    if !str_eq(sl.as_str(), tl.as_str()) {
                        let is_safe = dialect.is_safe_widening(tc.data_type.as_str(), sc.data_type.as_str());
                        let ghost before = changed_views(changed_columns@);
                        changed_columns.push(ChangedColumn {
                            name: sc.name.clone(),
                            source_type: sc.data_type.clone(),
                            target_type: tc.data_type.clone(),
                            is_safe,
                        });
                        assert(changed_views(changed_columns@) =~= before.push(
                            (sc.name@, sc.data_type@, tc.data_type@, is_safe)));
                    }
                },
                None => {
                    let ghost before = col_views(added_columns@);
                    added_columns.push(sc.clone());
                    assert(col_views(added_columns@) =~= before.push(col_view(*sc)));
                },
            }
            i = i + 1;
        }
        assert(sv.take(source_columns.len() as int) =~= sv);
        let mut dropped_columns: Vec<String> = Vec::new();
        let mut j: usize = 0;
        while j < target_columns.len()
            invariant
                sv == col_views(source_columns@),
                tv == col_views(target_columns@),
                views(snames@) == lower_names(sv),
                j <= target_columns.len(),
                views(dropped_columns@) == spec_dropped(sv, tv.take(j as int)),
            decreases target_columns.len() - j,
        {
            let tc = &target_columns[j];
            let ghost tt = tv.take(j as int + 1);
            assert(tt.drop_last() =~= tv.take(j as int));
            assert(tt.last() == col_view(*tc));
            let l = to_lowercase(tc.name.as_str());
            if index_of_str(&snames, l.as_str()).is_none() {
                let ghost before = views(dropped_columns@);
                dropped_columns.push(tc.name.clone());
                assert(views(dropped_columns@) =~= before.push(tc.name@));
            }
            j = j + 1;
        }
        assert(tv.take(target_columns.len() as int) =~= tv);
        let mut any_unsafe = false;
        let mut k: usize = 0;
        while k < changed_columns.len()
            invariant
                k <= changed_columns.len(),
                any_unsafe == exists|q: int| 0 <= q < k && !changed_views(changed_columns@)[q].3,
            decreases changed_columns.len() - k,
        {
            assert(changed_views(changed_columns@)[k as int].3 == changed_columns@[k as int].is_safe);
            if !changed_columns[k].is_safe {
                any_unsafe = true;
            }
            assert(any_unsafe == exists|q: int| 0 <= q < k + 1 && !changed_views(changed_columns@)[q].3) by {
                if any_unsafe && changed_columns@[k as int].is_safe {
                    let w = choose|w: int| 0 <= w < k && !changed_views(changed_columns@)[w].3;
                    assert(0 <= w < k + 1);
                }
            }
            k = k + 1;
        }
        let action = if added_columns.len() == 0 && changed_columns.len() == 0 {
            DriftAction::Ignore
        } else if any_unsafe {
            DriftAction::DropAndRecreate
        } else {
            DriftAction::AlterTable
        };
        let r = DriftResult { action, added_columns, changed_columns, dropped_columns };
        proof {
            lemma_drift_action(r.added_columns@.len(), changed_views(r.changed_columns@));
            assert forall|i: int| 0 <= i < r.changed_columns@.len() implies
                changed_views(r.changed_columns@)[i].3 == (#[trigger] r.changed_columns@[i]).is_safe by {}
        }
        r
    }
}

/// What a drift calls for, over the added columns and the changed columns
/// (each with its safety): one unsafe change is enough to drop and recreate
/// the table; additions and safe changes alone alter it; no additions and
/// no changes leave it alone.
pub proof fn lemma_drift_action(added_len: nat, changed: Seq<(Seq<char>, Seq<char>, Seq<char>, bool)>)
    ensures
        (exists|i: int| 0 <= i < changed.len() && !(#[trigger] changed[i]).3)
            ==> spec_action(added_len, changed) == DriftAction::DropAndRecreate,
        (added_len > 0 || changed.len() > 0) && (forall|i: int| 0 <= i < changed.len() ==> (#[trigger] changed[i]).3)
            ==> spec_action(added_len, changed) == DriftAction::AlterTable,
        spec_action(added_len, changed) == DriftAction::Ignore <==> (added_len == 0 && changed.len() == 0),
{
    if exists|i: int| 0 <= i < changed.len() && !(#[trigger] changed[i]).3 {
        let i = choose|i: int| 0 <= i < changed.len() && !(#[trigger] changed[i]).3;
        assert(changed.len() > 0);
    }
}

/// `ALTER TABLE .. ALTER COLUMN .. TYPE ..` for each safe change.
pub open spec fn safe_alters(table: Seq<char>, changed: Seq<(Seq<char>, Seq<char>, Seq<char>, bool)>) -> Seq<Seq<char>>
    decreases changed.len(),
{
    if changed.len() == 0 {
        Seq::empty()
    } else {
        let prev = safe_alters(table, changed.drop_last());
        let c = changed.last();
        if c.3 {
            prev.push(spec_alter_column_type_sql(table, c.0, c.1))
        } else {
            prev
        }
    }
}

/// The DDL that applies a drift: one ADD COLUMN per added column, then one
/// ALTER COLUMN .. TYPE per safe change (to the source type).
pub open spec fn spec_alter_sql(table: Seq<char>, added: Seq<(Seq<char>, Seq<char>)>,
    changed: Seq<(Seq<char>, Seq<char>, Seq<char>, bool)>) -> Seq<Seq<char>> {
    added.map_values(|c: (Seq<char>, Seq<char>)| spec_add_column_sql(table, c.0, c.1)) + safe_alters(table, changed)
}

impl DriftDetector {
    pub fn generate_alter_sql<D: SqlDialect>(table_name: &str, drift: &DriftResult, dialect: &D) -> (sql: Vec<String>)
        ensures
            views(sql@) == spec_alter_sql(table_name@, col_views(drift.added_columns@),
                changed_views(drift.changed_columns@)),
    {
        let ghost av = col_views(drift.added_columns@);
        let ghost cv = changed_views(drift.changed_columns@);
        let mut sql: Vec<String> = Vec::new();
        let mut i: usize = 0;
        while i < drift.added_columns.len()
            invariant
                av == col_views(drift.added_columns@),
                i <= drift.added_columns.len(),
                views(sql@) == av.take(i as int).map_values(
                    |c: (Seq<char>, Seq<char>)| spec_add_column_sql(table_name@, c.0, c.1)),
            decreases drift.added_columns.len() - i,
        {
            let col = &drift.added_columns[i];
            let stmt = dialect.add_column_sql(table_name, col.name.as_str(), col.data_type.as_str());
            let ghost before = views(sql@);
            sql.push(stmt);
            assert(views(sql@) =~= av.take(i as int + 1).map_values(
                |c: (Seq<char>, Seq<char>)| spec_add_column_sql(table_name@, c.0, c.1))) by {
                assert(views(sql@) =~= before.push(spec_add_column_sql(table_name@, col.name@, col.data_type@)));
            }
            i = i + 1;
        }
        assert(av.take(drift.added_columns.len() as int) =~= av);
        let ghost base = views(sql@);
        let mut j: usize = 0;
        while j < drift.changed_columns.len()
            invariant
                cv == changed_views(drift.changed_columns@),
                j <= drift.changed_columns.len(),
                views(sql@) == base + safe_alters(table_name@, cv.take(j as int)),
            decreases drift.changed_columns.len() - j,
        {
            let col = &drift.changed_columns[j];
            let ghost ct = cv.take(j as int + 1);
            assert(ct.drop_last() =~= cv.take(j as int));
            assert(ct.last() == changed_view(*col));
            if col.is_safe {
                let stmt = dialect.alter_column_type_sql(table_name, col.name.as_str(), col.source_type.as_str());
                let ghost before = views(sql@);
                sql.push(stmt);
                assert(views(sql@) =~= before.push(spec_alter_column_type_sql(table_name@, col.name@, col.source_type@)));
            }
            j = j + 1;
        }
        assert(cv.take(drift.changed_columns.len() as int) =~= cv);
        sql
    }
}


proof fn lemma_added_none(s: Seq<(Seq<char>, Seq<char>)>, t: Seq<(Seq<char>, Seq<char>)>)
    requires
        forall|i: int| 0 <= i < s.len() ==> lower_names(t).contains(str_to_lowercase(#[trigger] s[i].0)),
    ensures
        spec_added(s, t) =~= Seq::<(Seq<char>, Seq<char>)>::empty(),
    decreases s.len(),
{
    if s.len() > 0 {
        let d = s.drop_last();
        assert forall|i: int| 0 <= i < d.len() implies lower_names(t).contains(str_to_lowercase(#[trigger] d[i].0)) by {
            assert(d[i] == s[i]);
        }
        lemma_added_none(d, t);
        assert(lower_names(t).contains(str_to_lowercase(s[s.len() - 1].0)));
    }
}

proof fn lemma_dropped_none(s: Seq<(Seq<char>, Seq<char>)>, t: Seq<(Seq<char>, Seq<char>)>)
    requires
        forall|i: int| 0 <= i < t.len() ==> lower_names(s).contains(str_to_lowercase(#[trigger] t[i].0)),
    ensures
        spec_dropped(s, t) =~= Seq::<Seq<char>>::empty(),
    decreases t.len(),
{
    if t.len() > 0 {
        let d = t.drop_last();
        assert forall|i: int| 0 <= i < d.len() implies lower_names(s).contains(str_to_lowercase(#[trigger] d[i].0)) by {
            assert(d[i] == t[i]);
        }
        lemma_dropped_none(s, d);
        assert(lower_names(s).contains(str_to_lowercase(t[t.len() - 1].0)));
    }
}

proof fn lemma_changed_none<D: SqlDialect>(dialect: D, s: Seq<(Seq<char>, Seq<char>)>, t: Seq<(Seq<char>, Seq<char>)>)
    requires
        s.len() <= t.len(),
        forall|i: int| 0 <= i < s.len() ==> #[trigger] s[i] == t[i],
        lower_names(t).no_duplicates(),
    ensures
        spec_changed(dialect, s, t) =~= Seq::<(Seq<char>, Seq<char>, Seq<char>, bool)>::empty(),
    decreases s.len(),
{
    if s.len() > 0 {
        let d = s.drop_last();
        assert forall|i: int| 0 <= i < d.len() implies #[trigger] d[i] == t[i] by {
            assert(d[i] == s[i]);
        }
        lemma_changed_none(dialect, d, t);
        let k = s.len() - 1;
        let lname = str_to_lowercase(s[k].0);
        assert(lower_names(t)[k] == lname);
        crate::seqs::lemma_last_index_unique(lower_names(t), lname, k);
        assert(target_type_of(t, lname) == s[k].1);
    }
}

/// A schema compared with itself shows no drift: nothing added, changed or
/// dropped, and the table is left alone. Column names are matched ignoring
/// case, so this holds of schemas whose lower-cased names are distinct.
pub proof fn lemma_no_drift_against_self<D: SqlDialect>(dialect: D, cols: Seq<(Seq<char>, Seq<char>)>)
    requires
        lower_names(cols).no_duplicates(),
    ensures
        spec_added(cols, cols) =~= Seq::<(Seq<char>, Seq<char>)>::empty(),
        spec_changed(dialect, cols, cols) =~= Seq::<(Seq<char>, Seq<char>, Seq<char>, bool)>::empty(),
        spec_dropped(cols, cols) =~= Seq::<Seq<char>>::empty(),
        spec_action(0, spec_changed(dialect, cols, cols)) == DriftAction::Ignore,
{
    assert forall|i: int| 0 <= i < cols.len() implies lower_names(cols).contains(str_to_lowercase(#[trigger] cols[i].0)) by {
        assert(lower_names(cols)[i] == str_to_lowercase(cols[i].0));
    }
    lemma_added_none(cols, cols);
    lemma_dropped_none(cols, cols);
    lemma_changed_none(dialect, cols, cols);
}

} // verus!
