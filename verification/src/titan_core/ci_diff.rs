//! Impact analysis of a model between two environments: row counts and the
//! columns added or removed.

use vstd::prelude::*;
use crate::text::{views, index_of_str, distinct_strings, to_owned_string};
use crate::seqs::{distinct, lemma_distinct};

verus! {

#[derive(Debug, Clone, Copy, PartialEq, Eq, Structural)]
pub enum ModelDiffStatus {
    Unchanged,
    Modified,
    Added,
    Removed,
}

#[derive(Debug)]
pub struct DiffResult {
    pub model_name: String,
    pub status: ModelDiffStatus,
    pub row_count_before: Option<u64>,
    pub row_count_after: Option<u64>,
    pub column_changes: Vec<String>,
}

/// `+ <name>` for each target column that the base lacks, in target order.
pub open spec fn added_columns(base: Seq<Seq<char>>, target: Seq<Seq<char>>) -> Seq<Seq<char>>
    decreases target.len(),
{
    if target.len() == 0 {
        Seq::empty()
    } else {
        let prev = added_columns(base, target.drop_last());
        if base.contains(target.last()) { prev } else { prev.push("+ "@ + target.last()) }
    }
}

/// `- <name>` for each base column that the target lacks, once per name.
pub open spec fn removed_columns(base: Seq<Seq<char>>, target: Seq<Seq<char>>) -> Seq<Seq<char>>
    decreases base.len(),
{
    if base.len() == 0 {
        Seq::empty()
    } else {
        let prev = removed_columns(base.drop_last(), target);
        if target.contains(base.last()) { prev } else { prev.push("- "@ + base.last()) }
    }
}

pub open spec fn column_changes(base: Seq<Seq<char>>, target: Seq<Seq<char>>) -> Seq<Seq<char>> {
    added_columns(base, target) + removed_columns(distinct(base), target)
}

pub struct CIDiffer;

/// `SELECT * FROM <table> LIMIT 0`: the query whose schema is compared.
pub fn schema_query(table: &str) -> (r: String)
    ensures
        r@ == "SELECT * FROM "@ + table@ + " LIMIT 0"@,
{
    let mut r = to_owned_string("SELECT * FROM ");
    r.append(table);
    r.append(" LIMIT 0");
    r
}

/// `SELECT COUNT(*) FROM <table>`: the query whose count is compared.
pub fn row_count_query(table: &str) -> (r: String)
    ensures
        r@ == "SELECT COUNT(*) FROM "@ + table@,
{
    let mut r = to_owned_string("SELECT COUNT(*) FROM ");
    r.append(table);
    r
}

fn prefixed(prefix: &str, name: &str) -> (r: String)
    ensures
        r@ == prefix@ + name@,
{
    let mut r = to_owned_string(prefix);
    r.append(name);
    r
}

impl CIDiffer {
    /// Compares a model's base and target tables from their row counts and
    /// column names: added columns first (in target order), then removed
    /// ones; the model is unchanged when the counts agree and no column
    /// changed, modified otherwise.
    pub fn compare(model_name: &str, count_base: u64, count_target: u64,
        base_columns: &Vec<String>, target_columns: &Vec<String>) -> (r: DiffResult)
        ensures
            r.model_name@ == model_name@,
            r.row_count_before == Some(count_base),
            r.row_count_after == Some(count_target),
            views(r.column_changes@) == column_changes(views(base_columns@), views(target_columns@)),
            r.status == (if count_base == count_target && r.column_changes@.len() == 0 {
                ModelDiffStatus::Unchanged
            } else {
                ModelDiffStatus::Modified
            }),
    {
        let ghost bv = views(base_columns@);
        let ghost tv = views(target_columns@);
        let mut changes: Vec<String> = Vec::new();
        let mut i: usize = 0;
        while i < target_columns.len()
            invariant
                bv == views(base_columns@),
                tv == views(target_columns@),
                i <= target_columns.len(),
                views(changes@) == added_columns(bv, tv.take(i as int)),
            decreases target_columns.len() - i,
        {
            let ghost pre = tv.take(i as int + 1);
            assert(pre.drop_last() =~= tv.take(i as int));
            assert(pre.last() == target_columns@[i as int]@);
            if index_of_str(base_columns, target_columns[i].as_str()).is_none() {
                let ghost before = changes@;
                changes.push(prefixed("+ ", target_columns[i].as_str()));
                assert(views(changes@) =~= views(before).push("+ "@ + tv[i as int]));
            }
            i = i + 1;
        }
        assert(tv.take(target_columns.len() as int) =~= tv);
        let ghost added = changes@;
        let base_names = distinct_strings(base_columns);
        let ghost dv = views(base_names@);
        let mut j: usize = 0;
        while j < base_names.len()
            invariant
                tv == views(target_columns@),
                dv == views(base_names@),
                j <= base_names.len(),
                views(changes@) == views(added) + removed_columns(dv.take(j as int), tv),
            decreases base_names.len() - j,
        {
            let ghost pre = dv.take(j as int + 1);
            assert(pre.drop_last() =~= dv.take(j as int));
            assert(pre.last() == base_names@[j as int]@);
            if index_of_str(target_columns, base_names[j].as_str()).is_none() {
                let ghost before = changes@;
                changes.push(prefixed("- ", base_names[j].as_str()));
                assert(views(changes@) =~= views(before).push("- "@ + dv[j as int]));
            }
            j = j + 1;
        }
        assert(dv.take(base_names.len() as int) =~= dv);
        let status = if count_base == count_target && changes.len() == 0 {
            ModelDiffStatus::Unchanged
        } else {
            ModelDiffStatus::Modified
        };
        DiffResult {
            model_name: to_owned_string(model_name),
            status,
            row_count_before: Some(count_base),
            row_count_after: Some(count_target),
            column_changes: changes,
        }
    }
}


proof fn lemma_added_none(base: Seq<Seq<char>>, target: Seq<Seq<char>>)
    requires
        forall|i: int| 0 <= i < target.len() ==> base.contains(#[trigger] target[i]),
    ensures
        added_columns(base, target) =~= Seq::<Seq<char>>::empty(),
    decreases target.len(),
{
    if target.len() > 0 {
        let d = target.drop_last();
        assert forall|i: int| 0 <= i < d.len() implies base.contains(#[trigger] d[i]) by {
            assert(d[i] == target[i]);
        }
        lemma_added_none(base, d);
        assert(base.contains(target[target.len() - 1]));
    }
}

proof fn lemma_removed_none(base: Seq<Seq<char>>, target: Seq<Seq<char>>)
    requires
        forall|i: int| 0 <= i < base.len() ==> target.contains(#[trigger] base[i]),
    ensures
        removed_columns(base, target) =~= Seq::<Seq<char>>::empty(),
    decreases base.len(),
{
    if base.len() > 0 {
        let d = base.drop_last();
        assert forall|i: int| 0 <= i < d.len() implies target.contains(#[trigger] d[i]) by {
            assert(d[i] == base[i]);
        }
        lemma_removed_none(d, target);
        assert(target.contains(base[base.len() - 1]));
    }
}

/// A table compared with an identical one (same columns) shows no column
/// change; with equal row counts the model is unchanged.
pub proof fn lemma_compare_identical(cols: Seq<Seq<char>>)
    ensures
        column_changes(cols, cols) =~= Seq::<Seq<char>>::empty(),
{
    assert forall|i: int| 0 <= i < cols.len() implies cols.contains(#[trigger] cols[i]) by {}
    lemma_added_none(cols, cols);
    lemma_distinct(cols);
    let d = distinct(cols);
    assert forall|i: int| 0 <= i < d.len() implies cols.contains(#[trigger] d[i]) by {
        assert(d.contains(d[i]));
    }
    lemma_removed_none(d, cols);
}

} // verus!
