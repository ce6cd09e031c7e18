//! # Model Tasks
//!
//! The decisions a model task takes while it runs: how its parents resolve,
//! whether it runs incrementally, whether its output honours its contract,
//! how personal data is masked, where its table is registered and what is
//! recorded once it has run. The engine performs the work around them.

use vstd::prelude::*;
use crate::error::TitanError;
use crate::fingerprint::hash::LogicHash;
use crate::materialize::Materialization;
use crate::project::ModelColumn;
use crate::text::{views, join, join_strings, to_owned_string, to_lowercase, str_to_lowercase, str_eq,
    contains_sub, str_contains};
use crate::seqs::{first_index_of, lemma_first_index_of};
use crate::titan_core::masking::spec_mask;

verus! {

/// What the state store recorded for a model run.
#[derive(Debug)]
pub struct ModelMetadata {
    pub status: String,
    pub materialization_path: String,
    pub created_at: u64,
}

/// A field of a computed schema: its name and the text of its data type as
/// the engine prints it (Arrow's `Debug` form).
#[derive(Debug)]
pub struct SchemaField {
    pub name: String,
    pub type_text: String,
}

/// The outcome of looking a parent model up.
pub enum ParentLookup {
    /// The state store holds the parent's hash for the environment.
    Found(LogicHash),
    /// The state store has no hash for it; whether a source or seed table
    /// of that name is registered.
    Missing { table_exists: bool },
    /// The state store failed, with its message.
    Failed(String),
}

/// Why a parent cannot be resolved.
pub enum ParentFailure {
    /// No model, source or seed of that name: (name, environment).
    MissingDependency(Seq<char>, Seq<char>),
    /// The state store failed, with its message.
    StoreFailed(Seq<char>),
}

/// The hash a parent contributes, or why it cannot be resolved.
pub open spec fn parent_outcome(name: Seq<char>, env: Seq<char>, lookup: ParentLookup, plan_only: bool)
    -> Result<Seq<char>, ParentFailure>
{
    match lookup {
        ParentLookup::Found(h) => Ok(h@),
        ParentLookup::Missing { table_exists } => {
            if plan_only {
                Ok("planned_parent"@)
            } else if table_exists {
                Ok("source_"@ + name)
            } else {
                Err(ParentFailure::MissingDependency(name, env))
            }
        },
        ParentLookup::Failed(m) => Err(ParentFailure::StoreFailed(m@)),
    }
}

/// The error a failed parent is reported with.
pub open spec fn parent_error_matches(e: TitanError, err: ParentFailure) -> bool {
    match err {
        ParentFailure::MissingDependency(name, env) =>
            e matches TitanError::DependencyNotFound(n, v) && n@ == name && v@ == env,
        ParentFailure::StoreFailed(msg) => e matches TitanError::StateError(m) && m@ == msg,
    }
}

/// Position of the first parent that cannot be resolved, or the number of
/// parents when all resolve.
pub open spec fn first_unresolved(parents: Seq<Seq<char>>, env: Seq<char>, lookups: Seq<ParentLookup>,
    plan_only: bool) -> int
    decreases parents.len(),
{
    if parents.len() == 0 {
        0
    } else {
        let k = first_unresolved(parents.drop_last(), env, lookups, plan_only);
        if k < parents.len() - 1 {
            k
        } else if parent_outcome(parents.last(), env, lookups[parents.len() - 1], plan_only) is Err {
            parents.len() - 1
        } else {
            parents.len() as int
        }
    }
}

fn parent_hash(name: &String, env: &str, lookup: &ParentLookup, plan_only: bool) -> (r: Result<LogicHash, TitanError>)
    ensures
        match (r, parent_outcome(name@, env@, *lookup, plan_only)) {
            (Ok(h), Ok(v)) => h@ == v,
            (Err(e), Err(err)) => parent_error_matches(e, err),
            _ => false,
        },
{
    match lookup {
        ParentLookup::Found(h) => Ok(h.clone()),
        ParentLookup::Missing { table_exists } => {
            if plan_only {
                Ok(LogicHash::new(to_owned_string("planned_parent")))
            } else if *table_exists {
                let mut s = to_owned_string("source_");
                s.append(name.as_str());
                Ok(LogicHash::new(s))
            } else {
                Err(TitanError::DependencyNotFound(name.clone(), to_owned_string(env)))
            }
        },
        ParentLookup::Failed(m) => Err(TitanError::StateError(m.clone())),
    }
}

/// Resolves the parents of a model, in order, from what the state store
/// answered for each: a recorded hash is used as is; a parent with none is
/// a planned parent in a plan-only run, a source or seed when a table of
/// that name exists, and a missing dependency otherwise. The first parent
/// that cannot be resolved decides the error.
pub fn resolve_parents(parent_names: &Vec<String>, env: &str, lookups: &Vec<ParentLookup>, plan_only: bool)
    -> (r: Result<Vec<LogicHash>, TitanError>)
    requires
        lookups@.len() == parent_names@.len(),
    ensures
        ({
            let k = first_unresolved(views(parent_names@), env@, lookups@, plan_only);
            match r {
                Ok(hs) => k == parent_names@.len() && hs@.len() == parent_names@.len()
                    && forall|i: int| 0 <= i < hs@.len() ==>
                        parent_outcome(parent_names@[i]@, env@, lookups@[i], plan_only) == Ok::<Seq<char>, ParentFailure>((#[trigger] hs@[i])@),
                Err(e) => 0 <= k < parent_names@.len()
                    && parent_error_matches(e, parent_outcome(parent_names@[k]@, env@, lookups@[k], plan_only)->Err_0),
            }
        }),
{
    let ghost pv = views(parent_names@);
    let mut hashes: Vec<LogicHash> = Vec::new();
    let mut i: usize = 0;
    while i < parent_names.len()
        invariant
            pv == views(parent_names@),
            lookups@.len() == parent_names@.len(),
            i <= parent_names.len(),
            first_unresolved(pv.take(i as int), env@, lookups@, plan_only) == i,
            hashes@.len() == i,
            forall|j: int| 0 <= j < i ==>
                parent_outcome(parent_names@[j]@, env@, lookups@[j], plan_only) == Ok::<Seq<char>, ParentFailure>((#[trigger] hashes@[j])@),
        decreases parent_names.len() - i,
    {
        let ghost pre = pv.take(i as int + 1);
        assert(pre.drop_last() =~= pv.take(i as int));
        assert(pre.last() == parent_names@[i as int]@);
        let h = parent_hash(&parent_names[i], env, &lookups[i], plan_only);
        match h {
            Ok(h) => {
                let ghost before = hashes@;
                hashes.push(h);
                assert forall|j: int| 0 <= j < i + 1 implies
                    parent_outcome(parent_names@[j]@, env@, lookups@[j], plan_only) == Ok::<Seq<char>, ParentFailure>((#[trigger] hashes@[j])@) by {
                    if j < i {
                        assert(hashes@[j] == before[j]);
                    }
                }
            },
            Err(e) => {
                proof {
                    lemma_first_unresolved_prefix(pv, env@, lookups@, plan_only, i as int);
                }
                return Err(e);
            },
        }
        i = i + 1;
    }
    assert(pv.take(parent_names.len() as int) =~= pv);
    Ok(hashes)
}

/// Once every parent before `i` resolves and parent `i` does not, the
/// first unresolved parent is `i`.
proof fn lemma_first_unresolved_prefix(pv: Seq<Seq<char>>, env: Seq<char>, lookups: Seq<ParentLookup>,
    plan_only: bool, i: int)
    requires
        0 <= i < pv.len(),
        first_unresolved(pv.take(i + 1), env, lookups, plan_only) == i,
    ensures
        first_unresolved(pv, env, lookups, plan_only) == i,
    decreases pv.len(),
{
    if pv.len() > i + 1 {
        assert(pv.drop_last().take(i + 1) =~= pv.take(i + 1));
        lemma_first_unresolved_prefix(pv.drop_last(), env, lookups, plan_only, i);
    } else {
        assert(pv.take(i + 1) =~= pv);
    }
}

/// An incremental model runs incrementally once it has run before.
pub fn is_incremental_run(mat: Materialization, has_prior_metadata: bool) -> (r: bool)
    ensures
        r == (mat == Materialization::Incremental && has_prior_metadata),
{
    mat == Materialization::Incremental && has_prior_metadata
}

/// A declared column as (name, declared type).
pub open spec fn column_decl(c: ModelColumn) -> (Seq<char>, Option<Seq<char>>) {
    (c.name@, match c.data_type { Some(t) => Some(t@), None => None })
}

pub open spec fn column_decls(cols: Seq<ModelColumn>) -> Seq<(Seq<char>, Option<Seq<char>>)> {
    cols.map_values(|c: ModelColumn| column_decl(c))
}

pub open spec fn field_names(schema: Seq<SchemaField>) -> Seq<Seq<char>> {
    schema.map_values(|f: SchemaField| f.name@)
}

pub open spec fn missing_column_message(model: Seq<char>, column: Seq<char>) -> Seq<char> {
    "Contract violation: model "@ + model + " is missing column "@ + column
}

pub open spec fn wrong_type_message(model: Seq<char>, column: Seq<char>, actual: Seq<char>, expected: Seq<char>) -> Seq<char> {
    "Contract violation: model "@ + model + " column "@ + column + " has type "@ + actual + ", expected "@ + expected
}

/// How one declared column breaks the contract, if it does: it is absent
/// from the schema (the first field of its name is the one checked), or its
/// declared type, ignoring case, does not occur in the field's type text.
pub open spec fn column_violation(model: Seq<char>, c: (Seq<char>, Option<Seq<char>>), schema: Seq<SchemaField>)
    -> Option<Seq<char>>
{
    let k = first_index_of(field_names(schema), c.0);
    if k < 0 {
        Some(missing_column_message(model, c.0))
    } else {
        match c.1 {
            Some(expected) => {
                let actual = str_to_lowercase(schema[k].type_text@);
                if contains_sub(actual, str_to_lowercase(expected)) {
                    None
                } else {
                    Some(wrong_type_message(model, c.0, actual, expected))
                }
            },
            None => None,
        }
    }
}

/// The first violation among the declared columns, in order.
pub open spec fn first_violation(model: Seq<char>, cols: Seq<(Seq<char>, Option<Seq<char>>)>, schema: Seq<SchemaField>)
    -> Option<Seq<char>>
    decreases cols.len(),
{
    if cols.len() == 0 {
        None
    } else {
        match first_violation(model, cols.drop_last(), schema) {
            Some(m) => Some(m),
            None => column_violation(model, cols.last(), schema),
        }
    }
}

fn first_field(schema: &Vec<SchemaField>, name: &str) -> (r: Option<usize>)
    ensures
        match r {
            Some(k) => k as int == first_index_of(field_names(schema@), name@) && k < schema@.len(),
            None => first_index_of(field_names(schema@), name@) == -1,
        },
{
    proof { lemma_first_index_of(field_names(schema@), name@); }
    let mut i: usize = 0;
    while i < schema.len()
        invariant
            i <= schema.len(),
            forall|k: int| 0 <= k < i ==> field_names(schema@)[k] != name@,
        decreases schema.len() - i,
    {
        if str_eq(schema[i].name.as_str(), name) {
            proof {
                assert(field_names(schema@)[i as int] == name@);
                crate::seqs::lemma_first_index_unique(field_names(schema@), name@, i as int);
            }
            return Some(i);
        }
        i = i + 1;
    }
    proof {
        if field_names(schema@).contains(name@) {
            let k = choose|k: int| 0 <= k < field_names(schema@).len() && field_names(schema@)[k] == name@;
        }
    }
    None
}

fn check_column(model: &str, col: &ModelColumn, schema: &Vec<SchemaField>) -> (r: Option<String>)
    ensures
        match (r, column_violation(model@, column_decl(*col), schema@)) {
            (Some(m), Some(v)) => m@ == v,
            (None, None) => true,
            _ => false,
        },
{
    match first_field(schema, col.name.as_str()) {
        None => {
            let mut m = to_owned_string("Contract violation: model ");
            m.append(model);
            m.append(" is missing column ");
            m.append(col.name.as_str());
            Some(m)
        },
        Some(k) => {
            match &col.data_type {
                Some(expected) => {
                    let actual = to_lowercase(schema[k].type_text.as_str());
                    let wanted = to_lowercase(expected.as_str());
                    if str_contains(actual.as_str(), wanted.as_str()) {
                        None
                    } else {
                        let mut m = to_owned_string("Contract violation: model ");
                        m.append(model);
                        m.append(" column ");
                        m.append(col.name.as_str());
                        m.append(" has type ");
                        m.append(actual.as_str());
                        m.append(", expected ");
                        m.append(expected.as_str());
                        Some(m)
                    }
                },
                None => None,
            }
        },
    }
}

/// Checks a model's output schema against its declared columns when its
/// contract is enforced: every declared column must be present and, where
/// a type is declared, of that type. The first violation is reported.
pub fn validate_contract(contract_enforced: bool, model_name: &str, columns: &Vec<ModelColumn>,
    schema: &Vec<SchemaField>) -> (r: Result<(), TitanError>)
    ensures
        !contract_enforced ==> r is Ok,
        contract_enforced ==> match first_violation(model_name@, column_decls(columns@), schema@) {
            None => r is Ok,
            Some(msg) => (r matches Err(TitanError::ValidationError(m)) && m@ == msg),
        },
{
    if !contract_enforced {
        return Ok(());
    }
    let ghost cd = column_decls(columns@);
    let mut i: usize = 0;
    while i < columns.len()
        invariant
            cd == column_decls(columns@),
            contract_enforced,
            i <= columns.len(),
            first_violation(model_name@, cd.take(i as int), schema@) is None,
        decreases columns.len() - i,
    {
        let ghost pre = cd.take(i as int + 1);
        assert(pre.drop_last() =~= cd.take(i as int));
        assert(pre.last() == column_decl(columns@[i as int]));
        match check_column(model_name, &columns[i], schema) {
            Some(m) => {
                proof {
                    lemma_first_violation_prefix(model_name@, cd, schema@, i as int);
                }
                return Err(TitanError::ValidationError(m));
            },
            None => {},
        }
        i = i + 1;
    }
    assert(cd.take(columns.len() as int) =~= cd);
    Ok(())
}

/// A violation found at column `i` after none before it is the first.
proof fn lemma_first_violation_prefix(model: Seq<char>, cd: Seq<(Seq<char>, Option<Seq<char>>)>,
    schema: Seq<SchemaField>, i: int)
    requires
        0 <= i < cd.len(),
        first_violation(model, cd.take(i), schema) is None,
        column_violation(model, cd[i], schema) is Some,
    ensures
        first_violation(model, cd, schema) == column_violation(model, cd[i], schema),
    decreases cd.len(),
{
    if cd.len() > i + 1 {
        assert(cd.drop_last().take(i) =~= cd.take(i));
        lemma_first_violation_prefix(model, cd.drop_last(), schema, i);
        assert(cd.drop_last()[i] == cd[i]);
    } else {
        assert(cd.drop_last() =~= cd.take(i));
    }
}

/// The select-list entry of a column: its masking expression aliased to its
/// name, or its name when it is not masked.
pub open spec fn masked_column(c: ModelColumn) -> Seq<char> {
    match c.masking {
        Some(s) => spec_mask(s, c.name@) + " AS "@ + c.name@,
        None => c.name@,
    }
}

pub open spec fn masked_columns(cols: Seq<ModelColumn>) -> Seq<Seq<char>> {
    cols.map_values(|c: ModelColumn| masked_column(c))
}

/// Some column is masked.
pub open spec fn any_masked(cols: Seq<ModelColumn>) -> bool {
    exists|i: int| 0 <= i < cols.len() && (#[trigger] cols[i]).masking is Some
}

/// Wraps a model's SQL so that masked columns are masked: when any column
/// has a masking policy, the declared columns are selected from the model's
/// result, each masked one through its policy; otherwise nothing changes.
pub fn apply_masking(columns: &Vec<ModelColumn>, sql: &str) -> (r: Option<String>)
    ensures
        any_masked(columns@) ==> (r matches Some(s)
            && s@ == "SELECT "@ + join(masked_columns(columns@), ", "@) + " FROM ("@ + sql@ + ")"@),
        !any_masked(columns@) ==> r is None,
{
    let mut entries: Vec<String> = Vec::new();
    let mut any = false;
    let mut i: usize = 0;
    while i < columns.len()
        invariant
            i <= columns.len(),
            views(entries@) == masked_columns(columns@.take(i as int)),
            any == any_masked(columns@.take(i as int)),
        decreases columns.len() - i,
    {
        let col = &columns[i];
        let ghost before = entries@;
        let ghost pre = columns@.take(i as int + 1);
        match col.masking {
            Some(strategy) => {
                let mut e = strategy.apply(col.name.as_str());
                e.append(" AS ");
                e.append(col.name.as_str());
                entries.push(e);
                any = true;
                assert(pre[i as int].masking is Some);
            },
            None => {
                entries.push(col.name.clone());
                assert forall|k: int| 0 <= k < pre.len() && (#[trigger] pre[k]).masking is Some
                    implies columns@.take(i as int)[k].masking is Some by {
                    assert(k < i);
                }
            },
        }
        assert(views(entries@) =~= views(before).push(masked_column(columns@[i as int])));
        assert(masked_columns(pre) =~= masked_columns(columns@.take(i as int)).push(masked_column(columns@[i as int])));
        assert forall|k: int| 0 <= k < i && (#[trigger] columns@.take(i as int)[k]).masking is Some
            implies pre[k].masking is Some by {
            assert(pre[k] == columns@.take(i as int)[k]);
        }
        i = i + 1;
    }
    assert(columns@.take(columns.len() as int) =~= columns@);
    if any {
        let mut s = to_owned_string("SELECT ");
        s.append(join_strings(&entries, ", ").as_str());
        s.append(" FROM (");
        s.append(sql);
        s.append(")");
        Some(s)
    } else {
        None
    }
}

/// Where a materialized model's table is registered for downstream models:
/// a file-backed table at a path under the project root, or the in-memory
/// result itself.
#[derive(Debug)]
pub enum TableRegistration {
    Delta(String),
    Parquet(String),
    Csv(String),
    InMemory,
}

/// Chooses the registration by target type: Delta tables live under
/// `tables/` when incremental and `snapshots/` otherwise; Parquet and CSV
/// files under `tables/`; any other target keeps the in-memory result.
pub fn registration_for(target_type: &str, mat: Materialization, env: &str, name: &str) -> (r: TableRegistration)
    ensures
        target_type@ == "delta"@ ==> (r matches TableRegistration::Delta(p) && p@ ==
            (if mat == Materialization::Incremental { "tables/"@ } else { "snapshots/"@ }) + env@ + "/"@ + name@),
        target_type@ == "parquet"@ ==> (r matches TableRegistration::Parquet(p) && p@ ==
            "tables/"@ + env@ + "/"@ + name@ + ".parquet"@),
        target_type@ == "csv"@ ==> (r matches TableRegistration::Csv(p) && p@ ==
            "tables/"@ + env@ + "/"@ + name@ + ".csv"@),
        target_type@ != "delta"@ && target_type@ != "parquet"@ && target_type@ != "csv"@ ==> r is InMemory,
{
    proof {
        reveal_strlit("delta");
        reveal_strlit("parquet");
        reveal_strlit("csv");
        assert("parquet"@.len() != "delta"@.len());
        assert("csv"@.len() != "delta"@.len());
        assert("csv"@.len() != "parquet"@.len());
    }
    if str_eq(target_type, "delta") {
        let mut p = if mat == Materialization::Incremental {
            to_owned_string("tables/")
        } else {
            to_owned_string("snapshots/")
        };
        p.append(env);
        p.append("/");
        p.append(name);
        TableRegistration::Delta(p)
    } else if str_eq(target_type, "parquet") {
        let mut p = to_owned_string("tables/");
        p.append(env);
        p.append("/");
        p.append(name);
        p.append(".parquet");
        TableRegistration::Parquet(p)
    } else if str_eq(target_type, "csv") {
        let mut p = to_owned_string("tables/");
        p.append(env);
        p.append("/");
        p.append(name);
        p.append(".csv");
        TableRegistration::Csv(p)
    } else {
        TableRegistration::InMemory
    }
}

/// The table a run writes: `<env>_<model>_<run id>`.
pub fn run_table_name(env: &str, name: &str, exec_id: &str) -> (r: String)
    ensures
        r@ == env@ + "_"@ + name@ + "_"@ + exec_id@,
{
    let mut r = to_owned_string(env);
    r.append("_");
    r.append(name);
    r.append("_");
    r.append(exec_id);
    r
}

/// The stable name downstream models read: `<env>_<model>`.
pub fn stable_table_name(env: &str, name: &str) -> (r: String)
    ensures
        r@ == env@ + "_"@ + name@,
{
    let mut r = to_owned_string(env);
    r.append("_");
    r.append(name);
    r
}

/// The view that holds a run's rows before quarantine:
/// `q_source_<model>_<run id>`.
pub fn quarantine_source_view(name: &str, exec_id: &str) -> (r: String)
    ensures
        r@ == "q_source_"@ + name@ + "_"@ + exec_id@,
{
    let mut r = to_owned_string("q_source_");
    r.append(name);
    r.append("_");
    r.append(exec_id);
    r
}

/// The name a run materializes under: the shadow name when shadowing, the
/// model's own otherwise.
pub fn materialization_target<'a>(shadow_name: &'a Option<String>, name: &'a String) -> (r: &'a String)
    ensures
        r@ == match shadow_name {
            Some(s) => s@,
            None => name@,
        },
{
    match shadow_name {
        Some(s) => s,
        None => name,
    }
}

/// The metadata recorded after a successful run.
pub fn success_metadata(env: &str, name: &str, created_at: u64) -> (m: ModelMetadata)
    ensures
        m.status@ == "success"@,
        m.materialization_path@ == env@ + "/"@ + name@,
        m.created_at == created_at,
{
    let mut path = to_owned_string(env);
    path.append("/");
    path.append(name);
    ModelMetadata {
        status: to_owned_string("success"),
        materialization_path: path,
        created_at,
    }
}

} // verus!
