//! Bridges to external planning and compilation tools.

use vstd::prelude::*;
use std::path::PathBuf;
use crate::text::{views, to_owned_string};

verus! {

/// std's owned filesystem path, carried through unchanged.
#[verifier::external_type_specification]
#[verifier::external_body]
pub struct ExPathBuf(std::path::PathBuf);

/// Deployment planning in the manner of Rocky: a plan is the list of
/// statements that bring an environment up to date.
pub struct RockyBridge {
    pub project_root: PathBuf,
}

impl RockyBridge {
    pub fn new(root: PathBuf) -> (r: Self)
        ensures
            r.project_root == root,
    {
        RockyBridge { project_root: root }
    }

    /// The deployment plan for an environment: the development view of
    /// orders points at production.
    pub fn plan_deployment(&self, env: &str) -> (r: Vec<String>)
        ensures
            views(r@) == seq!["CREATE OR REPLACE VIEW dev_orders AS SELECT * FROM prod_orders"@],
    {
        let mut plan: Vec<String> = Vec::new();
        plan.push(to_owned_string("CREATE OR REPLACE VIEW dev_orders AS SELECT * FROM prod_orders"));
        assert(views(plan@) =~= seq!["CREATE OR REPLACE VIEW dev_orders AS SELECT * FROM prod_orders"@]);
        plan
    }
}

/// Logic validation in the manner of SDF.
pub struct SdfBridge {
    pub root: PathBuf,
}

impl SdfBridge {
    pub fn new(root: PathBuf) -> (r: Self)
        ensures
            r.root == root,
    {
        SdfBridge { root }
    }

    /// The upstream columns of a model.
    pub fn get_column_lineage(&self, model: &str) -> (r: Vec<String>)
        ensures
            views(r@) == seq!["parent_table.id"@, "parent_table.created_at"@],
    {
        let mut cols: Vec<String> = Vec::new();
        cols.push(to_owned_string("parent_table.id"));
        cols.push(to_owned_string("parent_table.created_at"));
        assert(views(cols@) =~= seq!["parent_table.id"@, "parent_table.created_at"@]);
        cols
    }
}

} // verus!
