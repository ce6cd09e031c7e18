//! The JSON-RPC surface offered to editors: column suggestions, the lineage
//! graph and plan triggers.

use vstd::prelude::*;
use crate::text::{views, to_owned_string};

verus! {

/// The JSON-RPC error type, carried through unchanged.
#[verifier::external_type_specification]
#[verifier::external_body]
pub struct ExRpcError(jsonrpc_core::Error);

pub struct SuggestionResponse {
    pub columns: Vec<String>,
}

pub struct LineageResponse {
    pub edges: Vec<(String, String)>,
}

pub trait DataForgeRpc {
    fn get_column_suggestions(&self, model: String) -> Result<SuggestionResponse, jsonrpc_core::Error>;
    fn get_lineage_graph(&self) -> Result<LineageResponse, jsonrpc_core::Error>;
    fn trigger_plan(&self, env: String) -> Result<String, jsonrpc_core::Error>;
}

pub struct DataForgeApi;

pub open spec fn edge_views(e: Seq<(String, String)>) -> Seq<(Seq<char>, Seq<char>)> {
    e.map_values(|p: (String, String)| (p.0@, p.1@))
}

impl DataForgeRpc for DataForgeApi {
    /// The columns suggested for a model.
    fn get_column_suggestions(&self, model: String) -> (r: Result<SuggestionResponse, jsonrpc_core::Error>)
        ensures
            r matches Ok(s) && views(s.columns@) == seq!["id"@, "created_at"@, "status"@],
    {
        let mut columns: Vec<String> = Vec::new();
        columns.push(to_owned_string("id"));
        columns.push(to_owned_string("created_at"));
        columns.push(to_owned_string("status"));
        assert(views(columns@) =~= seq!["id"@, "created_at"@, "status"@]);
        Ok(SuggestionResponse { columns })
    }

    /// The model-level lineage graph, as (upstream, downstream) edges.
    fn get_lineage_graph(&self) -> (r: Result<LineageResponse, jsonrpc_core::Error>)
        ensures
            r matches Ok(l) && edge_views(l.edges@) == seq![("stg_orders"@, "fct_orders"@)],
    {
        let mut edges: Vec<(String, String)> = Vec::new();
        edges.push((to_owned_string("stg_orders"), to_owned_string("fct_orders")));
        assert(edge_views(edges@) =~= seq![("stg_orders"@, "fct_orders"@)]);
        Ok(LineageResponse { edges })
    }

    /// Acknowledges a plan request for an environment.
    fn trigger_plan(&self, env: String) -> (r: Result<String, jsonrpc_core::Error>)
        ensures
            r matches Ok(s) && s@ == "Plan triggered for environment: "@ + env@,
    {
        let mut s = to_owned_string("Plan triggered for environment: ");
        s.append(env.as_str());
        Ok(s)
    }
}

} // verus!
