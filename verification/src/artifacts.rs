//! Run artifacts: the results of a run and the manifest of its models.

use vstd::prelude::*;
use crate::materialize::Materialization;
use crate::text::{views, to_owned_string, index_of_str};

verus! {

#[derive(Debug)]
pub struct RunResult {
    pub name: String,
    pub status: String,
    pub duration_ms: u128,
    pub rows_affected: Option<usize>,
}

#[derive(Debug)]
pub struct RunResults {
    pub generated_at: u64,
    pub results: Vec<RunResult>,
}

impl RunResult {
    /// The result of a model that ran successfully.
    pub fn success(name: &str, duration_ms: u128) -> (r: Self)
        ensures
            r.name@ == name@,
            r.status@ == "success"@,
            r.duration_ms == duration_ms,
            r.rows_affected is None,
    {
        RunResult { name: to_owned_string(name), status: to_owned_string("success"), duration_ms, rows_affected: None }
    }
}

#[derive(Debug)]
pub struct ManifestNode {
    pub name: String,
    pub raw_sql: String,
    pub dependencies: Vec<String>,
    pub materialization: String,
}

#[derive(Debug)]
pub struct ManifestMetadata {
    pub project_name: String,
    pub generated_at: u64,
}

/// The models of a run, one node per model name.
#[derive(Debug)]
pub struct Manifest {
    pub metadata: ManifestMetadata,
    pub nodes: Vec<ManifestNode>,
}

/// What the manifest records of a model.
pub struct ModelEntry {
    pub name: String,
    pub raw_sql: String,
    pub parent_names: Vec<String>,
    pub materialization: Materialization,
}

/// How a materialization is written in the manifest (its `Debug` name).
pub open spec fn materialization_name(m: Materialization) -> Seq<char> {
    match m {
        Materialization::View => "View"@,
        Materialization::Table => "Table"@,
        Materialization::Incremental => "Incremental"@,
        Materialization::Snapshot => "Snapshot"@,
        Materialization::Ephemeral => "Ephemeral"@,
    }
}

pub fn materialization_label(m: Materialization) -> (r: &'static str)
    ensures
        r@ == materialization_name(m),
{
    match m {
        Materialization::View => "View",
        Materialization::Table => "Table",
        Materialization::Incremental => "Incremental",
        Materialization::Snapshot => "Snapshot",
        Materialization::Ephemeral => "Ephemeral",
    }
}

/// A node as (name, SQL, dependencies, materialization).
pub type NodeView = (Seq<char>, Seq<char>, Seq<Seq<char>>, Seq<char>);

pub open spec fn node_view(n: ManifestNode) -> NodeView {
    (n.name@, n.raw_sql@, views(n.dependencies@), n.materialization@)
}

pub open spec fn entry_node(e: ModelEntry) -> NodeView {
    (e.name@, e.raw_sql@, views(e.parent_names@), materialization_name(e.materialization))
}

/// The nodes by name: a later node of the same name replaces an earlier one.
pub open spec fn node_map(s: Seq<NodeView>) -> Map<Seq<char>, NodeView>
    decreases s.len(),
{
    if s.len() == 0 {
        Map::empty()
    } else {
        node_map(s.drop_last()).insert(s.last().0, s.last())
    }
}

pub open spec fn node_names(s: Seq<ManifestNode>) -> Seq<Seq<char>> {
    s.map_values(|n: ManifestNode| n.name@)
}

pub open spec fn node_views(s: Seq<ManifestNode>) -> Seq<NodeView> {
    s.map_values(|n: ManifestNode| node_view(n))
}

pub open spec fn entry_nodes(s: Seq<ModelEntry>) -> Seq<NodeView> {
    s.map_values(|e: ModelEntry| entry_node(e))
}

/// With distinct names, replacing the node at `i` by one of the same name
/// replaces it in the map.
proof fn lemma_node_map_update(s: Seq<NodeView>, i: int, v: NodeView)
    requires
        0 <= i < s.len(),
        v.0 == s[i].0,
        s.map_values(|n: NodeView| n.0).no_duplicates(),
    ensures
        node_map(s.update(i, v)) == node_map(s).insert(v.0, v),
    decreases s.len(),
{
    let u = s.update(i, v);
    if i == s.len() - 1 {
        assert(u.drop_last() =~= s.drop_last());
        assert(node_map(s).insert(v.0, v) =~= node_map(s.drop_last()).insert(v.0, v));
    } else {
        let d = s.drop_last();
        assert(u.drop_last() =~= d.update(i, v));
        assert(d.map_values(|n: NodeView| n.0) =~= s.map_values(|n: NodeView| n.0).drop_last());
        lemma_node_map_update(d, i, v);
        assert(s.map_values(|n: NodeView| n.0)[i] != s.map_values(|n: NodeView| n.0)[s.len() - 1]);
        assert(node_map(u) =~= node_map(s).insert(v.0, v));
    }
}

fn copy_strings(v: &Vec<String>) -> (r: Vec<String>)
    ensures
        views(r@) == views(v@),
{
    let mut r: Vec<String> = Vec::new();
    let mut i: usize = 0;
    while i < v.len()
        invariant
            i <= v.len(),
            views(r@) == views(v@).take(i as int),
        decreases v.len() - i,
    {
        let ghost before = r@;
        r.push(v[i].clone());
        assert(views(r@) =~= views(before).push(v@[i as int]@));
        assert(views(r@) =~= views(v@).take(i as int + 1));
        i = i + 1;
    }
    assert(views(v@).take(v.len() as int) =~= views(v@));
    r
}

impl Manifest {
    /// The manifest of a run's models: one node per model name, holding
    /// the last model of that name, in order of first appearance.
    pub fn generate(project_name: String, models: &Vec<ModelEntry>, generated_at: u64) -> (m: Self)
        ensures
            m.metadata.project_name == project_name,
            m.metadata.generated_at == generated_at,
            node_names(m.nodes@).no_duplicates(),
            node_map(node_views(m.nodes@)) == node_map(entry_nodes(models@)),
    {
        let mut nodes: Vec<ManifestNode> = Vec::new();
        let mut names: Vec<String> = Vec::new();
        let mut i: usize = 0;
        while i < models.len()
            invariant
                i <= models.len(),
                names@.len() == nodes@.len(),
                views(names@) == node_names(nodes@),
                node_names(nodes@).no_duplicates(),
                node_map(node_views(nodes@)) == node_map(entry_nodes(models@.take(i as int))),
            decreases models.len() - i,
        {
            let e = &models[i];
            let node = ManifestNode {
                name: e.name.clone(),
                raw_sql: e.raw_sql.clone(),
                dependencies: copy_strings(&e.parent_names),
                materialization: to_owned_string(materialization_label(e.materialization)),
            };
            let ghost nv = node_view(node);
            assert(nv == entry_node(models@[i as int]));
            assert(entry_nodes(models@.take(i as int + 1)).drop_last() =~= entry_nodes(models@.take(i as int)));
            assert(entry_nodes(models@.take(i as int + 1)).last() == nv);
            let ghost before = nodes@;
            match index_of_str(&names, e.name.as_str()) {
                Some(k) => {
                    nodes.set(k, node);
                    proof {
                        assert(node_views(nodes@) =~= node_views(before).update(k as int, nv));
                        assert(node_names(before).map_values(|n: Seq<char>| n) =~= node_names(before));
                        assert(node_views(before).map_values(|n: NodeView| n.0) =~= node_names(before));
                        assert(views(names@)[k as int] == e.name@);
                        lemma_node_map_update(node_views(before), k as int, nv);
                        assert(node_names(nodes@) =~= node_names(before));
                    }
                },
                None => {
                    names.push(e.name.clone());
                    nodes.push(node);
                    proof {
                        assert(node_views(nodes@).drop_last() =~= node_views(before));
                        assert(node_names(nodes@) =~= node_names(before).push(e.name@));
                        assert(views(names@) =~= node_names(nodes@));
                        assert forall|a: int, b: int| 0 <= a < b < node_names(nodes@).len()
                            implies node_names(nodes@)[a] != node_names(nodes@)[b] by {
                            if b == before.len() {
                                assert(node_names(before)[a] == node_names(nodes@)[a]);
                                assert(views(names@)[a] == node_names(before)[a]);
                            }
                        }
                    }
                },
            }
            i = i + 1;
        }
        assert(models@.take(models.len() as int) =~= models@);
        Manifest { metadata: ManifestMetadata { project_name, generated_at }, nodes }
    }
}

} // verus!
