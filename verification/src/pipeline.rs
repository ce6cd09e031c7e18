//! Statements and selections of the pipeline commands: the views that
//! expose seeds and model versions to an environment, the state-based model
//! selection, the downstream impact of a change and the test verdict.

use vstd::prelude::*;
use crate::project::Exposure;
use crate::text::{views, to_owned_string, index_of_str, u64_to_string, decimal_u64};

verus! {

/// `CREATE OR REPLACE VIEW <view> AS <sql>`.
pub fn view_as_sql(view: &str, sql: &str) -> (r: String)
    ensures
        r@ == "CREATE OR REPLACE VIEW "@ + view@ + " AS "@ + sql@,
{
    let mut r = to_owned_string("CREATE OR REPLACE VIEW ");
    r.append(view);
    r.append(" AS ");
    r.append(sql);
    r
}

/// The view that exposes a table of the pipeline to an environment:
/// `CREATE OR REPLACE VIEW <prefix><name> AS SELECT * FROM <source>`.
pub fn env_view_sql(prefix: &str, name: &str, source: &str) -> (r: String)
    ensures
        r@ == "CREATE OR REPLACE VIEW "@ + prefix@ + name@ + " AS SELECT * FROM "@ + source@,
{
    let mut r = to_owned_string("CREATE OR REPLACE VIEW ");
    r.append(prefix);
    r.append(name);
    r.append(" AS SELECT * FROM ");
    r.append(source);
    r
}

/// The view a loaded seed is read through: a view of the same name.
pub fn seed_view_sql(name: &str) -> (r: String)
    ensures
        r@ == "CREATE OR REPLACE VIEW "@ + name@ + " AS SELECT * FROM "@ + name@,
{
    let r = env_view_sql("", name, name);
    proof {
        reveal_strlit("");
        assert(""@ =~= Seq::<char>::empty());
        assert("CREATE OR REPLACE VIEW "@ + ""@ + name@ =~= "CREATE OR REPLACE VIEW "@ + name@);
    }
    r
}

/// The table that holds one version of a model: `<model>__<hash>`.
pub fn model_version_table(model: &str, hash: &str) -> (r: String)
    ensures
        r@ == model@ + "__"@ + hash@,
{
    let mut r = to_owned_string(model);
    r.append("__");
    r.append(hash);
    r
}

/// The statement that points a promoted view at the files of a run.
pub fn promotion_sql(view: &str, materialization_path: &str) -> (r: String)
    ensures
        r@ == "CREATE OR REPLACE VIEW "@ + view@ + " AS SELECT * FROM read_parquet('"@ + materialization_path@ + "')"@,
{
    let mut r = to_owned_string("CREATE OR REPLACE VIEW ");
    r.append(view);
    r.append(" AS SELECT * FROM read_parquet('");
    r.append(materialization_path);
    r.append("')");
    r
}

/// The selected models that the state comparison also selected, in
/// selection order.
pub open spec fn spec_state_filter(selected: Seq<Seq<char>>, by_state: Seq<Seq<char>>) -> Seq<Seq<char>> {
    selected.filter(|m: Seq<char>| by_state.contains(m))
}

pub fn state_filter(selected: &Vec<String>, by_state: &Vec<String>) -> (r: Vec<String>)
    ensures
        views(r@) == spec_state_filter(views(selected@), views(by_state@)),
{
    let ghost sv = views(selected@);
    let mut r: Vec<String> = Vec::new();
    let mut i: usize = 0;
    while i < selected.len()
        invariant
            sv == views(selected@),
            i <= selected.len(),
            views(r@) == spec_state_filter(sv.take(i as int), views(by_state@)),
        decreases selected.len() - i,
    {
        let ghost pre = sv.take(i as int + 1);
        assert(pre.drop_last() =~= sv.take(i as int));
        assert(pre.last() == selected@[i as int]@);
        proof {
            reveal_with_fuel(Seq::<Seq<char>>::filter, 1);
        }
        if index_of_str(by_state, selected[i].as_str()).is_some() {
            let ghost before = views(r@);
            r.push(selected[i].clone());
            assert(views(r@) =~= before.push(selected@[i as int]@));
        }
        i = i + 1;
    }
    assert(sv.take(selected.len() as int) =~= sv);
    r
}

/// How an impacted exposure is reported: `<name> (<type>) - Owner: <owner>`.
pub open spec fn impact_line(e: Exposure) -> Seq<char> {
    e.name@ + " ("@ + e.exposure_type@ + ") - Owner: "@ + e.owner@
}

/// The exposures that depend on `model`, reported in order.
pub open spec fn spec_impacted(exposures: Seq<Exposure>, model: Seq<char>) -> Seq<Seq<char>>
    decreases exposures.len(),
{
    if exposures.len() == 0 {
        Seq::empty()
    } else {
        let prev = spec_impacted(exposures.drop_last(), model);
        if views(exposures.last().depends_on@).contains(model) {
            prev.push(impact_line(exposures.last()))
        } else {
            prev
        }
    }
}

pub fn impacted_exposures(exposures: &Vec<Exposure>, model: &str) -> (r: Vec<String>)
    ensures
        views(r@) == spec_impacted(exposures@, model@),
{
    let mut r: Vec<String> = Vec::new();
    let mut i: usize = 0;
    while i < exposures.len()
        invariant
            i <= exposures.len(),
            views(r@) == spec_impacted(exposures@.take(i as int), model@),
        decreases exposures.len() - i,
    {
        let e = &exposures[i];
        let ghost pre = exposures@.take(i as int + 1);
        assert(pre.drop_last() =~= exposures@.take(i as int));
        assert(pre.last() == exposures@[i as int]);
        if index_of_str(&e.depends_on, model).is_some() {
            let mut line = e.name.clone();
            line.append(" (");
            line.append(e.exposure_type.as_str());
            line.append(") - Owner: ");
            line.append(e.owner.as_str());
            let ghost before = views(r@);
            r.push(line);
            assert(views(r@) =~= before.push(impact_line(exposures@[i as int])));
        }
        i = i + 1;
    }
    assert(exposures@.take(exposures.len() as int) =~= exposures@);
    r
}

/// The verdict of a test suite: the message it fails with when any test
/// failed (`<failed> tests failed`).
pub fn test_suite_failure(failed: u64) -> (r: Option<String>)
    ensures
        failed == 0 ==> r is None,
        failed > 0 ==> (r matches Some(m) && m@ == decimal_u64(failed) + " tests failed"@),
{
    if failed == 0 {
        None
    } else {
        let mut m = u64_to_string(failed);
        m.append(" tests failed");
        Some(m)
    }
}

} // verus!
