//! The statements of the view and table materializations and of the
//! virtual-environment pointer swap.

use vstd::prelude::*;
use crate::text::to_owned_string;
use crate::pipeline::{model_version_table, view_as_sql};

verus! {

/// A table materialization: `CREATE OR REPLACE TABLE <model>__<hash> AS <sql>`.
pub fn table_statement(model: &str, hash: &str, sql: &str) -> (r: String)
    ensures
        r@ == "CREATE OR REPLACE TABLE "@ + model@ + "__"@ + hash@ + " AS "@ + sql@,
{
    let table = model_version_table(model, hash);
    let mut r = to_owned_string("CREATE OR REPLACE TABLE ");
    r.append(table.as_str());
    r.append(" AS ");
    r.append(sql);
    r
}

/// A view materialization: `CREATE OR REPLACE VIEW <target>__<hash> AS <sql>`.
pub fn view_statement(target: &str, hash: &str, sql: &str) -> (r: String)
    ensures
        r@ == "CREATE OR REPLACE VIEW "@ + target@ + "__"@ + hash@ + " AS "@ + sql@,
{
    let table = model_version_table(target, hash);
    view_as_sql(table.as_str(), sql)
}

/// The pointer swap of a virtual environment: the environment's view of a
/// model now reads the version `<model>__<hash>`.
pub fn swap_statement(env: &str, model: &str, hash: &str) -> (r: String)
    ensures
        r@ == "CREATE OR REPLACE VIEW "@ + env@ + "_"@ + model@ + " AS SELECT * FROM "@ + model@ + "__"@ + hash@,
{
    let mut r = to_owned_string("CREATE OR REPLACE VIEW ");
    r.append(env);
    r.append("_");
    r.append(model);
    r.append(" AS SELECT * FROM ");
    r.append(model_version_table(model, hash).as_str());
    r
}

/// The catalog query that confirms a swap: the view exists and its
/// definition mentions the expected table.
pub fn swap_check_sql(view: &str, expected_table: &str) -> (r: String)
    ensures
        r@ == "SELECT table_name FROM information_schema.views WHERE table_name = '"@ + view@
            + "' AND view_definition LIKE '%"@ + expected_table@ + "%'"@,
{
    let mut r = to_owned_string("SELECT table_name FROM information_schema.views WHERE table_name = '");
    r.append(view);
    r.append("' AND view_definition LIKE '%");
    r.append(expected_table);
    r.append("%'");
    r
}

} // verus!
