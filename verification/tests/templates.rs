use titan_engine::error::TitanError;
use titan_engine::fingerprint::hash::{LogicHash, TitanHasher};
use titan_engine::fingerprint::template::{lookup_value, ContextValue, TemplateEngine, TemplateFunction, TemplateFunctions, TemplateScalar};
use titan_engine::fingerprint::Fingerprinter;
use titan_engine::mapper::Mapper;
use titan_engine::titan_core::lineage_extract::LineageExtractor;
use titan_engine::titan_core::sql::TitanSQL;

fn pairs(p: &[(&str, &str)]) -> Vec<(String, String)> {
    p.iter().map(|(k, v)| (k.to_string(), v.to_string())).collect()
}

#[test]
fn lookup_takes_first_entry() {
    let e = pairs(&[("a", "1"), ("b", "2"), ("a", "3")]);
    assert_eq!(lookup_value(&e, "a"), Some("1".to_string()));
    assert_eq!(lookup_value(&e, "c"), None);
}

fn text(s: &str) -> TemplateScalar {
    TemplateScalar::Text(s.to_string())
}

fn as_text(r: Result<TemplateScalar, String>) -> String {
    match r {
        Ok(TemplateScalar::Text(t)) => t,
        other => panic!("expected text, got {:?}", other),
    }
}

#[test]
fn template_functions_answer() {
    let f = TemplateFunctions {
        titan_env: Some("dev".to_string()),
        vars: Some(vec![("limit".to_string(), text("10")), ("flag".to_string(), TemplateScalar::Flag(false))]),
        env_vars: pairs(&[("HOME", "/root")]),
        is_incremental: true,
    };
    assert_eq!(as_text(f.call(TemplateFunction::Ref, &vec![text("orders")])), "dev_orders");
    assert_eq!(as_text(f.call(TemplateFunction::Source, &vec![text("raw"), text("ev")])), "ev");
    assert_eq!(as_text(f.call(TemplateFunction::Var, &vec![text("limit")])), "10");
    assert!(matches!(f.call(TemplateFunction::Var, &vec![text("flag")]), Ok(TemplateScalar::Flag(false))));
    assert!(matches!(f.call(TemplateFunction::Var, &vec![text("other"), text("5")]), Ok(TemplateScalar::Undefined)));
    assert_eq!(as_text(f.call(TemplateFunction::EnvVar, &vec![text("HOME")])), "/root");
    assert_eq!(as_text(f.call(TemplateFunction::EnvVar, &vec![text("NOPE")])), "");
    assert_eq!(as_text(f.call(TemplateFunction::EnvVar, &vec![text("NOPE"), text("d")])), "d");
    assert_eq!(as_text(f.call(TemplateFunction::Config, &vec![text("x")])), "");
    assert!(matches!(f.call(TemplateFunction::IsIncremental, &vec![]), Ok(TemplateScalar::Flag(true))));
    assert_eq!(f.call(TemplateFunction::Ref, &vec![]).unwrap_err(), "invalid arguments");
    let g = TemplateFunctions { titan_env: None, vars: None, env_vars: vec![], is_incremental: false };
    assert_eq!(as_text(g.call(TemplateFunction::Var, &vec![text("x"), text("5")])), "5");
    assert_eq!(as_text(g.call(TemplateFunction::Var, &vec![text("x")])), "placeholder_var");
    assert_eq!(as_text(g.call(TemplateFunction::Ref, &vec![text("t")])), "t");
}

fn ctx(env: &str, vars: Vec<(String, TemplateScalar)>) -> Vec<(String, ContextValue)> {
    vec![
        ("titan_env".to_string(), ContextValue::Scalar(text(env))),
        ("vars".to_string(), ContextValue::Record(vars)),
    ]
}

#[test]
fn template_renders_model_functions() {
    let engine = TemplateEngine::new(pairs(&[("REGION", "eu")]));
    let c = ctx("prod", vec![("lim".to_string(), text("5")), ("on".to_string(), TemplateScalar::Flag(false))]);
    let out = engine
        .render(
            "{{ config(materialized='table') }}SELECT * FROM {{ ref('orders') }} JOIN {{ source('raw', 'ev') }} \
             LIMIT {{ var('lim') }} -- {{ env_var('REGION') }} {{ this.name }} {{ target.name }} {{ is_incremental() }} \
             {{ vars.lim }}{% if var('on') %} on{% endif %}",
            &c, "m1", "prod", true,
        )
        .unwrap();
    assert_eq!(out, "SELECT * FROM prod_orders JOIN ev LIMIT 5 -- eu m1 prod True 5");
}

#[test]
fn template_failure_is_template_error() {
    let engine = TemplateEngine::new(vec![]);
    match engine.render("{{ undefined_thing }}", &vec![], "m", "dev", false) {
        Err(TitanError::TemplateError(m)) => assert!(m.starts_with("Template rendering failed: ")),
        _ => panic!("strict rendering must fail on an undefined value"),
    }
    match engine.render("{{ var('missing') }}", &ctx("dev", vec![]), "m", "dev", false) {
        Err(TitanError::TemplateError(m)) => assert!(m.starts_with("Template rendering failed: ")),
        other => panic!("a variable missing from the project's variables is undefined: {:?}", other),
    }
}

#[test]
fn fingerprint_renders_and_hashes() {
    let fp = Fingerprinter::new(vec![]);
    let parents = vec![LogicHash::new("b".to_string()), LogicHash::new("a".to_string())];
    let config = vec![("materialized".to_string(), text("table"))];
    let (sql, h) = fp
        .fingerprint("{{ config(x=1) }}SELECT  id /* c */ FROM {{ ref('t') }}", "dev", &config, "{}", &parents, "m", false, &vec![])
        .unwrap();
    assert_eq!(sql.as_str(), "SELECT id FROM dev_t");
    let expected = TitanHasher::calculate("SELECT id FROM dev_t", "{}", &parents, false);
    assert_eq!(h.as_str(), expected.as_str());
    assert_eq!(h.as_str().len(), 64);
    assert!(h.as_str().chars().all(|c| c.is_ascii_digit() || ('a'..='f').contains(&c)));
    let (sql2, h2) = Fingerprinter::fingerprint_rendered("SELECT  id FROM dev_t", "{}", &parents, false);
    assert_eq!(sql2, sql);
    assert_eq!(h2.as_str(), h.as_str());
    let again = fp
        .fingerprint("{{ config(x=1) }}SELECT  id /* c */ FROM {{ ref('t') }}", "dev", &config, "{}", &parents, "m", false, &vec![])
        .unwrap();
    assert_eq!(again.1.as_str(), h.as_str());
    assert!(matches!(fp.fingerprint("{{ nope }}", "dev", &config, "{}", &parents, "m", false, &vec![]),
        Err(TitanError::TemplateError(_))));
}

#[test]
fn mapper_loads_create_tables() {
    let mut m = Mapper::new();
    m.load_schema("CREATE TABLE users (id INT, name TEXT); INSERT INTO users VALUES (1, 'a'); CREATE TABLE t2 (x BIGINT)")
        .unwrap();
    let t = m.tables();
    assert_eq!(t.len(), 2);
    assert_eq!(t[0].name, "users");
    assert_eq!(t[0].columns.len(), 2);
    assert_eq!(t[0].columns[1].name, "name");
    assert_eq!(t[0].columns[1].data_type.as_deref(), Some("TEXT"));
    assert_eq!(t[1].name, "t2");
    assert!(matches!(m.load_schema("CREATE TABLE ("), Err(TitanError::SqlParseError(_))));
    assert_eq!(m.tables().len(), 2);
}

#[test]
fn extract_empty_and_unparsable() {
    assert!(matches!(LineageExtractor::extract(""), Err(TitanError::SqlParseError(m)) if m == "Empty SQL"));
    assert!(matches!(LineageExtractor::extract("SELEC FROM"), Err(TitanError::SqlParseError(m)) if !m.is_empty()));
    assert!(matches!(LineageExtractor::extract("CREATE TABLE t (a INT)"),
        Err(TitanError::SqlParseError(m)) if m == "Only SELECT statements are supported for lineage"));
    let r = LineageExtractor::extract("SELECT a FROM t; SELECT b FROM u").unwrap();
    assert_eq!(r.source_models, vec!["t".to_string()]);
}

#[test]
fn titan_sql_conversions_and_equality() {
    let a = TitanSQL::from("SELECT 1".to_string());
    let b: TitanSQL = "SELECT 1".into();
    assert_eq!(a.as_str(), "SELECT 1");
    assert_eq!(a, b);
    assert_ne!(a, TitanSQL::new("SELECT 2".to_string()));
}
