//! # Logic Fingerprinting
//!
//! Logical hashes of SQL models, accounting for their dependencies and
//! configuration.

pub mod hash;
pub mod normalize;
pub mod template;
pub mod config_block;

pub use hash::{LogicHash, TitanHasher};

use vstd::prelude::*;
use crate::error::TitanError;
use crate::titan_core::TitanSQL;
use crate::fingerprint::config_block::{remove_config_blocks, strip_config_blocks};
use crate::fingerprint::normalize::{Normalizer, collapse_whitespace, strip_comments};
use crate::fingerprint::hash::{is_logic_hash_of, hash_views, is_lower_hex, lemma_logic_hash_parent_order_independent};
use crate::fingerprint::template::{TemplateEngine, TemplateScalar, ScalarView, ContextValue, ContextView,
    scalar_pairs, context_views, spec_render, render_failure_prefix, pair_views};

verus! {

/// The canonical SQL of a rendered model: config blocks removed, then block
/// comments, then whitespace collapsed.
pub open spec fn canonical_sql(rendered: Seq<char>) -> Seq<char> {
    collapse_whitespace(strip_comments(strip_config_blocks(rendered)))
}

/// The values a model is rendered with: its configuration, then
/// `titan_env` (the environment's name) and `vars` (the project
/// variables), which replace configuration values of those names.
pub open spec fn fingerprint_context(config: Seq<(Seq<char>, ScalarView)>, env_name: Seq<char>,
    vars: Seq<(Seq<char>, ScalarView)>) -> Seq<(Seq<char>, ContextView)> {
    config.map_values(|p: (Seq<char>, ScalarView)| (p.0, ContextView::Scalar(p.1)))
        + seq![("titan_env"@, ContextView::Scalar(ScalarView::Text(env_name))), ("vars"@, ContextView::Record(vars))]
}

/// What fingerprinting a model gives: the canonical SQL of its rendering
/// and the logic hash of that SQL with the configuration, the parents and
/// the run kind; or, when rendering fails, a template error.
pub open spec fn fingerprint_outcome(env_vars: Seq<(Seq<char>, Seq<char>)>, raw_sql: Seq<char>, env_name: Seq<char>,
    config: Seq<(Seq<char>, ScalarView)>, config_json: Seq<char>, parents: Seq<Seq<char>>, this_model: Seq<char>,
    is_inc: bool, vars: Seq<(Seq<char>, ScalarView)>, r: Result<(TitanSQL, LogicHash), TitanError>) -> bool {
    match spec_render(raw_sql, fingerprint_context(config, env_name, vars), env_vars, this_model, env_name, is_inc) {
        Ok(t) => (r matches Ok((sql, h)) && sql@ == canonical_sql(t)
            && is_logic_hash_of(h@, sql@, config_json, parents, is_inc)),
        Err(m) => (r matches Err(TitanError::TemplateError(e)) && e@ == render_failure_prefix() + m),
    }
}

/// Fingerprints models: renders their templates, canonicalises the SQL and
/// hashes it with the configuration, the run kind and the parents' hashes.
pub struct Fingerprinter {
    engine: TemplateEngine,
}

impl Fingerprinter {
    /// A fingerprinter whose `env_var` reads the given process environment.
    pub fn new(env_vars: Vec<(String, String)>) -> (r: Self)
        ensures
            r.environment() == pair_views(env_vars@),
    {
        Fingerprinter { engine: TemplateEngine::new(env_vars) }
    }

    /// The process environment templates read.
    pub closed spec fn environment(&self) -> Seq<(Seq<char>, Seq<char>)> {
        self.engine.environment()
    }

    /// The canonical SQL and logic hash of a rendered model, with its
    /// serialized configuration `config_json`.
    pub fn fingerprint_rendered(rendered: &str, config_json: &str, parent_hashes: &Vec<LogicHash>, is_inc: bool)
        -> (r: (TitanSQL, LogicHash))
        ensures
            r.0@ == canonical_sql(rendered@),
            is_logic_hash_of(r.1@, r.0@, config_json@, hash_views(parent_hashes@), is_inc),
            r.1@.len() == 64,
            is_lower_hex(r.1@),
    {
        let stripped = remove_config_blocks(rendered);
        let sql = Normalizer::canonical_text(stripped.as_str());
        let hash = TitanHasher::calculate(sql.as_str(), config_json, parent_hashes, is_inc);
        (sql, hash)
    }

    /// Renders a model with its configuration `config`, `titan_env` set to
    /// `env_name` and `vars` the project variables (the target is the
    /// environment), then fingerprints the rendering. `config_json` is the
    /// configuration as serialized for the hash. A rendering failure is a
    /// template error.
    pub fn fingerprint(&self, raw_sql: &str, env_name: &str, config: &Vec<(String, TemplateScalar)>,
        config_json: &str, parent_hashes: &Vec<LogicHash>, this_model: &str, is_inc: bool,
        vars: &Vec<(String, TemplateScalar)>) -> (r: Result<(TitanSQL, LogicHash), TitanError>)
        ensures
            fingerprint_outcome(self.environment(), raw_sql@, env_name@, scalar_pairs(config@), config_json@,
                hash_views(parent_hashes@), this_model@, is_inc, scalar_pairs(vars@), r),
    {
        let ghost cfg = scalar_pairs(config@);
        let mut context: Vec<(String, ContextValue)> = Vec::new();
        let mut i: usize = 0;
        while i < config.len()
            invariant
                i <= config.len(),
                cfg == scalar_pairs(config@),
                context_views(context@) == cfg.take(i as int).map_values(
                    |p: (Seq<char>, ScalarView)| (p.0, ContextView::Scalar(p.1))),
            decreases config.len() - i,
        {
            let ghost before = context_views(context@);
            context.push((config[i].0.clone(), ContextValue::Scalar(config[i].1.copy())));
            assert(context_views(context@) =~= cfg.take(i as int + 1).map_values(
                |p: (Seq<char>, ScalarView)| (p.0, ContextView::Scalar(p.1)))) by {
                assert(context_views(context@) =~= before.push((cfg[i as int].0, ContextView::Scalar(cfg[i as int].1))));
            }
            i = i + 1;
        }
        assert(cfg.take(config.len() as int) =~= cfg);
        let ghost base = context_views(context@);
        let mut var_copy: Vec<(String, TemplateScalar)> = Vec::new();
        let mut k: usize = 0;
        while k < vars.len()
            invariant
                k <= vars.len(),
                scalar_pairs(var_copy@) == scalar_pairs(vars@).take(k as int),
            decreases vars.len() - k,
        {
            let ghost before = var_copy@;
            var_copy.push((vars[k].0.clone(), vars[k].1.copy()));
            assert(scalar_pairs(var_copy@) =~= scalar_pairs(vars@).take(k as int + 1)) by {
                assert(scalar_pairs(var_copy@) =~= scalar_pairs(before).push((vars@[k as int].0@, vars@[k as int].1@)));
            }
            k = k + 1;
        }
        assert(scalar_pairs(vars@).take(vars.len() as int) =~= scalar_pairs(vars@));
        context.push((crate::text::to_owned_string("titan_env"),
            ContextValue::Scalar(TemplateScalar::Text(crate::text::to_owned_string(env_name)))));
        context.push((crate::text::to_owned_string("vars"), ContextValue::Record(var_copy)));
        proof {
            reveal_strlit("titan_env");
            reveal_strlit("vars");
        }
        assert(context_views(context@) =~= fingerprint_context(cfg, env_name@, scalar_pairs(vars@)));
        match self.engine.render(raw_sql, &context, this_model, env_name, is_inc) {
            Err(e) => Err(e),
            Ok(rendered) => Ok(Self::fingerprint_rendered(rendered.as_str(), config_json, parent_hashes, is_inc)),
        }
    }
}

/// Fingerprinting is deterministic: two fingerprints of the same model with
/// the same environment, configuration, parents, run kind and variables
/// either both fail or give the same SQL and the same logic hash.
pub proof fn lemma_fingerprint_deterministic(env_vars: Seq<(Seq<char>, Seq<char>)>, raw_sql: Seq<char>,
    env_name: Seq<char>, config: Seq<(Seq<char>, ScalarView)>, config_json: Seq<char>, parents: Seq<Seq<char>>,
    this_model: Seq<char>, is_inc: bool, vars: Seq<(Seq<char>, ScalarView)>,
    r1: Result<(TitanSQL, LogicHash), TitanError>, r2: Result<(TitanSQL, LogicHash), TitanError>)
    requires
        fingerprint_outcome(env_vars, raw_sql, env_name, config, config_json, parents, this_model, is_inc, vars, r1),
        fingerprint_outcome(env_vars, raw_sql, env_name, config, config_json, parents, this_model, is_inc, vars, r2),
    ensures
        r1 is Ok <==> r2 is Ok,
        r1 matches Ok((s1, h1)) ==> (r2 matches Ok((s2, h2)) && s1@ == s2@ && h1@ == h2@),
{
    if let (Ok((s1, h1)), Ok((s2, h2))) = (r1, r2) {
        lemma_logic_hash_parent_order_independent(h1@, h2@, s1@, config_json, parents, parents, is_inc);
    }
}

} // verus!
