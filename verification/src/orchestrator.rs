//! The watch-mode orchestrator: its configuration and the steps a change
//! goes through.

use vstd::prelude::*;
use std::path::PathBuf;
use crate::bridge::{RockyBridge, SdfBridge};

verus! {

#[derive(Debug, Clone, Copy, PartialEq, Eq, Structural)]
pub enum PipelineStep {
    ExpandMacros,
    ValidateLogic,
    PlanExecution,
    ApplyState,
    Preview,
}

#[derive(Debug, Clone, Copy, PartialEq, Eq, Structural)]
pub struct OrchestratorConfig {
    pub watch_mode: bool,
    pub preview_enabled: bool,
}

/// Copies a path (std's `PathBuf::clone`). Trusted: the copy is the same
/// path.
#[verifier::external_body]
fn clone_path(p: &PathBuf) -> (r: PathBuf)
    ensures
        r == *p,
{
    p.clone()
}

pub struct Orchestrator {
    pub config: OrchestratorConfig,
    pub sdf: SdfBridge,
    pub rocky: RockyBridge,
}

/// The steps a changed file goes through, in order: macros are expanded,
/// the logic validated, the deployment planned, and the data previewed when
/// previews are enabled.
pub open spec fn spec_change_steps(config: OrchestratorConfig) -> Seq<PipelineStep> {
    let base = seq![PipelineStep::ExpandMacros, PipelineStep::ValidateLogic, PipelineStep::PlanExecution];
    if config.preview_enabled { base.push(PipelineStep::Preview) } else { base }
}

/// A changed file triggers the pipeline when it holds SQL or Starlark.
pub open spec fn spec_triggers(extension: Option<Seq<char>>) -> bool {
    match extension {
        Some(e) => e == "sql"@ || e == "star"@,
        None => false,
    }
}

impl Orchestrator {
    pub fn new(config: OrchestratorConfig, project_root: PathBuf) -> (r: Self)
        ensures
            r.config == config,
            r.sdf.root == project_root,
            r.rocky.project_root == project_root,
    {
        let sdf = SdfBridge::new(clone_path(&project_root));
        let rocky = RockyBridge::new(project_root);
        Orchestrator { config, sdf, rocky }
    }

    pub fn change_steps(&self) -> (r: Vec<PipelineStep>)
        ensures
            r@ == spec_change_steps(self.config),
    {
        let mut steps: Vec<PipelineStep> = Vec::new();
        steps.push(PipelineStep::ExpandMacros);
        steps.push(PipelineStep::ValidateLogic);
        steps.push(PipelineStep::PlanExecution);
        if self.config.preview_enabled {
            steps.push(PipelineStep::Preview);
        }
        assert(steps@ =~= spec_change_steps(self.config));
        steps
    }

    pub fn triggers(extension: Option<&str>) -> (r: bool)
        ensures
            r == spec_triggers(match extension { Some(e) => Some(e@), None => None }),
    {
        match extension {
            Some(e) => crate::text::str_eq(e, "sql") || crate::text::str_eq(e, "star"),
            None => false,
        }
    }
}

} // verus!
