//! # Lifecycle Hooks
//!
//! SQL statements a project runs at the start and at the end of a pipeline.

use vstd::prelude::*;
use crate::text::views;

verus! {

#[derive(Debug)]
pub struct Hooks {
    pub on_run_start: Vec<String>,
    pub on_run_end: Vec<String>,
}

impl Default for Hooks {
    /// No hooks.
    fn default() -> (h: Self)
        ensures
            h.on_run_start@.len() == 0,
            h.on_run_end@.len() == 0,
    {
        Hooks { on_run_start: Vec::new(), on_run_end: Vec::new() }
    }
}

/// The stage of a pipeline at which hooks run.
#[derive(Debug, Clone, Copy, PartialEq, Eq, Structural)]
pub enum HookStage {
    Start,
    End,
}

impl Hooks {
    /// The statements to run at a stage, in order.
    pub fn statements(&self, stage: HookStage) -> (r: &Vec<String>)
        ensures
            views(r@) == views(match stage {
                HookStage::Start => self.on_run_start@,
                HookStage::End => self.on_run_end@,
            }),
    {
        match stage {
            HookStage::Start => &self.on_run_start,
            HookStage::End => &self.on_run_end,
        }
    }
}

} // verus!
