//! The order of a run: what is done, step by step, for given options.

use vstd::prelude::*;

verus! {

/// What the command line asks for.
#[derive(Clone, Copy, Debug, PartialEq, Eq, Structural)]
pub struct Options {
    /// Nothing is written and nothing signalled: the bridge lines are shown.
    pub dry_run: bool,
    /// The bridges field is removed, not set.
    pub delete_bridges: bool,
    /// Running Arti processes are asked to reload their configuration.
    pub reload_config: bool,
}

/// One step of a run.
#[derive(Clone, Copy, Debug, PartialEq, Eq, Structural)]
pub enum Step {
    /// Show when the bridge list was last modified.
    ShowLastModified,
    /// Read the bridge lines of the bridge list.
    ReadBridges,
    /// Show the bridge lines that were read.
    PrintBridges,
    /// Remove the bridges field from the configuration.
    DeleteBridges,
    /// Set the bridges field of the configuration to the lines that were read.
    ReplaceBridges,
    /// Ask the running Arti processes to reload.
    Reload,
}

impl Step {
    /// Whether a run goes on after this step has failed.
    pub open spec fn is_optional(self) -> bool {
        self == Step::ShowLastModified
    }

    /// Whether the step changes anything outside the run: the configuration
    /// file or a running process.
    pub open spec fn has_effect(self) -> bool {
        self == Step::DeleteBridges || self == Step::ReplaceBridges || self == Step::Reload
    }

    /// Whether a failure of this step ends the run. Only the date of the
    /// bridge list may be missed.
    pub fn ends_run_on_failure(self) -> (ends: bool)
        ensures
            ends == !self.is_optional(),
    {
        match self {
            Step::ShowLastModified => false,
            _ => true,
        }
    }
}

/// What is done with the bridge lines once they are read.
pub open spec fn change_of(options: Options) -> Step {
    if options.dry_run {
        Step::PrintBridges
    } else if options.delete_bridges {
        Step::DeleteBridges
    } else {
        Step::ReplaceBridges
    }
}

/// Whether the run ends by asking for a reload: it was asked for, and the
/// run is no dry run.
pub open spec fn reloads(options: Options) -> bool {
    options.reload_config && !options.dry_run
}

/// The steps of a run, in their order.
pub open spec fn steps_of(options: Options) -> Seq<Step> {
    let first = seq![Step::ShowLastModified, Step::ReadBridges, change_of(options)];
    if reloads(options) {
        first.push(Step::Reload)
    } else {
        first
    }
}

/// A dry run changes nothing: none of its steps has an effect.
pub proof fn lemma_dry_run_has_no_effect(options: Options)
    requires
        options.dry_run,
    ensures
        forall|i: int| 0 <= i < steps_of(options).len() ==> !(#[trigger] steps_of(options)[i]).has_effect(),
{
}

/// The steps of a run for `options`: the date of the bridge list is shown,
/// the bridge lines are read, then shown, removed or stored, and last the
/// reload is asked for where it applies.
pub fn run(options: Options) -> (steps: Vec<Step>)
    ensures
        steps@ == steps_of(options),
{
    let mut steps: Vec<Step> = Vec::new();
    steps.push(Step::ShowLastModified);
    steps.push(Step::ReadBridges);
    if options.dry_run {
        steps.push(Step::PrintBridges);
    } else if options.delete_bridges {
        steps.push(Step::DeleteBridges);
    } else {
        steps.push(Step::ReplaceBridges);
    }
    if options.reload_config && !options.dry_run {
        steps.push(Step::Reload);
    }
    steps
}

} // verus!
