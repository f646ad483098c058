//! The stages of a build run and the order they come in.
//!
//! A run is a straight line with two forks: a dry run leaves the line
//! before anything of an earlier run is removed and again before the
//! builder is called; and the content archive and the final check are each
//! a matter of choice.  The caller does the work of a stage and reports
//! whether it succeeded; which stage comes next is decided here.

use vstd::prelude::*;

verus! {

/// A stage of a build run.
#[derive(Debug, Clone, Copy, PartialEq, Eq, Structural)]
pub enum Stage {
    /// Nothing has been done.
    Init,
    /// Look for the package builder on the search path.
    EnvironmentCheck,
    /// Compile, or run the custom build.
    Compile,
    /// Expand the declared assets.
    AssetExpansion,
    /// Remove what an earlier run left behind.
    Cleanup,
    /// Create the directory for the rendered control file.
    DirectoryPrep,
    /// Pack the content archive.
    ArchiveCreate,
    /// Render the control file and write it down.
    Render,
    /// Show what a real run would do.
    DryRunReport,
    /// Stage the inputs and call the package builder.
    Invoke,
    /// Gather the packages that the builder produced.
    Collect,
    /// Check the main package against what was declared.
    Verify,
    /// The run is over and nothing failed.
    Done,
    /// A stage failed; the run is over.
    Failed,
}

/// What the user asked of a run.
#[derive(Debug, Clone, Copy, PartialEq, Eq, Structural)]
pub struct RunOptions {
    /// Go as far as rendering, then show what would be done.
    pub dry_run: bool,
    /// Build from the source tree, without a content archive.
    pub no_archive: bool,
    /// Check the produced package.
    pub verify: bool,
}

/// The stage that follows `stage` once its work has succeeded.
pub open spec fn following(stage: Stage, options: RunOptions) -> Stage {
    match stage {
        Stage::Init => Stage::EnvironmentCheck,
        Stage::EnvironmentCheck => Stage::Compile,
        Stage::Compile => Stage::AssetExpansion,
        Stage::AssetExpansion => if options.dry_run {
            Stage::DirectoryPrep
        } else {
            Stage::Cleanup
        },
        Stage::Cleanup => Stage::DirectoryPrep,
        Stage::DirectoryPrep => if options.no_archive {
            Stage::Render
        } else {
            Stage::ArchiveCreate
        },
        Stage::ArchiveCreate => Stage::Render,
        Stage::Render => if options.dry_run {
            Stage::DryRunReport
        } else {
            Stage::Invoke
        },
        Stage::DryRunReport => Stage::Done,
        Stage::Invoke => Stage::Collect,
        Stage::Collect => if options.verify {
            Stage::Verify
        } else {
            Stage::Done
        },
        Stage::Verify => Stage::Done,
        Stage::Done => Stage::Done,
        Stage::Failed => Stage::Failed,
    }
}

/// A run is over at this stage.
pub open spec fn is_final(stage: Stage) -> bool {
    stage == Stage::Done || stage == Stage::Failed
}

/// The stage that a run is at after the work of `stage` ended: the
/// following one after a success, failure after anything else.  A run that
/// is over stays as it is.
pub open spec fn next_stage(stage: Stage, succeeded: bool, options: RunOptions) -> Stage {
    if is_final(stage) || succeeded {
        following(stage, options)
    } else {
        Stage::Failed
    }
}

/// The stage reached from `Init` after `steps` stages that all succeeded.
pub open spec fn stage_after(options: RunOptions, steps: nat) -> Stage
    decreases steps,
{
    if steps == 0 {
        Stage::Init
    } else {
        following(stage_after(options, (steps - 1) as nat), options)
    }
}

/// The stage changes something outside the directory of the rendered
/// control file, or calls the package builder.
pub open spec fn alters_outputs(stage: Stage) -> bool {
    stage == Stage::Cleanup || stage == Stage::Invoke || stage == Stage::Collect || stage
        == Stage::Verify
}

/// How many stages lie between `stage` and the end of a run at most.
pub open spec fn distance(stage: Stage) -> nat {
    match stage {
        Stage::Init => 11,
        Stage::EnvironmentCheck => 10,
        Stage::Compile => 9,
        Stage::AssetExpansion => 8,
        Stage::Cleanup => 7,
        Stage::DirectoryPrep => 6,
        Stage::ArchiveCreate => 5,
        Stage::Render => 4,
        Stage::Invoke => 3,
        Stage::Collect => 2,
        Stage::Verify => 1,
        Stage::DryRunReport => 1,
        Stage::Done => 0,
        Stage::Failed => 0,
    }
}

/// Whether the content archive is written to disk in a run.
pub open spec fn writes_archive(options: RunOptions) -> bool {
    !options.dry_run && !options.no_archive
}

/// The stage that a run is at after the work of `stage` ended.
pub fn advance(stage: Stage, succeeded: bool, options: &RunOptions) -> (r: Stage)
    ensures
        r == next_stage(stage, succeeded, *options),
{
    if !succeeded && stage != Stage::Done && stage != Stage::Failed {
        return Stage::Failed;
    }
    match stage {
        Stage::Init => Stage::EnvironmentCheck,
        Stage::EnvironmentCheck => Stage::Compile,
        Stage::Compile => Stage::AssetExpansion,
        Stage::AssetExpansion => if options.dry_run {
            Stage::DirectoryPrep
        } else {
            Stage::Cleanup
        },
        Stage::Cleanup => Stage::DirectoryPrep,
        Stage::DirectoryPrep => if options.no_archive {
            Stage::Render
        } else {
            Stage::ArchiveCreate
        },
        Stage::ArchiveCreate => Stage::Render,
        Stage::Render => if options.dry_run {
            Stage::DryRunReport
        } else {
            Stage::Invoke
        },
        Stage::DryRunReport => Stage::Done,
        Stage::Invoke => Stage::Collect,
        Stage::Collect => if options.verify {
            Stage::Verify
        } else {
            Stage::Done
        },
        Stage::Verify => Stage::Done,
        Stage::Done => Stage::Done,
        Stage::Failed => Stage::Failed,
    }
}

/// Whether a run is over at `stage`.
pub fn finished(stage: Stage) -> (r: bool)
    ensures
        r == is_final(stage),
{
    stage == Stage::Done || stage == Stage::Failed
}

/// Whether the archive stage of a run writes the archive, or only names the
/// file that it would write.
pub fn archive_is_written(options: &RunOptions) -> (r: bool)
    ensures
        r == writes_archive(*options),
{
    !options.dry_run && !options.no_archive
}

/// Every stage but the last brings a run closer to its end.
pub proof fn lemma_following_comes_closer(stage: Stage, options: RunOptions)
    ensures
        !is_final(stage) ==> distance(following(stage, options)) < distance(stage),
        is_final(stage) ==> following(stage, options) == stage,
{
}

/// A run in which nothing fails is over after eleven stages at most, and
/// it ends well.
pub proof fn lemma_run_ends(options: RunOptions, steps: nat)
    ensures
        distance(stage_after(options, steps)) + steps <= 11 || stage_after(options, steps)
            == Stage::Done,
        steps >= 11 ==> stage_after(options, steps) == Stage::Done,
        stage_after(options, steps) != Stage::Failed,
    decreases steps,
{
    if steps > 0 {
        lemma_run_ends(options, (steps - 1) as nat);
        lemma_following_comes_closer(stage_after(options, (steps - 1) as nat), options);
    }
}

/// The builder is looked for before anything is compiled.
pub proof fn lemma_environment_is_checked_first(options: RunOptions)
    ensures
        stage_after(options, 1) == Stage::EnvironmentCheck,
        stage_after(options, 2) == Stage::Compile,
{
    reveal_with_fuel(stage_after, 3);
}

/// A dry run never removes what an earlier run left, never calls the
/// builder, never gathers or checks packages, and writes no archive.
pub proof fn lemma_dry_run_is_harmless(options: RunOptions, steps: nat)
    requires
        options.dry_run,
    ensures
        !alters_outputs(stage_after(options, steps)),
        !writes_archive(options),
    decreases steps,
{
    if steps > 0 {
        lemma_dry_run_is_harmless(options, (steps - 1) as nat);
    }
}

/// A real run in which nothing fails removes what an earlier run left
/// before it creates anything, and calls the builder once the control file
/// is rendered.
pub proof fn lemma_real_run_cleans_first(options: RunOptions)
    requires
        !options.dry_run,
    ensures
        stage_after(options, 4) == Stage::Cleanup,
        stage_after(options, 5) == Stage::DirectoryPrep,
        following(Stage::Render, options) == Stage::Invoke,
{
    reveal_with_fuel(stage_after, 6);
}

/// After a failure no stage is entered any more.
pub proof fn lemma_failure_is_final(stage: Stage, succeeded: bool, options: RunOptions)
    ensures
        !is_final(stage) && !succeeded ==> next_stage(stage, succeeded, options) == Stage::Failed,
        next_stage(Stage::Failed, succeeded, options) == Stage::Failed,
{
}

} // verus!
