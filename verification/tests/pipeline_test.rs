use cargo_revolve::pipeline::{advance, archive_is_written, finished, RunOptions, Stage};

fn walk(options: &RunOptions) -> Vec<Stage> {
    let mut stages = vec![Stage::Init];
    let mut stage = Stage::Init;
    while !finished(stage) {
        stage = advance(stage, true, options);
        stages.push(stage);
        assert!(stages.len() <= 12);
    }
    stages
}

fn options(dry_run: bool, no_archive: bool, verify: bool) -> RunOptions {
    RunOptions { dry_run, no_archive, verify }
}

#[test]
fn real_run_goes_through_every_stage() {
    assert_eq!(
        walk(&options(false, false, true)),
        vec![
            Stage::Init,
            Stage::EnvironmentCheck,
            Stage::Compile,
            Stage::AssetExpansion,
            Stage::Cleanup,
            Stage::DirectoryPrep,
            Stage::ArchiveCreate,
            Stage::Render,
            Stage::Invoke,
            Stage::Collect,
            Stage::Verify,
            Stage::Done,
        ]
    );
}

#[test]
fn archive_and_check_are_optional() {
    assert_eq!(
        walk(&options(false, true, false)),
        vec![
            Stage::Init,
            Stage::EnvironmentCheck,
            Stage::Compile,
            Stage::AssetExpansion,
            Stage::Cleanup,
            Stage::DirectoryPrep,
            Stage::Render,
            Stage::Invoke,
            Stage::Collect,
            Stage::Done,
        ]
    );
}

#[test]
fn dry_run_stops_short_of_the_builder() {
    for no_archive in [false, true] {
        for verify in [false, true] {
            let stages = walk(&options(true, no_archive, verify));
            for forbidden in [Stage::Cleanup, Stage::Invoke, Stage::Collect, Stage::Verify, Stage::Failed] {
                assert!(!stages.contains(&forbidden));
            }
            assert_eq!(stages[stages.len() - 2], Stage::DryRunReport);
            assert_eq!(stages[stages.len() - 3], Stage::Render);
            assert_eq!(stages.contains(&Stage::ArchiveCreate), !no_archive);
            assert!(!archive_is_written(&options(true, no_archive, verify)));
        }
    }
    assert_eq!(
        walk(&options(true, false, true)),
        vec![
            Stage::Init,
            Stage::EnvironmentCheck,
            Stage::Compile,
            Stage::AssetExpansion,
            Stage::DirectoryPrep,
            Stage::ArchiveCreate,
            Stage::Render,
            Stage::DryRunReport,
            Stage::Done,
        ]
    );
}

#[test]
fn archive_is_written_in_real_runs_that_want_one() {
    assert!(archive_is_written(&options(false, false, false)));
    assert!(!archive_is_written(&options(false, true, false)));
}

#[test]
fn any_failure_ends_the_run() {
    let all = [
        Stage::Init,
        Stage::EnvironmentCheck,
        Stage::Compile,
        Stage::AssetExpansion,
        Stage::Cleanup,
        Stage::DirectoryPrep,
        Stage::ArchiveCreate,
        Stage::Render,
        Stage::DryRunReport,
        Stage::Invoke,
        Stage::Collect,
        Stage::Verify,
    ];
    for stage in all {
        assert!(!finished(stage));
        assert_eq!(advance(stage, false, &options(false, false, true)), Stage::Failed);
    }
    assert!(finished(Stage::Done));
    assert!(finished(Stage::Failed));
    for succeeded in [false, true] {
        assert_eq!(advance(Stage::Failed, succeeded, &options(false, false, true)), Stage::Failed);
        assert_eq!(advance(Stage::Done, succeeded, &options(false, false, true)), Stage::Done);
    }
}

#[test]
fn missing_builder_is_noticed_before_compiling() {
    let first = advance(Stage::Init, true, &options(false, false, false));
    assert_eq!(first, Stage::EnvironmentCheck);
    assert_eq!(advance(first, false, &options(false, false, false)), Stage::Failed);
    assert_eq!(advance(first, true, &options(false, false, false)), Stage::Compile);
}
