use cargo_revolve::config::{BuildCommand, RevolveConfig};
use cargo_revolve::definitions::PackageIdentity;
use cargo_revolve::process::{
    build_preview, builder_result, compile_mode, compiler_result, custom_build_env, default_build,
    plan_command, plan_words, CommandPlan, CompileMode, CustomBuild, Invocation, Phase,
    ProcessFailure, Step,
};

fn words(list: &[&str]) -> Vec<String> {
    list.iter().map(|w| w.to_string()).collect()
}

fn invocation(program: &str, args: &[&str]) -> Invocation {
    Invocation { program: program.to_string(), args: words(args) }
}

fn sequence(lines: &[&str]) -> BuildCommand {
    BuildCommand::Sequence(words(lines))
}

fn package() -> PackageIdentity {
    PackageIdentity {
        name: "sample-project".to_string(),
        version: "0.1.0".to_string(),
        description: None,
        license: None,
    }
}

#[test]
fn failing_step_ends_the_sequence() {
    let mut build = CustomBuild::new(&sequence(&["echo one", "false", "echo two"]));
    assert_eq!(
        build.next(),
        Step::Spawn { index: 0, line: "echo one".to_string(), invocation: invocation("echo", &["one"]) }
    );
    assert_eq!(build.exited(true, "exit status: 0"), Ok(()));
    assert_eq!(
        build.next(),
        Step::Spawn { index: 1, line: "false".to_string(), invocation: invocation("false", &[]) }
    );
    let failure = build.exited(false, "exit status: 1").unwrap_err();
    assert_eq!(
        failure,
        ProcessFailure::CustomCommand { line: "false".to_string(), status: "exit status: 1".to_string() }
    );
    let message = failure.message();
    assert!(message.contains("false"));
    assert!(message.contains("exit status: 1"));
    assert_eq!(message, "Custom build command failed with exit code exit status: 1: `false`");
    assert_eq!(build.current(), Phase::Failed);
    assert_eq!(build.next(), Step::Stop);
    assert_eq!(build.exited(true, "exit status: 0"), Ok(()));
    assert_eq!(build.next(), Step::Stop);
    assert_eq!(build.current(), Phase::Failed);
}

#[test]
fn every_step_runs_in_order_when_all_succeed() {
    let mut build = CustomBuild::new(&sequence(&["make", "", "   ", "# only a comment", "make install DESTDIR=out"]));
    assert_eq!(build.current(), Phase::Ready { next: 0 });
    assert_eq!(build.next(), Step::Spawn { index: 0, line: "make".to_string(), invocation: invocation("make", &[]) });
    assert_eq!(build.current(), Phase::Waiting { index: 0 });
    assert_eq!(build.next(), Step::Stop);
    assert_eq!(build.exited(true, "exit status: 0"), Ok(()));
    assert_eq!(
        build.next(),
        Step::Spawn {
            index: 4,
            line: "make install DESTDIR=out".to_string(),
            invocation: invocation("make", &["install", "DESTDIR=out"]),
        }
    );
    assert_eq!(build.exited(true, "exit status: 0"), Ok(()));
    assert_eq!(build.next(), Step::Done);
    assert_eq!(build.current(), Phase::Finished);
    assert_eq!(build.next(), Step::Done);
}

#[test]
fn single_command_is_a_sequence_of_one() {
    let command = BuildCommand::Single("./build-script.sh".to_string());
    assert_eq!(command.lines(), words(&["./build-script.sh"]));
    assert_eq!(command.duplicate(), command);
    let mut build = CustomBuild::new(&command);
    assert_eq!(
        build.next(),
        Step::Spawn {
            index: 0,
            line: "./build-script.sh".to_string(),
            invocation: invocation("./build-script.sh", &[]),
        }
    );
    assert_eq!(build.exited(true, "exit status: 0"), Ok(()));
    assert_eq!(build.next(), Step::Done);
}

#[test]
fn line_that_cannot_be_split_ends_the_build() {
    let mut build = CustomBuild::new(&sequence(&["echo 'unterminated", "echo two"]));
    let step = build.next();
    let expected = ProcessFailure::Unparsable { line: "echo 'unterminated".to_string() };
    assert_eq!(step, Step::Reject(expected.clone()));
    assert_eq!(expected.message(), "Failed to parse command string: echo 'unterminated");
    assert_eq!(build.current(), Phase::Failed);
    assert_eq!(build.next(), Step::Stop);
}

#[test]
fn quoted_arguments_survive_splitting() {
    assert_eq!(
        plan_command("sh -c 'echo \"hello world\" > out.txt'"),
        CommandPlan::Run(invocation("sh", &["-c", "echo \"hello world\" > out.txt"]))
    );
    assert_eq!(
        plan_command("cp \"my file.txt\" dest\\ dir/"),
        CommandPlan::Run(invocation("cp", &["my file.txt", "dest dir/"]))
    );
    assert_eq!(plan_command("echo 'a b'"), CommandPlan::Run(invocation("echo", &["a b"])));
    assert_eq!(plan_command(""), CommandPlan::Skip);
    assert_eq!(plan_command("   \t "), CommandPlan::Skip);
    assert_eq!(plan_command("\"unterminated"), CommandPlan::Unparsable);
    assert_eq!(plan_command("trailing\\"), CommandPlan::Unparsable);
    assert_eq!(plan_command("''"), CommandPlan::Run(invocation("", &[])));
}

#[test]
fn words_decide_the_plan() {
    assert_eq!(plan_words(None), CommandPlan::Unparsable);
    assert_eq!(plan_words(Some(Vec::new())), CommandPlan::Skip);
    assert_eq!(plan_words(Some(words(&["true"]))), CommandPlan::Run(invocation("true", &[])));
    assert_eq!(
        plan_words(Some(words(&["cargo", "build", "--release"]))),
        CommandPlan::Run(invocation("cargo", &["build", "--release"]))
    );
}

#[test]
fn default_build_is_optimised_unless_flags_are_set() {
    let mut config = RevolveConfig::new("pkg.spec.in");
    assert_eq!(
        default_build(&config, "/work/target"),
        invocation("cargo", &["build", "--target-dir", "/work/target", "--release"])
    );
    config.build_flags = Some(words(&["--features", "extra"]));
    assert_eq!(
        default_build(&config, "/work/target"),
        invocation("cargo", &["build", "--target-dir", "/work/target", "--features", "extra"])
    );
    config.build_flags = Some(Vec::new());
    assert_eq!(default_build(&config, "t"), invocation("cargo", &["build", "--target-dir", "t"]));
}

#[test]
fn compile_mode_follows_the_settings() {
    let mut config = RevolveConfig::new("pkg.spec.in");
    assert_eq!(compile_mode(&config, false), CompileMode::Compiler);
    assert_eq!(compile_mode(&config, true), CompileMode::Compiler);
    config.build_command = Some(BuildCommand::Single("make".to_string()));
    assert_eq!(compile_mode(&config, false), CompileMode::Custom);
    assert_eq!(compile_mode(&config, true), CompileMode::Preview);
}

#[test]
fn custom_steps_are_told_where_and_what_is_built() {
    assert_eq!(
        custom_build_env(&package(), "/work/target"),
        vec![
            ("REVOLVE_TARGET_DIR".to_string(), "/work/target".to_string()),
            ("REVOLVE_PACKAGE_NAME".to_string(), "sample-project".to_string()),
            ("REVOLVE_PACKAGE_VERSION".to_string(), "0.1.0".to_string()),
        ]
    );
}

#[test]
fn dry_run_lists_the_custom_commands() {
    assert_eq!(
        build_preview(&sequence(&["echo one", "false"])),
        "\n--- Dry Run: Build Step ---\nThe following build command(s) would be executed:\n  - echo one\n  - false\n"
    );
    assert_eq!(
        build_preview(&BuildCommand::Single("make".to_string())),
        "\n--- Dry Run: Build Step ---\nThe following build command(s) would be executed:\n  - make\n"
    );
}

#[test]
fn exit_of_compiler_and_builder_is_judged() {
    assert_eq!(compiler_result(true, "exit status: 0"), Ok(()));
    assert_eq!(builder_result(true, "exit status: 0"), Ok(()));
    let failure = compiler_result(false, "exit status: 101").unwrap_err();
    assert_eq!(failure, ProcessFailure::Compiler { status: "exit status: 101".to_string() });
    assert_eq!(failure.message(), "'cargo build' failed with exit code: exit status: 101");
    let failure = builder_result(false, "signal: 9 (SIGKILL)").unwrap_err();
    assert_eq!(failure, ProcessFailure::Builder { status: "signal: 9 (SIGKILL)".to_string() });
    assert_eq!(failure.message(), "'rpmbuild' failed with exit code: signal: 9 (SIGKILL)");
}
