//! The commands of a build: the default compiler call, the steps of a
//! custom build, and the call of the package builder.
//!
//! Nothing is spawned here.  The caller runs what it is told to run and
//! reports how it ended; what happens next is decided here.

use vstd::prelude::*;
use crate::config::{
    command_lines, BuildCommand, BuildCommandModel, RevolveConfig, RevolveConfigModel,
};
use crate::definitions::{PackageIdentity, PackageModel};

verus! {

/// The words that a POSIX shell would split `line` into, or none when `line`
/// ends inside a quotation or after a lone backslash.
pub uninterp spec fn shell_words(line: Seq<char>) -> Option<Seq<Seq<char>>>;

/// Splits a command line into words with `shlex::split`, which reads the
/// line as a POSIX shell would: quotes and backslashes group and escape,
/// `#` starts a comment.  The result depends on the line alone.
#[verifier::external_body]
fn split_words(line: &str) -> (r: Option<Vec<String>>)
    ensures
        r.deep_view() == shell_words(line@),
{
    shlex::split(line)
}

/// A program to run with its arguments.
#[derive(Debug, Clone, PartialEq, Eq)]
pub struct Invocation {
    pub program: String,
    pub args: Vec<String>,
}

/// Mathematical model of an [`Invocation`].
pub struct InvocationModel {
    pub program: Seq<char>,
    pub args: Seq<Seq<char>>,
}

impl DeepView for Invocation {
    type V = InvocationModel;

    open spec fn deep_view(&self) -> InvocationModel {
        InvocationModel { program: self.program@, args: self.args.deep_view() }
    }
}

impl View for Invocation {
    type V = InvocationModel;

    open spec fn view(&self) -> InvocationModel {
        self.deep_view()
    }
}

/// What to do with one line of a custom build.
#[derive(Debug, Clone, PartialEq, Eq)]
pub enum CommandPlan {
    /// The line holds no word: nothing to run.
    Skip,
    /// The line cannot be split into words.
    Unparsable,
    /// Run the first word with the others as arguments.
    Run(Invocation),
}

/// Mathematical model of a [`CommandPlan`].
pub enum CommandPlanModel {
    Skip,
    Unparsable,
    Run(InvocationModel),
}

impl DeepView for CommandPlan {
    type V = CommandPlanModel;

    open spec fn deep_view(&self) -> CommandPlanModel {
        match self {
            CommandPlan::Skip => CommandPlanModel::Skip,
            CommandPlan::Unparsable => CommandPlanModel::Unparsable,
            CommandPlan::Run(invocation) => CommandPlanModel::Run(invocation@),
        }
    }
}

impl View for CommandPlan {
    type V = CommandPlanModel;

    open spec fn view(&self) -> CommandPlanModel {
        self.deep_view()
    }
}

/// What to do with a line that was split into `words`.
pub open spec fn planned(words: Option<Seq<Seq<char>>>) -> CommandPlanModel {
    match words {
        None => CommandPlanModel::Unparsable,
        Some(w) => if w.len() == 0 {
            CommandPlanModel::Skip
        } else {
            CommandPlanModel::Run(InvocationModel { program: w[0], args: w.skip(1) })
        },
    }
}

/// Decides what to do with a line from the words it was split into.
pub fn plan_words(words: Option<Vec<String>>) -> (r: CommandPlan)
    ensures
        r@ == planned(words.deep_view()),
{
    match words {
        None => CommandPlan::Unparsable,
        Some(list) => {
            if list.len() == 0 {
                return CommandPlan::Skip;
            }
            let mut args: Vec<String> = Vec::new();
            let mut i: usize = 1;
            while i < list.len()
                invariant
                    1 <= i <= list.len(),
                    args.len() == i - 1,
                    forall|k: int| 0 <= k < args.len() ==> args[k]@ == list[k + 1]@,
                decreases list.len() - i,
            {
                args.push(list[i].clone());
                i += 1;
            }
            assert(args.deep_view() =~= list.deep_view().skip(1));
            CommandPlan::Run(Invocation { program: list[0].clone(), args })
        },
    }
}

/// Decides what to do with one line of a custom build.
pub fn plan_command(line: &str) -> (r: CommandPlan)
    ensures
        r@ == planned(shell_words(line@)),
{
    plan_words(split_words(line))
}

/// Why a build step did not succeed.
#[derive(Debug, Clone, PartialEq, Eq)]
pub enum ProcessFailure {
    /// A line of a custom build cannot be split into words.
    Unparsable { line: String },
    /// A step of a custom build ended with a status other than success.
    CustomCommand { line: String, status: String },
    /// The default compiler call ended with a status other than success.
    Compiler { status: String },
    /// The package builder ended with a status other than success.
    Builder { status: String },
}

/// Mathematical model of a [`ProcessFailure`].
pub enum ProcessFailureModel {
    Unparsable { line: Seq<char> },
    CustomCommand { line: Seq<char>, status: Seq<char> },
    Compiler { status: Seq<char> },
    Builder { status: Seq<char> },
}

impl DeepView for ProcessFailure {
    type V = ProcessFailureModel;

    open spec fn deep_view(&self) -> ProcessFailureModel {
        match self {
            ProcessFailure::Unparsable { line } => ProcessFailureModel::Unparsable { line: line@ },
            ProcessFailure::CustomCommand { line, status } => ProcessFailureModel::CustomCommand {
                line: line@,
                status: status@,
            },
            ProcessFailure::Compiler { status } => ProcessFailureModel::Compiler {
                status: status@,
            },
            ProcessFailure::Builder { status } => ProcessFailureModel::Builder { status: status@ },
        }
    }
}

impl View for ProcessFailure {
    type V = ProcessFailureModel;

    open spec fn view(&self) -> ProcessFailureModel {
        self.deep_view()
    }
}

/// Where a custom build stands.
#[derive(Debug, Clone, Copy, PartialEq, Eq)]
pub enum Phase {
    /// The line at `next` is the first that has not been looked at.
    Ready { next: usize },
    /// The line at `index` is running.
    Waiting { index: usize },
    /// Every line has been dealt with.
    Finished,
    /// A line could not be read or its command did not succeed; nothing runs
    /// after it.
    Failed,
}

/// What the caller of a custom build does next.
#[derive(Debug, Clone, PartialEq, Eq)]
pub enum Step {
    /// Run the command of the line at `index`, then report how it ended.
    Spawn { index: usize, line: String, invocation: Invocation },
    /// The build is over and every command succeeded.
    Done,
    /// The build has failed; nothing more is run.
    Stop,
    /// The line at `index` cannot be split into words; the build has failed.
    Reject(ProcessFailure),
}

/// Mathematical model of a [`Step`].
pub enum StepModel {
    Spawn { index: int, line: Seq<char>, invocation: InvocationModel },
    Done,
    Stop,
    Reject(ProcessFailureModel),
}

impl DeepView for Step {
    type V = StepModel;

    open spec fn deep_view(&self) -> StepModel {
        match self {
            Step::Spawn { index, line, invocation } => StepModel::Spawn {
                index: *index as int,
                line: line@,
                invocation: invocation@,
            },
            Step::Done => StepModel::Done,
            Step::Stop => StepModel::Stop,
            Step::Reject(failure) => StepModel::Reject(failure@),
        }
    }
}

impl View for Step {
    type V = StepModel;

    open spec fn view(&self) -> StepModel {
        self.deep_view()
    }
}

/// The first line at or after `from` that is not skipped, if any.
pub open spec fn next_line(lines: Seq<Seq<char>>, from: int) -> Option<int>
    decreases lines.len() - from,
{
    if from < 0 || from >= lines.len() {
        None
    } else if planned(shell_words(lines[from])) is Skip {
        next_line(lines, from + 1)
    } else {
        Some(from)
    }
}

/// What a custom build that stands at `phase` does next, and where it
/// stands after that.
pub open spec fn next_step(lines: Seq<Seq<char>>, phase: Phase) -> (Phase, StepModel) {
    match phase {
        Phase::Finished => (Phase::Finished, StepModel::Done),
        Phase::Failed => (Phase::Failed, StepModel::Stop),
        Phase::Waiting { index } => (Phase::Waiting { index }, StepModel::Stop),
        Phase::Ready { next } => match next_line(lines, next as int) {
            None => (Phase::Finished, StepModel::Done),
            Some(index) => match planned(shell_words(lines[index])) {
                CommandPlanModel::Run(invocation) => (
                    Phase::Waiting { index: index as usize },
                    StepModel::Spawn { index, line: lines[index], invocation },
                ),
                _ => (
                    Phase::Failed,
                    StepModel::Reject(ProcessFailureModel::Unparsable { line: lines[index] }),
                ),
            },
        },
    }
}

/// Where a custom build stands once the running command has ended, and the
/// failure if it did not succeed.
pub open spec fn after_exit(lines: Seq<Seq<char>>, phase: Phase, success: bool, status: Seq<char>) -> (
    Phase,
    Option<ProcessFailureModel>,
) {
    match phase {
        Phase::Waiting { index } => if success {
            (Phase::Ready { next: (index + 1) as usize }, None)
        } else {
            (
                Phase::Failed,
                Some(ProcessFailureModel::CustomCommand { line: lines[index as int], status }),
            )
        },
        _ => (phase, None),
    }
}

/// A custom build: its command lines and how far it has got.
pub struct CustomBuild {
    lines: Vec<String>,
    phase: Phase,
}

impl CustomBuild {
    /// The command lines.
    pub closed spec fn lines(&self) -> Seq<Seq<char>> {
        self.lines.deep_view()
    }

    /// Where the build stands.
    pub closed spec fn phase(&self) -> Phase {
        self.phase
    }

    /// The position held by the phase lies within the lines.
    pub closed spec fn wf(&self) -> bool {
        match self.phase {
            Phase::Ready { next } => next <= self.lines.len(),
            Phase::Waiting { index } => index < self.lines.len(),
            _ => true,
        }
    }

    /// A build of the lines of `command` that has not started.
    pub fn new(command: &BuildCommand) -> (r: CustomBuild)
        ensures
            r.wf(),
            r.lines() == command_lines(command@),
            r.phase() == (Phase::Ready { next: 0 }),
    {
        CustomBuild { lines: command.lines(), phase: Phase::Ready { next: 0 } }
    }

    /// Where the build stands.
    pub fn current(&self) -> (r: Phase)
        ensures
            r == self.phase(),
    {
        self.phase
    }

    /// What to do next.  Lines without a word are passed over; the first
    /// line that cannot be split ends the build.  While a command runs, and
    /// once the build has failed, nothing is to be run.
    pub fn next(&mut self) -> (r: Step)
        requires
            old(self).wf(),
        ensures
            final(self).wf(),
            final(self).lines() == old(self).lines(),
            (final(self).phase(), r@) == next_step(old(self).lines(), old(self).phase()),
    {
        match self.phase {
            Phase::Finished => Step::Done,
            Phase::Failed => Step::Stop,
            Phase::Waiting { index } => Step::Stop,
            Phase::Ready { next } => {
                let ghost lines = self.lines.deep_view();
                let mut i: usize = next;
                while i < self.lines.len()
                    invariant
                        next <= i <= self.lines.len(),
                        lines == self.lines.deep_view(),
                        self.phase == (Phase::Ready { next }),
                        old(self).phase == (Phase::Ready { next }),
                        self.lines == old(self).lines,
                        next_line(lines, next as int) == next_line(lines, i as int),
                    decreases self.lines.len() - i,
                {
                    assert(lines[i as int] == self.lines[i as int]@);
                    match plan_command(self.lines[i].as_str()) {
                        CommandPlan::Skip => {},
                        CommandPlan::Unparsable => {
                            self.phase = Phase::Failed;
                            return Step::Reject(
                                ProcessFailure::Unparsable { line: self.lines[i].clone() },
                            );
                        },
                        CommandPlan::Run(invocation) => {
                            self.phase = Phase::Waiting { index: i };
                            return Step::Spawn {
                                index: i,
                                line: self.lines[i].clone(),
                                invocation,
                            };
                        },
                    }
                    i += 1;
                }
                self.phase = Phase::Finished;
                Step::Done
            },
        }
    }

    /// Takes note of how the running command ended: after a success the
    /// build goes on with the next line, after anything else it has failed.
    /// `status` is the exit status as text.  Without a running command
    /// nothing changes.
    pub fn exited(&mut self, success: bool, status: &str) -> (r: Result<(), ProcessFailure>)
        requires
            old(self).wf(),
        ensures
            final(self).wf(),
            final(self).lines() == old(self).lines(),
            (final(self).phase(), match r {
                Ok(_) => None,
                Err(failure) => Some(failure@),
            }) == after_exit(old(self).lines(), old(self).phase(), success, status@),
    {
        match self.phase {
            Phase::Waiting { index } => {
                if success {
                    self.phase = Phase::Ready { next: index + 1 };
                    Ok(())
                } else {
                    self.phase = Phase::Failed;
                    assert(self.lines.deep_view()[index as int] == self.lines[index as int]@);
                    Err(
                        ProcessFailure::CustomCommand {
                            line: self.lines[index].clone(),
                            status: status.to_owned(),
                        },
                    )
                }
            },
            _ => Ok(()),
        }
    }
}

/// Once a custom build has failed it stays failed, whatever is reported
/// to it, and it never asks for another command to be run.
pub proof fn lemma_nothing_runs_after_failure(
    lines: Seq<Seq<char>>,
    success: bool,
    status: Seq<char>,
)
    ensures
        next_step(lines, Phase::Failed) == (Phase::Failed, StepModel::Stop),
        after_exit(lines, Phase::Failed, success, status) == (
            Phase::Failed,
            None::<ProcessFailureModel>,
        ),
{
}

/// A command that ends without success makes the build fail with an error
/// that names its line and its status.
pub proof fn lemma_failure_names_the_command(
    lines: Seq<Seq<char>>,
    index: usize,
    status: Seq<char>,
)
    ensures
        after_exit(lines, Phase::Waiting { index }, false, status) == (
            Phase::Failed,
            Some(ProcessFailureModel::CustomCommand { line: lines[index as int], status }),
        ),
{
}

/// The lines that a build passes over before the one it runs next hold no
/// word, so commands run in the order they are written.
pub proof fn lemma_next_line(lines: Seq<Seq<char>>, from: int)
    requires
        0 <= from <= lines.len(),
    ensures
        match next_line(lines, from) {
            Some(index) => from <= index < lines.len() && !(planned(shell_words(lines[index]))
                is Skip) && forall|k: int|
                from <= k < index ==> planned(shell_words(#[trigger] lines[k])) is Skip,
            None => forall|k: int|
                from <= k < lines.len() ==> planned(shell_words(#[trigger] lines[k])) is Skip,
        },
    decreases lines.len() - from,
{
    if from < lines.len() && planned(shell_words(lines[from])) is Skip {
        lemma_next_line(lines, from + 1);
    }
}

/// How the compile stage of a run goes about its work.
#[derive(Debug, Clone, Copy, PartialEq, Eq)]
pub enum CompileMode {
    /// A custom build in a dry run: its commands are shown, not run.
    Preview,
    /// A custom build: its commands are run in order.
    Custom,
    /// The default compiler call.
    Compiler,
}

/// How the compile stage goes about its work under these settings.
pub open spec fn compile_mode_of(config: RevolveConfigModel, dry_run: bool) -> CompileMode {
    match config.build_command {
        Some(_) => if dry_run {
            CompileMode::Preview
        } else {
            CompileMode::Custom
        },
        None => CompileMode::Compiler,
    }
}

/// Decides how the compile stage goes about its work.
pub fn compile_mode(config: &RevolveConfig, dry_run: bool) -> (r: CompileMode)
    ensures
        r == compile_mode_of(config@, dry_run),
{
    match &config.build_command {
        Some(_) => if dry_run {
            CompileMode::Preview
        } else {
            CompileMode::Custom
        },
        None => CompileMode::Compiler,
    }
}

/// The default compiler call: a build into `target_dir` with the configured
/// flags, or an optimised build when no flags are configured.
pub open spec fn default_build_model(config: RevolveConfigModel, target_dir: Seq<char>) -> InvocationModel {
    InvocationModel {
        program: "cargo"@,
        args: seq!["build"@, "--target-dir"@, target_dir] + (match config.build_flags {
            Some(flags) => flags,
            None => seq!["--release"@],
        }),
    }
}

/// The default compiler call.
pub fn default_build(config: &RevolveConfig, target_dir: &str) -> (r: Invocation)
    ensures
        r@ == default_build_model(config@, target_dir@),
{
    let mut args: Vec<String> = Vec::new();
    args.push("build".to_owned());
    args.push("--target-dir".to_owned());
    args.push(target_dir.to_owned());
    let ghost head = seq!["build"@, "--target-dir"@, target_dir@];
    assert(args.deep_view() =~= head);
    match &config.build_flags {
        Some(flags) => {
            let mut i: usize = 0;
            while i < flags.len()
                invariant
                    i <= flags.len(),
                    args.deep_view() =~= head + flags.deep_view().take(i as int),
                decreases flags.len() - i,
            {
                let ghost before = args.deep_view();
                args.push(flags[i].clone());
                assert(args.deep_view() =~= before.push(flags[i as int]@));
                assert(flags.deep_view().take(i + 1) =~= flags.deep_view().take(i as int).push(
                    flags[i as int]@,
                ));
                i += 1;
            }
            assert(flags.deep_view().take(i as int) =~= flags.deep_view());
        },
        None => {
            args.push("--release".to_owned());
            assert(args.deep_view() =~= head + seq!["--release"@]);
        },
    }
    Invocation { program: "cargo".to_owned(), args }
}

/// The variables that the steps of a custom build find in their
/// environment: where build outputs go, and the name and version of the
/// package.
pub open spec fn custom_build_env_model(package: PackageModel, target_dir: Seq<char>) -> Seq<
    (Seq<char>, Seq<char>),
> {
    seq![
        ("REVOLVE_TARGET_DIR"@, target_dir),
        ("REVOLVE_PACKAGE_NAME"@, package.name),
        ("REVOLVE_PACKAGE_VERSION"@, package.version),
    ]
}

/// The variables that the steps of a custom build find in their environment.
pub fn custom_build_env(package: &PackageIdentity, target_dir: &str) -> (r: Vec<(String, String)>)
    ensures
        r.deep_view() == custom_build_env_model(package@, target_dir@),
{
    let mut env: Vec<(String, String)> = Vec::new();
    env.push(("REVOLVE_TARGET_DIR".to_owned(), target_dir.to_owned()));
    env.push(("REVOLVE_PACKAGE_NAME".to_owned(), package.name.clone()));
    env.push(("REVOLVE_PACKAGE_VERSION".to_owned(), package.version.clone()));
    assert(env.deep_view() =~= custom_build_env_model(package@, target_dir@));
    env
}

/// The lines that show the commands of a custom build, the first `upto` of
/// them: each on a line of its own behind a dash.
pub open spec fn listed(lines: Seq<Seq<char>>, upto: int) -> Seq<char>
    decreases upto,
{
    if upto <= 0 || upto > lines.len() {
        Seq::empty()
    } else {
        listed(lines, upto - 1) + "  - "@ + lines[upto - 1] + "\n"@
    }
}

/// What a dry run shows in place of a custom build.
pub open spec fn build_preview_text(command: BuildCommandModel) -> Seq<char> {
    "\n--- Dry Run: Build Step ---\n"@ + "The following build command(s) would be executed:\n"@
        + listed(command_lines(command), command_lines(command).len() as int)
}

/// What a dry run shows in place of a custom build.
pub fn build_preview(command: &BuildCommand) -> (r: String)
    ensures
        r@ == build_preview_text(command@),
{
    let lines = command.lines();
    let mut out = "\n--- Dry Run: Build Step ---\n".to_owned();
    out.append("The following build command(s) would be executed:\n");
    let ghost head = out@;
    let ghost list = lines.deep_view();
    let mut i: usize = 0;
    assert(out@ =~= head + listed(list, 0));
    while i < lines.len()
        invariant
            i <= lines.len(),
            list == lines.deep_view(),
            out@ == head + listed(list, i as int),
        decreases lines.len() - i,
    {
        let ghost before = out@;
        out.append("  - ");
        out.append(lines[i].as_str());
        out.append("\n");
        assert(list[i as int] == lines[i as int]@);
        assert(out@ =~= head + listed(list, i + 1));
        i += 1;
    }
    out
}

impl ProcessFailure {
    /// The failure in words.
    pub open spec fn message_text(failure: ProcessFailureModel) -> Seq<char> {
        match failure {
            ProcessFailureModel::Unparsable { line } => "Failed to parse command string: "@ + line,
            ProcessFailureModel::CustomCommand { line, status } =>
                "Custom build command failed with exit code "@ + status + ": `"@ + line + "`"@,
            ProcessFailureModel::Compiler { status } => "'cargo build' failed with exit code: "@
                + status,
            ProcessFailureModel::Builder { status } => "'rpmbuild' failed with exit code: "@
                + status,
        }
    }

    /// The failure in words: which command failed and how it ended.
    pub fn message(&self) -> (r: String)
        ensures
            r@ == Self::message_text(self@),
    {
        match self {
            ProcessFailure::Unparsable { line } => {
                let mut out = "Failed to parse command string: ".to_owned();
                out.append(line.as_str());
                out
            },
            ProcessFailure::CustomCommand { line, status } => {
                let mut out = "Custom build command failed with exit code ".to_owned();
                out.append(status.as_str());
                out.append(": `");
                out.append(line.as_str());
                out.append("`");
                out
            },
            ProcessFailure::Compiler { status } => {
                let mut out = "'cargo build' failed with exit code: ".to_owned();
                out.append(status.as_str());
                out
            },
            ProcessFailure::Builder { status } => {
                let mut out = "'rpmbuild' failed with exit code: ".to_owned();
                out.append(status.as_str());
                out
            },
        }
    }
}

/// What the end of a compiler call means: a failure unless it succeeded.
pub fn compiler_result(success: bool, status: &str) -> (r: Result<(), ProcessFailure>)
    ensures
        success ==> r is Ok,
        !success ==> r is Err && r->Err_0@ == (ProcessFailureModel::Compiler { status: status@ }),
{
    if success {
        Ok(())
    } else {
        Err(ProcessFailure::Compiler { status: status.to_owned() })
    }
}

/// What the end of a builder call means: a failure unless it succeeded.
pub fn builder_result(success: bool, status: &str) -> (r: Result<(), ProcessFailure>)
    ensures
        success ==> r is Ok,
        !success ==> r is Err && r->Err_0@ == (ProcessFailureModel::Builder { status: status@ }),
{
    if success {
        Ok(())
    } else {
        Err(ProcessFailure::Builder { status: status.to_owned() })
    }
}

} // verus!
