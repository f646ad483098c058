//! Where a build run keeps its files, what it calls them, and how the
//! package builder is called on them.

use vstd::prelude::*;
use crate::definitions::{PackageIdentity, PackageModel};
use crate::paths::{base_name, file_name, join, joined};
use crate::process::{Invocation, InvocationModel};

verus! {

/// The directories of a build run, all below the project.
#[derive(Debug, Clone, PartialEq, Eq)]
pub struct Layout {
    /// Everything that a run creates lies here, and a real run removes it
    /// before it starts.
    pub revolve_dir: String,
    /// The rendered control file.
    pub build_dir: String,
    /// The top directory of the package builder.
    pub rpmbuild_dir: String,
    /// Where the builder looks for the content archive.
    pub sources_dir: String,
    /// Where the builder looks for the control file.
    pub specs_dir: String,
    /// Where the builder leaves its packages.
    pub rpms_dir: String,
}

/// Mathematical model of a [`Layout`].
pub struct LayoutModel {
    pub revolve_dir: Seq<char>,
    pub build_dir: Seq<char>,
    pub rpmbuild_dir: Seq<char>,
    pub sources_dir: Seq<char>,
    pub specs_dir: Seq<char>,
    pub rpms_dir: Seq<char>,
}

impl DeepView for Layout {
    type V = LayoutModel;

    open spec fn deep_view(&self) -> LayoutModel {
        LayoutModel {
            revolve_dir: self.revolve_dir@,
            build_dir: self.build_dir@,
            rpmbuild_dir: self.rpmbuild_dir@,
            sources_dir: self.sources_dir@,
            specs_dir: self.specs_dir@,
            rpms_dir: self.rpms_dir@,
        }
    }
}

impl View for Layout {
    type V = LayoutModel;

    open spec fn view(&self) -> LayoutModel {
        self.deep_view()
    }
}

/// The directories of a run in the project at `project_dir`.
pub open spec fn layout_model(project_dir: Seq<char>) -> LayoutModel {
    let revolve_dir = joined(project_dir, "target/revolve"@);
    let rpmbuild_dir = joined(revolve_dir, "rpmbuild"@);
    LayoutModel {
        revolve_dir,
        build_dir: joined(revolve_dir, "build"@),
        rpmbuild_dir,
        sources_dir: joined(rpmbuild_dir, "SOURCES"@),
        specs_dir: joined(rpmbuild_dir, "SPECS"@),
        rpms_dir: joined(rpmbuild_dir, "RPMS"@),
    }
}

/// The name of the root directory inside the content archive: name and
/// version of the package with a hyphen between them.
pub open spec fn archive_root_text(package: PackageModel) -> Seq<char> {
    package.name + "-"@ + package.version
}

/// The file that the rendered control file is written to.
pub open spec fn control_file_text(package: PackageModel, build_dir: Seq<char>) -> Seq<char> {
    joined(build_dir, archive_root_text(package) + ".spec"@)
}

/// The file that the content archive is written to.
pub open spec fn archive_file_text(package: PackageModel, project_dir: Seq<char>) -> Seq<char> {
    joined(joined(project_dir, "target"@), archive_root_text(package) + ".tar.gz"@)
}

/// The directories of a run in the project at `project_dir`.
pub fn layout(project_dir: &str) -> (r: Layout)
    ensures
        r@ == layout_model(project_dir@),
{
    let revolve_dir = join(project_dir, "target/revolve");
    let rpmbuild_dir = join(revolve_dir.as_str(), "rpmbuild");
    let build_dir = join(revolve_dir.as_str(), "build");
    let sources_dir = join(rpmbuild_dir.as_str(), "SOURCES");
    let specs_dir = join(rpmbuild_dir.as_str(), "SPECS");
    let rpms_dir = join(rpmbuild_dir.as_str(), "RPMS");
    Layout { revolve_dir, build_dir, rpmbuild_dir, sources_dir, specs_dir, rpms_dir }
}

/// The name of the root directory inside the content archive.
pub fn archive_root(package: &PackageIdentity) -> (r: String)
    ensures
        r@ == archive_root_text(package@),
{
    let mut out = package.name.clone();
    out.append("-");
    out.append(package.version.as_str());
    out
}

/// The file that the rendered control file is written to.
pub fn control_file(package: &PackageIdentity, build_dir: &str) -> (r: String)
    ensures
        r@ == control_file_text(package@, build_dir@),
{
    let mut name = archive_root(package);
    name.append(".spec");
    join(build_dir, name.as_str())
}

/// The file that the content archive is written to.
pub fn archive_file(package: &PackageIdentity, project_dir: &str) -> (r: String)
    ensures
        r@ == archive_file_text(package@, project_dir@),
{
    let mut name = archive_root(package);
    name.append(".tar.gz");
    let target = join(project_dir, "target");
    join(target.as_str(), name.as_str())
}

/// The builder call that a dry run shows: from the archive when there is
/// one, else straight from the source tree.
pub open spec fn shown_command(
    spec_path: Seq<char>,
    archive_path: Option<Seq<char>>,
    rpmbuild_dir: Seq<char>,
    project_dir: Seq<char>,
) -> Seq<char> {
    match archive_path {
        Some(archive) => "rpmbuild -ta "@ + archive + " --specfile "@ + spec_path
            + " --define='_topdir "@ + rpmbuild_dir + "'"@,
        None => "rpmbuild -bb "@ + spec_path + " --define='_topdir "@ + rpmbuild_dir
            + "' --define='_sourcedir "@ + project_dir + "'"@,
    }
}

/// What a dry run shows: where the control file goes, what it holds, and
/// the builder call that a real run would make.
pub open spec fn dry_run_text(
    spec_path: Seq<char>,
    content: Seq<char>,
    archive_path: Option<Seq<char>>,
    rpmbuild_dir: Seq<char>,
    project_dir: Seq<char>,
) -> Seq<char> {
    "--- Dry Run Activated ---\n"@ + "\n[1/2] Rendered .spec file would be written to: "@
        + spec_path + "\n"@ + "----------------------------------------------------\n"@ + content
        + "\n"@ + "----------------------------------------------------\n"@
        + "\n[2/2] The following `rpmbuild` command would be executed:\n"@ + shown_command(
        spec_path,
        archive_path,
        rpmbuild_dir,
        project_dir,
    ) + "\n"@ + "\n--- End of Dry Run ---\n"@
}

/// The builder call that a dry run shows.
pub fn command_shown(
    spec_path: &str,
    archive_path: Option<&str>,
    rpmbuild_dir: &str,
    project_dir: &str,
) -> (r: String)
    ensures
        r@ == shown_command(spec_path@, archive_path.deep_view(), rpmbuild_dir@, project_dir@),
{
    match archive_path {
        Some(archive) => {
            let mut out = "rpmbuild -ta ".to_owned();
            out.append(archive);
            out.append(" --specfile ");
            out.append(spec_path);
            out.append(" --define='_topdir ");
            out.append(rpmbuild_dir);
            out.append("'");
            out
        },
        None => {
            let mut out = "rpmbuild -bb ".to_owned();
            out.append(spec_path);
            out.append(" --define='_topdir ");
            out.append(rpmbuild_dir);
            out.append("' --define='_sourcedir ");
            out.append(project_dir);
            out.append("'");
            out
        },
    }
}

/// What a dry run shows.
pub fn dry_run_report(
    spec_path: &str,
    content: &str,
    archive_path: Option<&str>,
    rpmbuild_dir: &str,
    project_dir: &str,
) -> (r: String)
    ensures
        r@ == dry_run_text(
            spec_path@,
            content@,
            archive_path.deep_view(),
            rpmbuild_dir@,
            project_dir@,
        ),
{
    let command = command_shown(spec_path, archive_path, rpmbuild_dir, project_dir);
    let mut out = "--- Dry Run Activated ---\n".to_owned();
    out.append("\n[1/2] Rendered .spec file would be written to: ");
    out.append(spec_path);
    out.append("\n");
    out.append("----------------------------------------------------\n");
    out.append(content);
    out.append("\n");
    out.append("----------------------------------------------------\n");
    out.append("\n[2/2] The following `rpmbuild` command would be executed:\n");
    out.append(command.as_str());
    out.append("\n");
    out.append("\n--- End of Dry Run ---\n");
    out
}

/// What calling the builder takes: the control file and the archive are
/// copied to where the builder looks for them, then the builder is run.
#[derive(Debug, Clone, PartialEq, Eq)]
pub struct BuilderPlan {
    /// Where the control file is copied to.
    pub staged_spec: String,
    /// Where the content archive is copied to, when there is one.
    pub staged_archive: Option<String>,
    /// The builder call.
    pub invocation: Invocation,
}

/// Mathematical model of a [`BuilderPlan`].
pub struct BuilderPlanModel {
    pub staged_spec: Seq<char>,
    pub staged_archive: Option<Seq<char>>,
    pub invocation: InvocationModel,
}

impl DeepView for BuilderPlan {
    type V = BuilderPlanModel;

    open spec fn deep_view(&self) -> BuilderPlanModel {
        BuilderPlanModel {
            staged_spec: self.staged_spec@,
            staged_archive: self.staged_archive.deep_view(),
            invocation: self.invocation@,
        }
    }
}

impl View for BuilderPlan {
    type V = BuilderPlanModel;

    open spec fn view(&self) -> BuilderPlanModel {
        self.deep_view()
    }
}

/// How the builder is called on the control file at `spec_path`: a binary
/// build below the run's own top directory, from the staged archive when
/// there is one and from the source tree at `project_dir` when there is
/// none.  There is no plan when the control file or the archive has no file
/// name.
pub open spec fn builder_plan_model(
    layout: LayoutModel,
    spec_path: Seq<char>,
    archive_path: Option<Seq<char>>,
    project_dir: Seq<char>,
) -> Option<BuilderPlanModel> {
    match base_name(spec_path) {
        None => None,
        Some(spec_name) => {
            let staged_spec = joined(layout.specs_dir, spec_name);
            let topdir = "--define=_topdir "@ + layout.rpmbuild_dir;
            match archive_path {
                Some(archive) => match base_name(archive) {
                    None => None,
                    Some(archive_name) => Some(
                        BuilderPlanModel {
                            staged_spec,
                            staged_archive: Some(joined(layout.sources_dir, archive_name)),
                            invocation: InvocationModel {
                                program: "rpmbuild"@,
                                args: seq![topdir, "-bb"@, staged_spec],
                            },
                        },
                    ),
                },
                None => Some(
                    BuilderPlanModel {
                        staged_spec,
                        staged_archive: None,
                        invocation: InvocationModel {
                            program: "rpmbuild"@,
                            args: seq![
                                topdir,
                                "-bb"@,
                                staged_spec,
                                "--define=_sourcedir "@ + project_dir,
                            ],
                        },
                    },
                ),
            }
        },
    }
}

/// Plans the call of the builder.
pub fn builder_plan(
    layout: &Layout,
    spec_path: &str,
    archive_path: Option<&str>,
    project_dir: &str,
) -> (r: Option<BuilderPlan>)
    ensures
        r.deep_view() == builder_plan_model(
            layout@,
            spec_path@,
            archive_path.deep_view(),
            project_dir@,
        ),
{
    let spec_name = match file_name(spec_path) {
        Some(name) => name,
        None => {
            return None;
        },
    };
    let staged_spec = join(layout.specs_dir.as_str(), spec_name.as_str());
    let mut topdir = "--define=_topdir ".to_owned();
    topdir.append(layout.rpmbuild_dir.as_str());
    let mut args: Vec<String> = Vec::new();
    args.push(topdir);
    args.push("-bb".to_owned());
    args.push(staged_spec.clone());
    match archive_path {
        Some(archive) => {
            let archive_name = match file_name(archive) {
                Some(name) => name,
                None => {
                    return None;
                },
            };
            let staged_archive = join(layout.sources_dir.as_str(), archive_name.as_str());
            assert(args.deep_view() =~= seq![
                "--define=_topdir "@ + layout.rpmbuild_dir@,
                "-bb"@,
                staged_spec@,
            ]);
            Some(
                BuilderPlan {
                    staged_spec,
                    staged_archive: Some(staged_archive),
                    invocation: Invocation { program: "rpmbuild".to_owned(), args },
                },
            )
        },
        None => {
            let mut sourcedir = "--define=_sourcedir ".to_owned();
            sourcedir.append(project_dir);
            args.push(sourcedir);
            assert(args.deep_view() =~= seq![
                "--define=_topdir "@ + layout.rpmbuild_dir@,
                "-bb"@,
                staged_spec@,
                "--define=_sourcedir "@ + project_dir@,
            ]);
            Some(
                BuilderPlan {
                    staged_spec,
                    staged_archive: None,
                    invocation: Invocation { program: "rpmbuild".to_owned(), args },
                },
            )
        },
    }
}

} // verus!
