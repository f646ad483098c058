//! The declarative build configuration.

use vstd::prelude::*;
use crate::text::{copy_optional, copy_strings};

verus! {

/// One declared asset: a file, or a directory tree when `source` ends in `/`.
#[derive(Debug, Clone, PartialEq, Eq)]
pub struct Asset {
    /// Where the file or directory lies, relative to the project.
    pub source: String,
    /// Where it is installed.
    pub dest: String,
    /// Permission bits in octal, if the package has to set them.
    pub mode: Option<String>,
    /// Whether the package creates, and so owns, the directories it installs
    /// into.
    pub mkdir: bool,
}

/// Mathematical model of an [`Asset`].
pub struct AssetModel {
    pub source: Seq<char>,
    pub dest: Seq<char>,
    pub mode: Option<Seq<char>>,
    pub mkdir: bool,
}

impl DeepView for Asset {
    type V = AssetModel;

    open spec fn deep_view(&self) -> AssetModel {
        AssetModel {
            source: self.source@,
            dest: self.dest@,
            mode: self.mode.deep_view(),
            mkdir: self.mkdir,
        }
    }
}

impl View for Asset {
    type V = AssetModel;

    open spec fn view(&self) -> AssetModel {
        self.deep_view()
    }
}

/// The value of `mkdir` when a declaration leaves it out.
pub fn default_mkdir() -> (r: bool)
    ensures
        r,
{
    true
}

impl Asset {
    /// An asset with no explicit mode that creates its directories.
    pub fn new(source: &str, dest: &str) -> (r: Asset)
        ensures
            r@ == (AssetModel { source: source@, dest: dest@, mode: None, mkdir: true }),
    {
        Asset {
            source: source.to_owned(),
            dest: dest.to_owned(),
            mode: None,
            mkdir: default_mkdir(),
        }
    }

    /// A copy with the same model.
    pub fn duplicate(&self) -> (r: Asset)
        ensures
            r@ == self@,
    {
        Asset {
            source: self.source.clone(),
            dest: self.dest.clone(),
            mode: copy_optional(&self.mode),
            mkdir: self.mkdir,
        }
    }
}

/// A copy of a list of assets.
pub fn copy_assets(list: &Vec<Asset>) -> (r: Vec<Asset>)
    ensures
        r.deep_view() == list.deep_view(),
{
    let mut out: Vec<Asset> = Vec::new();
    let mut i: usize = 0;
    while i < list.len()
        invariant
            i <= list.len(),
            out.len() == i,
            forall|k: int| 0 <= k < i ==> out[k]@ == list[k]@,
        decreases list.len() - i,
    {
        out.push(list[i].duplicate());
        i += 1;
    }
    assert(out.deep_view() =~= list.deep_view());
    out
}

/// A custom build: one shell command, or several run in order.
#[derive(Debug, Clone, PartialEq, Eq)]
pub enum BuildCommand {
    Single(String),
    Sequence(Vec<String>),
}

/// Mathematical model of a [`BuildCommand`].
pub enum BuildCommandModel {
    Single(Seq<char>),
    Sequence(Seq<Seq<char>>),
}

impl DeepView for BuildCommand {
    type V = BuildCommandModel;

    open spec fn deep_view(&self) -> BuildCommandModel {
        match self {
            BuildCommand::Single(command) => BuildCommandModel::Single(command@),
            BuildCommand::Sequence(commands) => BuildCommandModel::Sequence(commands.deep_view()),
        }
    }
}

impl View for BuildCommand {
    type V = BuildCommandModel;

    open spec fn view(&self) -> BuildCommandModel {
        self.deep_view()
    }
}

/// The command lines of a custom build, in the order they run.
pub open spec fn command_lines(command: BuildCommandModel) -> Seq<Seq<char>> {
    match command {
        BuildCommandModel::Single(line) => seq![line],
        BuildCommandModel::Sequence(lines) => lines,
    }
}

impl BuildCommand {
    /// A copy with the same model.
    pub fn duplicate(&self) -> (r: BuildCommand)
        ensures
            r@ == self@,
    {
        match self {
            BuildCommand::Single(command) => BuildCommand::Single(command.clone()),
            BuildCommand::Sequence(commands) => BuildCommand::Sequence(copy_strings(commands)),
        }
    }

    /// The command lines in the order they run.
    pub fn lines(&self) -> (r: Vec<String>)
        ensures
            r.deep_view() == command_lines(self@),
    {
        match self {
            BuildCommand::Single(command) => {
                let mut out: Vec<String> = Vec::new();
                out.push(command.clone());
                assert(out.deep_view() =~= seq![command@]);
                out
            },
            BuildCommand::Sequence(commands) => copy_strings(commands),
        }
    }
}

/// The build settings of a project.
#[derive(Debug, Clone, PartialEq, Eq)]
pub struct RevolveConfig {
    /// The control-file template, relative to the project.
    pub spec_template: String,
    /// Where finished packages are copied to, relative to the project.
    pub output_dir: Option<String>,
    /// A changelog file, relative to the project.
    pub changelog: Option<String>,
    /// Flags for the default compiler invocation.
    pub build_flags: Option<Vec<String>>,
    /// A custom build that replaces the default compiler invocation.
    pub build_command: Option<BuildCommand>,
    /// The declared assets.
    pub assets: Option<Vec<Asset>>,
    /// The license that a produced package must declare.
    pub verify_license: Option<String>,
    /// The summary that a produced package must declare.
    pub verify_summary: Option<String>,
}

/// Mathematical model of a [`RevolveConfig`].
pub struct RevolveConfigModel {
    pub spec_template: Seq<char>,
    pub output_dir: Option<Seq<char>>,
    pub changelog: Option<Seq<char>>,
    pub build_flags: Option<Seq<Seq<char>>>,
    pub build_command: Option<BuildCommandModel>,
    pub assets: Option<Seq<AssetModel>>,
    pub verify_license: Option<Seq<char>>,
    pub verify_summary: Option<Seq<char>>,
}

impl DeepView for RevolveConfig {
    type V = RevolveConfigModel;

    open spec fn deep_view(&self) -> RevolveConfigModel {
        RevolveConfigModel {
            spec_template: self.spec_template@,
            output_dir: self.output_dir.deep_view(),
            changelog: self.changelog.deep_view(),
            build_flags: self.build_flags.deep_view(),
            build_command: self.build_command.deep_view(),
            assets: self.assets.deep_view(),
            verify_license: self.verify_license.deep_view(),
            verify_summary: self.verify_summary.deep_view(),
        }
    }
}

impl View for RevolveConfig {
    type V = RevolveConfigModel;

    open spec fn view(&self) -> RevolveConfigModel {
        self.deep_view()
    }
}

impl RevolveConfig {
    /// Settings that name a template and nothing else.
    pub fn new(spec_template: &str) -> (r: RevolveConfig)
        ensures
            r@ == (RevolveConfigModel {
                spec_template: spec_template@,
                output_dir: None,
                changelog: None,
                build_flags: None,
                build_command: None,
                assets: None,
                verify_license: None,
                verify_summary: None,
            }),
    {
        RevolveConfig {
            spec_template: spec_template.to_owned(),
            output_dir: None,
            changelog: None,
            build_flags: None,
            build_command: None,
            assets: None,
            verify_license: None,
            verify_summary: None,
        }
    }

    /// New settings that differ from these in the asset list only: the
    /// declared assets give way to the expanded `files`.
    pub fn with_assets(&self, files: Vec<Asset>) -> (r: RevolveConfig)
        ensures
            r@ == (RevolveConfigModel { assets: Some(files.deep_view()), ..self@ }),
    {
        RevolveConfig {
            spec_template: self.spec_template.clone(),
            output_dir: copy_optional(&self.output_dir),
            changelog: copy_optional(&self.changelog),
            build_flags: match &self.build_flags {
                Some(flags) => Some(copy_strings(flags)),
                None => None,
            },
            build_command: match &self.build_command {
                Some(command) => Some(command.duplicate()),
                None => None,
            },
            assets: Some(files),
            verify_license: copy_optional(&self.verify_license),
            verify_summary: copy_optional(&self.verify_summary),
        }
    }
}

} // verus!
