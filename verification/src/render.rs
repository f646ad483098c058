//! Rendering the control file: which files are read, where the result is
//! written, and what becomes of a changelog that cannot be read.  The
//! template engine itself is the caller's business.

use vstd::prelude::*;
use crate::config::{RevolveConfig, RevolveConfigModel};
use crate::definitions::{PackageIdentity, PackageModel};
use crate::layout::{control_file, control_file_text};
use crate::paths::{join, joined};

verus! {

/// The files that rendering touches.
#[derive(Debug, Clone, PartialEq, Eq)]
pub struct RenderPlan {
    /// The template to load.
    pub template_path: String,
    /// The changelog to read, when one is configured.
    pub changelog_path: Option<String>,
    /// Where the rendered control file is written.
    pub output_path: String,
}

/// Mathematical model of a [`RenderPlan`].
pub struct RenderPlanModel {
    pub template_path: Seq<char>,
    pub changelog_path: Option<Seq<char>>,
    pub output_path: Seq<char>,
}

impl DeepView for RenderPlan {
    type V = RenderPlanModel;

    open spec fn deep_view(&self) -> RenderPlanModel {
        RenderPlanModel {
            template_path: self.template_path@,
            changelog_path: self.changelog_path.deep_view(),
            output_path: self.output_path@,
        }
    }
}

impl View for RenderPlan {
    type V = RenderPlanModel;

    open spec fn view(&self) -> RenderPlanModel {
        self.deep_view()
    }
}

/// The files that rendering touches: template and changelog lie below the
/// project, the result goes into the build directory under the name and
/// version of the package.
pub open spec fn render_plan_model(
    config: RevolveConfigModel,
    package: PackageModel,
    project_dir: Seq<char>,
    build_dir: Seq<char>,
) -> RenderPlanModel {
    RenderPlanModel {
        template_path: joined(project_dir, config.spec_template),
        changelog_path: match config.changelog {
            Some(file) => Some(joined(project_dir, file)),
            None => None,
        },
        output_path: control_file_text(package, build_dir),
    }
}

/// Names the files that rendering touches.
pub fn render_plan(
    config: &RevolveConfig,
    package: &PackageIdentity,
    project_dir: &str,
    build_dir: &str,
) -> (r: RenderPlan)
    ensures
        r@ == render_plan_model(config@, package@, project_dir@, build_dir@),
{
    RenderPlan {
        template_path: join(project_dir, config.spec_template.as_str()),
        changelog_path: match &config.changelog {
            Some(file) => Some(join(project_dir, file.as_str())),
            None => None,
        },
        output_path: control_file(package, build_dir),
    }
}

/// What reading the changelog came to.
#[derive(Debug, Clone, PartialEq, Eq)]
pub struct Changelog {
    /// The text for the template, if there is any.
    pub text: Option<String>,
    /// What to warn of: why the configured file could not be read.
    pub warning: Option<String>,
}

/// The warning about a changelog at `path` that could not be read for the
/// reason `detail`.
pub open spec fn changelog_warning(path: Seq<char>, detail: Seq<char>) -> Seq<char> {
    "Failed to read changelog file at "@ + path + ": "@ + detail
}

/// Settles what the template gets for a changelog.  `read` is what reading
/// the file at `path` gave, or nothing when no changelog is configured.  A
/// changelog that cannot be read is left out with a warning; it is never an
/// error.
pub fn settle_changelog(path: Option<&str>, read: Option<Result<String, String>>) -> (r: Changelog)
    ensures
        r.text.deep_view() == (match (path, read) {
            (Some(_), Some(Ok(text))) => Some(text@),
            _ => None,
        }),
        r.warning.deep_view() == (match (path, read) {
            (Some(p), Some(Err(detail))) => Some(changelog_warning(p@, detail@)),
            _ => None,
        }),
{
    match path {
        None => Changelog { text: None, warning: None },
        Some(p) => match read {
            None => Changelog { text: None, warning: None },
            Some(Ok(text)) => Changelog { text: Some(text), warning: None },
            Some(Err(detail)) => {
                let mut warning = "Failed to read changelog file at ".to_owned();
                warning.append(p);
                warning.append(": ");
                warning.append(detail.as_str());
                Changelog { text: None, warning: Some(warning) }
            },
        },
    }
}

/// Why no control file was rendered.
#[derive(Debug, Clone, PartialEq, Eq)]
pub enum TemplateError {
    /// The template could not be loaded.
    NotFound { path: String, detail: String },
    /// The engine refused the template or what it refers to.
    Render { detail: String },
}

impl TemplateError {
    /// The error in words.
    pub open spec fn message_text(&self) -> Seq<char> {
        match self {
            TemplateError::NotFound { path, detail } => "Failed to load spec template from "@
                + path@ + ": "@ + detail@,
            TemplateError::Render { detail } => "Failed to render spec template: "@ + detail@,
        }
    }

    /// The error in words, with the engine's own diagnostic.
    pub fn message(&self) -> (r: String)
        ensures
            r@ == self.message_text(),
    {
        match self {
            TemplateError::NotFound { path, detail } => {
                let mut out = "Failed to load spec template from ".to_owned();
                out.append(path.as_str());
                out.append(": ");
                out.append(detail.as_str());
                out
            },
            TemplateError::Render { detail } => {
                let mut out = "Failed to render spec template: ".to_owned();
                out.append(detail.as_str());
                out
            },
        }
    }
}

} // verus!
