//! What a control-file template gets to see: the identity of the package
//! and the settings and findings of the build.

use vstd::prelude::*;
use crate::config::{Asset, AssetModel, RevolveConfig, RevolveConfigModel};
use crate::text::borrow_optional;

verus! {

/// The identity of the package that is built.
#[derive(Debug, Clone, PartialEq, Eq)]
pub struct PackageIdentity {
    pub name: String,
    pub version: String,
    pub description: Option<String>,
    pub license: Option<String>,
}

/// Mathematical model of a [`PackageIdentity`], and of the [`PkgContext`]
/// that borrows from it.
pub struct PackageModel {
    pub name: Seq<char>,
    pub version: Seq<char>,
    pub description: Option<Seq<char>>,
    pub license: Option<Seq<char>>,
}

impl DeepView for PackageIdentity {
    type V = PackageModel;

    open spec fn deep_view(&self) -> PackageModel {
        PackageModel {
            name: self.name@,
            version: self.version@,
            description: self.description.deep_view(),
            license: self.license.deep_view(),
        }
    }
}

impl View for PackageIdentity {
    type V = PackageModel;

    open spec fn view(&self) -> PackageModel {
        self.deep_view()
    }
}

/// The package identity as handed to the template.
#[derive(Debug, Clone, PartialEq, Eq)]
pub struct PkgContext<'a> {
    pub name: &'a str,
    pub version: &'a str,
    pub description: Option<&'a str>,
    pub license: Option<&'a str>,
}

impl<'a> DeepView for PkgContext<'a> {
    type V = PackageModel;

    open spec fn deep_view(&self) -> PackageModel {
        PackageModel {
            name: self.name@,
            version: self.version@,
            description: self.description.deep_view(),
            license: self.license.deep_view(),
        }
    }
}

impl<'a> View for PkgContext<'a> {
    type V = PackageModel;

    open spec fn view(&self) -> PackageModel {
        self.deep_view()
    }
}

/// The build settings and findings as handed to the template.
#[derive(Debug, Clone, PartialEq, Eq)]
pub struct BuilderContext<'a> {
    pub spec_template: &'a str,
    pub archive_root_dir: &'a str,
    /// The changelog text; left out of the context when there is none.
    pub changelog: Option<&'a str>,
    /// The file assets; left out of the context when none are declared.
    pub assets: Option<&'a Vec<Asset>>,
    /// The compiler flags; left out of the context when none are set.
    pub build_flags: Option<&'a Vec<String>>,
    /// The directories that the package creates, in ascending order.
    pub created_dirs: Option<Vec<String>>,
}

/// Mathematical model of a [`BuilderContext`].
pub struct BuilderModel {
    pub spec_template: Seq<char>,
    pub archive_root_dir: Seq<char>,
    pub changelog: Option<Seq<char>>,
    pub assets: Option<Seq<AssetModel>>,
    pub build_flags: Option<Seq<Seq<char>>>,
    pub created_dirs: Option<Seq<Seq<char>>>,
}

impl<'a> DeepView for BuilderContext<'a> {
    type V = BuilderModel;

    open spec fn deep_view(&self) -> BuilderModel {
        BuilderModel {
            spec_template: self.spec_template@,
            archive_root_dir: self.archive_root_dir@,
            changelog: self.changelog.deep_view(),
            assets: self.assets.deep_view(),
            build_flags: self.build_flags.deep_view(),
            created_dirs: self.created_dirs.deep_view(),
        }
    }
}

impl<'a> View for BuilderContext<'a> {
    type V = BuilderModel;

    open spec fn view(&self) -> BuilderModel {
        self.deep_view()
    }
}

/// Everything a template is rendered against.
#[derive(Debug, Clone, PartialEq, Eq)]
pub struct TemplateContext<'a> {
    pub pkg: PkgContext<'a>,
    pub builder: BuilderContext<'a>,
}

/// Mathematical model of a [`TemplateContext`].
pub struct TemplateModel {
    pub pkg: PackageModel,
    pub builder: BuilderModel,
}

impl<'a> DeepView for TemplateContext<'a> {
    type V = TemplateModel;

    open spec fn deep_view(&self) -> TemplateModel {
        TemplateModel { pkg: self.pkg.deep_view(), builder: self.builder.deep_view() }
    }
}

impl<'a> View for TemplateContext<'a> {
    type V = TemplateModel;

    open spec fn view(&self) -> TemplateModel {
        self.deep_view()
    }
}

/// The context that a build with these inputs renders its template against.
pub open spec fn context_model(
    package: PackageModel,
    config: RevolveConfigModel,
    archive_root_dir: Seq<char>,
    changelog: Option<Seq<char>>,
    created_dirs: Option<Seq<Seq<char>>>,
) -> TemplateModel {
    TemplateModel {
        pkg: package,
        builder: BuilderModel {
            spec_template: config.spec_template,
            archive_root_dir,
            changelog,
            assets: config.assets,
            build_flags: config.build_flags,
            created_dirs,
        },
    }
}

impl PackageIdentity {
    /// The identity as handed to the template.
    pub fn context<'a>(&'a self) -> (r: PkgContext<'a>)
        ensures
            r@ == self@,
    {
        PkgContext {
            name: self.name.as_str(),
            version: self.version.as_str(),
            description: borrow_optional(&self.description),
            license: borrow_optional(&self.license),
        }
    }
}

/// Puts together what the template of a build is rendered against.  The
/// context depends on these arguments alone, so equal inputs give equal
/// contexts.
pub fn template_context<'a>(
    package: &'a PackageIdentity,
    config: &'a RevolveConfig,
    archive_root_dir: &'a str,
    changelog: Option<&'a str>,
    created_dirs: Option<Vec<String>>,
) -> (r: TemplateContext<'a>)
    ensures
        r@ == context_model(
            package@,
            config@,
            archive_root_dir@,
            changelog.deep_view(),
            created_dirs.deep_view(),
        ),
{
    TemplateContext {
        pkg: package.context(),
        builder: BuilderContext {
            spec_template: config.spec_template.as_str(),
            archive_root_dir,
            changelog,
            assets: match &config.assets {
                Some(assets) => Some(assets),
                None => None,
            },
            build_flags: match &config.build_flags {
                Some(flags) => Some(flags),
                None => None,
            },
            created_dirs,
        },
    }
}

} // verus!
