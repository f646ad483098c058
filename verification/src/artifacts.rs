//! The packages that the builder left behind: which files count as
//! packages, where they are copied to, and which of them is the main one.

use vstd::prelude::*;
use crate::definitions::{PackageIdentity, PackageModel};
use crate::layout::{archive_root, archive_root_text};
use crate::paths::{base_name, file_name, join, joined};
use crate::text::{chars_of, contains, ends_with, has_infix, has_prefix, has_suffix, starts_with};

verus! {

/// A file name of the form `<something>.rpm`.
pub open spec fn is_package_name(name: Seq<char>) -> bool {
    name.len() > 4 && has_suffix(name, ".rpm"@)
}

/// The path names a file of the form `<something>.rpm`.
pub open spec fn is_package_path(path: Seq<char>) -> bool {
    base_name(path) matches Some(name) && is_package_name(name)
}

/// Whether the path names a package file.
pub fn names_package(path: &str) -> (r: bool)
    ensures
        r == is_package_path(path@),
{
    match file_name(path) {
        None => false,
        Some(name) => {
            let chars = chars_of(name.as_str());
            let suffix = chars_of(".rpm");
            chars.len() > 4 && ends_with(&chars, &suffix)
        },
    }
}

/// One package that the builder produced.
#[derive(Debug, Clone, PartialEq, Eq)]
pub struct Collected {
    /// Where the builder left it.
    pub source: String,
    /// Where it is copied to, when an output directory is set.
    pub copy_to: Option<String>,
}

/// Mathematical model of a [`Collected`].
pub struct CollectedModel {
    pub source: Seq<char>,
    pub copy_to: Option<Seq<char>>,
}

impl DeepView for Collected {
    type V = CollectedModel;

    open spec fn deep_view(&self) -> CollectedModel {
        CollectedModel { source: self.source@, copy_to: self.copy_to.deep_view() }
    }
}

impl View for Collected {
    type V = CollectedModel;

    open spec fn view(&self) -> CollectedModel {
        self.deep_view()
    }
}

/// What is done with the package at `path`: it is copied into the output
/// directory under its own file name when one is set.
pub open spec fn collected_one(path: Seq<char>, output_dir: Option<Seq<char>>) -> CollectedModel {
    CollectedModel {
        source: path,
        copy_to: match output_dir {
            Some(dir) => Some(joined(dir, base_name(path)->Some_0)),
            None => None,
        },
    }
}

/// What is done with the first `upto` of the files that were found below
/// the builder's output directory: packages are collected, in the order
/// they were found, and everything else is passed over.
pub open spec fn collection(found: Seq<Seq<char>>, output_dir: Option<Seq<char>>, upto: int) -> Seq<
    CollectedModel,
>
    decreases upto,
{
    if upto <= 0 || upto > found.len() {
        Seq::empty()
    } else if is_package_path(found[upto - 1]) {
        collection(found, output_dir, upto - 1).push(collected_one(found[upto - 1], output_dir))
    } else {
        collection(found, output_dir, upto - 1)
    }
}

/// The path under which a collected package is known afterwards: that of
/// its copy when it was copied.
pub open spec fn artifact_of(item: CollectedModel) -> Seq<char> {
    match item.copy_to {
        Some(path) => path,
        None => item.source,
    }
}

/// Plans what is done with the files found below the builder's output
/// directory.
pub fn collect_plan(found: &Vec<String>, output_dir: Option<&str>) -> (r: Vec<Collected>)
    ensures
        r.deep_view() == collection(
            found.deep_view(),
            output_dir.deep_view(),
            found.len() as int,
        ),
{
    let ghost list = found.deep_view();
    let ghost dir = output_dir.deep_view();
    let mut out: Vec<Collected> = Vec::new();
    let mut i: usize = 0;
    assert(out.deep_view() =~= collection(list, dir, 0));
    while i < found.len()
        invariant
            i <= found.len(),
            list == found.deep_view(),
            dir == output_dir.deep_view(),
            out.deep_view() == collection(list, dir, i as int),
        decreases found.len() - i,
    {
        let path = &found[i];
        assert(list[i as int] == path@);
        if names_package(path.as_str()) {
            let copy_to = match output_dir {
                Some(target) => match file_name(path.as_str()) {
                    Some(name) => Some(join(target, name.as_str())),
                    None => None,
                },
                None => None,
            };
            let ghost before = out.deep_view();
            let item = Collected { source: path.clone(), copy_to };
            assert(item@ == collected_one(path@, dir));
            out.push(item);
            assert(out.deep_view() =~= before.push(collected_one(path@, dir)));
        }
        i += 1;
    }
    out
}

/// The paths under which the collected packages are known afterwards.
pub fn artifacts(plan: &Vec<Collected>) -> (r: Vec<String>)
    ensures
        r.len() == plan.len(),
        forall|i: int| 0 <= i < r.len() ==> r[i]@ == artifact_of(#[trigger] plan[i]@),
{
    let mut out: Vec<String> = Vec::new();
    let mut i: usize = 0;
    while i < plan.len()
        invariant
            i <= plan.len(),
            out.len() == i,
            forall|k: int| 0 <= k < out.len() ==> out[k]@ == artifact_of(#[trigger] plan[k]@),
        decreases plan.len() - i,
    {
        let path = match &plan[i].copy_to {
            Some(copy) => copy.clone(),
            None => plan[i].source.clone(),
        };
        out.push(path);
        i += 1;
    }
    out
}

/// The file name of `path`, or nothing when it has none.
pub open spec fn name_or_empty(path: Seq<char>) -> Seq<char> {
    match base_name(path) {
        Some(name) => name,
        None => Seq::empty(),
    }
}

/// The file at `path` looks like the main package of `package`: its name
/// starts with the package's name and version, and nothing in it marks it
/// as a debug or source package.
pub open spec fn is_primary(path: Seq<char>, package: PackageModel) -> bool {
    let name = name_or_empty(path);
    &&& has_prefix(name, archive_root_text(package))
    &&& !has_infix(name, "debuginfo"@)
    &&& !has_infix(name, "debugsource"@)
    &&& !has_infix(name, ".src.rpm"@)
}

/// The first artifact at or after `from` that looks like the main package.
pub open spec fn first_primary(artifacts: Seq<Seq<char>>, package: PackageModel, from: int) -> Option<
    int,
>
    decreases artifacts.len() - from,
{
    if from < 0 || from >= artifacts.len() {
        None
    } else if is_primary(artifacts[from], package) {
        Some(from)
    } else {
        first_primary(artifacts, package, from + 1)
    }
}

/// Why no package is picked for the final check.
#[derive(Debug, Clone, Copy, PartialEq, Eq, Structural)]
pub enum SelectionError {
    /// No artifact looks like the main package.
    NoCandidate,
    /// The artifacts at `first` and `second` both look like the main package.
    Ambiguous { first: usize, second: usize },
}

/// The artifact that the final check looks at: the only one that looks
/// like the main package.
pub open spec fn selection(artifacts: Seq<Seq<char>>, package: PackageModel) -> Result<
    usize,
    SelectionError,
> {
    match first_primary(artifacts, package, 0) {
        None => Err(SelectionError::NoCandidate),
        Some(first) => match first_primary(artifacts, package, first + 1) {
            None => Ok(first as usize),
            Some(second) => Err(
                SelectionError::Ambiguous { first: first as usize, second: second as usize },
            ),
        },
    }
}

/// What a search for the main package finds.
pub proof fn lemma_first_primary(artifacts: Seq<Seq<char>>, package: PackageModel, from: int)
    requires
        0 <= from <= artifacts.len(),
    ensures
        match first_primary(artifacts, package, from) {
            Some(i) => from <= i < artifacts.len() && is_primary(artifacts[i], package)
                && forall|k: int| from <= k < i ==> !is_primary(#[trigger] artifacts[k], package),
            None => forall|k: int|
                from <= k < artifacts.len() ==> !is_primary(#[trigger] artifacts[k], package),
        },
    decreases artifacts.len() - from,
{
    if from < artifacts.len() && !is_primary(artifacts[from], package) {
        lemma_first_primary(artifacts, package, from + 1);
    }
}

/// An artifact is picked exactly when it is the only one that looks like
/// the main package.
pub proof fn lemma_selection(artifacts: Seq<Seq<char>>, package: PackageModel)
    requires
        artifacts.len() <= usize::MAX,
    ensures
        match selection(artifacts, package) {
            Ok(i) => i < artifacts.len() && forall|k: int|
                0 <= k < artifacts.len() ==> (is_primary(#[trigger] artifacts[k], package) <==> k
                    == i),
            Err(SelectionError::NoCandidate) => forall|k: int|
                0 <= k < artifacts.len() ==> !is_primary(#[trigger] artifacts[k], package),
            Err(SelectionError::Ambiguous { first, second }) => first < second < artifacts.len()
                && is_primary(artifacts[first as int], package) && is_primary(
                artifacts[second as int],
                package,
            ),
        },
{
    lemma_first_primary(artifacts, package, 0);
    match first_primary(artifacts, package, 0) {
        Some(first) => {
            lemma_first_primary(artifacts, package, first + 1);
        },
        None => {},
    }
}

/// Whether the file at `path` looks like the main package.
pub fn looks_primary(path: &str, package: &PackageIdentity) -> (r: bool)
    ensures
        r == is_primary(path@, package@),
{
    let name = match file_name(path) {
        Some(name) => chars_of(name.as_str()),
        None => Vec::new(),
    };
    let root = archive_root(package);
    let prefix = chars_of(root.as_str());
    let info = chars_of("debuginfo");
    let source = chars_of("debugsource");
    let srpm = chars_of(".src.rpm");
    starts_with(&name, &prefix) && !contains(&name, &info) && !contains(&name, &source)
        && !contains(&name, &srpm)
}

/// Picks the artifact that the final check looks at.
pub fn primary_artifact(artifacts: &Vec<String>, package: &PackageIdentity) -> (r: Result<
    usize,
    SelectionError,
>)
    ensures
        r == selection(artifacts.deep_view(), package@),
{
    let ghost list = artifacts.deep_view();
    let mut first: Option<usize> = None;
    let mut i: usize = 0;
    while i < artifacts.len()
        invariant
            i <= artifacts.len(),
            list == artifacts.deep_view(),
            match first {
                None => first_primary(list, package@, 0) == first_primary(list, package@, i as int),
                Some(f) => f < i && first_primary(list, package@, 0) == Some(f as int)
                    && first_primary(list, package@, f + 1) == first_primary(
                    list,
                    package@,
                    i as int,
                ),
            },
        decreases artifacts.len() - i,
    {
        assert(list[i as int] == artifacts[i as int]@);
        if looks_primary(artifacts[i].as_str(), package) {
            match first {
                None => {
                    first = Some(i);
                },
                Some(f) => {
                    return Err(SelectionError::Ambiguous { first: f, second: i });
                },
            }
        }
        i += 1;
    }
    match first {
        Some(f) => Ok(f),
        None => Err(SelectionError::NoCandidate),
    }
}

} // verus!
