//! What goes into the content archive: for every file asset the file on
//! disk that it is read from and the name it gets inside the archive.

use vstd::prelude::*;
use crate::config::{Asset, AssetModel, RevolveConfig, RevolveConfigModel};
use crate::definitions::{PackageIdentity, PackageModel};
use crate::layout::{archive_root, archive_root_text};
use crate::paths::{base_name, file_name, join, joined};
use crate::text::{chars_of, has_prefix, starts_with};

verus! {

/// One file of the content archive.
#[derive(Debug, Clone, PartialEq, Eq)]
pub struct ArchiveEntry {
    /// The file on disk.
    pub source_path: String,
    /// Its path inside the archive: the archive's root directory and the
    /// file's own name.  None when the file on disk has no name.
    pub entry_name: Option<String>,
}

/// Mathematical model of an [`ArchiveEntry`].
pub struct ArchiveEntryModel {
    pub source_path: Seq<char>,
    pub entry_name: Option<Seq<char>>,
}

impl DeepView for ArchiveEntry {
    type V = ArchiveEntryModel;

    open spec fn deep_view(&self) -> ArchiveEntryModel {
        ArchiveEntryModel {
            source_path: self.source_path@,
            entry_name: self.entry_name.deep_view(),
        }
    }
}

impl View for ArchiveEntry {
    type V = ArchiveEntryModel;

    open spec fn view(&self) -> ArchiveEntryModel {
        self.deep_view()
    }
}

/// A declared asset is not on disk when the archive is packed.
#[derive(Debug, Clone, PartialEq, Eq)]
pub struct MissingAssetError {
    /// Where the file was looked for.
    pub path: String,
}

/// What marks a source as a build output.
pub open spec fn output_prefix() -> Seq<char> {
    "target/"@
}

/// The file on disk that the source of an asset stands for: a build output
/// lies below the directory that build outputs go to, everything else
/// below the project.
pub open spec fn source_on_disk(source: Seq<char>, project_dir: Seq<char>, target_dir: Seq<char>) -> Seq<
    char,
> {
    if has_prefix(source, output_prefix()) {
        joined(target_dir, source.skip(output_prefix().len() as int))
    } else {
        joined(project_dir, source)
    }
}

/// The archive entry of one asset.  The archive is flat: whatever the
/// directory of the file, its entry lies right below the archive's root.
pub open spec fn entry_of(
    asset: AssetModel,
    package: PackageModel,
    project_dir: Seq<char>,
    target_dir: Seq<char>,
) -> ArchiveEntryModel {
    let source_path = source_on_disk(asset.source, project_dir, target_dir);
    ArchiveEntryModel {
        source_path,
        entry_name: match base_name(source_path) {
            Some(name) => Some(joined(archive_root_text(package), name)),
            None => None,
        },
    }
}

/// The entries of the content archive: one for each asset, in order.
pub open spec fn entries_of(
    config: RevolveConfigModel,
    package: PackageModel,
    project_dir: Seq<char>,
    target_dir: Seq<char>,
) -> Seq<ArchiveEntryModel> {
    match config.assets {
        Some(assets) => Seq::new(
            assets.len(),
            |i: int| entry_of(assets[i], package, project_dir, target_dir),
        ),
        None => Seq::empty(),
    }
}

/// The file on disk that the source of an asset stands for.
pub fn resolve_source(source: &str, project_dir: &str, target_dir: &str) -> (r: String)
    ensures
        r@ == source_on_disk(source@, project_dir@, target_dir@),
{
    let chars = chars_of(source);
    let prefix = chars_of("target/");
    proof {
        reveal_strlit("target/");
    }
    if starts_with(&chars, &prefix) {
        let rest = source.substring_char(prefix.len(), chars.len());
        assert(rest@ =~= source@.skip(output_prefix().len() as int));
        join(target_dir, rest)
    } else {
        join(project_dir, source)
    }
}

/// The archive entry of one asset.
pub fn archive_entry(asset: &Asset, package: &PackageIdentity, project_dir: &str, target_dir: &str) -> (r:
    ArchiveEntry)
    ensures
        r@ == entry_of(asset@, package@, project_dir@, target_dir@),
{
    let source_path = resolve_source(asset.source.as_str(), project_dir, target_dir);
    let entry_name = match file_name(source_path.as_str()) {
        Some(name) => {
            let root = archive_root(package);
            Some(join(root.as_str(), name.as_str()))
        },
        None => None,
    };
    ArchiveEntry { source_path, entry_name }
}

/// The entries of the content archive of a build.
pub fn archive_plan(
    config: &RevolveConfig,
    package: &PackageIdentity,
    project_dir: &str,
    target_dir: &str,
) -> (r: Vec<ArchiveEntry>)
    ensures
        r.deep_view() == entries_of(config@, package@, project_dir@, target_dir@),
{
    let mut out: Vec<ArchiveEntry> = Vec::new();
    match &config.assets {
        Some(assets) => {
            let mut i: usize = 0;
            while i < assets.len()
                invariant
                    i <= assets.len(),
                    out.len() == i,
                    forall|k: int|
                        0 <= k < out.len() ==> (#[trigger] out[k])@ == entry_of(
                            assets[k]@,
                            package@,
                            project_dir@,
                            target_dir@,
                        ),
                decreases assets.len() - i,
            {
                out.push(archive_entry(&assets[i], package, project_dir, target_dir));
                i += 1;
            }
            assert(out.deep_view() =~= entries_of(config@, package@, project_dir@, target_dir@));
        },
        None => {
            assert(out.deep_view() =~= entries_of(config@, package@, project_dir@, target_dir@));
        },
    }
    out
}

impl MissingAssetError {
    /// The error in words: the file that was expected, and what to do
    /// about it.
    pub open spec fn message_text(path: Seq<char>) -> Seq<char> {
        "Asset source file not found: "@ + path
            + ". Please run 'cargo build' first or ensure the path is correct."@
    }

    /// The error in words.
    pub fn message(&self) -> (r: String)
        ensures
            r@ == Self::message_text(self.path@),
    {
        let mut out = "Asset source file not found: ".to_owned();
        out.append(self.path.as_str());
        out.append(". Please run 'cargo build' first or ensure the path is correct.");
        out
    }
}

/// What the archive stage makes of an entry whose file is looked for on
/// disk: an error that names the file when it is not there.
pub fn require_on_disk(entry: &ArchiveEntry, exists: bool) -> (r: Result<(), MissingAssetError>)
    ensures
        exists ==> r is Ok,
        !exists ==> r is Err && r->Err_0.path@ == entry.source_path@,
{
    if exists {
        Ok(())
    } else {
        Err(MissingAssetError { path: entry.source_path.clone() })
    }
}

} // verus!
