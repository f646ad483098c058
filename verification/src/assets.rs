//! Expansion of declared assets into a flat, conflict-free file manifest and
//! the list of directories that the package creates itself.
//!
//! The disk is an input here: whoever calls [`expand`] walks each declared
//! directory beforehand and hands the findings over as a [`TreeScan`].

use vstd::prelude::*;
use crate::assets_proofs::{lemma_expansion, well_formed};
use crate::config::{Asset, AssetModel};
use crate::paths::{
    containing_dir, is_directory_source, join, joined, names_directory, parent_dir, same_path,
    PathParts,
};
use crate::sorting::{sort_strings, sorted_of};
use crate::text::copy_optional;

verus! {

/// One entry met while walking the source directory of an asset.
#[derive(Debug, Clone, PartialEq, Eq)]
pub struct TreeEntry {
    /// Path below the walked directory; empty for that directory itself.
    pub relative: String,
    /// Path below the project root.
    pub source: String,
    /// Whether the entry is a directory.
    pub is_dir: bool,
}

/// Mathematical model of a [`TreeEntry`].
pub struct TreeEntryModel {
    pub relative: Seq<char>,
    pub source: Seq<char>,
    pub is_dir: bool,
}

impl DeepView for TreeEntry {
    type V = TreeEntryModel;

    open spec fn deep_view(&self) -> TreeEntryModel {
        TreeEntryModel { relative: self.relative@, source: self.source@, is_dir: self.is_dir }
    }
}

impl View for TreeEntry {
    type V = TreeEntryModel;

    open spec fn view(&self) -> TreeEntryModel {
        self.deep_view()
    }
}

/// What walking the source of one declared directory asset gave.
#[derive(Debug, Clone, PartialEq, Eq)]
pub struct TreeScan {
    /// Whether the source exists and is a directory.
    pub is_directory: bool,
    /// The entries in the order they were met, the directory itself included.
    pub entries: Vec<TreeEntry>,
    /// Why the walk stopped early, if it did; `entries` then holds what came
    /// before.
    pub failure: Option<String>,
}

/// Mathematical model of a [`TreeScan`].
pub struct TreeScanModel {
    pub is_directory: bool,
    pub entries: Seq<TreeEntryModel>,
    pub failure: Option<Seq<char>>,
}

impl DeepView for TreeScan {
    type V = TreeScanModel;

    open spec fn deep_view(&self) -> TreeScanModel {
        TreeScanModel {
            is_directory: self.is_directory,
            entries: self.entries.deep_view(),
            failure: self.failure.deep_view(),
        }
    }
}

impl View for TreeScan {
    type V = TreeScanModel;

    open spec fn view(&self) -> TreeScanModel {
        self.deep_view()
    }
}

/// The flat manifest of one build run.
#[derive(Debug, Clone, PartialEq, Eq)]
pub struct ResolvedManifest {
    /// File assets only, no two with the same destination.
    pub files: Vec<Asset>,
    /// Directories that the package creates, in ascending order.
    pub directories: Vec<String>,
}

/// Mathematical model of a [`ResolvedManifest`].
pub struct ManifestModel {
    pub files: Seq<AssetModel>,
    pub directories: Seq<Seq<char>>,
}

impl DeepView for ResolvedManifest {
    type V = ManifestModel;

    open spec fn deep_view(&self) -> ManifestModel {
        ManifestModel {
            files: self.files.deep_view(),
            directories: self.directories.deep_view(),
        }
    }
}

impl View for ResolvedManifest {
    type V = ManifestModel;

    open spec fn view(&self) -> ManifestModel {
        self.deep_view()
    }
}

/// Why a declared asset list cannot be expanded.
#[derive(Debug, Clone, PartialEq, Eq)]
pub enum ConfigError {
    /// A source written as a directory is no directory on disk.
    InvalidAssetSource { source: String },
    /// Two files claim one destination.
    DuplicateDestination { dest: String, first: String, second: String },
    /// Walking a source directory stopped with an error.
    UnreadableSource { source: String, detail: String },
}

/// Mathematical model of a [`ConfigError`].
pub enum ConfigErrorModel {
    InvalidAssetSource { source: Seq<char> },
    DuplicateDestination { dest: Seq<char>, first: Seq<char>, second: Seq<char> },
    UnreadableSource { source: Seq<char>, detail: Seq<char> },
}

impl DeepView for ConfigError {
    type V = ConfigErrorModel;

    open spec fn deep_view(&self) -> ConfigErrorModel {
        match self {
            ConfigError::InvalidAssetSource { source } => ConfigErrorModel::InvalidAssetSource {
                source: source@,
            },
            ConfigError::DuplicateDestination {
                dest,
                first,
                second,
            } => ConfigErrorModel::DuplicateDestination {
                dest: dest@,
                first: first@,
                second: second@,
            },
            ConfigError::UnreadableSource { source, detail } => ConfigErrorModel::UnreadableSource {
                source: source@,
                detail: detail@,
            },
        }
    }
}

impl View for ConfigError {
    type V = ConfigErrorModel;

    open spec fn view(&self) -> ConfigErrorModel {
        self.deep_view()
    }
}

/// The first index at or after `from` whose entry spells the same path as
/// `p`.
pub open spec fn position(list: Seq<Seq<char>>, p: Seq<char>, from: int) -> Option<int>
    decreases list.len() - from,
{
    if from < 0 || from >= list.len() {
        None
    } else if same_path(list[from], p) {
        Some(from)
    } else {
        position(list, p, from + 1)
    }
}

/// The destinations of `files`, in order.
pub open spec fn dests(files: Seq<AssetModel>) -> Seq<Seq<char>> {
    Seq::new(files.len(), |i: int| files[i].dest)
}

/// What has been resolved so far.
pub struct Resolution {
    /// The file assets accepted so far.
    pub files: Seq<AssetModel>,
    /// For each accepted file, the declared source that brought it.
    pub owners: Seq<Seq<char>>,
    /// The directories to create, each path once, in order of first mention.
    pub dirs: Seq<Seq<char>>,
}

/// Nothing resolved yet.
pub open spec fn nothing() -> Resolution {
    Resolution { files: Seq::empty(), owners: Seq::empty(), dirs: Seq::empty() }
}

/// `st` with the directory `dir`, unless the path is already there.
pub open spec fn with_dir(st: Resolution, dir: Seq<char>) -> Resolution {
    if position(st.dirs, dir, 0) is Some {
        st
    } else {
        Resolution { dirs: st.dirs.push(dir), ..st }
    }
}

/// `st` with one more file, brought by the declared source `owner`; an error
/// when its destination is taken.
pub open spec fn with_file(st: Resolution, file: AssetModel, owner: Seq<char>) -> Result<
    Resolution,
    ConfigErrorModel,
> {
    match position(dests(st.files), file.dest, 0) {
        Some(j) => Err(
            ConfigErrorModel::DuplicateDestination {
                dest: file.dest,
                first: st.owners[j],
                second: owner,
            },
        ),
        None => Ok(
            Resolution { files: st.files.push(file), owners: st.owners.push(owner), ..st },
        ),
    }
}

/// The file that the entry `entry` of a walked directory asset stands for.
pub open spec fn entry_file(asset: AssetModel, entry: TreeEntryModel) -> AssetModel {
    AssetModel {
        source: entry.source,
        dest: joined(asset.dest, entry.relative),
        mode: asset.mode,
        mkdir: asset.mkdir,
    }
}

/// `st` after the entries of a walked directory asset from index `from` on:
/// a directory is noted when the asset creates its directories, anything
/// else becomes a file below the asset's destination.
pub open spec fn with_entries(
    st: Resolution,
    asset: AssetModel,
    entries: Seq<TreeEntryModel>,
    from: int,
) -> Result<Resolution, ConfigErrorModel>
    decreases entries.len() - from,
{
    if from < 0 || from >= entries.len() {
        Ok(st)
    } else if entries[from].is_dir {
        let next = if asset.mkdir {
            with_dir(st, joined(asset.dest, entries[from].relative))
        } else {
            st
        };
        with_entries(next, asset, entries, from + 1)
    } else {
        match with_file(st, entry_file(asset, entries[from]), asset.source) {
            Ok(next) => with_entries(next, asset, entries, from + 1),
            Err(e) => Err(e),
        }
    }
}

/// `st` after a directory asset whose source was walked as `scan`.
pub open spec fn with_tree(st: Resolution, asset: AssetModel, scan: TreeScanModel) -> Result<
    Resolution,
    ConfigErrorModel,
> {
    if !scan.is_directory {
        Err(ConfigErrorModel::InvalidAssetSource { source: asset.source })
    } else {
        let start = if asset.mkdir {
            with_dir(st, asset.dest)
        } else {
            st
        };
        match with_entries(start, asset, scan.entries, 0) {
            Err(e) => Err(e),
            Ok(next) => match scan.failure {
                Some(detail) => Err(
                    ConfigErrorModel::UnreadableSource { source: asset.source, detail },
                ),
                None => Ok(next),
            },
        }
    }
}

/// `st` after a file asset: the asset itself, and the directory that holds
/// its destination when the asset creates its directories.
pub open spec fn with_single(st: Resolution, asset: AssetModel) -> Result<
    Resolution,
    ConfigErrorModel,
> {
    let start = match containing_dir(asset.dest) {
        Some(dir) if asset.mkdir => with_dir(st, dir),
        _ => st,
    };
    with_file(start, asset, asset.source)
}

/// The scan that belongs to the asset at `index`; a source that nobody
/// walked counts as no directory.
pub open spec fn scan_at(scans: Seq<TreeScanModel>, index: int) -> TreeScanModel {
    if 0 <= index < scans.len() {
        scans[index]
    } else {
        TreeScanModel { is_directory: false, entries: Seq::empty(), failure: None }
    }
}

/// `st` after one declared asset.
pub open spec fn with_asset(st: Resolution, asset: AssetModel, scan: TreeScanModel) -> Result<
    Resolution,
    ConfigErrorModel,
> {
    if is_directory_source(asset.source) {
        with_tree(st, asset, scan)
    } else {
        with_single(st, asset)
    }
}

/// `st` after the declared assets from index `from` on, in order; the first
/// error ends it.
pub open spec fn with_assets(
    st: Resolution,
    assets: Seq<AssetModel>,
    scans: Seq<TreeScanModel>,
    from: int,
) -> Result<Resolution, ConfigErrorModel>
    decreases assets.len() - from,
{
    if from < 0 || from >= assets.len() {
        Ok(st)
    } else {
        match with_asset(st, assets[from], scan_at(scans, from)) {
            Ok(next) => with_assets(next, assets, scans, from + 1),
            Err(e) => Err(e),
        }
    }
}

/// The manifest that a finished resolution stands for.
pub open spec fn manifest_of(st: Resolution) -> ManifestModel {
    ManifestModel { files: st.files, directories: sorted_of(st.dirs) }
}

/// What expanding `assets` gives, `scans[i]` being what walking the source
/// of `assets[i]` gave.
pub open spec fn expansion(assets: Seq<AssetModel>, scans: Seq<TreeScanModel>) -> Result<
    ManifestModel,
    ConfigErrorModel,
> {
    match with_assets(nothing(), assets, scans, 0) {
        Ok(st) => Ok(manifest_of(st)),
        Err(e) => Err(e),
    }
}

/// The spellings that `keys` were read from.
pub open spec fn texts(keys: Seq<PathParts>) -> Seq<Seq<char>> {
    Seq::new(keys.len(), |i: int| keys[i].text())
}

/// The index of the first of `keys` that names the same path as `probe`.
fn find(keys: &Vec<PathParts>, probe: &PathParts) -> (r: Option<usize>)
    requires
        probe.wf(),
        forall|i: int| 0 <= i < keys.len() ==> (#[trigger] keys[i]).wf(),
    ensures
        match position(texts(keys@), probe.text(), 0) {
            Some(j) => r == Some(j as usize) && 0 <= j < keys.len(),
            None => r is None,
        },
{
    let ghost list = texts(keys@);
    let mut i: usize = 0;
    while i < keys.len()
        invariant
            i <= keys.len(),
            probe.wf(),
            list == texts(keys@),
            forall|k: int| 0 <= k < keys.len() ==> (#[trigger] keys[k]).wf(),
            position(list, probe.text(), 0) == position(list, probe.text(), i as int),
        decreases keys.len() - i,
    {
        assert(list[i as int] == keys[i as int].text());
        if keys[i].same(probe) {
            return Some(i);
        }
        i += 1;
    }
    None
}

/// Collects files and directories asset by asset.
pub struct Resolver {
    files: Vec<Asset>,
    file_keys: Vec<PathParts>,
    owners: Vec<String>,
    dirs: Vec<String>,
    dir_keys: Vec<PathParts>,
}

impl Resolver {
    /// What has been collected.
    pub closed spec fn model(&self) -> Resolution {
        Resolution {
            files: self.files.deep_view(),
            owners: self.owners.deep_view(),
            dirs: self.dirs.deep_view(),
        }
    }

    /// Each recorded path key belongs to the file or directory beside it.
    pub closed spec fn wf(&self) -> bool {
        &&& self.owners.len() == self.files.len()
        &&& self.file_keys.len() == self.files.len()
        &&& self.dir_keys.len() == self.dirs.len()
        &&& forall|i: int|
            0 <= i < self.file_keys.len() ==> (#[trigger] self.file_keys[i]).wf()
                && self.file_keys[i].text() == self.files[i].dest@
        &&& forall|i: int|
            0 <= i < self.dir_keys.len() ==> (#[trigger] self.dir_keys[i]).wf()
                && self.dir_keys[i].text() == self.dirs[i]@
    }

    /// A resolver that holds nothing.
    pub fn new() -> (r: Resolver)
        ensures
            r.wf(),
            r.model() == nothing(),
    {
        let r = Resolver {
            files: Vec::new(),
            file_keys: Vec::new(),
            owners: Vec::new(),
            dirs: Vec::new(),
            dir_keys: Vec::new(),
        };
        assert(r.files.deep_view() =~= Seq::<AssetModel>::empty());
        assert(r.owners.deep_view() =~= Seq::<Seq<char>>::empty());
        assert(r.dirs.deep_view() =~= Seq::<Seq<char>>::empty());
        r
    }

    /// Notes a directory to create, unless its path is already noted.
    pub fn add_dir(&mut self, dir: String)
        requires
            old(self).wf(),
        ensures
            final(self).wf(),
            final(self).model() == with_dir(old(self).model(), dir@),
    {
        let key = PathParts::read(dir.as_str());
        proof {
            assert(texts(self.dir_keys@) =~= self.dirs.deep_view());
        }
        if find(&self.dir_keys, &key).is_none() {
            let ghost before = self.dirs.deep_view();
            self.dirs.push(dir);
            self.dir_keys.push(key);
            assert(self.dirs.deep_view() =~= before.push(dir@));
        }
    }

    /// Accepts one more file, brought by the declared source `owner`, or
    /// refuses it when its destination is taken; a refusal changes nothing.
    pub fn add_file(&mut self, file: Asset, owner: &str) -> (r: Result<(), ConfigError>)
        requires
            old(self).wf(),
        ensures
            final(self).wf(),
            match with_file(old(self).model(), file@, owner@) {
                Ok(st) => r is Ok && final(self).model() == st,
                Err(e) => r is Err && r->Err_0@ == e && final(self).model() == old(self).model(),
            },
    {
        let key = PathParts::read(file.dest.as_str());
        proof {
            assert(texts(self.file_keys@) =~= dests(self.files.deep_view()));
        }
        match find(&self.file_keys, &key) {
            Some(j) => {
                assert(self.owners.deep_view()[j as int] == self.owners[j as int]@);
                Err(
                    ConfigError::DuplicateDestination {
                        dest: file.dest,
                        first: self.owners[j].clone(),
                        second: owner.to_owned(),
                    },
                )
            },
            None => {
                let ghost files = self.files.deep_view();
                let ghost owners = self.owners.deep_view();
                let ghost added = file@;
                self.files.push(file);
                self.file_keys.push(key);
                self.owners.push(owner.to_owned());
                assert(self.files.deep_view() =~= files.push(added));
                assert(self.owners.deep_view() =~= owners.push(owner@));
                Ok(())
            },
        }
    }

    /// Takes in the entries of a walked directory asset.
    fn add_entries(&mut self, asset: &Asset, entries: &Vec<TreeEntry>) -> (r: Result<
        (),
        ConfigError,
    >)
        requires
            old(self).wf(),
        ensures
            final(self).wf(),
            match with_entries(old(self).model(), asset@, entries.deep_view(), 0) {
                Ok(st) => r is Ok && final(self).model() == st,
                Err(e) => r is Err && r->Err_0@ == e,
            },
    {
        let ghost start = self.model();
        let ghost list = entries.deep_view();
        let mut i: usize = 0;
        while i < entries.len()
            invariant
                i <= entries.len(),
                self.wf(),
                start == old(self).model(),
                list == entries.deep_view(),
                with_entries(start, asset@, list, 0) == with_entries(
                    self.model(),
                    asset@,
                    list,
                    i as int,
                ),
            decreases entries.len() - i,
        {
            let entry = &entries[i];
            assert(list[i as int] == entry@);
            let dest = join(asset.dest.as_str(), entry.relative.as_str());
            if entry.is_dir {
                if asset.mkdir {
                    self.add_dir(dest);
                }
            } else {
                let file = Asset {
                    source: entry.source.clone(),
                    dest,
                    mode: copy_optional(&asset.mode),
                    mkdir: asset.mkdir,
                };
                assert(file@ == entry_file(asset@, entry@));
                let ghost before = self.model();
                match self.add_file(file, asset.source.as_str()) {
                    Ok(()) => {},
                    Err(e) => {
                        assert(with_entries(before, asset@, list, i as int) == Err::<
                            Resolution,
                            ConfigErrorModel,
                        >(e@));
                        return Err(e);
                    },
                }
            }
            i += 1;
        }
        Ok(())
    }

    /// Takes in one declared asset; `scan` is what walking its source gave
    /// and is looked at for a directory asset only.  After a refusal the
    /// resolver is of no further use.
    pub fn add(&mut self, asset: &Asset, scan: &TreeScan) -> (r: Result<(), ConfigError>)
        requires
            old(self).wf(),
        ensures
            final(self).wf(),
            match with_asset(old(self).model(), asset@, scan@) {
                Ok(st) => r is Ok && final(self).model() == st,
                Err(e) => r is Err && r->Err_0@ == e,
            },
    {
        if names_directory(asset.source.as_str()) {
            if !scan.is_directory {
                return Err(ConfigError::InvalidAssetSource { source: asset.source.clone() });
            }
            if asset.mkdir {
                self.add_dir(asset.dest.clone());
            }
            match self.add_entries(asset, &scan.entries) {
                Ok(()) => {},
                Err(e) => {
                    return Err(e);
                },
            }
            match &scan.failure {
                Some(detail) => Err(
                    ConfigError::UnreadableSource {
                        source: asset.source.clone(),
                        detail: detail.clone(),
                    },
                ),
                None => Ok(()),
            }
        } else {
            if asset.mkdir {
                match parent_dir(asset.dest.as_str()) {
                    Some(dir) => {
                        self.add_dir(dir);
                    },
                    None => {},
                }
            }
            self.add_file(asset.duplicate(), asset.source.as_str())
        }
    }

    /// The manifest of what has been collected.
    pub fn finish(self) -> (r: ResolvedManifest)
        requires
            self.wf(),
        ensures
            r@ == manifest_of(self.model()),
    {
        let directories = sort_strings(&self.dirs);
        ResolvedManifest { files: self.files, directories }
    }
}

/// Expands the declared `assets` into a manifest.  `scans[i]` tells what
/// walking the source of `assets[i]` gave; it is looked at for a directory
/// asset only, and a directory asset without one counts as missing on disk.
pub fn expand(assets: &Vec<Asset>, scans: &Vec<TreeScan>) -> (r: Result<
    ResolvedManifest,
    ConfigError,
>)
    ensures
        match expansion(assets.deep_view(), scans.deep_view()) {
            Ok(m) => r is Ok && r->Ok_0@ == m,
            Err(e) => r is Err && r->Err_0@ == e,
        },
        r is Ok ==> well_formed(r->Ok_0@),
{
    proof {
        lemma_expansion(assets.deep_view(), scans.deep_view());
    }
    let mut resolver = Resolver::new();
    let absent = TreeScan { is_directory: false, entries: Vec::new(), failure: None };
    assert(absent.entries.deep_view() =~= Seq::<TreeEntryModel>::empty());
    let ghost list = assets.deep_view();
    let ghost walked = scans.deep_view();
    let mut i: usize = 0;
    while i < assets.len()
        invariant
            i <= assets.len(),
            resolver.wf(),
            list == assets.deep_view(),
            walked == scans.deep_view(),
            absent@ == scan_at(walked, walked.len() as int),
            with_assets(nothing(), list, walked, 0) == with_assets(
                resolver.model(),
                list,
                walked,
                i as int,
            ),
        decreases assets.len() - i,
    {
        assert(list[i as int] == assets[i as int]@);
        let scan = if i < scans.len() {
            assert(walked[i as int] == scans[i as int]@);
            &scans[i]
        } else {
            &absent
        };
        assert(scan@ == scan_at(walked, i as int));
        match resolver.add(&assets[i], scan) {
            Ok(()) => {},
            Err(e) => {
                return Err(e);
            },
        }
        i += 1;
    }
    Ok(resolver.finish())
}

impl ConfigError {
    /// The error in words.
    pub open spec fn message_text(error: ConfigErrorModel) -> Seq<char> {
        match error {
            ConfigErrorModel::InvalidAssetSource { source } => "Asset source '"@ + source
                + "' is marked as a directory (ends with '/') but is not a directory on disk."@,
            ConfigErrorModel::DuplicateDestination { dest, first, second } =>
                "Duplicate asset destination found: '"@ + dest + "'.\n  - Provided by source: '"@
                + first + "'\n  - Also provided by source: '"@ + second + "'"@,
            ConfigErrorModel::UnreadableSource { source, detail } => "Asset source '"@ + source
                + "' could not be read: "@ + detail,
        }
    }

    /// The error in words; a clash of destinations names the destination and
    /// both sources.
    pub fn message(&self) -> (r: String)
        ensures
            r@ == Self::message_text(self@),
    {
        match self {
            ConfigError::InvalidAssetSource { source } => {
                let mut out = "Asset source '".to_owned();
                out.append(source.as_str());
                out.append(
                    "' is marked as a directory (ends with '/') but is not a directory on disk.",
                );
                out
            },
            ConfigError::DuplicateDestination { dest, first, second } => {
                let mut out = "Duplicate asset destination found: '".to_owned();
                out.append(dest.as_str());
                out.append("'.\n  - Provided by source: '");
                out.append(first.as_str());
                out.append("'\n  - Also provided by source: '");
                out.append(second.as_str());
                out.append("'");
                out
            },
            ConfigError::UnreadableSource { source, detail } => {
                let mut out = "Asset source '".to_owned();
                out.append(source.as_str());
                out.append("' could not be read: ");
                out.append(detail.as_str());
                out
            },
        }
    }
}

} // verus!
