//! Checking a produced package against what was declared: its identity, and
//! for every declared asset its installed path and permission bits.  Every
//! mismatch is gathered; none ends the check early.

use vstd::prelude::*;
use crate::config::{AssetModel, RevolveConfig, RevolveConfigModel};
use crate::definitions::{PackageIdentity, PackageModel};
use crate::numbers::{decimal, decimal_text, octal_value, parse_octal};
use crate::paths::{same_path, PathParts};
use crate::text::texts_equal;

verus! {

/// One file as a package records it.
#[derive(Debug, Clone, PartialEq, Eq)]
pub struct PackageFile {
    /// The installed path.
    pub path: String,
    /// The recorded mode: file type and permission bits.
    pub mode: u16,
}

/// Mathematical model of a [`PackageFile`].
pub struct PackageFileModel {
    pub path: Seq<char>,
    pub mode: u16,
}

impl DeepView for PackageFile {
    type V = PackageFileModel;

    open spec fn deep_view(&self) -> PackageFileModel {
        PackageFileModel { path: self.path@, mode: self.mode }
    }
}

impl View for PackageFile {
    type V = PackageFileModel;

    open spec fn view(&self) -> PackageFileModel {
        self.deep_view()
    }
}

/// What a produced package says of itself.
#[derive(Debug, Clone, PartialEq, Eq)]
pub struct PackageRecord {
    pub name: String,
    pub version: String,
    pub license: Option<String>,
    pub summary: Option<String>,
    pub files: Vec<PackageFile>,
}

/// Mathematical model of a [`PackageRecord`].
pub struct PackageRecordModel {
    pub name: Seq<char>,
    pub version: Seq<char>,
    pub license: Option<Seq<char>>,
    pub summary: Option<Seq<char>>,
    pub files: Seq<PackageFileModel>,
}

impl DeepView for PackageRecord {
    type V = PackageRecordModel;

    open spec fn deep_view(&self) -> PackageRecordModel {
        PackageRecordModel {
            name: self.name@,
            version: self.version@,
            license: self.license.deep_view(),
            summary: self.summary.deep_view(),
            files: self.files.deep_view(),
        }
    }
}

impl View for PackageRecord {
    type V = PackageRecordModel;

    open spec fn view(&self) -> PackageRecordModel {
        self.deep_view()
    }
}

/// One way in which a package differs from what was declared.
#[derive(Debug, Clone, PartialEq, Eq)]
pub enum Issue {
    NameMismatch { expected: String, found: String },
    VersionMismatch { expected: String, found: String },
    LicenseMismatch { expected: String, found: String },
    SummaryMismatch { expected: String, found: String },
    /// A declared destination is not among the package's files.
    MissingFile { dest: String },
    /// The permission bits of a file are not the declared ones.
    ModeMismatch { dest: String, expected: u16, found: u16 },
}

/// Mathematical model of an [`Issue`].
pub enum IssueModel {
    NameMismatch { expected: Seq<char>, found: Seq<char> },
    VersionMismatch { expected: Seq<char>, found: Seq<char> },
    LicenseMismatch { expected: Seq<char>, found: Seq<char> },
    SummaryMismatch { expected: Seq<char>, found: Seq<char> },
    MissingFile { dest: Seq<char> },
    ModeMismatch { dest: Seq<char>, expected: u16, found: u16 },
}

impl DeepView for Issue {
    type V = IssueModel;

    open spec fn deep_view(&self) -> IssueModel {
        match self {
            Issue::NameMismatch { expected, found } => IssueModel::NameMismatch {
                expected: expected@,
                found: found@,
            },
            Issue::VersionMismatch { expected, found } => IssueModel::VersionMismatch {
                expected: expected@,
                found: found@,
            },
            Issue::LicenseMismatch { expected, found } => IssueModel::LicenseMismatch {
                expected: expected@,
                found: found@,
            },
            Issue::SummaryMismatch { expected, found } => IssueModel::SummaryMismatch {
                expected: expected@,
                found: found@,
            },
            Issue::MissingFile { dest } => IssueModel::MissingFile { dest: dest@ },
            Issue::ModeMismatch { dest, expected, found } => IssueModel::ModeMismatch {
                dest: dest@,
                expected: *expected,
                found: *found,
            },
        }
    }
}

impl View for Issue {
    type V = IssueModel;

    open spec fn view(&self) -> IssueModel {
        self.deep_view()
    }
}

/// Why a package does not pass.
#[derive(Debug, Clone, PartialEq, Eq)]
pub enum VerificationError {
    /// A declared mode is no octal number; `before` holds the issues found
    /// up to there.
    InvalidMode { mode: String, source: String, before: Vec<Issue> },
    /// The package differs from what was declared, in every way listed.
    Mismatch { issues: Vec<Issue> },
}

/// Mathematical model of a [`VerificationError`].
pub enum VerificationErrorModel {
    InvalidMode { mode: Seq<char>, source: Seq<char>, before: Seq<IssueModel> },
    Mismatch { issues: Seq<IssueModel> },
}

impl DeepView for VerificationError {
    type V = VerificationErrorModel;

    open spec fn deep_view(&self) -> VerificationErrorModel {
        match self {
            VerificationError::InvalidMode {
                mode,
                source,
                before,
            } => VerificationErrorModel::InvalidMode {
                mode: mode@,
                source: source@,
                before: before.deep_view(),
            },
            VerificationError::Mismatch { issues } => VerificationErrorModel::Mismatch {
                issues: issues.deep_view(),
            },
        }
    }
}

impl View for VerificationError {
    type V = VerificationErrorModel;

    open spec fn view(&self) -> VerificationErrorModel {
        self.deep_view()
    }
}

/// What stands for a license or summary that a package does not carry.
pub open spec fn absent_text() -> Seq<char> {
    seq!['N', '/', 'A']
}

/// The permission bits of a recorded mode: its low twelve bits.
pub open spec fn permission_bits(mode: u16) -> u16 {
    mode & 0o7777
}

/// The index of the entry that a package holds for the path `dest`: of
/// several entries for one path the last counts.
pub open spec fn recorded(files: Seq<PackageFileModel>, dest: Seq<char>) -> Option<int>
    decreases files.len(),
{
    if files.len() == 0 {
        None
    } else if same_path(files.last().path, dest) {
        Some(files.len() - 1)
    } else {
        recorded(files.drop_last(), dest)
    }
}

/// What checking one declared asset gives.
pub enum Finding {
    /// The file is there, with the declared permission bits if any.
    Clean,
    /// The file is missing or has other permission bits.
    Issue(IssueModel),
    /// The file is there, but the declared mode cannot be read.
    Invalid { mode: Seq<char>, source: Seq<char> },
}

/// The finding for one declared asset.
pub open spec fn asset_finding(files: Seq<PackageFileModel>, asset: AssetModel) -> Finding {
    match recorded(files, asset.dest) {
        None => Finding::Issue(IssueModel::MissingFile { dest: asset.dest }),
        Some(k) => match asset.mode {
            None => Finding::Clean,
            Some(mode) => match octal_value(mode) {
                None => Finding::Invalid { mode, source: asset.source },
                Some(expected) => if permission_bits(files[k].mode) != expected {
                    Finding::Issue(
                        IssueModel::ModeMismatch {
                            dest: asset.dest,
                            expected,
                            found: permission_bits(files[k].mode),
                        },
                    )
                } else {
                    Finding::Clean
                },
            },
        },
    }
}

/// The issues of the declared assets from index `from` on, added to `found`;
/// the first mode that cannot be read ends the check.
pub open spec fn asset_issues(
    files: Seq<PackageFileModel>,
    assets: Seq<AssetModel>,
    from: int,
    found: Seq<IssueModel>,
) -> Result<Seq<IssueModel>, VerificationErrorModel>
    decreases assets.len() - from,
{
    if from < 0 || from >= assets.len() {
        Ok(found)
    } else {
        match asset_finding(files, assets[from]) {
            Finding::Clean => asset_issues(files, assets, from + 1, found),
            Finding::Issue(issue) => asset_issues(files, assets, from + 1, found.push(issue)),
            Finding::Invalid { mode, source } => Err(
                VerificationErrorModel::InvalidMode { mode, source, before: found },
            ),
        }
    }
}

/// The issue, if any, of a text that must be as declared.
pub open spec fn text_issue(expected: Seq<char>, found: Seq<char>, issue: IssueModel) -> Seq<
    IssueModel,
> {
    if found != expected {
        seq![issue]
    } else {
        Seq::empty()
    }
}

/// The text that a package is taken to carry.
pub open spec fn carried(text: Option<Seq<char>>) -> Seq<char> {
    match text {
        Some(t) => t,
        None => absent_text(),
    }
}

/// The issues of a package's identity: name and version always, license and
/// summary where the settings ask for them.
pub open spec fn identity_issues(
    record: PackageRecordModel,
    package: PackageModel,
    config: RevolveConfigModel,
) -> Seq<IssueModel> {
    text_issue(
        package.name,
        record.name,
        IssueModel::NameMismatch { expected: package.name, found: record.name },
    ) + text_issue(
        package.version,
        record.version,
        IssueModel::VersionMismatch { expected: package.version, found: record.version },
    ) + (match config.verify_license {
        Some(expected) => text_issue(
            expected,
            carried(record.license),
            IssueModel::LicenseMismatch { expected, found: carried(record.license) },
        ),
        None => Seq::empty(),
    }) + (match config.verify_summary {
        Some(expected) => text_issue(
            expected,
            carried(record.summary),
            IssueModel::SummaryMismatch { expected, found: carried(record.summary) },
        ),
        None => Seq::empty(),
    })
}

/// All issues of a package, identity first, then the assets in declaration
/// order.
pub open spec fn all_issues(
    record: PackageRecordModel,
    package: PackageModel,
    config: RevolveConfigModel,
) -> Result<Seq<IssueModel>, VerificationErrorModel> {
    match config.assets {
        Some(assets) => asset_issues(
            record.files,
            assets,
            0,
            identity_issues(record, package, config),
        ),
        None => Ok(identity_issues(record, package, config)),
    }
}

/// Whether a package passes: it does when there is no issue at all.
pub open spec fn verdict(
    record: PackageRecordModel,
    package: PackageModel,
    config: RevolveConfigModel,
) -> Result<(), VerificationErrorModel> {
    match all_issues(record, package, config) {
        Ok(issues) => if issues.len() == 0 {
            Ok(())
        } else {
            Err(VerificationErrorModel::Mismatch { issues })
        },
        Err(e) => Err(e),
    }
}

/// The recorded paths of `files`, read into their components.
fn read_paths(files: &Vec<PackageFile>) -> (keys: Vec<PathParts>)
    ensures
        keys.len() == files.len(),
        forall|i: int|
            0 <= i < keys.len() ==> (#[trigger] keys[i]).wf() && keys[i].text() == files[i].path@,
{
    let mut keys: Vec<PathParts> = Vec::new();
    let mut i: usize = 0;
    while i < files.len()
        invariant
            i <= files.len(),
            keys.len() == i,
            forall|k: int|
                0 <= k < keys.len() ==> (#[trigger] keys[k]).wf() && keys[k].text()
                    == files[k].path@,
        decreases files.len() - i,
    {
        keys.push(PathParts::read(files[i].path.as_str()));
        i += 1;
    }
    keys
}

/// The index of the entry that counts for the path read as `probe`.
fn find_recorded(files: &Vec<PackageFile>, keys: &Vec<PathParts>, probe: &PathParts) -> (r: Option<
    usize,
>)
    requires
        probe.wf(),
        keys.len() == files.len(),
        forall|i: int|
            0 <= i < keys.len() ==> (#[trigger] keys[i]).wf() && keys[i].text() == files[i].path@,
    ensures
        match recorded(files.deep_view(), probe.text()) {
            Some(k) => r == Some(k as usize) && 0 <= k < files.len(),
            None => r is None,
        },
{
    let ghost list = files.deep_view();
    let mut i: usize = keys.len();
    assert(list.take(i as int) =~= list);
    while i > 0
        invariant
            i <= keys.len(),
            probe.wf(),
            keys.len() == files.len(),
            list == files.deep_view(),
            forall|k: int|
                0 <= k < keys.len() ==> (#[trigger] keys[k]).wf() && keys[k].text()
                    == files[k].path@,
            recorded(list, probe.text()) == recorded(list.take(i as int), probe.text()),
        decreases i,
    {
        i -= 1;
        proof {
            let upto = list.take(i + 1);
            assert(upto.last() == list[i as int]);
            assert(upto.drop_last() =~= list.take(i as int));
            assert(list[i as int].path == keys[i as int].text());
        }
        if keys[i].same(probe) {
            return Some(i);
        }
    }
    None
}

/// Checks the package described by `record` against the declared identity
/// and settings.  It passes when nothing differs; otherwise the error lists
/// every difference, or names the first declared mode that is no octal
/// number.
pub fn verify_package(record: &PackageRecord, package: &PackageIdentity, config: &RevolveConfig) -> (r:
    Result<(), VerificationError>)
    ensures
        match verdict(record@, package@, config@) {
            Ok(_) => r is Ok,
            Err(e) => r is Err && r->Err_0@ == e,
        },
{
    let mut issues: Vec<Issue> = Vec::new();
    let ghost mut so_far: Seq<IssueModel> = Seq::empty();
    assert(issues.deep_view() =~= so_far);
    if !texts_equal(record.name.as_str(), package.name.as_str()) {
        issues.push(
            Issue::NameMismatch { expected: package.name.clone(), found: record.name.clone() },
        );
        proof {
            so_far = so_far.push(issues[issues.len() - 1]@);
        }
        assert(issues.deep_view() =~= so_far);
    }
    if !texts_equal(record.version.as_str(), package.version.as_str()) {
        issues.push(
            Issue::VersionMismatch {
                expected: package.version.clone(),
                found: record.version.clone(),
            },
        );
        proof {
            so_far = so_far.push(issues[issues.len() - 1]@);
        }
        assert(issues.deep_view() =~= so_far);
    }
    proof {
        reveal_strlit("N/A");
        assert("N/A"@ =~= absent_text());
    }
    match &config.verify_license {
        Some(expected) => {
            let found = match &record.license {
                Some(text) => text.as_str(),
                None => "N/A",
            };
            if !texts_equal(found, expected.as_str()) {
                issues.push(
                    Issue::LicenseMismatch { expected: expected.clone(), found: found.to_owned() },
                );
                proof {
                    so_far = so_far.push(issues[issues.len() - 1]@);
                }
                assert(issues.deep_view() =~= so_far);
            }
        },
        None => {},
    }
    match &config.verify_summary {
        Some(expected) => {
            let found = match &record.summary {
                Some(text) => text.as_str(),
                None => "N/A",
            };
            if !texts_equal(found, expected.as_str()) {
                issues.push(
                    Issue::SummaryMismatch { expected: expected.clone(), found: found.to_owned() },
                );
                proof {
                    so_far = so_far.push(issues[issues.len() - 1]@);
                }
                assert(issues.deep_view() =~= so_far);
            }
        },
        None => {},
    }
    assert(so_far =~= identity_issues(record@, package@, config@));
    match &config.assets {
        Some(assets) => {
            let keys = read_paths(&record.files);
            let ghost head = so_far;
            let ghost files = record.files.deep_view();
            let ghost declared = assets.deep_view();
            let mut i: usize = 0;
            while i < assets.len()
                invariant
                    i <= assets.len(),
                    files == record@.files,
                    declared == assets.deep_view(),
                    config@.assets == Some(declared),
                    head == identity_issues(record@, package@, config@),
                    keys.len() == record.files.len(),
                    forall|k: int|
                        0 <= k < keys.len() ==> (#[trigger] keys[k]).wf() && keys[k].text()
                            == record.files[k].path@,
                    asset_issues(files, declared, 0, head) == asset_issues(
                        files,
                        declared,
                        i as int,
                        issues.deep_view(),
                    ),
                decreases assets.len() - i,
            {
                let asset = &assets[i];
                assert(declared[i as int] == asset@);
                let probe = PathParts::read(asset.dest.as_str());
                let ghost before = issues.deep_view();
                match find_recorded(&record.files, &keys, &probe) {
                    None => {
                        issues.push(Issue::MissingFile { dest: asset.dest.clone() });
                        assert(issues.deep_view() =~= before.push(
                            IssueModel::MissingFile { dest: asset.dest@ },
                        ));
                    },
                    Some(k) => {
                        assert(files[k as int] == record.files[k as int]@);
                        match &asset.mode {
                            None => {},
                            Some(mode) => {
                                match parse_octal(mode.as_str()) {
                                    None => {
                                        return Err(
                                            VerificationError::InvalidMode {
                                                mode: mode.clone(),
                                                source: asset.source.clone(),
                                                before: issues,
                                            },
                                        );
                                    },
                                    Some(expected) => {
                                        let found = record.files[k].mode & 0o7777;
                                        if found != expected {
                                            issues.push(
                                                Issue::ModeMismatch {
                                                    dest: asset.dest.clone(),
                                                    expected,
                                                    found,
                                                },
                                            );
                                            assert(issues.deep_view() =~= before.push(
                                                IssueModel::ModeMismatch {
                                                    dest: asset.dest@,
                                                    expected,
                                                    found,
                                                },
                                            ));
                                        }
                                    },
                                }
                            },
                        }
                    },
                }
                i += 1;
            }
        },
        None => {},
    }
    if issues.len() == 0 {
        Ok(())
    } else {
        Err(VerificationError::Mismatch { issues })
    }
}

impl VerificationError {
    /// How many issues the error stands for.
    pub open spec fn count_of(error: VerificationErrorModel) -> nat {
        match error {
            VerificationErrorModel::InvalidMode { before, .. } => before.len(),
            VerificationErrorModel::Mismatch { issues } => issues.len(),
        }
    }

    /// The error in words.
    pub open spec fn message_text(error: VerificationErrorModel) -> Seq<char> {
        match error {
            VerificationErrorModel::InvalidMode { mode, source, .. } => "Invalid octal mode '"@
                + mode + "' for asset "@ + source,
            VerificationErrorModel::Mismatch { issues } => decimal_text(issues.len())
                + " verification issue(s) found."@,
        }
    }

    /// The issues that were found.
    pub fn issues(&self) -> (r: &Vec<Issue>)
        ensures
            r.len() == Self::count_of(self@),
            match self@ {
                VerificationErrorModel::InvalidMode { before, .. } => r.deep_view() == before,
                VerificationErrorModel::Mismatch { issues } => r.deep_view() == issues,
            },
    {
        match self {
            VerificationError::InvalidMode { before, .. } => before,
            VerificationError::Mismatch { issues } => issues,
        }
    }

    /// The error in words: how many issues were found, or which mode could
    /// not be read.
    pub fn message(&self) -> (r: String)
        ensures
            r@ == Self::message_text(self@),
    {
        match self {
            VerificationError::InvalidMode { mode, source, .. } => {
                let mut out = "Invalid octal mode '".to_owned();
                out.append(mode.as_str());
                out.append("' for asset ");
                out.append(source.as_str());
                out
            },
            VerificationError::Mismatch { issues } => {
                let mut out = decimal(issues.len() as u64);
                out.append(" verification issue(s) found.");
                out
            },
        }
    }
}

} // verus!
