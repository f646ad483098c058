//! What holds of every check of a package: when it passes, and what one
//! changed permission bit does to it.

use vstd::prelude::*;
use crate::config::{AssetModel, RevolveConfigModel};
use crate::definitions::PackageModel;
use crate::numbers::octal_value;
use crate::verify::{
    all_issues, asset_finding, asset_issues, carried, identity_issues, permission_bits, recorded,
    verdict, Finding, IssueModel, PackageFileModel, PackageRecordModel, VerificationErrorModel,
};

verus! {

/// The package carries the declared name and version, and the license and
/// summary that the settings ask for.
pub open spec fn identity_matches(
    record: PackageRecordModel,
    package: PackageModel,
    config: RevolveConfigModel,
) -> bool {
    &&& record.name == package.name
    &&& record.version == package.version
    &&& config.verify_license matches Some(expected) ==> carried(record.license) == expected
    &&& config.verify_summary matches Some(expected) ==> carried(record.summary) == expected
}

/// The package holds the destination of `asset`, with the declared
/// permission bits if any are declared.
pub open spec fn installed_as_declared(files: Seq<PackageFileModel>, asset: AssetModel) -> bool {
    &&& recorded(files, asset.dest) is Some
    &&& asset.mode matches Some(mode) ==> octal_value(mode) == Some(
        permission_bits(files[recorded(files, asset.dest)->Some_0].mode),
    )
}

/// The package is in every respect what was declared.
pub open spec fn faithful(
    record: PackageRecordModel,
    package: PackageModel,
    config: RevolveConfigModel,
) -> bool {
    &&& identity_matches(record, package, config)
    &&& config.assets matches Some(assets) ==> forall|i: int|
        0 <= i < assets.len() ==> installed_as_declared(record.files, #[trigger] assets[i])
}

/// `value` with bit number `bit` turned over.
pub open spec fn flipped(value: u16, bit: u16) -> u16 {
    value ^ (1u16 << bit)
}

/// The identity of a package raises no issue exactly when it matches.
pub proof fn lemma_identity_issues(
    record: PackageRecordModel,
    package: PackageModel,
    config: RevolveConfigModel,
)
    ensures
        identity_issues(record, package, config).len() == 0 <==> identity_matches(
            record,
            package,
            config,
        ),
{
}

/// An asset raises no issue exactly when it is installed as declared.
pub proof fn lemma_asset_finding(files: Seq<PackageFileModel>, asset: AssetModel)
    ensures
        asset_finding(files, asset) is Clean <==> installed_as_declared(files, asset),
{
}

/// The check of the assets from `from` on keeps the issues found before.
/// It ends early exactly when one of the modes cannot be read, and it adds
/// nothing exactly when every asset is installed as declared.
pub proof fn lemma_asset_issues(
    files: Seq<PackageFileModel>,
    assets: Seq<AssetModel>,
    from: int,
    found: Seq<IssueModel>,
)
    requires
        0 <= from <= assets.len(),
    ensures
        match asset_issues(files, assets, from, found) {
            Ok(out) => {
                &&& out.len() >= found.len()
                &&& out.take(found.len() as int) == found
                &&& forall|i: int|
                    from <= i < assets.len() ==> !(asset_finding(files, #[trigger] assets[i])
                        is Invalid)
                &&& out.len() == found.len() <==> forall|i: int|
                    from <= i < assets.len() ==> asset_finding(files, #[trigger] assets[i])
                        is Clean
            },
            Err(e) => exists|i: int|
                from <= i < assets.len() && asset_finding(files, #[trigger] assets[i]) is Invalid,
        },
    decreases assets.len() - from,
{
    if from >= assets.len() {
        assert(found.take(found.len() as int) =~= found);
    } else {
        let next = match asset_finding(files, assets[from]) {
            Finding::Issue(issue) => found.push(issue),
            _ => found,
        };
        if !(asset_finding(files, assets[from]) is Invalid) {
            lemma_asset_issues(files, assets, from + 1, next);
            match asset_issues(files, assets, from + 1, next) {
                Ok(out) => {
                    assert(out.take(found.len() as int) =~= out.take(next.len() as int).take(
                        found.len() as int,
                    ));
                    assert(next.take(found.len() as int) =~= found);
                    if out.len() == found.len() {
                        assert forall|i: int| from <= i < assets.len() implies asset_finding(
                            files,
                            #[trigger] assets[i],
                        ) is Clean by {
                            if i > from {
                                assert(from + 1 <= i);
                            }
                        }
                    }
                },
                Err(e) => {
                    let i = choose|i: int|
                        from + 1 <= i < assets.len() && asset_finding(files, #[trigger] assets[i])
                            is Invalid;
                    assert(from <= i);
                },
            }
        }
    }
}

/// A package passes exactly when it is in every respect what was declared.
pub proof fn lemma_faithful_package_passes(
    record: PackageRecordModel,
    package: PackageModel,
    config: RevolveConfigModel,
)
    ensures
        verdict(record, package, config) is Ok <==> faithful(record, package, config),
{
    let head = identity_issues(record, package, config);
    lemma_identity_issues(record, package, config);
    match config.assets {
        Some(assets) => {
            lemma_asset_issues(record.files, assets, 0, head);
            assert forall|i: int| 0 <= i < assets.len() implies (asset_finding(
                record.files,
                #[trigger] assets[i],
            ) is Clean <==> installed_as_declared(record.files, assets[i])) by {
                lemma_asset_finding(record.files, assets[i]);
            }
        },
        None => {},
    }
}

/// Where one asset alone raises an issue, that issue alone is added.
pub proof fn lemma_single_issue(
    files: Seq<PackageFileModel>,
    assets: Seq<AssetModel>,
    from: int,
    found: Seq<IssueModel>,
    at: int,
    issue: IssueModel,
)
    requires
        0 <= from <= assets.len(),
        0 <= at < assets.len(),
        asset_finding(files, assets[at]) == Finding::Issue(issue),
        forall|i: int|
            from <= i < assets.len() && i != at ==> asset_finding(files, #[trigger] assets[i])
                is Clean,
    ensures
        asset_issues(files, assets, from, found) == Ok::<
            Seq<IssueModel>,
            VerificationErrorModel,
        >(
            if from <= at {
                found.push(issue)
            } else {
                found
            },
        ),
    decreases assets.len() - from,
{
    if from < assets.len() {
        let next = if from == at {
            found.push(issue)
        } else {
            found
        };
        lemma_single_issue(files, assets, from + 1, next, at, issue);
    }
}

/// Turning over one bit changes a value.
pub proof fn lemma_flipped_differs(value: u16, bit: u16)
    requires
        bit < 16,
    ensures
        flipped(value, bit) != value,
{
    assert((value ^ (1u16 << bit)) != value) by (bit_vector)
        requires
            bit < 16,
    ;
}

/// Take a package that is what was declared, and change the declared mode of
/// the asset at `at` so that one of its twelve permission bits is turned
/// over.  The check then reports exactly one mismatch: the mode of that
/// asset.
pub proof fn lemma_flipped_bit_is_one_mismatch(
    record: PackageRecordModel,
    package: PackageModel,
    config: RevolveConfigModel,
    at: int,
    bit: u16,
    changed: Seq<char>,
)
    requires
        faithful(record, package, config),
        config.assets is Some,
        0 <= at < config.assets->Some_0.len(),
        config.assets->Some_0[at].mode is Some,
        bit < 12,
        octal_value(changed) == Some(
            flipped(octal_value(config.assets->Some_0[at].mode->Some_0)->Some_0, bit),
        ),
    ensures
        ({
            let assets = config.assets->Some_0;
            let declared = octal_value(assets[at].mode->Some_0)->Some_0;
            let after = RevolveConfigModel {
                assets: Some(
                    assets.update(at, AssetModel { mode: Some(changed), ..assets[at] }),
                ),
                ..config
            };
            verdict(record, package, after) == Err::<(), VerificationErrorModel>(
                VerificationErrorModel::Mismatch {
                    issues: seq![
                        IssueModel::ModeMismatch {
                            dest: assets[at].dest,
                            expected: flipped(declared, bit),
                            found: declared,
                        },
                    ],
                },
            )
        }),
{
    let assets = config.assets->Some_0;
    let declared = octal_value(assets[at].mode->Some_0)->Some_0;
    let asset = AssetModel { mode: Some(changed), ..assets[at] };
    let changed_assets = assets.update(at, asset);
    let after = RevolveConfigModel { assets: Some(changed_assets), ..config };
    let issue = IssueModel::ModeMismatch {
        dest: assets[at].dest,
        expected: flipped(declared, bit),
        found: declared,
    };
    lemma_identity_issues(record, package, config);
    lemma_identity_issues(record, package, after);
    let head = identity_issues(record, package, after);
    assert(head =~= Seq::<IssueModel>::empty());
    assert(installed_as_declared(record.files, assets[at]));
    lemma_flipped_differs(declared, bit);
    assert(asset_finding(record.files, changed_assets[at]) == Finding::Issue(issue));
    assert forall|i: int| 0 <= i < changed_assets.len() && i != at implies asset_finding(
        record.files,
        #[trigger] changed_assets[i],
    ) is Clean by {
        assert(changed_assets[i] == assets[i]);
        assert(installed_as_declared(record.files, assets[i]));
        lemma_asset_finding(record.files, assets[i]);
    }
    lemma_single_issue(record.files, changed_assets, 0, head, at, issue);
    assert(head.push(issue) =~= seq![issue]);
    assert(all_issues(record, package, after) == Ok::<Seq<IssueModel>, VerificationErrorModel>(
        seq![issue],
    ));
}

} // verus!
