use cargo_revolve::config::{Asset, RevolveConfig};
use cargo_revolve::definitions::PackageIdentity;
use cargo_revolve::verify::{verify_package, Issue, PackageFile, PackageRecord, VerificationError};

fn asset(source: &str, dest: &str, mode: Option<&str>) -> Asset {
    Asset { source: source.to_string(), dest: dest.to_string(), mode: mode.map(|m| m.to_string()), mkdir: true }
}

fn package() -> PackageIdentity {
    PackageIdentity {
        name: "sample-project".to_string(),
        version: "0.1.0".to_string(),
        description: Some("A sample".to_string()),
        license: Some("MIT".to_string()),
    }
}

fn declared() -> Vec<Asset> {
    vec![
        asset("target/release/sample-project", "/usr/bin/sample-project", Some("755")),
        asset("config/app.toml", "/etc/sample-project/conf.d/app.toml", Some("0644")),
        asset("sample.service", "/usr/lib/systemd/system/sample.service", None),
    ]
}

fn config(assets: Vec<Asset>) -> RevolveConfig {
    let mut config = RevolveConfig::new("sample.spec.in");
    config.assets = Some(assets);
    config.verify_license = Some("MIT".to_string());
    config.verify_summary = Some("A sample".to_string());
    config
}

fn file(path: &str, mode: u16) -> PackageFile {
    PackageFile { path: path.to_string(), mode }
}

fn record() -> PackageRecord {
    PackageRecord {
        name: "sample-project".to_string(),
        version: "0.1.0".to_string(),
        license: Some("MIT".to_string()),
        summary: Some("A sample".to_string()),
        files: vec![
            file("/etc/sample-project/conf.d", 0o040755),
            file("/usr/bin/sample-project", 0o100755),
            file("/etc/sample-project/conf.d/app.toml", 0o100644),
            file("/usr/lib/systemd/system/sample.service", 0o100600),
        ],
    }
}

fn mode_text(value: u16) -> String {
    format!("{:o}", value)
}

#[test]
fn faithful_package_passes() {
    assert_eq!(verify_package(&record(), &package(), &config(declared())), Ok(()));
}

#[test]
fn package_passes_without_declared_assets_or_expectations() {
    let bare = RevolveConfig::new("sample.spec.in");
    let mut record = record();
    record.license = None;
    record.summary = None;
    record.files.clear();
    assert_eq!(verify_package(&record, &package(), &bare), Ok(()));
}

#[test]
fn flipping_any_single_permission_bit_gives_exactly_one_mismatch() {
    for index in 0..2usize {
        let recorded = u16::from_str_radix(declared()[index].mode.as_ref().unwrap(), 8).unwrap();
        for bit in 0..12u16 {
            let flipped = recorded ^ (1 << bit);
            let mut assets = declared();
            assets[index].mode = Some(mode_text(flipped));
            let error = verify_package(&record(), &package(), &config(assets.clone())).unwrap_err();
            assert_eq!(
                error,
                VerificationError::Mismatch {
                    issues: vec![Issue::ModeMismatch {
                        dest: assets[index].dest.clone(),
                        expected: flipped,
                        found: recorded,
                    }]
                }
            );
            assert_eq!(error.issues().len(), 1);
            assert_eq!(error.message(), "1 verification issue(s) found.");
        }
    }
}

#[test]
fn every_mismatch_is_reported_in_one_run() {
    let mut record = record();
    record.name = "other".to_string();
    record.version = "0.2.0".to_string();
    record.license = None;
    record.summary = Some("Something else".to_string());
    record.files.remove(1);
    record.files[1].mode = 0o100600;
    let error = verify_package(&record, &package(), &config(declared())).unwrap_err();
    assert_eq!(
        error,
        VerificationError::Mismatch {
            issues: vec![
                Issue::NameMismatch { expected: "sample-project".to_string(), found: "other".to_string() },
                Issue::VersionMismatch { expected: "0.1.0".to_string(), found: "0.2.0".to_string() },
                Issue::LicenseMismatch { expected: "MIT".to_string(), found: "N/A".to_string() },
                Issue::SummaryMismatch { expected: "A sample".to_string(), found: "Something else".to_string() },
                Issue::MissingFile { dest: "/usr/bin/sample-project".to_string() },
                Issue::ModeMismatch {
                    dest: "/etc/sample-project/conf.d/app.toml".to_string(),
                    expected: 0o644,
                    found: 0o600,
                },
            ]
        }
    );
    assert_eq!(error.message(), "6 verification issue(s) found.");
}

#[test]
fn only_the_low_twelve_bits_of_a_recorded_mode_count() {
    let assets = vec![asset("a", "/a", Some("4755"))];
    let mut record = record();
    record.files = vec![file("/a", 0o104755)];
    assert_eq!(verify_package(&record, &package(), &config(assets)), Ok(()));
    let assets = vec![asset("a", "/a", Some("104755"))];
    let error = verify_package(&record, &package(), &config(assets)).unwrap_err();
    assert_eq!(
        error,
        VerificationError::Mismatch {
            issues: vec![Issue::ModeMismatch { dest: "/a".to_string(), expected: 0o104755, found: 0o4755 }]
        }
    );
}

#[test]
fn mode_of_a_missing_file_is_not_looked_at() {
    let assets = vec![asset("a", "/nowhere", Some("not octal"))];
    let error = verify_package(&record(), &package(), &config(assets)).unwrap_err();
    assert_eq!(
        error,
        VerificationError::Mismatch { issues: vec![Issue::MissingFile { dest: "/nowhere".to_string() }] }
    );
}

#[test]
fn invalid_mode_ends_the_check() {
    let assets = vec![
        asset("gone", "/gone", None),
        asset("bad", "/usr/bin/sample-project", Some("rwx")),
        asset("later", "/also/gone", None),
    ];
    let error = verify_package(&record(), &package(), &config(assets)).unwrap_err();
    assert_eq!(
        error,
        VerificationError::InvalidMode {
            mode: "rwx".to_string(),
            source: "bad".to_string(),
            before: vec![Issue::MissingFile { dest: "/gone".to_string() }],
        }
    );
    assert_eq!(error.message(), "Invalid octal mode 'rwx' for asset bad");
    assert_eq!(error.issues().len(), 1);
}

#[test]
fn destination_is_found_under_another_spelling_and_last_entry_counts() {
    let assets = vec![asset("a", "/opt//app/./bin/", Some("700"))];
    let mut record = record();
    record.files = vec![file("/opt/app/bin", 0o100755), file("/opt/app/bin", 0o100700)];
    assert_eq!(verify_package(&record, &package(), &config(assets.clone())), Ok(()));
    record.files.reverse();
    assert!(verify_package(&record, &package(), &config(assets)).is_err());
}

#[test]
fn license_and_summary_are_checked_only_when_asked_for() {
    let mut record = record();
    record.license = Some("GPL".to_string());
    record.summary = None;
    let mut relaxed = config(declared());
    relaxed.verify_license = None;
    relaxed.verify_summary = None;
    assert_eq!(verify_package(&record, &package(), &relaxed), Ok(()));
    let mut absent = config(declared());
    absent.verify_license = None;
    absent.verify_summary = Some("N/A".to_string());
    assert_eq!(verify_package(&record, &package(), &absent), Ok(()));
}
