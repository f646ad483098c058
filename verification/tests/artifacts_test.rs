use cargo_revolve::archive::{archive_entry, archive_plan, require_on_disk, resolve_source, ArchiveEntry, MissingAssetError};
use cargo_revolve::artifacts::{
    artifacts, collect_plan, looks_primary, names_package, primary_artifact, Collected,
    SelectionError,
};
use cargo_revolve::config::{Asset, RevolveConfig};
use cargo_revolve::definitions::PackageIdentity;
use std::path::Path;

fn package() -> PackageIdentity {
    PackageIdentity {
        name: "sample-project".to_string(),
        version: "0.1.0".to_string(),
        description: None,
        license: None,
    }
}

fn paths(list: &[&str]) -> Vec<String> {
    list.iter().map(|p| p.to_string()).collect()
}

#[test]
fn packages_are_told_by_their_extension() {
    let samples = [
        "RPMS/x86_64/sample-project-0.1.0-1.x86_64.rpm",
        "a.rpm",
        ".rpm",
        "..rpm",
        "rpm",
        "a.rpm/",
        "a.rpm/..",
        "dir.rpm/file",
        "a.RPM",
        "a.rpm.txt",
        "a.src.rpm",
        "",
        "/",
        "RPMS",
        "RPMS/x86_64",
    ];
    for p in samples {
        let expected = Path::new(p).extension().map_or(false, |e| e == "rpm");
        assert_eq!(names_package(p), expected, "{:?}", p);
    }
    assert!(names_package("a.rpm"));
    assert!(!names_package(".rpm"));
}

#[test]
fn found_packages_are_kept_where_they_are_without_an_output_directory() {
    let found = paths(&["r/RPMS", "r/RPMS/x86_64", "r/RPMS/x86_64/a-1.rpm", "r/RPMS/x86_64/notes.txt", "r/RPMS/noarch/b-1.rpm"]);
    let plan = collect_plan(&found, None);
    assert_eq!(
        plan,
        vec![
            Collected { source: "r/RPMS/x86_64/a-1.rpm".to_string(), copy_to: None },
            Collected { source: "r/RPMS/noarch/b-1.rpm".to_string(), copy_to: None },
        ]
    );
    assert_eq!(artifacts(&plan), paths(&["r/RPMS/x86_64/a-1.rpm", "r/RPMS/noarch/b-1.rpm"]));
}

#[test]
fn copies_become_the_artifacts_of_record() {
    let found = paths(&["r/RPMS/x86_64/a-1.rpm", "r/RPMS/x86_64"]);
    let plan = collect_plan(&found, Some("/proj/dist"));
    assert_eq!(
        plan,
        vec![Collected {
            source: "r/RPMS/x86_64/a-1.rpm".to_string(),
            copy_to: Some("/proj/dist/a-1.rpm".to_string()),
        }]
    );
    assert_eq!(artifacts(&plan), paths(&["/proj/dist/a-1.rpm"]));
    assert!(collect_plan(&Vec::new(), Some("/proj/dist")).is_empty());
}

#[test]
fn main_package_is_told_from_debug_and_source_packages() {
    let p = package();
    assert!(looks_primary("dist/sample-project-0.1.0-1.x86_64.rpm", &p));
    assert!(!looks_primary("dist/sample-project-debuginfo-0.1.0-1.x86_64.rpm", &p));
    assert!(!looks_primary("dist/sample-project-0.1.0-1.x86_64-debuginfo.rpm", &p));
    assert!(!looks_primary("dist/sample-project-0.1.0-debugsource.rpm", &p));
    assert!(!looks_primary("dist/sample-project-0.1.0-1.src.rpm", &p));
    assert!(!looks_primary("dist/other-0.1.0-1.x86_64.rpm", &p));
    assert!(!looks_primary("sample-project-0.1.0/other.rpm", &p));
    assert!(!looks_primary("dist/..", &p));
}

#[test]
fn exactly_one_main_package_is_picked() {
    let p = package();
    let list = paths(&[
        "d/sample-project-debuginfo-0.1.0-1.x86_64.rpm",
        "d/sample-project-0.1.0-1.src.rpm",
        "d/sample-project-0.1.0-1.x86_64.rpm",
        "d/sample-project-0.1.0-1-debugsource.rpm",
    ]);
    assert_eq!(primary_artifact(&list, &p), Ok(2));
    assert_eq!(primary_artifact(&list[..2].to_vec(), &p), Err(SelectionError::NoCandidate));
    assert_eq!(primary_artifact(&Vec::new(), &p), Err(SelectionError::NoCandidate));
    let mut twice = list.clone();
    twice.push("d/sample-project-0.1.0-1.aarch64.rpm".to_string());
    twice.push("d/sample-project-0.1.0-1.riscv.rpm".to_string());
    assert_eq!(primary_artifact(&twice, &p), Err(SelectionError::Ambiguous { first: 2, second: 4 }));
}

#[test]
fn build_outputs_are_read_from_the_output_directory() {
    assert_eq!(resolve_source("target/release/app", "/proj", "/elsewhere/target"), "/elsewhere/target/release/app");
    assert_eq!(resolve_source("config/app.toml", "/proj", "/elsewhere/target"), "/proj/config/app.toml");
    assert_eq!(resolve_source("target", "/proj", "/t"), "/proj/target");
    assert_eq!(resolve_source("target/", "/proj", "/t"), "/t/");
    assert_eq!(resolve_source("targets/x", "/proj", "/t"), "/proj/targets/x");
    assert_eq!(resolve_source("/abs/file", "/proj", "/t"), "/abs/file");
}

#[test]
fn archive_is_flat_below_its_root() {
    let asset = |source: &str| Asset { source: source.to_string(), dest: "/x".to_string(), mode: None, mkdir: true };
    let mut config = RevolveConfig::new("pkg.spec.in");
    assert!(archive_plan(&config, &package(), "/proj", "/proj/target").is_empty());
    config.assets = Some(vec![asset("target/release/sample-project"), asset("config/nested/extra.toml"), asset("..")]);
    assert_eq!(
        archive_plan(&config, &package(), "/proj", "/out"),
        vec![
            ArchiveEntry {
                source_path: "/out/release/sample-project".to_string(),
                entry_name: Some("sample-project-0.1.0/sample-project".to_string()),
            },
            ArchiveEntry {
                source_path: "/proj/config/nested/extra.toml".to_string(),
                entry_name: Some("sample-project-0.1.0/extra.toml".to_string()),
            },
            ArchiveEntry { source_path: "/proj/..".to_string(), entry_name: None },
        ]
    );
    assert_eq!(
        archive_entry(&asset("a/b.txt"), &package(), "", "t"),
        ArchiveEntry { source_path: "a/b.txt".to_string(), entry_name: Some("sample-project-0.1.0/b.txt".to_string()) }
    );
}

#[test]
fn missing_asset_names_the_file_and_the_remedy() {
    let entry = ArchiveEntry { source_path: "/out/release/app".to_string(), entry_name: Some("r/app".to_string()) };
    assert_eq!(require_on_disk(&entry, true), Ok(()));
    let error = require_on_disk(&entry, false).unwrap_err();
    assert_eq!(error, MissingAssetError { path: "/out/release/app".to_string() });
    assert_eq!(
        error.message(),
        "Asset source file not found: /out/release/app. Please run 'cargo build' first or ensure the path is correct."
    );
}
