use cargo_revolve::definitions::PackageIdentity;
use cargo_revolve::layout::{
    archive_file, archive_root, builder_plan, command_shown, control_file, dry_run_report, layout,
    BuilderPlan,
};
use cargo_revolve::process::Invocation;

fn package() -> PackageIdentity {
    PackageIdentity {
        name: "sample-project".to_string(),
        version: "0.1.0".to_string(),
        description: None,
        license: None,
    }
}

fn words(list: &[&str]) -> Vec<String> {
    list.iter().map(|w| w.to_string()).collect()
}

#[test]
fn working_directories_lie_below_target() {
    let dirs = layout("/work/project");
    assert_eq!(dirs.revolve_dir, "/work/project/target/revolve");
    assert_eq!(dirs.build_dir, "/work/project/target/revolve/build");
    assert_eq!(dirs.rpmbuild_dir, "/work/project/target/revolve/rpmbuild");
    assert_eq!(dirs.sources_dir, "/work/project/target/revolve/rpmbuild/SOURCES");
    assert_eq!(dirs.specs_dir, "/work/project/target/revolve/rpmbuild/SPECS");
    assert_eq!(dirs.rpms_dir, "/work/project/target/revolve/rpmbuild/RPMS");
    assert_eq!(layout("").build_dir, "target/revolve/build");
}

#[test]
fn files_are_named_after_name_and_version() {
    assert_eq!(archive_root(&package()), "sample-project-0.1.0");
    assert_eq!(
        control_file(&package(), "/work/project/target/revolve/build"),
        "/work/project/target/revolve/build/sample-project-0.1.0.spec"
    );
    assert_eq!(archive_file(&package(), "/work/project"), "/work/project/target/sample-project-0.1.0.tar.gz");
}

#[test]
fn test_dry_run() {
    let content = "Name:           sample-project\nVersion:        0.1.0\n";
    let output = dry_run_report(
        "/work/project/target/revolve/build/sample-project-0.1.0.spec",
        content,
        Some("/work/project/target/sample-project-0.1.0.tar.gz"),
        "/work/project/target/revolve/rpmbuild",
        "/work/project",
    );
    assert!(output.contains("--- Dry Run Activated ---"));
    assert!(output.contains("[1/2] Rendered .spec file"));
    assert!(output.contains("Name:           sample-project"));
    assert!(output.contains("[2/2] The following `rpmbuild` command would be executed:"));
    assert!(output.contains("rpmbuild -ta"));
}

#[test]
fn dry_run_report_is_laid_out_line_by_line() {
    let output = dry_run_report("b/p-1.spec", "Name: p", None, "r", "/proj");
    assert_eq!(
        output,
        "--- Dry Run Activated ---\n\
         \n[1/2] Rendered .spec file would be written to: b/p-1.spec\n\
         ----------------------------------------------------\n\
         Name: p\n\
         ----------------------------------------------------\n\
         \n[2/2] The following `rpmbuild` command would be executed:\n\
         rpmbuild -bb b/p-1.spec --define='_topdir r' --define='_sourcedir /proj'\n\
         \n--- End of Dry Run ---\n"
    );
}

#[test]
fn shown_command_depends_on_the_archive() {
    assert_eq!(
        command_shown("s.spec", Some("a.tar.gz"), "top", "proj"),
        "rpmbuild -ta a.tar.gz --specfile s.spec --define='_topdir top'"
    );
    assert_eq!(
        command_shown("s.spec", None, "top", "proj"),
        "rpmbuild -bb s.spec --define='_topdir top' --define='_sourcedir proj'"
    );
}

#[test]
fn builder_is_called_on_staged_inputs() {
    let dirs = layout("/p");
    let with_archive = builder_plan(
        &dirs,
        "/p/target/revolve/build/app-1.0.0.spec",
        Some("/p/target/app-1.0.0.tar.gz"),
        "/p",
    );
    assert_eq!(
        with_archive,
        Some(BuilderPlan {
            staged_spec: "/p/target/revolve/rpmbuild/SPECS/app-1.0.0.spec".to_string(),
            staged_archive: Some("/p/target/revolve/rpmbuild/SOURCES/app-1.0.0.tar.gz".to_string()),
            invocation: Invocation {
                program: "rpmbuild".to_string(),
                args: words(&[
                    "--define=_topdir /p/target/revolve/rpmbuild",
                    "-bb",
                    "/p/target/revolve/rpmbuild/SPECS/app-1.0.0.spec",
                ]),
            },
        })
    );
    let from_tree = builder_plan(&dirs, "/p/target/revolve/build/app-1.0.0.spec", None, "/p");
    assert_eq!(
        from_tree,
        Some(BuilderPlan {
            staged_spec: "/p/target/revolve/rpmbuild/SPECS/app-1.0.0.spec".to_string(),
            staged_archive: None,
            invocation: Invocation {
                program: "rpmbuild".to_string(),
                args: words(&[
                    "--define=_topdir /p/target/revolve/rpmbuild",
                    "-bb",
                    "/p/target/revolve/rpmbuild/SPECS/app-1.0.0.spec",
                    "--define=_sourcedir /p",
                ]),
            },
        })
    );
    assert_eq!(builder_plan(&dirs, "/", None, "/p"), None);
    assert_eq!(builder_plan(&dirs, "a.spec", Some(".."), "/p"), None);
}
