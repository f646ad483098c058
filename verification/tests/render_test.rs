use cargo_revolve::config::{Asset, BuildCommand, RevolveConfig};
use cargo_revolve::definitions::{template_context, PackageIdentity, TemplateContext};
use cargo_revolve::info::{inspecting_line, report, PackageSummary};
use cargo_revolve::layout::{archive_root, dry_run_report};
use cargo_revolve::render::{render_plan, settle_changelog, Changelog, RenderPlan, TemplateError};
use tera::{Context, Tera, Value};

fn package() -> PackageIdentity {
    PackageIdentity {
        name: "sample-project".to_string(),
        version: "0.1.0".to_string(),
        description: Some("A sample project".to_string()),
        license: Some("MIT".to_string()),
    }
}

fn text(s: &str) -> Value {
    Value::String(s.to_string())
}

fn optional(map: &mut tera::Map<String, Value>, key: &str, value: Option<&str>) {
    if let Some(v) = value {
        map.insert(key.to_string(), text(v));
    }
}

fn engine_context(context: &TemplateContext) -> Context {
    let mut pkg = tera::Map::new();
    pkg.insert("name".to_string(), text(context.pkg.name));
    pkg.insert("version".to_string(), text(context.pkg.version));
    optional(&mut pkg, "description", context.pkg.description);
    optional(&mut pkg, "license", context.pkg.license);
    let mut builder = tera::Map::new();
    builder.insert("spec_template".to_string(), text(context.builder.spec_template));
    builder.insert("archive_root_dir".to_string(), text(context.builder.archive_root_dir));
    optional(&mut builder, "changelog", context.builder.changelog);
    if let Some(assets) = context.builder.assets {
        let list = assets
            .iter()
            .map(|a| {
                let mut one = tera::Map::new();
                one.insert("source".to_string(), text(&a.source));
                one.insert("dest".to_string(), text(&a.dest));
                one.insert("mkdir".to_string(), Value::Bool(a.mkdir));
                optional(&mut one, "mode", a.mode.as_deref());
                Value::Object(one)
            })
            .collect();
        builder.insert("assets".to_string(), Value::Array(list));
    }
    if let Some(dirs) = &context.builder.created_dirs {
        builder.insert("created_dirs".to_string(), Value::Array(dirs.iter().map(|d| text(d)).collect()));
    }
    let mut out = Context::new();
    out.insert("pkg", &Value::Object(pkg));
    out.insert("builder", &Value::Object(builder));
    out
}

const TEMPLATE: &str = "Name:           {{ pkg.name }}\n\
Version:        {{ pkg.version }}\n\
%files\n\
{% if builder.created_dirs %}{% for dir in builder.created_dirs %}%dir {{ dir }}\n{% endfor %}{% endif %}\
{% if builder.assets %}{% for asset in builder.assets %}{{ asset.dest }}\n{% endfor %}{% endif %}\
{% if builder.changelog %}%changelog\n{{ builder.changelog }}{% endif %}";

fn render(context: &TemplateContext) -> String {
    Tera::one_off(TEMPLATE, &engine_context(context), false).unwrap()
}

#[test]
fn test_changelog_in_dry_run() {
    let mut config = RevolveConfig::new("sample.spec.in");
    config.changelog = Some("CHANGELOG.md".to_string());
    let plan = render_plan(&config, &package(), "/proj", "/proj/target/revolve/build");
    let read = Some(Ok("* Mon Jan 01 2024 Dev - 0.1.0\n- Initial release of the sample project.\n- This is a test entry.\n".to_string()));
    let changelog = settle_changelog(plan.changelog_path.as_deref(), read);
    assert_eq!(changelog.warning, None);
    let root = archive_root(&package());
    let package = package();
    let context = template_context(&package, &config, &root, changelog.text.as_deref(), None);
    let content = render(&context);
    let output = dry_run_report(&plan.output_path, &content, None, "/proj/target/revolve/rpmbuild", "/proj");
    assert!(output.contains("%changelog"));
    assert!(output.contains("Initial release of the sample project."));
    assert!(output.contains("- This is a test entry."));
}

#[test]
fn unreadable_changelog_is_left_out_with_a_warning() {
    let mut config = RevolveConfig::new("sample.spec.in");
    config.changelog = Some("CHANGELOG.md".to_string());
    let changelog = settle_changelog(Some("/proj/CHANGELOG.md"), Some(Err("No such file or directory".to_string())));
    assert_eq!(
        changelog,
        Changelog {
            text: None,
            warning: Some("Failed to read changelog file at /proj/CHANGELOG.md: No such file or directory".to_string()),
        }
    );
    let root = archive_root(&package());
    let package = package();
    let context = template_context(&package, &config, &root, changelog.text.as_deref(), None);
    assert_eq!(context.builder.changelog, None);
    assert!(!render(&context).contains("%changelog"));
    assert_eq!(settle_changelog(None, None), Changelog { text: None, warning: None });
    assert_eq!(settle_changelog(Some("c"), None), Changelog { text: None, warning: None });
    assert_eq!(settle_changelog(None, Some(Ok("x".to_string()))), Changelog { text: None, warning: None });
    assert_eq!(
        settle_changelog(Some("c"), Some(Ok("x".to_string()))),
        Changelog { text: Some("x".to_string()), warning: None }
    );
}

#[test]
fn context_holds_identity_settings_and_manifest() {
    let mut config = RevolveConfig::new("sample.spec.in");
    config.build_flags = Some(vec!["--release".to_string()]);
    let files = vec![Asset::new("config/a.toml", "/etc/app/a.toml")];
    let expanded = config.with_assets(files.clone());
    let package = package();
    let dirs = vec!["/etc/app".to_string()];
    let context = template_context(&package, &expanded, "sample-project-0.1.0", Some("log"), Some(dirs.clone()));
    assert_eq!(context.pkg.name, "sample-project");
    assert_eq!(context.pkg.version, "0.1.0");
    assert_eq!(context.pkg.description, Some("A sample project"));
    assert_eq!(context.pkg.license, Some("MIT"));
    assert_eq!(context.pkg, package.context());
    assert_eq!(context.builder.spec_template, "sample.spec.in");
    assert_eq!(context.builder.archive_root_dir, "sample-project-0.1.0");
    assert_eq!(context.builder.changelog, Some("log"));
    assert_eq!(context.builder.assets, Some(&files));
    assert_eq!(context.builder.build_flags, Some(&vec!["--release".to_string()]));
    assert_eq!(context.builder.created_dirs, Some(dirs));
    let bare = RevolveConfig::new("t");
    let context = template_context(&package, &bare, "r", None, None);
    assert_eq!(context.builder.assets, None);
    assert_eq!(context.builder.build_flags, None);
    assert_eq!(context.builder.created_dirs, None);
}

#[test]
fn equal_inputs_render_to_equal_bytes() {
    let config = RevolveConfig::new("sample.spec.in").with_assets(vec![
        Asset::new("b", "/opt/b/file"),
        Asset::new("a", "/opt/a/file"),
    ]);
    let package = package();
    let dirs = vec!["/opt/a".to_string(), "/opt/b".to_string()];
    let first = render(&template_context(&package, &config, "sample-project-0.1.0", None, Some(dirs.clone())));
    let second = render(&template_context(&package, &config, "sample-project-0.1.0", None, Some(dirs)));
    assert_eq!(first, second);
    assert_eq!(
        first,
        "Name:           sample-project\nVersion:        0.1.0\n%files\n%dir /opt/a\n%dir /opt/b\n/opt/b/file\n/opt/a/file\n"
    );
}

#[test]
fn expanded_settings_differ_in_the_assets_only() {
    let mut config = RevolveConfig::new("sample.spec.in");
    config.output_dir = Some("dist".to_string());
    config.changelog = Some("CHANGELOG.md".to_string());
    config.build_flags = Some(vec!["--features".to_string(), "x".to_string()]);
    config.build_command = Some(BuildCommand::Sequence(vec!["make".to_string()]));
    config.assets = Some(vec![Asset::new("config/", "/etc/app")]);
    config.verify_license = Some("MIT".to_string());
    config.verify_summary = Some("S".to_string());
    let files = vec![Asset::new("config/a", "/etc/app/a")];
    let expanded = config.with_assets(files.clone());
    let mut expected = config.clone();
    expected.assets = Some(files);
    assert_eq!(expanded, expected);
    assert_eq!(config.assets, Some(vec![Asset::new("config/", "/etc/app")]));
}

#[test]
fn rendering_touches_three_files() {
    let mut config = RevolveConfig::new("packaging/sample.spec.in");
    assert_eq!(
        render_plan(&config, &package(), "/proj", "/proj/target/revolve/build"),
        RenderPlan {
            template_path: "/proj/packaging/sample.spec.in".to_string(),
            changelog_path: None,
            output_path: "/proj/target/revolve/build/sample-project-0.1.0.spec".to_string(),
        }
    );
    config.changelog = Some("CHANGELOG.md".to_string());
    assert_eq!(
        render_plan(&config, &package(), "/proj", "b").changelog_path,
        Some("/proj/CHANGELOG.md".to_string())
    );
}

#[test]
fn template_errors_carry_the_diagnostic() {
    let missing = TemplateError::NotFound { path: "/proj/t.spec".to_string(), detail: "No such file".to_string() };
    assert_eq!(missing.message(), "Failed to load spec template from /proj/t.spec: No such file");
    let broken = TemplateError::Render { detail: "Variable `pkg.nam` not found".to_string() };
    assert_eq!(broken.message(), "Failed to render spec template: Variable `pkg.nam` not found");
}

#[test]
fn package_report_lists_identity_and_files() {
    let info = PackageSummary {
        name: "sample-project".to_string(),
        version: "0.1.0".to_string(),
        release: "1".to_string(),
        arch: "x86_64".to_string(),
        size: 123456,
        license: Some("MIT".to_string()),
        summary: None,
        files: vec!["/usr/bin/sample-project".to_string(), "/etc/sample-project/conf.d".to_string()],
    };
    assert_eq!(
        report(&info),
        "\nPackage Summary:\n  Name:      sample-project\n  Version:   0.1.0\n  Release:   1\n  Arch:      x86_64\n  Size:      123456 bytes (installed)\n  License:   MIT\n  Summary:   N/A\n\nFiles (2):\n  /usr/bin/sample-project\n  /etc/sample-project/conf.d\n"
    );
    assert_eq!(inspecting_line("dist/a.rpm"), "Inspecting: dist/a.rpm");
    let mut empty = info.clone();
    empty.files.clear();
    assert!(report(&empty).ends_with("\nFiles (0):\n"));
}
