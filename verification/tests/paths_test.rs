use cargo_revolve::paths::{file_name, join, names_directory, parent_dir, paths_equal};
use std::path::Path;

const SAMPLES: [&str; 34] = [
    "",
    "/",
    "//",
    ".",
    "./",
    "..",
    "../",
    "a",
    "a/",
    "/a",
    "//a",
    "/a/",
    "a/b",
    "a//b",
    "a/./b",
    "a/b/.",
    "a/b/",
    "./a",
    ".//a",
    "./a/b",
    "a/..",
    "a/../b",
    "/a/b/c",
    "/a/b/c/",
    "/a//b/./c",
    "/.",
    "/..",
    ".a",
    "a.",
    "...",
    "/etc/app/conf.d",
    "/etc/app/conf.d/",
    "/usr/bin/sample-project",
    "target/release/app",
];

fn std_parent_dir(p: &str) -> Option<String> {
    match Path::new(p).parent() {
        Some(parent) if parent.components().next().is_some() => {
            Some(parent.to_str().unwrap().to_string())
        }
        _ => None,
    }
}

#[test]
fn equality_agrees_with_the_host_on_every_pair() {
    for a in SAMPLES.iter() {
        for b in SAMPLES.iter() {
            assert_eq!(
                paths_equal(a, b),
                Path::new(a) == Path::new(b),
                "{:?} against {:?}",
                a,
                b
            );
        }
    }
}

#[test]
fn join_agrees_with_the_host_on_every_pair() {
    for a in SAMPLES.iter() {
        for b in SAMPLES.iter() {
            let expected = Path::new(a).join(b);
            assert_eq!(join(a, b), expected.to_str().unwrap(), "{:?} joined with {:?}", a, b);
        }
    }
}

#[test]
fn parent_dir_agrees_with_the_host() {
    for p in SAMPLES.iter() {
        assert_eq!(parent_dir(p), std_parent_dir(p), "parent of {:?}", p);
    }
}

#[test]
fn file_name_agrees_with_the_host() {
    for p in SAMPLES.iter() {
        let expected = Path::new(p).file_name().map(|n| n.to_str().unwrap().to_string());
        assert_eq!(file_name(p), expected, "file name of {:?}", p);
    }
}

#[test]
fn join_puts_one_separator_between() {
    assert_eq!(join("/etc/app/conf.d", "a.toml"), "/etc/app/conf.d/a.toml");
    assert_eq!(join("/etc/app/conf.d/", "a.toml"), "/etc/app/conf.d/a.toml");
    assert_eq!(join("/etc/app/conf.d", "nested/b.toml"), "/etc/app/conf.d/nested/b.toml");
    assert_eq!(join("", "a"), "a");
    assert_eq!(join("a", ""), "a/");
    assert_eq!(join("a", "/b"), "/b");
}

#[test]
fn parent_dir_of_typical_destinations() {
    assert_eq!(parent_dir("/usr/bin/app"), Some("/usr/bin".to_string()));
    assert_eq!(parent_dir("/usr/lib/systemd/system/sample.service"), Some("/usr/lib/systemd/system".to_string()));
    assert_eq!(parent_dir("/app"), Some("/".to_string()));
    assert_eq!(parent_dir("app"), None);
    assert_eq!(parent_dir("/"), None);
    assert_eq!(parent_dir(""), None);
    assert_eq!(parent_dir("/a//b/"), Some("/a".to_string()));
}

#[test]
fn file_name_skips_trailing_noise() {
    assert_eq!(file_name("target/release/app"), Some("app".to_string()));
    assert_eq!(file_name("a/b/"), Some("b".to_string()));
    assert_eq!(file_name("a/b/."), Some("b".to_string()));
    assert_eq!(file_name("a/.."), None);
    assert_eq!(file_name("/"), None);
}

#[test]
fn same_path_ignores_spelling() {
    assert!(paths_equal("/a/f", "/a//f"));
    assert!(paths_equal("/a/f", "/a/./f"));
    assert!(paths_equal("/a/f", "/a/f/"));
    assert!(!paths_equal("/a/f", "a/f"));
    assert!(!paths_equal("./a", "a"));
    assert!(!paths_equal("/a/f", "/a/g"));
    assert!(!paths_equal("/a/b/../f", "/a/f"));
}

#[test]
fn directory_sources_end_in_a_separator() {
    assert!(names_directory("config/"));
    assert!(names_directory("/"));
    assert!(!names_directory("config"));
    assert!(!names_directory(""));
    assert!(!names_directory("x.txt"));
}
