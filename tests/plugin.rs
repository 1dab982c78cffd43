use go_plugin::plugin::{defines_var, join, GoPlugin};

fn env(pairs: &[(&str, &str)]) -> Vec<(String, String)> {
    pairs.iter().map(|(k, v)| (k.to_string(), v.to_string())).collect()
}

#[test]
fn new_plugin_has_its_name_and_no_catalog() {
    let p = GoPlugin::new("go".to_string());
    assert_eq!(p.name(), "go");
    assert!(p.needs_remote_versions());
}

#[test]
fn paths_under_install_root() {
    let p = GoPlugin::new("go".to_string());
    assert_eq!(p.goroot("/i"), "/i/go");
    assert_eq!(p.gopath("/i"), "/i/packages");
    assert_eq!(p.go_bin("/i"), "/i/go/bin/go");
    assert_eq!(p.goroot("/i/"), "/i/go");
}

#[test]
fn join_adds_one_separator() {
    assert_eq!(join("a", "b"), "a/b");
    assert_eq!(join("a/", "b"), "a/b");
    assert_eq!(join("", "b"), "b");
}

#[test]
fn bin_paths_are_toolchain_then_packages() {
    let p = GoPlugin::new("go".to_string());
    assert_eq!(p.list_bin_paths("/x"), vec!["/x/go/bin".to_string(), "/x/packages/bin".to_string()]);
}

#[test]
fn legacy_filename_is_go_version() {
    let p = GoPlugin::new("go".to_string());
    assert_eq!(p.legacy_filenames(), vec![".go-version".to_string()]);
}

#[test]
fn exec_env_sets_both_when_unset() {
    let p = GoPlugin::new("go".to_string());
    let r = p.exec_env("/x", &env(&[("PATH", "/bin")]));
    assert_eq!(r, env(&[("GOROOT", "/x/go"), ("GOPATH", "/x/packages")]));
}

#[test]
fn exec_env_keeps_user_goroot() {
    let p = GoPlugin::new("go".to_string());
    let r = p.exec_env("/x", &env(&[("GOROOT", "/usr/lib/go")]));
    assert_eq!(r, env(&[("GOPATH", "/x/packages")]));
    assert!(!r.iter().any(|(k, _)| k == "GOROOT"));
}

#[test]
fn exec_env_keeps_user_gopath_and_goroot() {
    let p = GoPlugin::new("go".to_string());
    let r = p.exec_env("/x", &env(&[("GOPATH", "/home/u/go"), ("GOROOT", "/g")]));
    assert!(r.is_empty());
}

#[test]
fn defines_var_looks_for_exact_name() {
    let e = env(&[("GOROOTX", "1"), ("goroot", "2")]);
    assert!(!defines_var(&e, "GOROOT"));
    assert!(defines_var(&e, "goroot"));
}

#[test]
fn remote_versions_are_fetched_once() {
    let mut p = GoPlugin::new("go".to_string());
    let first = p.list_remote_versions("h\trefs/tags/go1.21.0\nh\trefs/tags/go1.20\n");
    assert_eq!(first, vec!["1.20".to_string(), "1.21.0".to_string()]);
    assert!(!p.needs_remote_versions());
    let second = p.list_remote_versions("h\trefs/tags/go1.22.0\n");
    assert_eq!(second, first);
}
