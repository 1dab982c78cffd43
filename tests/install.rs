use go_plugin::install::{archive_name, checksum_matches, Event, InstallError, InstallPlan, Stage};
use go_plugin::plugin::GoPlugin;

fn plan(packages: Vec<String>, skip: bool) -> InstallPlan {
    InstallPlan::new("1.21.0", "linux", "amd64", "/opt/go/1.21.0", "/tmp/dl", packages, skip)
}

const DIGEST: &str = "4c2f3b0bcd6cb8f1ab6d0b5e1d0e5a4a0f0a5f6c2d7e8f9a0b1c2d3e4f5a6b7c";

#[test]
fn archive_name_joins_version_platform_arch() {
    assert_eq!(archive_name("1.21.0", "darwin", "arm64"), "go1.21.0.darwin-arm64.tar.gz");
}

#[test]
fn plan_builds_urls_and_paths() {
    let p = plan(vec![], false);
    assert_eq!(p.tarball_url, "https://dl.google.com/go/go1.21.0.linux-amd64.tar.gz");
    assert_eq!(p.checksum_url, "https://dl.google.com/go/go1.21.0.linux-amd64.tar.gz.sha256");
    assert_eq!(p.tarball_path, "/tmp/dl/go1.21.0.linux-amd64.tar.gz");
    assert_eq!(p.goroot, "/opt/go/1.21.0/go");
    assert_eq!(p.gopath, "/opt/go/1.21.0/packages");
    assert_eq!(p.go_bin, "/opt/go/1.21.0/go/bin/go");
}

#[test]
fn checksum_comparison_ignores_case() {
    assert!(checksum_matches("abcdef0123", "ABCDEF0123"));
    assert!(checksum_matches("ABCdef", "abcDEF"));
    assert!(!checksum_matches("abcdef", "abcdee"));
    assert!(!checksum_matches("abcdef", "abcdef\n"));
    assert!(checksum_matches("", ""));
}

fn through_checksum(p: &InstallPlan, published: &str, digest: &str) -> Stage {
    let s = p.advance(Stage::Download, Event::Succeeded);
    assert!(matches!(s, Stage::FetchChecksum));
    let s = p.advance(s, Event::ChecksumText { text: published.to_string() });
    match s {
        Stage::VerifyChecksum { .. } => p.advance(s, Event::Digest { hex: digest.to_string() }),
        other => other,
    }
}

#[test]
fn checksum_mismatch_stops_before_extraction() {
    let p = plan(vec![], false);
    let s = through_checksum(&p, DIGEST, "00");
    assert!(matches!(s, Stage::Failed { error: InstallError::ChecksumMismatch }));
    let s = p.advance(s, Event::Succeeded);
    assert!(matches!(s, Stage::Failed { error: InstallError::ChecksumMismatch }));
}

#[test]
fn checksum_match_proceeds_to_extraction() {
    let p = plan(vec![], false);
    let s = through_checksum(&p, DIGEST, &DIGEST.to_uppercase());
    assert!(matches!(s, Stage::Extract));
}

#[test]
fn checksum_skip_ignores_mismatch() {
    let p = plan(vec![], true);
    let s = through_checksum(&p, DIGEST, "00");
    assert!(matches!(s, Stage::Extract));
}

#[test]
fn each_stage_failure_names_its_error() {
    let p = plan(vec!["a@latest".to_string()], false);
    let cases = [
        (Stage::Download, InstallError::Download),
        (Stage::FetchChecksum, InstallError::ChecksumFetch),
        (Stage::VerifyChecksum { expected: DIGEST.to_string() }, InstallError::ChecksumMismatch),
        (Stage::Extract, InstallError::Extract),
        (Stage::SmokeTest, InstallError::ToolchainInvalid),
        (Stage::Package { index: 0 }, InstallError::DefaultPackageInstall),
    ];
    for (stage, expected) in cases {
        match p.advance(stage, Event::Failed) {
            Stage::Failed { error } => assert_eq!(error, expected),
            _ => panic!("a failure must stop the install"),
        }
    }
}

#[test]
fn default_packages_are_installed_in_turn() {
    let p = plan(vec!["a@latest".to_string(), "b@v1".to_string()], false);
    let s = p.advance(Stage::SmokeTest, Event::Succeeded);
    assert!(matches!(s, Stage::Package { index: 0 }));
    let s = p.advance(s, Event::Succeeded);
    assert!(matches!(s, Stage::Package { index: 1 }));
    let s = p.advance(s, Event::Succeeded);
    assert!(matches!(s, Stage::Done));
    let s = p.advance(s, Event::Failed);
    assert!(matches!(s, Stage::Done));
}

#[test]
fn install_end_to_end_then_bin_paths() {
    let p = InstallPlan::new("1.21.0", "linux", "amd64", "/data/installs/go/1.21.0", "/data/dl", vec![], false);
    let mut s = Stage::Download;
    let mut steps = 0;
    while !matches!(s, Stage::Done | Stage::Failed { .. }) {
        let event = match s {
            Stage::FetchChecksum => Event::ChecksumText { text: DIGEST.to_string() },
            Stage::VerifyChecksum { .. } => Event::Digest { hex: DIGEST.to_string() },
            _ => Event::Succeeded,
        };
        s = p.advance(s, event);
        steps += 1;
        assert!(steps < 10);
    }
    assert!(matches!(s, Stage::Done));
    let plugin = GoPlugin::new("go".to_string());
    let paths = plugin.list_bin_paths(&p.install_path);
    assert_eq!(paths.len(), 2);
    assert_eq!(paths[0], "/data/installs/go/1.21.0/go/bin");
    assert_eq!(paths[1], "/data/installs/go/1.21.0/packages/bin");
    assert!(paths[0].ends_with("go/bin"));
    assert!(paths[1].ends_with("packages/bin"));
}
