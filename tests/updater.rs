use bloxchat::version::{
    compare_versions, is_newer_version, normalize_version, parse_semver_parts, parse_u64,
    plan_update, release_msi_url, GithubRelease, GithubReleaseAsset, UpdatePlan,
};
use std::cmp::Ordering;

#[test]
fn normalize_version_strips_prefix() {
    assert_eq!(normalize_version("v1.2.3"), "1.2.3");
    assert_eq!(normalize_version("  v0.0.1 "), "0.0.1");
}

#[test]
fn compare_versions_pads_missing_parts() {
    assert_eq!(compare_versions("1.2", "1.2.0"), Some(Ordering::Equal));
    assert_eq!(compare_versions("1.2.10", "1.2.9"), Some(Ordering::Greater));
    assert_eq!(compare_versions("1.0.0", "2.0.0"), Some(Ordering::Less));
}

#[test]
fn normalize_strips_every_leading_v() {
    assert_eq!(normalize_version("vv2"), "2");
    assert_eq!(normalize_version("1.0v"), "1.0v");
    assert_eq!(normalize_version("   "), "");
}

#[test]
fn semver_parts_parsing() {
    assert_eq!(parse_semver_parts("1.2.3"), Some(vec![1, 2, 3]));
    assert_eq!(parse_semver_parts("v4.5.6-beta.1+build"), Some(vec![4, 5, 6]));
    assert_eq!(parse_semver_parts("7+x"), Some(vec![7]));
    assert_eq!(parse_semver_parts(""), None);
    assert_eq!(parse_semver_parts("-beta"), None);
    assert_eq!(parse_semver_parts("1..2"), None);
    assert_eq!(parse_semver_parts("1.x"), None);
}

#[test]
fn u64_parsing_follows_from_str() {
    assert_eq!(parse_u64("0"), Some(0));
    assert_eq!(parse_u64("+12"), Some(12));
    assert_eq!(parse_u64("18446744073709551615"), Some(u64::MAX));
    assert_eq!(parse_u64("18446744073709551616"), None);
    assert_eq!(parse_u64(""), None);
    assert_eq!(parse_u64("+"), None);
    assert_eq!(parse_u64("-1"), None);
    assert_eq!(parse_u64("1a"), None);
}

#[test]
fn unparsable_versions_do_not_compare() {
    assert_eq!(compare_versions("abc", "1.0"), None);
    assert_eq!(compare_versions("1.0", ""), None);
    assert!(!is_newer_version("x", "1.0"));
}

#[test]
fn newer_version_detection() {
    assert!(is_newer_version("v1.3.0", "1.2.9"));
    assert!(!is_newer_version("1.2", "1.2.0"));
    assert!(!is_newer_version("1.1", "1.2"));
    assert!(is_newer_version("1.2.0.1", "1.2"));
}

fn asset(name: &str, url: &str) -> GithubReleaseAsset {
    GithubReleaseAsset { name: name.to_string(), browser_download_url: url.to_string() }
}

#[test]
fn msi_asset_is_found_ignoring_case() {
    let release = GithubRelease {
        tag_name: "v1.0.0".to_string(),
        assets: vec![
            asset("BloxChat.zip", "https://x/zip"),
            asset("bloxchat.MSI", "https://x/msi1"),
            asset("BloxChat.msi", "https://x/msi2"),
        ],
    };
    assert_eq!(release_msi_url(&release), Some("https://x/msi1".to_string()));
}

#[test]
fn release_without_msi_gives_nothing() {
    let release = GithubRelease {
        tag_name: "v1.0.0".to_string(),
        assets: vec![asset("BloxChat.msix", "https://x/a"), asset("Other.msi", "https://x/b")],
    };
    assert_eq!(release_msi_url(&release), None);
    let empty = GithubRelease { tag_name: "v1".to_string(), assets: vec![] };
    assert_eq!(release_msi_url(&empty), None);
}

#[test]
fn update_plan_follows_version_and_installer() {
    let release = GithubRelease {
        tag_name: " v1.4.0".to_string(),
        assets: vec![asset("BloxChat.msi", "https://x/msi")],
    };
    assert_eq!(
        plan_update(&release, "1.3.9"),
        UpdatePlan::Install { version: "1.4.0".to_string(), url: "https://x/msi".to_string() }
    );
    assert_eq!(plan_update(&release, "1.4"), UpdatePlan::UpToDate);
    assert_eq!(plan_update(&release, "garbage"), UpdatePlan::UpToDate);
    let bare = GithubRelease { tag_name: "v2.0.0".to_string(), assets: vec![] };
    assert_eq!(plan_update(&bare, "1.0.0"), UpdatePlan::MissingInstaller);
}
