use std::cmp::Ordering;
use nymphalis::version::{compare_versions, find_platform_asset, parse_version, GithubRelease, ReleaseAsset};
use nymphalis::release::{update_plan, wants_download};
use nymphalis::i18n::Lang;

#[test]
fn test_parse_and_compare_versions() {
    assert_eq!(compare_versions("0.0.5", "0.0.7"), Ordering::Less);
    assert_eq!(compare_versions("0.0.7", "0.0.7"), Ordering::Equal);
    assert_eq!(compare_versions("0.0.8", "0.0.7"), Ordering::Greater);
    assert_eq!(compare_versions("v0.0.5", "0.0.7"), Ordering::Less);
    assert_eq!(compare_versions("0.1.0", "0.0.9"), Ordering::Greater);
}

fn assets() -> Vec<ReleaseAsset> {
    vec![
        ReleaseAsset {
            name: "nymphalis-linux-amd64".to_string(),
            browser_download_url: "https://example.com/linux-amd64".to_string(),
            size: None,
        },
        ReleaseAsset {
            name: "nymphalis-macos-amd64".to_string(),
            browser_download_url: "https://example.com/macos-amd64".to_string(),
            size: None,
        },
        ReleaseAsset {
            name: "nymphalis-windows-amd64.exe".to_string(),
            browser_download_url: "https://example.com/windows-amd64".to_string(),
            size: None,
        },
    ]
}

#[test]
fn test_find_platform_asset() {
    let assets = assets();

    let macos_asset = find_platform_asset(&assets, "macos-amd64");
    assert!(macos_asset.is_some());
    assert_eq!(macos_asset.unwrap().name, "nymphalis-macos-amd64");

    let windows_asset = find_platform_asset(&assets, "windows-amd64");
    assert!(windows_asset.is_some());
    assert_eq!(windows_asset.unwrap().name, "nymphalis-windows-amd64.exe");

    let non_existent = find_platform_asset(&assets, "freebsd-amd64");
    assert!(non_existent.is_none());
}

#[test]
fn version_numbers_skip_non_numbers() {
    assert_eq!(parse_version(" v1.2.3-rc+4 "), vec![1, 2, 3, 4]);
    assert_eq!(parse_version("beta"), Vec::<u64>::new());
}

#[test]
fn versions_without_numbers_compare_as_text() {
    assert_eq!(compare_versions("beta", "alpha"), Ordering::Greater);
    assert_eq!(compare_versions("v1", "1"), Ordering::Equal);
}

#[test]
fn comparing_swapped_versions_flips_the_order() {
    for (a, b) in [("0.0.5", "0.0.7"), ("1.10", "1.9"), ("x", "y"), ("2", "2.0")] {
        assert_eq!(compare_versions(a, b), compare_versions(b, a).reverse());
        assert_eq!(compare_versions(a, a), Ordering::Equal);
    }
}

fn release(tag: &str) -> GithubRelease {
    GithubRelease {
        tag_name: tag.to_string(),
        name: Some("Big one".to_string()),
        html_url: "https://example.com/r".to_string(),
        body: Some("  fixes  ".to_string()),
        assets: assets(),
    }
}

#[test]
fn update_plan_for_newer_release() {
    let plan = update_plan(Lang::En, "0.0.5", "linux-amd64", &release(" v0.0.7 "), true);
    let texts: Vec<&str> = plan.lines.iter().map(|l| l.1.as_str()).collect();
    assert_eq!(
        texts,
        vec![
            "A new version is available: v0.0.7 (current: 0.0.5 linux-amd64)",
            "Release: Big one",
            "",
            "Direct download link for your platform (linux-amd64):\n  https://example.com/linux-amd64",
            "",
            "Release page: https://example.com/r",
            "",
            "Changelog:\nfixes",
        ]
    );
    assert!(plan.lines.iter().all(|l| !l.0));
    assert_eq!(
        plan.download,
        Some(("nymphalis-linux-amd64".to_string(), "https://example.com/linux-amd64".to_string()))
    );
}

#[test]
fn update_plan_when_current() {
    let plan = update_plan(Lang::En, "0.0.7", "linux-amd64", &release("0.0.7"), true);
    assert_eq!(plan.lines.len(), 1);
    assert_eq!(plan.lines[0].1, "You are using the latest version: 0.0.7 (linux-amd64)");
    assert!(plan.download.is_none());
    let newer = update_plan(Lang::En, "0.0.9", "x", &release("0.0.7"), false);
    assert_eq!(newer.lines[0].1, "Current version (0.0.9 x) is newer than the latest release (0.0.7).");
}

#[test]
fn update_plan_without_asset_reports_error() {
    let plan = update_plan(Lang::En, "0.0.1", "freebsd-amd64", &release("0.0.7"), true);
    let last = plan.lines.last().unwrap();
    assert!(last.0);
    assert_eq!(last.1, "No compatible asset found for platform freebsd-amd64");
    assert!(plan.download.is_none());
}

#[test]
fn download_flag() {
    assert!(wants_download(&["x".to_string(), "-d".to_string()]));
    assert!(wants_download(&["--download".to_string()]));
    assert!(!wants_download(&["--dl".to_string()]));
}

#[test]
fn versions_compare_by_numbers() {
    assert_eq!(compare_versions("0.0.10", "0.0.9"), Ordering::Greater);
    assert_eq!(compare_versions("1.0", "1.0.0"), Ordering::Less);
    assert_eq!(compare_versions("1.0.0", "1.0"), Ordering::Greater);
    assert_eq!(compare_versions(" v2.1 ", "2.1"), Ordering::Equal);
}
