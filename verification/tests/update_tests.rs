use quantum_launcher::update_check::{
    archive_kind, check_releases, needs_java8_reset, is_withdrawn_version, latest_release, tag_to_version, update_decision, ArchiveKind,
    GithubAsset, GithubRelease, SemVer, UpdateCheckInfo, UpdateError, VersionOrder,
};

fn release(tag: &str, assets: &[(&str, &str)]) -> GithubRelease {
    GithubRelease {
        tag_name: tag.to_string(),
        assets: assets
            .iter()
            .map(|(n, u)| GithubAsset { name: n.to_string(), browser_download_url: u.to_string() })
            .collect(),
    }
}

fn linux_release(tag: &str) -> GithubRelease {
    release(
        tag,
        &[
            ("quantum_launcher_windows_x86_64.zip", "https://example.org/win.zip"),
            ("quantum-launcher-linux-x86_64.tar.gz", "https://example.org/linux.tar.gz"),
        ],
    )
}

fn v(s: &str) -> SemVer {
    SemVer::parse(s).unwrap()
}

#[test]
fn tags_become_versions() {
    assert_eq!(tag_to_version("v0.4.2"), "0.4.2");
    assert_eq!(tag_to_version("v0.2"), "0.2.0");
    assert_eq!(tag_to_version("0.5"), "0.5.0");
    assert_eq!(tag_to_version("1.2.3"), "1.2.3");
    assert_eq!(tag_to_version("v1"), "1");
    assert_eq!(tag_to_version(""), "");
}

#[test]
fn withdrawn_versions() {
    assert!(is_withdrawn_version("0.5.0-D"));
    assert!(is_withdrawn_version("0.5.0-D12"));
    assert!(!is_withdrawn_version("0.5.0"));
    assert!(!is_withdrawn_version("0.5.0-D1x"));
    assert!(!is_withdrawn_version(""));
}

#[test]
fn newest_release_skips_withdrawn() {
    let releases = vec![linux_release("v0.5.0-D1"), linux_release("v0.4.2"), linux_release("v0.4.1")];
    let (i, version) = latest_release(&releases).unwrap();
    assert_eq!(i, 1);
    assert_eq!(version, "0.4.2");
    assert!(latest_release(&vec![linux_release("v0.5.0-D")]).is_none());
}

#[test]
fn check_up_to_date() {
    let releases = vec![linux_release("v0.4.2")];
    let r = check_releases(&releases, &v("0.4.2"), Some("x86_64"), Some("linux"));
    assert!(matches!(r, Ok(UpdateCheckInfo::UpToDate)));
}

#[test]
fn check_finds_platform_download() {
    let releases = vec![linux_release("v0.5")];
    let r = check_releases(&releases, &v("0.4.2"), Some("x86_64"), Some("linux"));
    match r {
        Ok(UpdateCheckInfo::NewVersion { url }) => assert_eq!(url, "https://example.org/linux.tar.gz"),
        other => panic!("unexpected {other:?}"),
    }
    let r = check_releases(&releases, &v("0.4.2"), Some("x86_64"), Some("windows"));
    match r {
        Ok(UpdateCheckInfo::NewVersion { url }) => assert_eq!(url, "https://example.org/win.zip"),
        other => panic!("unexpected {other:?}"),
    }
}

#[test]
fn check_errors() {
    let releases = vec![linux_release("v0.4.2")];
    assert!(matches!(
        check_releases(&releases, &v("0.5.0"), Some("x86_64"), Some("linux")),
        Err(UpdateError::AheadOfLatestVersion)
    ));
    assert!(matches!(check_releases(&Vec::new(), &v("0.4.2"), None, None), Err(UpdateError::NoReleases)));
    assert!(matches!(
        check_releases(&vec![linux_release("vfoo")], &v("0.4.2"), None, None),
        Err(UpdateError::SemverError(_))
    ));
    assert!(matches!(
        check_releases(&vec![linux_release("v0.5.0")], &v("0.4.2"), None, Some("linux")),
        Err(UpdateError::UnsupportedArchitecture)
    ));
    assert!(matches!(
        check_releases(&vec![linux_release("v0.5.0")], &v("0.4.2"), Some("x86_64"), None),
        Err(UpdateError::UnsupportedOS)
    ));
    assert!(matches!(
        check_releases(&vec![linux_release("v0.5.0")], &v("0.4.2"), Some("aarch64"), Some("macos")),
        Err(UpdateError::NoMatchingDownloadFound)
    ));
}

#[test]
fn decision_by_order() {
    let r = linux_release("v1.0.0");
    assert!(matches!(update_decision(VersionOrder::Same, &r, None, None), Ok(UpdateCheckInfo::UpToDate)));
    assert!(matches!(update_decision(VersionOrder::Older, &r, None, None), Err(UpdateError::AheadOfLatestVersion)));
    assert!(matches!(update_decision(VersionOrder::Newer, &r, None, None), Err(UpdateError::UnsupportedArchitecture)));
}

#[test]
fn archive_kinds() {
    assert!(matches!(archive_kind("https://x/y.tar.gz"), Ok(ArchiveKind::TarGz)));
    assert!(matches!(archive_kind("https://x/y.zip"), Ok(ArchiveKind::Zip)));
    match archive_kind("https://x/y.exe") {
        Err(UpdateError::UnknownFileExtension(u)) => assert_eq!(u, "https://x/y.exe"),
        other => panic!("unexpected {other:?}"),
    }
}

#[test]
fn java8_reset_after_old_versions() {
    assert_eq!(needs_java8_reset("v0.4.2", true).ok(), Some(true));
    assert_eq!(needs_java8_reset("0.4.1", true).ok(), Some(true));
    assert_eq!(needs_java8_reset("0.5.0", true).ok(), Some(false));
    assert_eq!(needs_java8_reset("0.4.2", false).ok(), Some(false));
    assert!(needs_java8_reset("v0.4", true).is_err());
    assert!(needs_java8_reset("", false).is_err());
}

#[test]
fn semver_texts_parse_or_fail() {
    assert!(SemVer::parse("0.4.2").is_ok());
    assert!(SemVer::parse("1.0.0-alpha.1+build.5").is_ok());
    assert!(SemVer::parse("0.4").is_err());
    assert!(SemVer::parse("1.0.01").is_err());
}

#[test]
fn prerelease_of_newer_version_is_an_update() {
    let releases = vec![linux_release("v0.5.0-rc.1")];
    match check_releases(&releases, &v("0.4.2"), Some("x86_64"), Some("linux")) {
        Ok(UpdateCheckInfo::NewVersion { url }) => assert_eq!(url, "https://example.org/linux.tar.gz"),
        other => panic!("unexpected {other:?}"),
    }
    assert!(matches!(
        check_releases(&releases, &v("0.5.0"), Some("x86_64"), Some("linux")),
        Err(UpdateError::AheadOfLatestVersion)
    ));
}

#[test]
fn java8_reset_for_prerelease_and_build_metadata() {
    assert_eq!(needs_java8_reset("0.4.2-beta", true).ok(), Some(true));
    assert_eq!(needs_java8_reset("0.4.2+build", true).ok(), Some(false));
    assert_eq!(needs_java8_reset("0.3.9", false).ok(), Some(false));
}
