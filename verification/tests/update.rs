use netflash::update::{
    check_replace, is_app_bundle_layout, is_newer, is_trusted_zip_url, parse_version, select_release,
    ReleaseAsset, ReplaceError,
};

#[test]
fn parse_strips_v() {
    assert_eq!(parse_version("v1.0.0"), Some((1, 0, 0)));
    assert_eq!(parse_version("1.2.3"), Some((1, 2, 3)));
    assert_eq!(parse_version("v2.0.0-beta"), Some((2, 0, 0)));
    assert!(parse_version("nope").is_none());
}

#[test]
fn newer_tags() {
    assert!(is_newer("v1.1.0", "1.0.0"));
    assert!(is_newer("v1.2.0", "1.1.9"));
    assert!(!is_newer("v1.0.0", "1.0.0"));
    assert!(!is_newer("v1.0.0", "1.1.0"));
    assert!(!is_newer("trash", "1.0.0"));
}

#[test]
fn zip_url_must_be_this_repo_release_asset() {
    assert!(is_trusted_zip_url(
        "https://github.com/EssekerDev/NetFlash/releases/download/v1.0.0/NetFlash-1.0.0-macos.zip"
    ));
    assert!(!is_trusted_zip_url(
        "https://evil.example/NetFlash-1.0.0-macos.zip"
    ));
    assert!(!is_trusted_zip_url(
        "https://github.com/EssekerDev/NetFlash/releases/download/v1.0.0/../evil.zip"
    ));
    assert!(!is_trusted_zip_url(
        "https://github.com/other/NetFlash/releases/download/v1.0.0/NetFlash-1.0.0-macos.zip"
    ));
}

#[test]
fn parse_version_edges() {
    assert_eq!(parse_version("  V3.4.5  "), Some((3, 4, 5)));
    assert_eq!(parse_version("vv1.2.3"), Some((1, 2, 3)));
    assert_eq!(parse_version("1.2.3.4"), Some((1, 2, 3)));
    assert_eq!(parse_version("1.2.3-rc.1"), Some((1, 2, 3)));
    assert_eq!(parse_version("+1.+2.3"), Some((1, 2, 3)));
    assert_eq!(parse_version("1.2"), None);
    assert_eq!(parse_version("1..3"), None);
    assert_eq!(parse_version("1.2.x"), None);
    assert_eq!(parse_version("4294967295.0.0"), Some((4294967295, 0, 0)));
    assert_eq!(parse_version("4294967296.0.0"), None);
    assert_eq!(parse_version(""), None);
}

#[test]
fn newer_is_lexicographic() {
    assert!(is_newer("2.0.0", "1.99.99"));
    assert!(is_newer("1.0.1", "1.0.0"));
    assert!(!is_newer("1.0.0", "trash"));
    assert!(!is_newer("0.9.9", "1.0.0"));
}

#[test]
fn zip_url_rejects_smuggling() {
    let base = "https://github.com/EssekerDev/NetFlash/releases/download/v1.0.0/";
    assert!(is_trusted_zip_url(&format!("  {base}NetFlash-1.0.0-macos.zip\n")));
    assert!(!is_trusted_zip_url(&format!("{base}NetFlash-1.0.0-macos.zip?x=1")));
    assert!(!is_trusted_zip_url(&format!("{base}NetFlash-1.0.0-macos.zip#frag")));
    assert!(!is_trusted_zip_url(&format!("{base}NetFlash-1.0.0-macos.zip\\")));
    assert!(!is_trusted_zip_url(&format!("{base}NetFlash-1.0.0-linux.zip")));
    assert!(!is_trusted_zip_url(&format!("{base}Other-1.0.0-macos.zip")));
}

fn asset(name: &str, url: &str) -> ReleaseAsset {
    ReleaseAsset { name: name.to_owned(), browser_download_url: url.to_owned() }
}

#[test]
fn select_release_offers_newer_trusted_zip() {
    let url = "https://github.com/EssekerDev/NetFlash/releases/download/v1.2.0/NetFlash-1.2.0-macos.zip";
    let assets = vec![asset("notes.txt", "https://example.com/notes.txt"), asset("NetFlash-1.2.0-macos.zip", url)];
    let latest = select_release(" v1.2.0 ", &assets, "1.1.0").expect("newer release");
    assert_eq!(latest.version, "1.2.0");
    assert_eq!(latest.zip_url, url);
}

#[test]
fn select_release_refuses_old_missing_or_untrusted() {
    let url = "https://github.com/EssekerDev/NetFlash/releases/download/v1.2.0/NetFlash-1.2.0-macos.zip";
    let good = vec![asset("NetFlash-1.2.0-macos.zip", url)];
    assert!(select_release("v1.2.0", &good, "1.2.0").is_none());
    let none = vec![asset("NetFlash-1.2.0-linux.tar.gz", url)];
    assert!(select_release("v1.2.0", &none, "1.0.0").is_none());
    let evil = vec![asset("NetFlash-1.2.0-macos.zip", "https://evil.example/NetFlash-1.2.0-macos.zip")];
    assert!(select_release("v1.2.0", &evil, "1.0.0").is_none());
}

#[test]
fn replace_prechecks() {
    let url = "https://github.com/EssekerDev/NetFlash/releases/download/v1.2.0/NetFlash-1.2.0-macos.zip";
    assert_eq!(check_replace(url, Some("NetFlash.app")), Ok(()));
    assert_eq!(check_replace(url, Some("Other.app")), Err(ReplaceError::NotAppBundle));
    assert_eq!(check_replace(url, None), Err(ReplaceError::NotAppBundle));
    assert_eq!(check_replace("https://evil.example/x.zip", Some("NetFlash.app")), Err(ReplaceError::UntrustedUrl));
}

#[test]
fn bundle_layout_is_netflash_app_contents_macos() {
    assert!(is_app_bundle_layout(Some("MacOS"), Some("Contents"), Some("NetFlash.app")));
    assert!(!is_app_bundle_layout(Some("bin"), Some("Contents"), Some("NetFlash.app")));
    assert!(!is_app_bundle_layout(Some("MacOS"), Some("Contents"), Some("Other.app")));
    assert!(!is_app_bundle_layout(None, Some("Contents"), Some("NetFlash.app")));
}

#[test]
fn formatted_versions_parse_back() {
    for (a, b, c) in [(0_u32, 0_u32, 0_u32), (1, 2, 3), (10, 0, 42), (u32::MAX, 7, 4_000_000_000)] {
        for p in ["", "v", "V"] {
            for x in ["", "-beta", "-rc.1", ".4", ".x.y"] {
                let s = format!("{p}{a}.{b}.{c}{x}");
                assert_eq!(parse_version(&s), Some((a, b, c)), "{s}");
            }
        }
    }
}

#[test]
fn fewer_than_three_fields_never_parse() {
    assert_eq!(parse_version("1.2"), None);
    assert_eq!(parse_version("v7"), None);
    assert_eq!(parse_version(""), None);
    assert_eq!(parse_version(" V3.4 "), None);
}
