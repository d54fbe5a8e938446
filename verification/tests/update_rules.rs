use capture_gui::update::{check_release, is_newer, parse_semver, Release, ReleaseAsset};

fn asset(name: Option<&str>, url: Option<&str>) -> ReleaseAsset {
    ReleaseAsset { name: name.map(String::from), url: url.map(String::from) }
}

fn release(tag: Option<&str>, assets: Option<Vec<ReleaseAsset>>) -> Release {
    Release { tag_name: tag.map(String::from), assets }
}

#[test]
fn semver_parsing() {
    assert_eq!(parse_semver("0.2.0"), Some((0, 2, 0)));
    assert_eq!(parse_semver(" v1.10.3 "), Some((1, 10, 3)));
    assert_eq!(parse_semver("vv2.1"), Some((2, 1, 0)));
    assert_eq!(parse_semver("3"), Some((3, 0, 0)));
    assert_eq!(parse_semver("1.2.3-beta.1"), Some((1, 2, 3)));
    assert_eq!(parse_semver("1.2.3+build"), Some((1, 2, 3)));
    assert_eq!(parse_semver("1."), None);
    assert_eq!(parse_semver("x"), None);
    assert_eq!(parse_semver(""), None);
    assert_eq!(parse_semver("1.x.0"), None);
    assert_eq!(parse_semver("1.2.x"), None);
}

#[test]
fn newer_compares_major_then_minor_then_patch() {
    assert!(is_newer((0, 3, 0), (0, 2, 9)));
    assert!(is_newer((1, 0, 0), (0, 99, 99)));
    assert!(is_newer((0, 2, 1), (0, 2, 0)));
    assert!(!is_newer((0, 2, 0), (0, 2, 0)));
    assert!(!is_newer((0, 1, 9), (0, 2, 0)));
}

#[test]
fn newer_is_a_strict_order_on_examples() {
    let (a, b, c) = ((1, 2, 3), (1, 2, 4), (2, 0, 0));
    assert!(!is_newer(a, a));
    assert!(is_newer(b, a) && !is_newer(a, b));
    assert!(is_newer(c, b) && is_newer(b, a) && is_newer(c, a));
}

#[test]
fn newer_release_with_dmg_is_offered() {
    let r = release(
        Some("v0.3.0"),
        Some(vec![
            asset(Some("notes.txt"), Some("https://x/notes.txt")),
            asset(Some("Capture.dmg"), None),
            asset(Some("Capture-0.3.0.dmg"), Some("https://x/Capture-0.3.0.dmg")),
            asset(Some("Other.dmg"), Some("https://x/Other.dmg")),
        ]),
    );
    let info = check_release("0.2.0", &r).expect("an update");
    assert_eq!(info.version, "0.3.0");
    assert_eq!(info.dmg_url, "https://x/Capture-0.3.0.dmg");
    assert!(!info.version.starts_with('v'));
}

#[test]
fn same_or_older_release_is_not_offered() {
    let assets = || Some(vec![asset(Some("a.dmg"), Some("u"))]);
    assert!(check_release("0.2.0", &release(Some("v0.2.0"), assets())).is_none());
    assert!(check_release("0.2.0", &release(Some("0.1.9"), assets())).is_none());
}

#[test]
fn release_without_usable_dmg_is_not_offered() {
    assert!(check_release("0.2.0", &release(Some("v0.3.0"), None)).is_none());
    assert!(check_release("0.2.0", &release(Some("v0.3.0"), Some(vec![]))).is_none());
    let no_name = Some(vec![asset(None, Some("https://x/a.dmg"))]);
    assert!(check_release("0.2.0", &release(Some("v0.3.0"), no_name)).is_none());
}

#[test]
fn unparsable_versions_are_not_offered() {
    let assets = || Some(vec![asset(Some("a.dmg"), Some("u"))]);
    assert!(check_release("0.2.0", &release(None, assets())).is_none());
    assert!(check_release("0.2.0", &release(Some("latest"), assets())).is_none());
    assert!(check_release("dev", &release(Some("v9.0.0"), assets())).is_none());
}
