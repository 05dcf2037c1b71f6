use musicpresence::updater::{
    check_failed_message, evaluate_release, install_failed_message, is_newer_version, parse_version,
    release_page_message, tag_version, up_to_date_message, update_available_message, ReleaseAsset,
    UpdateInfo,
};

#[test]
fn parse_plain_and_prefixed_versions() {
    assert_eq!(parse_version("1.2.3"), (1, 2, 3));
    assert_eq!(parse_version("v1.2.3"), (1, 2, 3));
    assert_eq!(parse_version("vv10.20.30"), (10, 20, 30));
    assert_eq!(parse_version("v2.0.1 "), (2, 0, 1));
    // whitespace before the `v` keeps it: the major field then reads as 0
    assert_eq!(parse_version(" v2.0.1 "), (0, 0, 1));
}

#[test]
fn parse_partial_and_odd_versions() {
    assert_eq!(parse_version("2"), (2, 0, 0));
    assert_eq!(parse_version("2.5"), (2, 5, 0));
    assert_eq!(parse_version("1.2.3-beta.1"), (1, 2, 3));
    assert_eq!(parse_version("1.2.3.4"), (1, 2, 3));
    assert_eq!(parse_version("x.y.z"), (0, 0, 0));
    assert_eq!(parse_version(""), (0, 0, 0));
    assert_eq!(parse_version("1..3"), (1, 0, 3));
    assert_eq!(parse_version("1.2.rc"), (1, 2, 0));
}

#[test]
fn newer_version_ordering() {
    assert!(is_newer_version("1.2.3", "1.2.4"));
    assert!(is_newer_version("1.2.3", "1.3.0"));
    assert!(is_newer_version("1.2.3", "v2.0.0"));
    assert!(!is_newer_version("1.2.3", "1.2.3"));
    assert!(!is_newer_version("1.2.3", "v1.2.3"));
    assert!(!is_newer_version("1.2.4", "1.2.3"));
    assert!(!is_newer_version("2.0.0", "1.99.99"));
    assert!(is_newer_version("0.9.9", "0.10.0"));
}

#[test]
fn newer_is_strict_order_on_samples() {
    let vs = ["0.1.0", "v0.1.1", "1.0.0", "1.0.0-beta", "1.10.0", "v1.9.9", "2"];
    for a in vs {
        assert!(!is_newer_version(a, a));
        for b in vs {
            if is_newer_version(a, b) {
                assert!(!is_newer_version(b, a));
            }
            for c in vs {
                if is_newer_version(a, b) && is_newer_version(b, c) {
                    assert!(is_newer_version(a, c));
                }
            }
        }
    }
}

#[test]
fn tag_versions() {
    assert_eq!(tag_version(" v1.4.0 "), "1.4.0");
    assert_eq!(tag_version("1.4.0"), "1.4.0");
}

fn asset(name: &str, url: &str) -> ReleaseAsset {
    ReleaseAsset { name: name.to_string(), browser_download_url: url.to_string() }
}

#[test]
fn release_offered_when_newer() {
    let assets = vec![asset("notes.txt", "u0"), asset("MusicPresence.exe", "u1"), asset("b.exe", "u2")];
    let info = evaluate_release("1.0.0", "v1.1.0", "https://github.com/r".to_string(), assets).unwrap();
    assert_eq!(info.current_version, "1.0.0");
    assert_eq!(info.latest_version, "1.1.0");
    assert_eq!(info.download_url.as_deref(), Some("u1"));
    assert_eq!(info.release_url, "https://github.com/r");
}

#[test]
fn first_exe_asset_wins() {
    let assets = vec![asset("other.exe", "u0"), asset("MusicPresence.exe", "u1")];
    let info = evaluate_release("1.0.0", "2.0.0", "r".to_string(), assets).unwrap();
    assert_eq!(info.download_url.as_deref(), Some("u0"));
}

#[test]
fn release_without_exe() {
    let assets = vec![asset("source.zip", "u0")];
    let info = evaluate_release("1.0.0", "2.0.0", "r".to_string(), assets).unwrap();
    assert!(info.download_url.is_none());
}

#[test]
fn no_offer_when_not_newer() {
    assert!(evaluate_release("1.2.0", "v1.2.0", "r".to_string(), vec![]).is_none());
    assert!(evaluate_release("1.2.0", "v1.1.9", "r".to_string(), vec![]).is_none());
}

#[test]
fn dialog_texts() {
    let info = UpdateInfo {
        current_version: "1.0.0".to_string(),
        latest_version: "1.1.0".to_string(),
        download_url: None,
        release_url: "https://github.com/r".to_string(),
    };
    assert_eq!(
        update_available_message(&info),
        "A new version is available!\n\n• Current version: v1.0.0\n• Latest version: v1.1.0\n\nWould you like to download and install this update automatically?"
    );
    assert_eq!(
        install_failed_message("denied", "https://github.com/r"),
        "Failed to install update:\ndenied\n\nYou can manually download it from:\nhttps://github.com/r"
    );
    assert_eq!(release_page_message("u"), "The new update is available on GitHub:\nu");
    assert_eq!(up_to_date_message("2.3.4"), "You are using the latest version of Music Presence (v2.3.4).");
    assert_eq!(
        check_failed_message("timeout"),
        "Could not check for updates:\ntimeout\n\nPlease verify your internet connection."
    );
}
