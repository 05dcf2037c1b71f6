//! Release versions and the update decision: reading `v1.2.3`-style version
//! strings, ordering them, and turning the latest release into an offer.
use vstd::prelude::*;
use vstd::string::StringExecFns;
use crate::text::{
    after_sep, before_sep, char_pred, chars_of, ends_with_seq, ends_with_spec, find_sep, first_index,
    lemma_first_index_at,
    leading_run, parse_u64, parse_u64_spec, same_text, skip_leading, string_from_range, sub_chars,
    trim_bounds, trim_spec, trim_string,
};

verus! {

/// GitHub repository whose releases are checked.
pub const GITHUB_REPO: &'static str = "crobinaud/musicpresence";

/// HTTP status of the release query when the repository has no release yet.
pub const NO_RELEASE_STATUS: u16 = 404;

/// Name of the executable attached to releases.
pub const RELEASE_EXE_NAME: &'static str = "MusicPresence.exe";

/// An available update.
#[derive(Debug, Clone)]
pub struct UpdateInfo {
    pub current_version: String,
    pub latest_version: String,
    pub download_url: Option<String>,
    pub release_url: String,
}

/// A file attached to a release.
#[derive(Debug, Clone)]
pub struct ReleaseAsset {
    pub name: String,
    pub browser_download_url: String,
}

/// A version number: major, minor, patch.
pub type Version = (u64, u64, u64);

/// A version field: the number it reads as, or 0 when missing or not a number.
pub open spec fn version_field_spec(field: Option<Seq<char>>) -> u64 {
    match field {
        Some(f) => match parse_u64_spec(f) {
            Some(n) => n,
            None => 0,
        },
        None => 0,
    }
}

/// A version string without its leading `v`s and surrounding whitespace.
pub open spec fn clean_version_spec(v: Seq<char>) -> Seq<char> {
    trim_spec(skip_leading(v, char_pred('v')))
}

/// Reads "v1.2.3" or "1.2.3": the first three dot-separated fields, the third
/// cut at its first `-`; a missing or malformed field counts as 0.
pub open spec fn parse_version_spec(v: Seq<char>) -> Version {
    let c = clean_version_spec(v);
    let rest1 = after_sep(c, '.');
    let minor: Option<Seq<char>> = match rest1 {
        Some(r) => Some(before_sep(r, '.')),
        None => None,
    };
    let rest2: Option<Seq<char>> = match rest1 {
        Some(r) => after_sep(r, '.'),
        None => None,
    };
    let patch: Option<Seq<char>> = match rest2 {
        Some(r) => Some(before_sep(before_sep(r, '.'), '-')),
        None => None,
    };
    (
        version_field_spec(Some(before_sep(c, '.'))),
        version_field_spec(minor),
        version_field_spec(patch),
    )
}

/// `a` comes strictly before `b`, comparing major, then minor, then patch.
pub open spec fn version_lt(a: Version, b: Version) -> bool {
    ||| a.0 < b.0
    ||| (a.0 == b.0 && a.1 < b.1)
    ||| (a.0 == b.0 && a.1 == b.1 && a.2 < b.2)
}

/// `latest` names a strictly newer version than `current`.
pub open spec fn is_newer_spec(current: Seq<char>, latest: Seq<char>) -> bool {
    version_lt(parse_version_spec(current), parse_version_spec(latest))
}

/// Splits `s` at its first `sep`.
fn split_once(s: &Vec<char>, sep: char) -> (r: (Vec<char>, Option<Vec<char>>))
    ensures
        r.0@ == before_sep(s@, sep),
        r.1 is Some <==> after_sep(s@, sep) is Some,
        r.1 matches Some(rest) ==> after_sep(s@, sep) == Some(rest@),
{
    let i = find_sep(s, sep);
    let head = sub_chars(s, 0, i);
    assert(s@.subrange(0, i as int) =~= s@.take(i as int));
    if i < s.len() {
        let rest = sub_chars(s, i + 1, s.len());
        assert(s@.subrange(i + 1, s.len() as int) =~= s@.skip(i + 1));
        (head, Some(rest))
    } else {
        (head, None)
    }
}

/// The number a version field reads as, or 0.
fn version_field(field: &Vec<char>) -> (n: u64)
    ensures
        n == version_field_spec(Some(field@)),
{
    match parse_u64(field) {
        Some(n) => n,
        None => 0,
    }
}

/// Parses a version string like "v1.2.3" or "1.2.3" into (major, minor, patch)
pub fn parse_version(v: &str) -> (r: Version)
    ensures
        r == parse_version_spec(v@),
{
    let chars = chars_of(v);
    let n = leading_run(&chars, 'v');
    let stripped = sub_chars(&chars, n, chars.len());
    let (lo, hi) = trim_bounds(&stripped);
    let clean = sub_chars(&stripped, lo, hi);
    let (major_part, rest1) = split_once(&clean, '.');
    let major = version_field(&major_part);
    let (minor, patch) = match rest1 {
        Some(r1) => {
            let (minor_part, rest2) = split_once(&r1, '.');
            let minor = version_field(&minor_part);
            let patch = match rest2 {
                Some(r2) => {
                    let (third, _) = split_once(&r2, '.');
                    let (patch_part, _) = split_once(&third, '-');
                    version_field(&patch_part)
                },
                None => 0,
            };
            (minor, patch)
        },
        None => (0, 0),
    };
    (major, minor, patch)
}

/// Checks if v2 is strictly newer than v1
pub fn is_newer_version(current: &str, latest: &str) -> (r: bool)
    ensures
        r == is_newer_spec(current@, latest@),
        ({
            let a = parse_version_spec(current@);
            let b = parse_version_spec(latest@);
            &&& a.0 < b.0 ==> r
            &&& a.0 == b.0 && a.1 < b.1 ==> r
            &&& a.0 == b.0 && a.1 == b.1 && a.2 < b.2 ==> r
            &&& a.0 == b.0 && a.1 == b.1 && a.2 >= b.2 ==> !r
            &&& a.0 == b.0 && a.1 > b.1 ==> !r
            &&& a.0 > b.0 ==> !r
        }),
{
    let a = parse_version(current);
    let b = parse_version(latest);
    a.0 < b.0 || (a.0 == b.0 && a.1 < b.1) || (a.0 == b.0 && a.1 == b.1 && a.2 < b.2)
}

/// "Newer than" is a strict order on version strings: never newer than
/// itself, never both ways, and transitive.
pub proof fn lemma_newer_is_strict_order(a: Seq<char>, b: Seq<char>, c: Seq<char>)
    ensures
        !is_newer_spec(a, a),
        is_newer_spec(a, b) ==> !is_newer_spec(b, a),
        is_newer_spec(a, b) && is_newer_spec(b, c) ==> is_newer_spec(a, c),
{
}

/// The order on versions is numeric and lexicographic: a larger major number
/// wins whatever follows; with equal majors a larger minor number wins; with
/// equal majors and minors the larger patch number wins.
pub proof fn lemma_version_order_is_lexicographic(a: Version, b: Version)
    ensures
        a.0 < b.0 ==> version_lt(a, b),
        a.0 > b.0 ==> !version_lt(a, b),
        a.0 == b.0 && a.1 < b.1 ==> version_lt(a, b),
        a.0 == b.0 && a.1 > b.1 ==> !version_lt(a, b),
        a.0 == b.0 && a.1 == b.1 ==> (version_lt(a, b) <==> a.2 < b.2),
{
}

/// Raising the patch number by one gives a newer version (so 1.2.10 is
/// newer than 1.2.9).
pub proof fn lemma_next_patch_is_newer(major: u64, minor: u64, patch: u64)
    requires
        patch < u64::MAX,
    ensures
        version_lt((major, minor, patch), (major, minor, (patch + 1) as u64)),
        !version_lt((major, minor, (patch + 1) as u64), (major, minor, patch)),
{
}

/// Two version strings that read as different versions are ordered one way
/// or the other.
pub proof fn lemma_newer_is_total(a: Seq<char>, b: Seq<char>)
    requires
        parse_version_spec(a) != parse_version_spec(b),
    ensures
        is_newer_spec(a, b) || is_newer_spec(b, a),
{
}

/// A leading `v` does not change the version a string reads as.
pub proof fn lemma_v_prefix_ignored(s: Seq<char>)
    ensures
        parse_version_spec(seq!['v'] + s) == parse_version_spec(s),
{
    let t = seq!['v'] + s;
    assert(t[0] == 'v');
    assert(t.drop_first() =~= s);
    assert(skip_leading(t, char_pred('v')) == skip_leading(s, char_pred('v')));
}

/// The release asset to download: named like the application's executable
/// or, failing that, any `.exe`.
pub open spec fn is_exe_asset(a: ReleaseAsset) -> bool {
    a.name@ == RELEASE_EXE_NAME@ || ends_with_spec(a.name@, ".exe"@)
}

/// The predicate "is the executable to download" as a spec closure.
pub open spec fn exe_asset_pred() -> spec_fn(ReleaseAsset) -> bool {
    |a: ReleaseAsset| is_exe_asset(a)
}

/// The first executable among the assets, if any.
pub open spec fn first_exe_spec(assets: Seq<ReleaseAsset>) -> Option<int> {
    first_index(assets, exe_asset_pred())
}

/// Index of the first executable among the assets.
fn first_exe(assets: &Vec<ReleaseAsset>) -> (r: Option<usize>)
    ensures
        r is Some <==> first_exe_spec(assets@) is Some,
        r matches Some(i) ==> first_exe_spec(assets@) == Some(i as int) && i < assets.len(),
{
    let ghost p = exe_asset_pred();
    let exe = chars_of(".exe");
    let mut i: usize = 0;
    while i < assets.len()
        invariant
            p == exe_asset_pred(),
            i <= assets.len(),
            exe@ == ".exe"@,
            forall|j: int| 0 <= j < i ==> !#[trigger] p(assets@[j]),
        decreases assets.len() - i,
    {
        let name = chars_of(assets[i].name.as_str());
        if same_text(assets[i].name.as_str(), RELEASE_EXE_NAME) || ends_with_seq(
            name.as_slice(),
            exe.as_slice(),
        ) {
            proof {
                lemma_first_index_at(assets@, p, i as int);
            }
            return Some(i);
        }
        i += 1;
    }
    assert(first_index(assets@, p) is None);
    None
}

/// The version a release tag names: trimmed, without its leading `v`s.
pub open spec fn tag_version_spec(tag: Seq<char>) -> Seq<char> {
    skip_leading(trim_spec(tag), char_pred('v'))
}

/// The version named by a release tag.
pub fn tag_version(tag: &str) -> (r: String)
    ensures
        r@ == tag_version_spec(tag@),
{
    let trimmed = trim_string(tag);
    let chars = chars_of(trimmed.as_str());
    let n = leading_run(&chars, 'v');
    string_from_range(&chars, n, chars.len())
}

/// Decides on the latest release: an update is offered exactly when its tag
/// names a newer version than `current_version`; it points at the first
/// executable asset, if any, and at the release page.
pub fn evaluate_release(
    current_version: &str,
    tag_name: &str,
    html_url: String,
    assets: Vec<ReleaseAsset>,
) -> (r: Option<UpdateInfo>)
    ensures
        r is Some <==> is_newer_spec(current_version@, tag_version_spec(tag_name@)),
        r matches Some(info) ==> {
            &&& info.current_version@ == current_version@
            &&& info.latest_version@ == tag_version_spec(tag_name@)
            &&& info.release_url == html_url
            &&& (first_exe_spec(assets@) is None ==> info.download_url is None)
            &&& (first_exe_spec(assets@) matches Some(i) ==> info.download_url == Some(
                assets@[i].browser_download_url,
            ))
        },
{
    broadcast use vstd::string::group_string_axioms;

    let latest_version = tag_version(tag_name);
    if is_newer_version(current_version, latest_version.as_str()) {
        let download_url = match first_exe(&assets) {
            Some(i) => Some(assets[i].browser_download_url.clone()),
            None => None,
        };
        Some(
            UpdateInfo {
                current_version: current_version.to_string(),
                latest_version,
                download_url,
                release_url: html_url,
            },
        )
    } else {
        None
    }
}

// ---------------------------------------------------------------------------
// Texts of the update dialogs
// ---------------------------------------------------------------------------

/// Question asked when an update is available.
pub open spec fn update_available_text(current: Seq<char>, latest: Seq<char>) -> Seq<char> {
    "A new version is available!\n\n• Current version: v"@ + current
        + "\n• Latest version: v"@ + latest
        + "\n\nWould you like to download and install this update automatically?"@
}

/// The question asked when an update is available.
pub fn update_available_message(info: &UpdateInfo) -> (r: String)
    ensures
        r@ == update_available_text(info.current_version@, info.latest_version@),
{
    let mut m = "A new version is available!\n\n• Current version: v".to_string();
    m.append(info.current_version.as_str());
    m.append("\n• Latest version: v");
    m.append(info.latest_version.as_str());
    m.append("\n\nWould you like to download and install this update automatically?");
    m
}

/// Message shown when installing the update failed.
pub open spec fn install_failed_text(error: Seq<char>, release_url: Seq<char>) -> Seq<char> {
    "Failed to install update:\n"@ + error + "\n\nYou can manually download it from:\n"@
        + release_url
}

/// The message shown when installing the update failed.
pub fn install_failed_message(error: &str, release_url: &str) -> (r: String)
    ensures
        r@ == install_failed_text(error@, release_url@),
{
    let mut m = "Failed to install update:\n".to_string();
    m.append(error);
    m.append("\n\nYou can manually download it from:\n");
    m.append(release_url);
    m
}

/// Message pointing at the release page when no executable can be installed.
pub open spec fn release_page_text(release_url: Seq<char>) -> Seq<char> {
    "The new update is available on GitHub:\n"@ + release_url
}

/// The message pointing at the release page.
pub fn release_page_message(release_url: &str) -> (r: String)
    ensures
        r@ == release_page_text(release_url@),
{
    let mut m = "The new update is available on GitHub:\n".to_string();
    m.append(release_url);
    m
}

/// Message shown when no newer release exists.
pub open spec fn up_to_date_text(current: Seq<char>) -> Seq<char> {
    "You are using the latest version of Music Presence (v"@ + current + ")."@
}

/// The message shown when no newer release exists.
pub fn up_to_date_message(current_version: &str) -> (r: String)
    ensures
        r@ == up_to_date_text(current_version@),
{
    let mut m = "You are using the latest version of Music Presence (v".to_string();
    m.append(current_version);
    m.append(").");
    m
}

/// Message shown when the release query failed.
pub open spec fn check_failed_text(error: Seq<char>) -> Seq<char> {
    "Could not check for updates:\n"@ + error + "\n\nPlease verify your internet connection."@
}

/// The message shown when the release query failed.
pub fn check_failed_message(error: &str) -> (r: String)
    ensures
        r@ == check_failed_text(error@),
{
    let mut m = "Could not check for updates:\n".to_string();
    m.append(error);
    m.append("\n\nPlease verify your internet connection.");
    m
}

} // verus!
