use musicpresence::itunes::{
    cache_key, encode_query, metadata_from_track, search_url, upscale_artwork_url, CacheLookup,
    ItunesMetadata, MetadataCache,
};

#[test]
fn query_encoding_exact() {
    assert_eq!(encode_query("Hello World"), "Hello+World");
    assert_eq!(encode_query("a-b_c.d~e"), "a-b_c.d~e");
    assert_eq!(encode_query("AC/DC & Co"), "AC%2FDC+%26+Co");
    assert_eq!(encode_query("é"), "%C3%A9");
    assert_eq!(encode_query("+%"), "%2B%25");
    assert_eq!(encode_query(""), "");
}

#[test]
fn query_encoding_is_url_safe() {
    let e = encode_query("Beyoncé — Halo (Live) 100% ♥ ?=&#");
    assert!(e.chars().all(|c| c.is_ascii_alphanumeric() || "-_.~+%".contains(c)));
}

#[test]
fn search_url_exact() {
    assert_eq!(
        search_url("Bohemian Rhapsody", "Queen"),
        "https://itunes.apple.com/search?term=Bohemian+Rhapsody+Queen&media=music&entity=song&limit=1"
    );
    assert_eq!(
        search_url("Café", "Zaz"),
        "https://itunes.apple.com/search?term=Caf%C3%A9+Zaz&media=music&entity=song&limit=1"
    );
}

#[test]
fn artwork_is_upscaled() {
    assert_eq!(
        upscale_artwork_url("https://is1.mzstatic.com/image/thumb/abc/100x100bb.jpg"),
        "https://is1.mzstatic.com/image/thumb/abc/1024x1024bb.jpg"
    );
    assert_eq!(upscale_artwork_url("https://x/100x100.png"), "https://x/1024x1024.png");
    assert_eq!(upscale_artwork_url("https://x/60x60bb.jpg"), "https://x/60x60bb.jpg");
}

#[test]
fn metadata_requires_artwork() {
    assert!(metadata_from_track(None, Some("https://music.apple.com/x".to_string())).is_none());
    let m = metadata_from_track(Some("https://a/100x100bb.jpg".to_string()), None).unwrap();
    assert_eq!(m.artwork_url, "https://a/1024x1024bb.jpg");
    assert!(m.track_url.is_none());
    let m = metadata_from_track(
        Some("https://a/b.jpg".to_string()),
        Some("https://music.apple.com/t".to_string()),
    )
    .unwrap();
    assert_eq!(m.track_url.as_deref(), Some("https://music.apple.com/t"));
}

#[test]
fn cache_key_is_normalised() {
    assert_eq!(cache_key("  Halo ", " BEYONCÉ"), "halo --- beyoncé");
    assert_eq!(cache_key("Halo", "Beyoncé"), cache_key(" HALO", "beyoncé  "));
}

#[test]
fn cache_read_after_write() {
    let mut c = MetadataCache::new();
    assert!(c.get("k").is_none());
    c.insert("k".to_string(), None);
    assert!(matches!(c.get("k"), Some(None)));
    let meta = ItunesMetadata { artwork_url: "https://a".to_string(), track_url: None };
    c.insert("other".to_string(), Some(meta));
    assert!(matches!(c.get("k"), Some(None)));
    match c.get("other") {
        Some(Some(m)) => assert_eq!(m.artwork_url, "https://a"),
        _ => panic!("expected a cached hit"),
    }
    let meta2 = ItunesMetadata { artwork_url: "https://b".to_string(), track_url: Some("t".to_string()) };
    c.insert("k".to_string(), Some(meta2));
    match c.get("k") {
        Some(Some(m)) => {
            assert_eq!(m.artwork_url, "https://b");
            assert_eq!(m.track_url.as_deref(), Some("t"));
        }
        _ => panic!("expected the replaced value"),
    }
    assert!(c.get("missing").is_none());
}

#[test]
fn repeated_search_is_a_cache_hit() {
    let mut c = MetadataCache::new();
    let key = match c.lookup(" Halo", "Beyoncé ") {
        CacheLookup::Miss(k) => k,
        CacheLookup::Hit(_) => panic!("empty cache cannot hit"),
    };
    assert_eq!(key, "halo --- beyoncé");
    c.insert(key, Some(ItunesMetadata { artwork_url: "https://a".to_string(), track_url: None }));
    match c.lookup("HALO", "beyoncé") {
        CacheLookup::Hit(Some(m)) => assert_eq!(m.artwork_url, "https://a"),
        _ => panic!("expected a hit"),
    }
    // an absent result is remembered too
    let key = match c.lookup("Unknown", "Nobody") {
        CacheLookup::Miss(k) => k,
        CacheLookup::Hit(_) => panic!(),
    };
    c.insert(key, None);
    assert!(matches!(c.lookup(" unknown ", "NOBODY"), CacheLookup::Hit(None)));
}
