use musicpresence::media::{
    choose_session, is_apple_music_app, names_apple_music_lowercase, ticks_to_secs, track_from_properties, PlaybackState,
    SessionChoice,
};

#[test]
fn apple_music_app_ids() {
    assert!(is_apple_music_app("AppleInc.AppleMusicWin_nzyj5cx40ttqa!App"));
    assert!(is_apple_music_app("Apple.iTunes"));
    assert!(is_apple_music_app("APPLE MUSIC"));
    assert!(!is_apple_music_app("Spotify.exe"));
    assert!(!is_apple_music_app("Apple.Podcasts"));
    assert!(!is_apple_music_app("MusicBee"));
}

#[test]
fn first_apple_music_session_is_chosen() {
    let ids = vec![
        Some("Spotify.exe".to_string()),
        None,
        Some("AppleInc.AppleMusicWin".to_string()),
        Some("Apple.iTunes".to_string()),
    ];
    assert_eq!(choose_session(&ids, true), SessionChoice::Listed(2));
    assert_eq!(choose_session(&ids, false), SessionChoice::Listed(2));
}

#[test]
fn fallback_to_current_session() {
    let ids = vec![Some("Spotify.exe".to_string()), None];
    assert_eq!(choose_session(&ids, false), SessionChoice::Current);
    assert_eq!(choose_session(&ids, true), SessionChoice::NoSession);
    assert_eq!(choose_session(&vec![], true), SessionChoice::NoSession);
}

#[test]
fn ticks_convert_like_signed_division() {
    for t in [0i64, 9_999_999, 10_000_000, 1_234_567_890, -1, -10_000_000, -15_000_000, i64::MIN, i64::MAX] {
        assert_eq!(ticks_to_secs(t), (t / 10_000_000) as u64, "{}", t);
    }
}

#[test]
fn blank_title_has_no_track() {
    let r = track_from_properties("   ".into(), "a".into(), "b".into(), PlaybackState::Playing, 1, 2, "id".into());
    assert!(r.is_none());
    let r = track_from_properties(" T ".into(), "a".into(), "b".into(), PlaybackState::Paused, 1, 2, "id".into()).unwrap();
    assert_eq!(r.title, " T ");
    assert_eq!(r.state, PlaybackState::Paused);
    assert_eq!(r.duration_secs, 2);
}

#[test]
fn lowercased_ids_checked_as_given() {
    assert!(names_apple_music_lowercase("appleinc.applemusicwin"));
    assert!(names_apple_music_lowercase("apple.itunes"));
    // the check itself does not lowercase
    assert!(!names_apple_music_lowercase("APPLE MUSIC"));
    assert!(!names_apple_music_lowercase("apple.podcasts"));
}
