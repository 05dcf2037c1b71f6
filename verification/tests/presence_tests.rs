use musicpresence::config::Config;
use musicpresence::itunes::ItunesMetadata;
use musicpresence::media::{PlaybackState, TrackInfo};
use musicpresence::presence::{
    needs_refresh, plan_presence, poll_action, poll_slices, track_status, PollAction, PresencePlan,
};

fn track(state: PlaybackState, pos: u64, dur: u64) -> TrackInfo {
    TrackInfo {
        title: "Halo".to_string(),
        artist: "Beyoncé".to_string(),
        album: "I Am... Sasha Fierce".to_string(),
        state,
        position_secs: pos,
        duration_secs: dur,
        app_id: "AppleMusic".to_string(),
    }
}

#[test]
fn playing_track_activity() {
    let cfg = Config::default();
    let meta = Some(ItunesMetadata {
        artwork_url: "https://art/1024x1024bb.jpg".to_string(),
        track_url: Some("https://music.apple.com/halo".to_string()),
    });
    let t = track(PlaybackState::Playing, 30, 261);
    let a = match plan_presence(&t, &cfg, &meta, 1_000_000) {
        PresencePlan::Show(a) => a,
        PresencePlan::Clear => panic!("expected an activity"),
    };
    assert_eq!(a.activity_type, Some(2));
    assert_eq!(a.name.as_deref(), Some("Halo"));
    assert_eq!(a.details.as_deref(), Some("Halo"));
    assert_eq!(a.state.as_deref(), Some("Beyoncé — I Am... Sasha Fierce"));
    let ts = a.timestamps.unwrap();
    assert_eq!(ts.start, Some(999_970));
    assert_eq!(ts.end, Some(1_000_231));
    let assets = a.assets.unwrap();
    assert_eq!(assets.large_image.as_deref(), Some("https://art/1024x1024bb.jpg"));
    assert_eq!(assets.large_text.as_deref(), Some("I Am... Sasha Fierce"));
    assert_eq!(assets.small_image.as_deref(), Some("play"));
    assert_eq!(assets.small_text.as_deref(), Some("Playing"));
    let buttons = a.buttons.unwrap();
    assert_eq!(buttons.len(), 1);
    assert_eq!(buttons[0].label, "Listen on Apple Music");
    assert_eq!(buttons[0].url, "https://music.apple.com/halo");
}

#[test]
fn paused_track_shown_without_timestamps() {
    let cfg = Config::default();
    let mut t = track(PlaybackState::Paused, 30, 261);
    t.album = String::new();
    let a = match plan_presence(&t, &cfg, &None, 1_000) {
        PresencePlan::Show(a) => a,
        PresencePlan::Clear => panic!("paused tracks are shown by default"),
    };
    assert!(a.timestamps.is_none());
    assert_eq!(a.state.as_deref(), Some("Beyoncé"));
    let assets = a.assets.unwrap();
    assert_eq!(
        assets.large_image.as_deref(),
        Some("https://cdn.rcd.gg/PreMiD/websites/A/Apple%20Music/assets/logo.png")
    );
    assert_eq!(assets.large_text.as_deref(), Some("Halo"));
    assert_eq!(assets.small_image.as_deref(), Some("pause"));
    assert_eq!(assets.small_text.as_deref(), Some("Paused"));
    assert_eq!(a.buttons.unwrap()[0].url, "https://music.apple.com");
}

#[test]
fn paused_track_hidden_when_configured() {
    let mut cfg = Config::default();
    cfg.show_paused = false;
    assert!(matches!(plan_presence(&track(PlaybackState::Paused, 0, 10), &cfg, &None, 5), PresencePlan::Clear));
    assert!(matches!(plan_presence(&track(PlaybackState::Stopped, 0, 10), &Config::default(), &None, 5), PresencePlan::Clear));
    assert!(matches!(plan_presence(&track(PlaybackState::Other, 0, 10), &Config::default(), &None, 5), PresencePlan::Clear));
}

#[test]
fn no_button_when_disabled_and_start_not_negative() {
    let mut cfg = Config::default();
    cfg.enable_listen_button = false;
    let a = match plan_presence(&track(PlaybackState::Playing, 50, 100), &cfg, &None, 20) {
        PresencePlan::Show(a) => a,
        PresencePlan::Clear => panic!(),
    };
    assert!(a.buttons.is_none());
    let ts = a.timestamps.unwrap();
    assert_eq!(ts.start, Some(0));
    assert_eq!(ts.end, Some(100));
    let a = match plan_presence(&track(PlaybackState::Playing, 50, 0), &cfg, &None, 20) {
        PresencePlan::Show(a) => a,
        PresencePlan::Clear => panic!(),
    };
    assert!(a.timestamps.is_none());
}

#[test]
fn refresh_decisions() {
    let cur = track(PlaybackState::Playing, 100, 200);
    assert!(needs_refresh(&None, &cur, 0));
    let same = Some(track(PlaybackState::Playing, 98, 200));
    assert!(!needs_refresh(&same, &cur, 3));
    assert!(needs_refresh(&same, &cur, 10));
    let jumped = Some(track(PlaybackState::Playing, 90, 200));
    assert!(needs_refresh(&jumped, &cur, 0));
    let paused_cur = track(PlaybackState::Paused, 100, 200);
    let paused_prev = Some(track(PlaybackState::Paused, 10, 200));
    assert!(!needs_refresh(&paused_prev, &paused_cur, 0));
    let other_song = Some(TrackInfo { title: "Other".to_string(), ..track(PlaybackState::Playing, 100, 200) });
    assert!(needs_refresh(&other_song, &cur, 0));
    let state_change = Some(track(PlaybackState::Paused, 100, 200));
    assert!(needs_refresh(&state_change, &cur, 0));
}

#[test]
fn tray_status_and_slices() {
    assert_eq!(track_status(&track(PlaybackState::Playing, 0, 0)), "Halo - Beyoncé");
    assert_eq!(poll_slices(1500), 30);
    assert_eq!(poll_slices(49), 1);
    assert_eq!(poll_slices(0), 1);
    assert_eq!(poll_slices(125), 2);
}

#[test]
fn poll_actions() {
    let cur = track(PlaybackState::Playing, 100, 200);
    assert_eq!(poll_action(&None, &Some(cur.clone()), 0), PollAction::Refresh);
    let same = Some(track(PlaybackState::Playing, 99, 200));
    assert_eq!(poll_action(&same, &Some(cur.clone()), 2), PollAction::Wait);
    assert_eq!(poll_action(&same, &Some(cur), 11), PollAction::Refresh);
    assert_eq!(poll_action(&same, &None, 0), PollAction::ClearIdle);
    assert_eq!(poll_action(&None, &None, 50), PollAction::Wait);
}
