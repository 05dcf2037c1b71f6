use musicpresence::config::{
    format_listening_title, parse_poll_interval, settle_loaded_config, truncate_utf8, Config,
    ConfigWrite, DEFAULT_CLIENT_ID, DEFAULT_CONFIG_TOML, LEGACY_CLIENT_ID,
};

#[test]
fn default_config_values() {
    let c = Config::default();
    assert_eq!(c.client_id, "1046420605907501056");
    assert_eq!(c.client_id, DEFAULT_CLIENT_ID);
    assert_eq!(c.poll_interval_ms, 1500);
    assert!(c.show_paused);
    assert!(c.fetch_itunes_art);
    assert!(c.enable_listen_button);
    assert!(c.filter_apple_music_only);
    assert!(!c.auto_start);
    assert!(c.auto_update);
}

#[test]
fn default_template_holds_default_values() {
    let v: toml::Value = toml::from_str(DEFAULT_CONFIG_TOML).expect("template parses");
    let d = Config::default();
    assert_eq!(v["client_id"].as_str(), Some(d.client_id.as_str()));
    assert_eq!(v["poll_interval_ms"].as_integer(), Some(d.poll_interval_ms as i64));
    assert_eq!(v["show_paused"].as_bool(), Some(d.show_paused));
    assert_eq!(v["fetch_itunes_art"].as_bool(), Some(d.fetch_itunes_art));
    assert_eq!(v["enable_listen_button"].as_bool(), Some(d.enable_listen_button));
    assert_eq!(v["filter_apple_music_only"].as_bool(), Some(d.filter_apple_music_only));
}

#[test]
fn missing_config_gives_defaults_and_template() {
    let r = settle_loaded_config(None);
    assert_eq!(r.write, ConfigWrite::WriteTemplate);
    assert_eq!(r.config.client_id, DEFAULT_CLIENT_ID);
    assert_eq!(r.config.poll_interval_ms, 1500);
}

#[test]
fn legacy_client_id_is_migrated_and_saved() {
    let mut c = Config::default();
    c.client_id = LEGACY_CLIENT_ID.to_string();
    c.poll_interval_ms = 3000;
    c.show_paused = false;
    let r = settle_loaded_config(Some(c));
    assert_eq!(r.write, ConfigWrite::Save);
    assert_eq!(r.config.client_id, DEFAULT_CLIENT_ID);
    assert_eq!(r.config.poll_interval_ms, 3000);
    assert!(!r.config.show_paused);
}

#[test]
fn custom_client_id_is_kept() {
    let mut c = Config::default();
    c.client_id = "42".to_string();
    let r = settle_loaded_config(Some(c));
    assert_eq!(r.write, ConfigWrite::Keep);
    assert_eq!(r.config.client_id, "42");
}

#[test]
fn migrate_reports_change_only_for_legacy() {
    let mut c = Config::default();
    assert!(!c.migrate_legacy_client_id());
    c.client_id = "1134547942733979679".to_string();
    assert!(c.migrate_legacy_client_id());
    assert_eq!(c.client_id, "1046420605907501056");
}

#[test]
fn listening_title_is_trimmed() {
    assert_eq!(format_listening_title("  Hello World \n"), "Hello World");
}

#[test]
fn listening_title_blank_falls_back() {
    assert_eq!(format_listening_title(""), "Music");
    assert_eq!(format_listening_title("   \t "), "Music");
}

#[test]
fn listening_title_single_char_kept() {
    assert_eq!(format_listening_title(" A "), "A");
}

#[test]
fn listening_title_cut_to_128_bytes() {
    let long = "x".repeat(200);
    let r = format_listening_title(&long);
    assert_eq!(r.len(), 128);
    assert_eq!(r, "x".repeat(128));
}

#[test]
fn listening_title_cut_at_char_boundary() {
    // 'é' takes two bytes: 64 of them are 128 bytes, 65 would be 130
    let t = "é".repeat(65);
    let r = format_listening_title(&t);
    assert_eq!(r, "é".repeat(64));
    let t = format!("a{}", "é".repeat(64));
    let r = format_listening_title(&t);
    // 1 + 2 * 63 = 127 bytes; one more 'é' would be 129
    assert_eq!(r, format!("a{}", "é".repeat(63)));
    assert!(r.len() <= 128);
}

#[test]
fn listening_title_never_exceeds_limit() {
    for t in ["🎵".repeat(40), "日本語".repeat(30), "ab€".repeat(50)] {
        let r = format_listening_title(&t);
        assert!(r.len() <= 128);
        assert!(t.trim().starts_with(&r));
    }
}

#[test]
fn truncate_keeps_short_strings() {
    assert_eq!(truncate_utf8("hello", 5), "hello");
    assert_eq!(truncate_utf8("hello", 4), "hell");
    assert_eq!(truncate_utf8("héllo", 2), "h");
    assert_eq!(truncate_utf8("héllo", 3), "hé");
    assert_eq!(truncate_utf8("", 0), "");
}

#[test]
fn poll_interval_accepted_from_minimum() {
    assert_eq!(parse_poll_interval("200"), Some(200));
    assert_eq!(parse_poll_interval(" 1500 "), Some(1500));
    assert_eq!(parse_poll_interval("+250"), Some(250));
}

#[test]
fn poll_interval_rejects_bad_input() {
    assert_eq!(parse_poll_interval("199"), None);
    assert_eq!(parse_poll_interval(""), None);
    assert_eq!(parse_poll_interval("abc"), None);
    assert_eq!(parse_poll_interval("12a"), None);
    assert_eq!(parse_poll_interval("-500"), None);
    assert_eq!(parse_poll_interval("18446744073709551616"), None);
    assert_eq!(parse_poll_interval("18446744073709551615"), Some(u64::MAX));
}

#[test]
fn settings_form_values_applied() {
    let mut c = Config::default();
    c.client_id = "77".to_string();
    c.show_paused = false;
    let r = c.with_settings(800, true, false);
    assert_eq!(r.client_id, "77");
    assert_eq!(r.poll_interval_ms, 800);
    assert!(r.auto_start);
    assert!(!r.auto_update);
    assert!(!r.show_paused);
    assert!(r.fetch_itunes_art);
}
