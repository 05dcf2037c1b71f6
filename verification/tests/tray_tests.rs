use musicpresence::tray::{
    menu_command, status_tooltip, tooltip_units, tray_event_opens_menu, MenuCommand,
    TRAY_INITIAL_TIP,
};

#[test]
fn tooltip_is_utf16_of_header_and_status() {
    let t = status_tooltip("Halo - Beyoncé");
    let expected: Vec<u16> = "Apple Music Presence\nHalo - Beyoncé".encode_utf16().collect();
    assert_eq!(t, expected);
    let t = tooltip_units(TRAY_INITIAL_TIP);
    assert_eq!(t, "Apple Music Discord Presence".encode_utf16().collect::<Vec<u16>>());
}

#[test]
fn tooltip_matches_std_utf16_for_astral_chars() {
    let s = "🎵 a 𝄞 é";
    assert_eq!(tooltip_units(s), s.encode_utf16().collect::<Vec<u16>>());
}

#[test]
fn tooltip_is_cut_to_127_units() {
    let long = "x".repeat(300);
    let t = status_tooltip(&long);
    assert_eq!(t.len(), 127);
    let expected: Vec<u16> = format!("Apple Music Presence\n{}", long).encode_utf16().take(127).collect();
    assert_eq!(t, expected);
    let exact = "y".repeat(127);
    assert_eq!(tooltip_units(&exact).len(), 127);
    let fits = "y".repeat(126);
    assert_eq!(tooltip_units(&fits).len(), 126);
}

#[test]
fn menu_opening_events() {
    for e in [0x0205isize, 0x0204, 0x0202, 0x0203, 0x007B, 0x0400, 0x0401] {
        assert!(tray_event_opens_menu(e));
        assert!(tray_event_opens_menu(e | (7 << 16)));
    }
    for e in [0x0200isize, 0x0201, 0x0000, 0x0402] {
        assert!(!tray_event_opens_menu(e));
    }
}

#[test]
fn menu_commands() {
    assert_eq!(menu_command(1001), Some(MenuCommand::OpenSettings));
    assert_eq!(menu_command(1002), Some(MenuCommand::Quit));
    assert_eq!(menu_command(0), None);
}
