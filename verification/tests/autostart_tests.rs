use musicpresence::autostart::{registry_update_succeeded, run_value};

#[test]
fn run_value_is_quoted() {
    assert_eq!(run_value(r"C:\Apps\MusicPresence.exe"), r#""C:\Apps\MusicPresence.exe""#);
}

#[test]
fn registry_outcomes() {
    assert!(registry_update_succeeded(true, 0));
    assert!(registry_update_succeeded(false, 0));
    assert!(registry_update_succeeded(false, 2));
    assert!(!registry_update_succeeded(false, 5));
    assert!(!registry_update_succeeded(true, 5));
    assert!(!registry_update_succeeded(true, 2));
}
