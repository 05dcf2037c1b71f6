//! Decisions of the notification-area icon: its tooltip text, which mouse
//! events open its menu, and what a menu choice means.
use vstd::prelude::*;
use crate::text::chars_of;

verus! {

/// Tooltip shown before any status is known.
pub const TRAY_INITIAL_TIP: &'static str = "Apple Music Discord Presence";

/// First line of the tooltip, above the status.
pub const TRAY_TIP_HEADER: &'static str = "Apple Music Presence\n";

/// UTF-16 units the tooltip can hold; one of them is kept for the
/// terminating zero.
pub const TRAY_TIP_CAPACITY: usize = 128;

/// Win32 `WM_CONTEXTMENU`.
pub const WM_CONTEXTMENU: u32 = 0x007B;
/// Win32 `WM_LBUTTONUP`.
pub const WM_LBUTTONUP: u32 = 0x0202;
/// Win32 `WM_LBUTTONDBLCLK`.
pub const WM_LBUTTONDBLCLK: u32 = 0x0203;
/// Win32 `WM_RBUTTONDOWN`.
pub const WM_RBUTTONDOWN: u32 = 0x0204;
/// Win32 `WM_RBUTTONUP`.
pub const WM_RBUTTONUP: u32 = 0x0205;
/// Shell notification `NIN_SELECT`.
pub const NIN_SELECT: u32 = 0x0400;
/// Shell notification `NIN_KEYSELECT`.
pub const NIN_KEYSELECT: u32 = 0x0401;

/// Menu item that opens the settings window.
pub const ID_MENU_PRESENCE: usize = 1001;
/// Menu item that quits the application.
pub const ID_MENU_QUIT: usize = 1002;

/// The UTF-16 encoding of one character: one unit, or a surrogate pair above
/// the Basic Multilingual Plane.
pub open spec fn utf16_units_of(c: char) -> Seq<u16> {
    let u = c as u32;
    if u < 0x10000 {
        seq![u as u16]
    } else {
        seq![
            (0xD800 + (u - 0x10000) / 0x400) as u16,
            (0xDC00 + (u - 0x10000) % 0x400) as u16,
        ]
    }
}

/// The UTF-16 encoding of a string (`str::encode_utf16`).
pub open spec fn utf16_spec(s: Seq<char>) -> Seq<u16>
    decreases s.len(),
{
    if s.len() == 0 {
        seq![]
    } else {
        utf16_spec(s.drop_last()) + utf16_units_of(s.last())
    }
}

/// The tooltip buffer's content for `text`: its UTF-16 units, cut to leave
/// room for the terminating zero.
pub open spec fn tooltip_spec(text: Seq<char>) -> Seq<u16> {
    let units = utf16_spec(text);
    if units.len() < TRAY_TIP_CAPACITY {
        units
    } else {
        units.take(TRAY_TIP_CAPACITY - 1)
    }
}

/// The tooltip units for `text`.
pub fn tooltip_units(text: &str) -> (r: Vec<u16>)
    ensures
        r@ == tooltip_spec(text@),
        r@.len() < TRAY_TIP_CAPACITY,
{
    let chars = chars_of(text);
    let mut units: Vec<u16> = Vec::new();
    let mut i: usize = 0;
    while i < chars.len()
        invariant
            i <= chars.len(),
            units@ == utf16_spec(chars@.take(i as int)),
        decreases chars.len() - i,
    {
        let c = chars[i];
        let u = c as u32;
        proof {
            assert(chars@.take(i + 1).drop_last() =~= chars@.take(i as int));
            assert(chars@.take(i + 1).last() == c);
        }
        if u < 0x10000 {
            units.push(u as u16);
        } else {
            proof {
                vstd::utf8::char_is_scalar(c);
            }
            let v = u - 0x10000;
            units.push((0xD800 + v / 0x400) as u16);
            units.push((0xDC00 + v % 0x400) as u16);
        }
        assert(units@ =~= utf16_spec(chars@.take(i + 1)));
        i += 1;
    }
    assert(chars@.take(chars@.len() as int) =~= chars@);
    if units.len() >= TRAY_TIP_CAPACITY {
        units.truncate(TRAY_TIP_CAPACITY - 1);
        assert(units@ =~= utf16_spec(chars@).take(TRAY_TIP_CAPACITY - 1));
    }
    units
}

/// The tooltip for a status: the header line, then the status.
pub fn status_tooltip(status: &str) -> (r: Vec<u16>)
    ensures
        r@ == tooltip_spec(TRAY_TIP_HEADER@ + status@),
{
    let mut text = TRAY_TIP_HEADER.to_string();
    vstd::string::StringExecFns::append(&mut text, status);
    tooltip_units(text.as_str())
}

/// The mouse and keyboard notifications of the tray icon that open its menu.
pub open spec fn opens_menu_spec(event: u32) -> bool {
    ||| event == WM_RBUTTONUP
    ||| event == WM_RBUTTONDOWN
    ||| event == WM_LBUTTONUP
    ||| event == WM_LBUTTONDBLCLK
    ||| event == WM_CONTEXTMENU
    ||| event == NIN_SELECT
    ||| event == NIN_KEYSELECT
}

/// Whether the tray notification carried in the low word of `lparam` opens
/// the menu.
pub fn tray_event_opens_menu(lparam: isize) -> (r: bool)
    ensures
        r == opens_menu_spec((lparam as u32) & 0xFFFF),
{
    let event: u32 = (lparam as u32) & 0xFFFF;
    event == WM_RBUTTONUP || event == WM_RBUTTONDOWN || event == WM_LBUTTONUP || event
        == WM_LBUTTONDBLCLK || event == WM_CONTEXTMENU || event == NIN_SELECT || event
        == NIN_KEYSELECT
}

/// A choice made in the tray menu.
#[derive(Debug, Clone, Copy, PartialEq, Eq)]
pub enum MenuCommand {
    /// Open the settings window.
    OpenSettings,
    /// Quit the application.
    Quit,
}

/// The command of a menu item; `None` when the menu was dismissed.
pub fn menu_command(id: usize) -> (r: Option<MenuCommand>)
    ensures
        id == ID_MENU_PRESENCE ==> r == Some(MenuCommand::OpenSettings),
        id == ID_MENU_QUIT ==> r == Some(MenuCommand::Quit),
        id != ID_MENU_PRESENCE && id != ID_MENU_QUIT ==> r is None,
{
    if id == ID_MENU_PRESENCE {
        Some(MenuCommand::OpenSettings)
    } else if id == ID_MENU_QUIT {
        Some(MenuCommand::Quit)
    } else {
        None
    }
}

} // verus!
