//! Rules for the Windows start-up entry: the value written under the `Run`
//! key, and which registry results count as success.
use vstd::prelude::*;
use vstd::string::StringExecFns;

verus! {

/// Registry key listing the programs started with Windows.
pub const RUN_KEY: &'static str = "Software\\Microsoft\\Windows\\CurrentVersion\\Run";

/// Name of the application's value under [`RUN_KEY`].
pub const APP_NAME: &'static str = "MusicPresence";

/// Win32 status code of a successful registry call.
pub const STATUS_SUCCESS: u32 = 0;

/// Win32 status `ERROR_FILE_NOT_FOUND`, returned when deleting a value that
/// does not exist.
pub const STATUS_FILE_NOT_FOUND: u32 = 2;

/// The registry value for the executable at `path`: the path in double quotes.
pub fn run_value(path: &str) -> (r: String)
    ensures
        r@ == seq!['"'] + path@ + seq!['"'],
{
    let mut r = String::new();
    crate::text::push_char(&mut r, '"');
    r.append(path);
    crate::text::push_char(&mut r, '"');
    assert(r@ =~= seq!['"'] + path@ + seq!['"']);
    r
}

/// Whether a registry write (when enabling) or delete (when disabling) with
/// the given status counts as done: success, or, when disabling, a value that
/// was already absent.
pub fn registry_update_succeeded(enable: bool, status: u32) -> (r: bool)
    ensures
        r == (status == STATUS_SUCCESS || (!enable && status == STATUS_FILE_NOT_FOUND)),
{
    status == STATUS_SUCCESS || (!enable && status == STATUS_FILE_NOT_FOUND)
}

} // verus!
