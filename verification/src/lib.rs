//! The verified core of a DLNA/UPnP screen-cast receiver: protocol parsing,
//! message construction, calendar arithmetic and service state.
use vstd::prelude::*;

pub mod text;
pub mod clock;
pub mod dlna_renderer;
pub mod remote_play;
pub mod commands;
pub mod db;
pub mod tray;

verus! {

/// The greeting returned to the front end.
pub open spec fn greeting_of(name: Seq<char>) -> Seq<char> {
    "Hello, "@ + name + "! You've been greeted from Rust!"@
}

/// Greets `name`.
pub fn greet(name: &str) -> (r: String)
    ensures
        r@ == greeting_of(name@),
{
    let mut s = String::new();
    s.append("Hello, ");
    s.append(name);
    s.append("! You've been greeted from Rust!");
    s
}

/// The friendly name used when the settings hold none.
pub const DEFAULT_DEVICE_NAME: &'static str = "投屏助手";

/// Whether the renderer starts: the `dlnaEnabled` setting is `"true"`, and an
/// unset (or unreadable) setting means enabled.
pub open spec fn dlna_enabled_of(setting: Option<Seq<char>>) -> bool {
    match setting {
        Some(v) => v == "true"@,
        None => true,
    }
}

/// Whether the DLNA renderer is enabled by the `dlnaEnabled` setting.
pub fn dlna_enabled(setting: &Option<String>) -> (r: bool)
    ensures
        r == dlna_enabled_of(
            match setting {
                Some(v) => Some(v@),
                None => None,
            },
        ),
{
    match setting {
        Some(v) => crate::text::eq_str(&crate::text::chars_of(v.as_str()), "true"),
        None => true,
    }
}

/// The friendly name: the `deviceName` setting when non-empty, else the
/// default.
pub open spec fn device_name_of(setting: Option<Seq<char>>) -> Seq<char> {
    match setting {
        Some(v) => if v.len() > 0 {
            v
        } else {
            DEFAULT_DEVICE_NAME@
        },
        None => DEFAULT_DEVICE_NAME@,
    }
}

/// The friendly name the renderer announces.
pub fn device_name(setting: Option<String>) -> (r: String)
    ensures
        r@ == device_name_of(
            match setting {
                Some(v) => Some(v@),
                None => None,
            },
        ),
{
    match setting {
        Some(v) => if v.as_str().unicode_len() > 0 {
            v
        } else {
            String::from_str(DEFAULT_DEVICE_NAME)
        },
        None => String::from_str(DEFAULT_DEVICE_NAME),
    }
}

/// Closing the main window hides it to the tray unless the `minimizeToTray`
/// setting is exactly `"false"`.
pub open spec fn close_to_tray_of(setting: Option<Seq<char>>) -> bool {
    setting != Some("false"@)
}

/// Whether a close request hides the window to the tray (rather than exiting).
pub fn close_to_tray(setting: &Option<String>) -> (r: bool)
    ensures
        r == close_to_tray_of(
            match setting {
                Some(v) => Some(v@),
                None => None,
            },
        ),
{
    match setting {
        Some(v) => !crate::text::eq_str(&crate::text::chars_of(v.as_str()), "false"),
        None => true,
    }
}

} // verus!
