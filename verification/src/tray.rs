//! The tray icon's behaviour: what a click or a menu entry does to the main
//! window.
use vstd::prelude::*;
use crate::text::{chars_of, eq_str};

verus! {

/// What happens to the main window.
#[derive(Clone, Copy, PartialEq, Eq, Structural, Debug)]
pub enum WindowAction {
    /// Show, unminimize and focus it, and tell the front end to rebuild the
    /// player.
    Show,
    Hide,
    /// Quit the application.
    Quit,
    Nothing,
}

/// A left click toggles the window: a visible window hides; otherwise
/// (hidden, or visibility unknown) it is shown.
pub open spec fn toggle_action_of(visible: Option<bool>) -> WindowAction {
    if visible == Some(true) {
        WindowAction::Hide
    } else {
        WindowAction::Show
    }
}

/// What a left click on the tray icon does, given `is_visible()` (`None` when
/// it failed).
pub fn toggle_action(visible: Option<bool>) -> (r: WindowAction)
    ensures
        r == toggle_action_of(visible),
{
    match visible {
        Some(true) => WindowAction::Hide,
        _ => WindowAction::Show,
    }
}

/// The tray menu: `show` shows the window, `quit` quits, other ids do nothing.
pub open spec fn menu_action_of(id: Seq<char>) -> WindowAction {
    if id == "show"@ {
        WindowAction::Show
    } else if id == "quit"@ {
        WindowAction::Quit
    } else {
        WindowAction::Nothing
    }
}

/// What choosing a tray menu entry does.
pub fn menu_action(id: &str) -> (r: WindowAction)
    ensures
        r == menu_action_of(id@),
{
    let v = chars_of(id);
    if eq_str(&v, "show") {
        WindowAction::Show
    } else if eq_str(&v, "quit") {
        WindowAction::Quit
    } else {
        WindowAction::Nothing
    }
}

} // verus!
