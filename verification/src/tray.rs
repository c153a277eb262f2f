use vstd::prelude::*;

verus! {

/// How the tray icon is drawn.
#[derive(Clone, Copy, Debug, PartialEq, Eq, Structural)]
pub enum TrayIconStyle {
    /// The plain bars icon, drawn as a template that follows the menu bar's colours.
    Template,
    /// The bars icon tinted to one colour.
    Tinted { red: u8, green: u8, blue: u8 },
}

/// What a tray menu entry does.
#[derive(Clone, Copy, Debug, PartialEq, Eq, Structural)]
pub enum MenuAction {
    Quit,
    Refresh,
    ShowDebugInfo,
    Ignore,
}

/// What a click on the tray icon does to the popover window.
#[derive(Clone, Copy, Debug, PartialEq, Eq, Structural)]
pub enum PopoverAction {
    /// The popover is visible: hide it.
    Hide,
    /// The popover was hidden by this very click: leave it hidden.
    StayHidden,
    /// Show the popover below the icon.
    Show,
}

/// A mouse button of a tray icon click.
#[derive(Clone, Copy, Debug, PartialEq, Eq, Structural)]
pub enum PointerButton {
    Left,
    Right,
    Middle,
}

/// Whether a click event reports the press or the release of the button.
#[derive(Clone, Copy, Debug, PartialEq, Eq, Structural)]
pub enum PointerButtonState {
    Up,
    Down,
}

/// How long after a focus-loss hide a click on the icon does not reopen the popover.
pub const REOPEN_GUARD_MS: u64 = 250;

/// The icon for a status indicator of the service status page.
pub open spec fn icon_style_for(indicator: Seq<char>) -> Option<TrayIconStyle> {
    if indicator == "none"@ {
        Some(TrayIconStyle::Template)
    } else if indicator == "minor"@ {
        Some(TrayIconStyle::Tinted { red: 255, green: 159, blue: 10 })
    } else if indicator == "major"@ || indicator == "critical"@ {
        Some(TrayIconStyle::Tinted { red: 255, green: 59, blue: 48 })
    } else {
        None
    }
}

/// The icon for the status indicator `indicator`: the template icon when all is
/// well, orange for a minor incident, red for a major or critical one, and no
/// change for any other indicator.
pub fn tray_icon_style(indicator: &str) -> (r: Option<TrayIconStyle>)
    ensures
        r == icon_style_for(indicator@),
{
    let indicator = String::from_str(indicator);
    if indicator == String::from_str("none") {
        Some(TrayIconStyle::Template)
    } else if indicator == String::from_str("minor") {
        Some(TrayIconStyle::Tinted { red: 255, green: 159, blue: 10 })
    } else if indicator == String::from_str("major") || indicator == String::from_str("critical") {
        Some(TrayIconStyle::Tinted { red: 255, green: 59, blue: 48 })
    } else {
        None
    }
}

/// The action of a tray menu entry by its id.
pub open spec fn menu_action_for(id: Seq<char>) -> MenuAction {
    if id == "quit"@ {
        MenuAction::Quit
    } else if id == "refresh"@ {
        MenuAction::Refresh
    } else if id == "debug"@ {
        MenuAction::ShowDebugInfo
    } else {
        MenuAction::Ignore
    }
}

/// An entry of the tray menu: its id, its label and its keyboard shortcut.
pub struct MenuEntry {
    pub id: String,
    pub label: String,
    pub accelerator: Option<String>,
    /// Whether a separator line stands before the entry.
    pub separated: bool,
}

fn menu_entry(id: &str, label: &str, accelerator: Option<&str>, separated: bool) -> (r: MenuEntry)
    ensures
        r.id@ == id@,
        r.label@ == label@,
        r.accelerator matches Some(a) ==> accelerator matches Some(b) && a@ == b@,
        r.accelerator is None <==> accelerator is None,
        r.separated == separated,
{
    MenuEntry {
        id: String::from_str(id),
        label: String::from_str(label),
        accelerator: match accelerator {
            Some(a) => Some(String::from_str(a)),
            None => None,
        },
        separated,
    }
}

/// The tray menu, top to bottom: "Refresh", "Debug Info", and after a
/// separator "Quit" on Cmd+Q; their ids lead to the refresh, diagnostics and
/// quit actions.
pub fn action_menu_entries() -> (r: Vec<MenuEntry>)
    ensures
        r@.len() == 3,
        r@[0].id@ == "refresh"@ && r@[0].label@ == "Refresh"@ && r@[0].accelerator is None
            && !r@[0].separated,
        r@[1].id@ == "debug"@ && r@[1].label@ == "Debug Info"@ && r@[1].accelerator is None
            && !r@[1].separated,
        r@[2].id@ == "quit"@ && r@[2].label@ == "Quit"@ && r@[2].separated,
        r@[2].accelerator matches Some(a) && a@ == "Cmd+Q"@,
        menu_action_for(r@[0].id@) == MenuAction::Refresh,
        menu_action_for(r@[1].id@) == MenuAction::ShowDebugInfo,
        menu_action_for(r@[2].id@) == MenuAction::Quit,
{
    proof {
        reveal_strlit("quit");
        reveal_strlit("refresh");
        reveal_strlit("debug");
        assert("refresh"@.len() != "quit"@.len());
        assert("debug"@.len() != "quit"@.len());
        assert("debug"@.len() != "refresh"@.len());
    }
    vec![
        menu_entry("refresh", "Refresh", None, false),
        menu_entry("debug", "Debug Info", None, false),
        menu_entry("quit", "Quit", Some("Cmd+Q"), true),
    ]
}

/// The action of the tray menu entry with id `id`.
pub fn menu_action(id: &str) -> (r: MenuAction)
    ensures
        r == menu_action_for(id@),
{
    let id = String::from_str(id);
    if id == String::from_str("quit") {
        MenuAction::Quit
    } else if id == String::from_str("refresh") {
        MenuAction::Refresh
    } else if id == String::from_str("debug") {
        MenuAction::ShowDebugInfo
    } else {
        MenuAction::Ignore
    }
}

/// Milliseconds from `earlier` to `now`, 0 when the clock went back.
pub open spec fn elapsed_ms(now: u64, earlier: u64) -> int {
    if now >= earlier {
        now - earlier
    } else {
        0
    }
}

/// What a click on the tray icon does to the popover.
pub open spec fn popover_action_for(visible: bool, now_ms: u64, last_hide_ms: u64) -> PopoverAction {
    if visible {
        PopoverAction::Hide
    } else if elapsed_ms(now_ms, last_hide_ms) < REOPEN_GUARD_MS {
        PopoverAction::StayHidden
    } else {
        PopoverAction::Show
    }
}

/// What a click on the tray icon at `now_ms` does to the popover: hide it if it
/// is visible; leave it hidden if it was hidden by losing focus less than
/// `REOPEN_GUARD_MS` before (that hide came from this same click); else show it.
pub fn popover_action(visible: bool, now_ms: u64, last_hide_ms: u64) -> (r: PopoverAction)
    ensures
        r == popover_action_for(visible, now_ms, last_hide_ms),
{
    if visible {
        PopoverAction::Hide
    } else if now_ms.saturating_sub(last_hide_ms) < REOPEN_GUARD_MS {
        PopoverAction::StayHidden
    } else {
        PopoverAction::Show
    }
}

/// Whether a click on the tray icon toggles the popover: the release of the left button.
pub fn toggles_popover(button: PointerButton, state: PointerButtonState) -> (r: bool)
    ensures
        r == (button == PointerButton::Left && state == PointerButtonState::Up),
{
    match (button, state) {
        (PointerButton::Left, PointerButtonState::Up) => true,
        _ => false,
    }
}

/// Whether the periodic timer refreshes the data: only once a first refresh has
/// stored data, and not while another refresh runs.
pub fn should_refresh_periodically(refreshing: bool, has_data: bool) -> (r: bool)
    ensures
        r == (!refreshing && has_data),
{
    !refreshing && has_data
}

} // verus!
