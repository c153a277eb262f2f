use ccusage_tray::tray::{
    action_menu_entries,
    menu_action, popover_action, should_refresh_periodically, toggles_popover, tray_icon_style,
    MenuAction, PointerButton, PointerButtonState, PopoverAction, TrayIconStyle, REOPEN_GUARD_MS,
};

#[test]
fn status_indicators_choose_the_icon() {
    assert_eq!(tray_icon_style("none"), Some(TrayIconStyle::Template));
    assert_eq!(
        tray_icon_style("minor"),
        Some(TrayIconStyle::Tinted { red: 255, green: 159, blue: 10 })
    );
    assert_eq!(
        tray_icon_style("major"),
        Some(TrayIconStyle::Tinted { red: 255, green: 59, blue: 48 })
    );
    assert_eq!(
        tray_icon_style("critical"),
        Some(TrayIconStyle::Tinted { red: 255, green: 59, blue: 48 })
    );
    assert_eq!(tray_icon_style("maintenance"), None);
    assert_eq!(tray_icon_style(""), None);
    assert_eq!(tray_icon_style("None"), None);
}

#[test]
fn menu_ids_choose_the_action() {
    assert_eq!(menu_action("quit"), MenuAction::Quit);
    assert_eq!(menu_action("refresh"), MenuAction::Refresh);
    assert_eq!(menu_action("debug"), MenuAction::ShowDebugInfo);
    assert_eq!(menu_action("other"), MenuAction::Ignore);
}

#[test]
fn click_hides_a_visible_popover() {
    assert_eq!(popover_action(true, 10_000, 9_999), PopoverAction::Hide);
    assert_eq!(popover_action(true, 10_000, 0), PopoverAction::Hide);
}

#[test]
fn click_right_after_focus_loss_does_not_reopen() {
    assert_eq!(REOPEN_GUARD_MS, 250);
    assert_eq!(popover_action(false, 10_000, 9_900), PopoverAction::StayHidden);
    assert_eq!(popover_action(false, 10_000, 9_751), PopoverAction::StayHidden);
    assert_eq!(popover_action(false, 10_000, 9_750), PopoverAction::Show);
    assert_eq!(popover_action(false, 10_000, 0), PopoverAction::Show);
    // A clock that went back counts as no time elapsed.
    assert_eq!(popover_action(false, 100, 5_000), PopoverAction::StayHidden);
}

#[test]
fn only_left_button_release_toggles() {
    assert!(toggles_popover(PointerButton::Left, PointerButtonState::Up));
    assert!(!toggles_popover(PointerButton::Left, PointerButtonState::Down));
    assert!(!toggles_popover(PointerButton::Right, PointerButtonState::Up));
    assert!(!toggles_popover(PointerButton::Middle, PointerButtonState::Up));
}

#[test]
fn periodic_refresh_needs_data_and_no_running_refresh() {
    assert!(should_refresh_periodically(false, true));
    assert!(!should_refresh_periodically(true, true));
    assert!(!should_refresh_periodically(false, false));
    assert!(!should_refresh_periodically(true, false));
}

#[test]
fn menu_lists_refresh_debug_and_quit() {
    let entries = action_menu_entries();
    let listed: Vec<(String, String, Option<String>, bool)> = entries
        .into_iter()
        .map(|e| (e.id, e.label, e.accelerator, e.separated))
        .collect();
    assert_eq!(
        listed,
        vec![
            ("refresh".to_string(), "Refresh".to_string(), None, false),
            ("debug".to_string(), "Debug Info".to_string(), None, false),
            ("quit".to_string(), "Quit".to_string(), Some("Cmd+Q".to_string()), true),
        ]
    );
    assert_eq!(menu_action(&listed[0].0), MenuAction::Refresh);
    assert_eq!(menu_action(&listed[1].0), MenuAction::ShowDebugInfo);
    assert_eq!(menu_action(&listed[2].0), MenuAction::Quit);
}
