use spotcast::window::{launcher_action, tray_menu, LauncherAction, LauncherEvent};

#[test]
fn alt_space_press_shows_the_window() {
    let pressed = LauncherEvent::Shortcut { alt_space: true, pressed: true };
    assert_eq!(launcher_action(&pressed), LauncherAction::ShowWindow);
    let released = LauncherEvent::Shortcut { alt_space: true, pressed: false };
    assert_eq!(launcher_action(&released), LauncherAction::Nothing);
    let other = LauncherEvent::Shortcut { alt_space: false, pressed: true };
    assert_eq!(launcher_action(&other), LauncherAction::Nothing);
}

#[test]
fn tray_menu_items() {
    assert_eq!(tray_menu(), vec![("show", "Show Spotcast"), ("quit", "Quit Spotcast")]);
    let show = LauncherEvent::TrayMenu("show".to_string());
    assert_eq!(launcher_action(&show), LauncherAction::ShowWindow);
    let quit = LauncherEvent::TrayMenu("quit".to_string());
    assert_eq!(launcher_action(&quit), LauncherAction::Exit);
    let other = LauncherEvent::TrayMenu("Quit".to_string());
    assert_eq!(launcher_action(&other), LauncherAction::Nothing);
}

#[test]
fn tray_icon_left_click_release_shows_the_window() {
    let up = LauncherEvent::TrayIconClick { left_button: true, button_up: true };
    assert_eq!(launcher_action(&up), LauncherAction::ShowWindow);
    let down = LauncherEvent::TrayIconClick { left_button: true, button_up: false };
    assert_eq!(launcher_action(&down), LauncherAction::Nothing);
    let right = LauncherEvent::TrayIconClick { left_button: false, button_up: true };
    assert_eq!(launcher_action(&right), LauncherAction::Nothing);
}

#[test]
fn focus_loss_hides_and_close_is_refused() {
    assert_eq!(launcher_action(&LauncherEvent::Focused(false)), LauncherAction::HideWindow);
    assert_eq!(launcher_action(&LauncherEvent::Focused(true)), LauncherAction::Nothing);
    assert_eq!(launcher_action(&LauncherEvent::CloseRequested), LauncherAction::PreventCloseAndHide);
}
