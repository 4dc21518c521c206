use vstd::prelude::*;

use crate::text::str_eq;

verus! {

/// Something that happens to the launcher window, its global shortcut or
/// its tray icon.
pub enum LauncherEvent {
    /// The global shortcut fired: whether it is Alt+Space, and whether the
    /// keys were pressed (rather than released).
    Shortcut { alt_space: bool, pressed: bool },
    /// An item of the tray menu was chosen, by its id.
    TrayMenu(String),
    /// The tray icon was clicked: whether with the left button, and whether
    /// the button went up.
    TrayIconClick { left_button: bool, button_up: bool },
    /// The window gained (`true`) or lost (`false`) the focus.
    Focused(bool),
    /// The window was asked to close.
    CloseRequested,
}

/// A launcher event, with the menu id as text.
pub enum LauncherEventView {
    Shortcut { alt_space: bool, pressed: bool },
    TrayMenu(Seq<char>),
    TrayIconClick { left_button: bool, button_up: bool },
    Focused(bool),
    CloseRequested,
}

impl View for LauncherEvent {
    type V = LauncherEventView;

    open spec fn view(&self) -> LauncherEventView {
        match self {
            LauncherEvent::Shortcut { alt_space, pressed } => LauncherEventView::Shortcut {
                alt_space: *alt_space,
                pressed: *pressed,
            },
            LauncherEvent::TrayMenu(id) => LauncherEventView::TrayMenu(id@),
            LauncherEvent::TrayIconClick { left_button, button_up } =>
                LauncherEventView::TrayIconClick {
                left_button: *left_button,
                button_up: *button_up,
            },
            LauncherEvent::Focused(f) => LauncherEventView::Focused(*f),
            LauncherEvent::CloseRequested => LauncherEventView::CloseRequested,
        }
    }
}

/// What the launcher does about an event.
#[derive(Clone, Copy, Debug, PartialEq, Eq, Structural)]
pub enum LauncherAction {
    /// Show the window, unminimize it and give it the focus.
    ShowWindow,
    /// Hide the window.
    HideWindow,
    /// Keep the window from closing, and hide it.
    PreventCloseAndHide,
    /// Quit the application.
    Exit,
    /// Nothing.
    Nothing,
}

/// Alt+Space pressed, the tray menu's `show` item, and a left-button click
/// on the tray icon (on the button going up) show the window; the tray
/// menu's `quit` item quits; losing the focus hides the window; a request to
/// close is refused and the window hidden instead. Anything else does nothing.
pub open spec fn spec_launcher_action(event: LauncherEventView) -> LauncherAction {
    match event {
        LauncherEventView::Shortcut { alt_space, pressed } => if alt_space && pressed {
            LauncherAction::ShowWindow
        } else {
            LauncherAction::Nothing
        },
        LauncherEventView::TrayMenu(id) => if id == "show"@ {
            LauncherAction::ShowWindow
        } else if id == "quit"@ {
            LauncherAction::Exit
        } else {
            LauncherAction::Nothing
        },
        LauncherEventView::TrayIconClick { left_button, button_up } => if left_button
            && button_up {
            LauncherAction::ShowWindow
        } else {
            LauncherAction::Nothing
        },
        LauncherEventView::Focused(f) => if f {
            LauncherAction::Nothing
        } else {
            LauncherAction::HideWindow
        },
        LauncherEventView::CloseRequested => LauncherAction::PreventCloseAndHide,
    }
}

/// What the launcher does about `event` (see `spec_launcher_action`).
pub fn launcher_action(event: &LauncherEvent) -> (r: LauncherAction)
    ensures
        r == spec_launcher_action(event@),
{
    match event {
        LauncherEvent::Shortcut { alt_space, pressed } => if *alt_space && *pressed {
            LauncherAction::ShowWindow
        } else {
            LauncherAction::Nothing
        },
        LauncherEvent::TrayMenu(id) => if str_eq(id.as_str(), "show") {
            LauncherAction::ShowWindow
        } else if str_eq(id.as_str(), "quit") {
            LauncherAction::Exit
        } else {
            LauncherAction::Nothing
        },
        LauncherEvent::TrayIconClick { left_button, button_up } => if *left_button
            && *button_up {
            LauncherAction::ShowWindow
        } else {
            LauncherAction::Nothing
        },
        LauncherEvent::Focused(f) => if *f {
            LauncherAction::Nothing
        } else {
            LauncherAction::HideWindow
        },
        LauncherEvent::CloseRequested => LauncherAction::PreventCloseAndHide,
    }
}

/// The tray menu, as (id, label) pairs in order.
pub open spec fn spec_tray_menu() -> Seq<(Seq<char>, Seq<char>)> {
    seq![("show"@, "Show Spotcast"@), ("quit"@, "Quit Spotcast"@)]
}

/// The items of the tray menu, as (id, label) pairs in order: exactly
/// `show` ("Show Spotcast") and `quit` ("Quit Spotcast").
pub fn tray_menu() -> (r: Vec<(&'static str, &'static str)>)
    ensures
        r@.len() == spec_tray_menu().len(),
        forall|i: int|
            0 <= i < r@.len() ==> (#[trigger] r@[i]).0@ == spec_tray_menu()[i].0 && r@[i].1@
                == spec_tray_menu()[i].1,
{
    let r = vec![("show", "Show Spotcast"), ("quit", "Quit Spotcast")];
    r
}

/// Each item of the tray menu does what its label says: `show` shows the
/// window and `quit` quits.
pub proof fn law_tray_menu_items_act_as_labelled()
    ensures
        spec_launcher_action(LauncherEventView::TrayMenu(spec_tray_menu()[0].0))
            == LauncherAction::ShowWindow,
        spec_launcher_action(LauncherEventView::TrayMenu(spec_tray_menu()[1].0))
            == LauncherAction::Exit,
{
    assert(spec_tray_menu()[0].0 == "show"@);
    assert(spec_tray_menu()[1].0 == "quit"@);
    reveal_strlit("show");
    reveal_strlit("quit");
    assert("quit"@[0] != "show"@[0]);
}

} // verus!
