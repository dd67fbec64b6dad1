use lemonkee::platform::Platform;
use lemonkee::shell::Shell;
use lemonkee::window::{
    apply_menu, background_color, coerce_to_monitor, hide_app, main_window, menu_text,
    minimize_app, minimize_then_hide_if_in_tray, on_window_event, place_matters, quit_app,
    resolve_proxy, saved_position, setup, setup_scripts, show_main_window, theme_color, title_bar,
    title_bar_style, tray_behavior, tray_menu, update_position, Area, Bounds, MenuLabel, Placement,
    PositionFile, Saver, SaverEvent, SetupOptions, Size, TitleBar, TrayAction, TrayLabels,
    WindowChange, WindowEvent, WindowFlags, WindowOp, WindowPosition, WindowStep,
};

#[test]
fn labels() {
    let labels = TrayLabels::default();
    assert_eq!((labels.restore.as_str(), labels.quit.as_str()), ("Restore", "Quit"));
    assert_eq!(menu_text(Some("{} beenden {}".to_string()), "x"), "KeeWeb beenden KeeWeb");
    assert_eq!(menu_text(None, "Hide {}"), "Hide KeeWeb");
    let values = br#"{"sysMenuHide":"{} ausblenden","sysMenuQuit":1}"#;
    assert_eq!(apply_menu(MenuLabel::Hide, values), "KeeWeb ausblenden");
    assert_eq!(apply_menu(MenuLabel::Quit, values), "Quit KeeWeb");
    assert_eq!(apply_menu(MenuLabel::SelectAll, b"null"), "Select All");
    assert_eq!(apply_menu(MenuLabel::About, b"broken"), "About KeeWeb");
}

#[test]
fn colors_of_themes() {
    let color = |theme: &str, auto, dark| {
        let (red, green, blue, alpha) = theme_color(Some(theme.to_string()), auto, dark);
        assert_eq!(alpha, 255);
        (red, green, blue)
    };
    assert_eq!(color("dark", false, false), (0x1e, 0x1e, 0x1e));
    assert_eq!(color("macdark", false, false), (0x1e, 0x1e, 0x1e));
    assert_eq!(color("light", false, true), (0xf6, 0xf6, 0xf6));
    assert_eq!(color("wh", false, true), (0xf6, 0xf6, 0xf6));
    assert_eq!(color("db", false, true), (0x34, 0x2f, 0x2e));
    assert_eq!(color("hc", false, true), (0xfa, 0xfa, 0xfa));
    assert_eq!(color("te", false, true), (0x22, 0x22, 0x22));
    assert_eq!(color("sd", false, true), (0x00, 0x2b, 0x36));
    assert_eq!(color("sl", false, true), (0xfd, 0xf6, 0xe3));
    assert_eq!(color("fb", false, true), (0x28, 0x2c, 0x34));
    assert_eq!(color("wh", true, true), (0x1e, 0x1e, 0x1e));
    assert_eq!(color("sd", true, false), (0xfd, 0xf6, 0xe3));
    assert_eq!(color("sl", true, true), (0x00, 0x2b, 0x36));
    assert_eq!(color("lt", true, true), (0x22, 0x22, 0x22));
    assert_eq!(color("dc", true, false), (0xfa, 0xfa, 0xfa));
    assert_eq!(color("lb", true, true), (0x34, 0x2f, 0x2e));
    assert_eq!(color("custom", true, true), (0x28, 0x2c, 0x34));
    assert_eq!(theme_color(None, false, false), (0x1e, 0x1e, 0x1e, 255));
}

#[test]
fn background_from_settings() {
    assert_eq!(background_color(br#"{"theme":"sl"}"#, true), (0xfd, 0xf6, 0xe3, 255));
    assert_eq!(background_color(br#"{"theme":"sl","autoSwitchTheme":true}"#, true), (0x00, 0x2b, 0x36, 255));
    assert_eq!(background_color(br#"{"autoSwitchTheme":true}"#, false), (0xf6, 0xf6, 0xf6, 255));
    assert_eq!(background_color(br#"{"autoSwitchTheme":1}"#, false), (0x1e, 0x1e, 0x1e, 255));
    assert_eq!(background_color(b"broken", false), (0x1e, 0x1e, 0x1e, 255));
}

#[test]
fn title_bars() {
    for style in ["hidden", "hidden-inset", "hiddenInset"] {
        assert_eq!(title_bar_style(Platform::MacOs, Some(style.to_string())), TitleBar::Overlay);
        assert_eq!(title_bar_style(Platform::Windows, Some(style.to_string())), TitleBar::Undecorated);
        assert_eq!(title_bar_style(Platform::Linux, Some(style.to_string())), TitleBar::Normal);
    }
    assert_eq!(title_bar_style(Platform::MacOs, Some("default".to_string())), TitleBar::Normal);
    assert_eq!(title_bar_style(Platform::MacOs, None), TitleBar::Normal);
    assert_eq!(title_bar(Platform::MacOs, br#"{"titlebarStyle":"hidden"}"#), TitleBar::Overlay);
    assert_eq!(title_bar(Platform::MacOs, b"{}"), TitleBar::Normal);
}

#[test]
fn setup_of_the_window() {
    let options = SetupOptions {
        maximized: false,
        full_screen: false,
        start_minimized: false,
        smoke: false,
        debug: false,
        devtools: false,
    };
    assert_eq!(
        setup(options),
        vec![WindowOp::CoerceToMonitor, WindowOp::StartSaver, WindowOp::Show, WindowOp::Focus]
    );
    assert_eq!(
        setup(SetupOptions { maximized: true, full_screen: true, start_minimized: true, devtools: true, ..options }),
        vec![
            WindowOp::CoerceToMonitor,
            WindowOp::Maximize,
            WindowOp::Fullscreen,
            WindowOp::StartSaver,
            WindowOp::MinimizeToTray,
            WindowOp::TellStartedMinimized,
            WindowOp::OpenDevtools,
        ]
    );
    assert!(setup(SetupOptions { smoke: true, debug: true, ..options }).contains(&WindowOp::KeepVisible));
    assert!(!setup(SetupOptions { smoke: true, ..options }).contains(&WindowOp::KeepVisible));
    assert_eq!(setup_scripts(false, false, true), (false, false));
    assert_eq!(setup_scripts(false, true, true), (true, false));
    assert_eq!(setup_scripts(true, false, true), (true, true));
}

#[test]
fn to_the_tray() {
    assert_eq!(
        minimize_app(Platform::MacOs, false),
        vec![
            WindowOp::SavePosition,
            WindowOp::CreateTray,
            WindowOp::Hide,
            WindowOp::InDock(false),
            WindowOp::HiddenInTray(true),
        ]
    );
    assert_eq!(
        minimize_app(Platform::Windows, true),
        vec![
            WindowOp::SavePosition,
            WindowOp::Minimize,
            WindowOp::Hide,
            WindowOp::SkipTaskbar(true),
            WindowOp::HiddenInTray(true),
        ]
    );
    assert_eq!(
        minimize_then_hide_if_in_tray(false),
        vec![WindowOp::SavePosition, WindowOp::Minimize, WindowOp::UpdatePosition]
    );
    assert_eq!(
        hide_app(Platform::Linux, true),
        vec![
            WindowOp::SavePosition,
            WindowOp::Minimize,
            WindowOp::Hide,
            WindowOp::HiddenInTray(true),
            WindowOp::UpdatePosition,
        ]
    );
    assert_eq!(hide_app(Platform::MacOs, true), vec![WindowOp::HideApp]);
}

#[test]
fn back_from_the_tray() {
    assert_eq!(
        show_main_window(Platform::MacOs, true, true),
        vec![
            WindowOp::InDock(true),
            WindowOp::ShowApp,
            WindowOp::Show,
            WindowOp::Unminimize,
            WindowOp::CoerceToMonitor,
            WindowOp::Maximize,
            WindowOp::Focus,
            WindowOp::HiddenInTray(false),
            WindowOp::RemoveTray,
        ]
    );
    assert_eq!(
        show_main_window(Platform::Linux, false, false),
        vec![
            WindowOp::SkipTaskbar(false),
            WindowOp::Show,
            WindowOp::Unminimize,
            WindowOp::CoerceToMonitor,
            WindowOp::Focus,
            WindowOp::HiddenInTray(false),
        ]
    );
    assert_eq!(quit_app(), vec![WindowOp::SavePosition, WindowOp::RequestExit, WindowOp::Exit]);
}

#[test]
fn the_icon_in_the_tray() {
    let mac = tray_behavior(Platform::MacOs);
    assert!(mac.template && mac.menu_on_click && !mac.restore_on_click);
    let other = tray_behavior(Platform::Linux);
    assert!(!other.template && !other.menu_on_click && other.restore_on_click);
    assert_eq!(tray_menu("tray-restore"), TrayAction::Restore);
    assert_eq!(tray_menu("tray-quit"), TrayAction::RequestExit);
    assert_eq!(tray_menu("app-quit"), TrayAction::Nothing);
    assert_eq!(main_window(true), Ok(()));
    assert_eq!(main_window(false), Err("Main window is unavailable".to_string()));
    assert_eq!(resolve_proxy("https://example.com/"), Ok(None));
}

fn flags(minimized: bool, maximized: bool, fullscreen: bool) -> WindowFlags {
    WindowFlags { minimized, maximized, fullscreen }
}

#[test]
fn positions_are_noted() {
    let mut position: WindowPosition<f64> =
        WindowPosition { x: None, y: None, width: None, height: None, maximized: false, full_screen: false };
    let mut told = WindowFlags::of(false, false);
    let bounds = Bounds { x: 1.5, y: 2.0, width: 800.0, height: 600.0 };
    assert!(place_matters(flags(false, false, false)));
    assert!(update_position(&mut position, &mut told, flags(false, false, false), Some(bounds)).is_empty());
    assert_eq!((position.x, position.width), (Some(1.5), Some(800.0)));
    assert!(!place_matters(flags(false, true, false)));
    let covered = Bounds { x: 0.0, y: 0.0, width: 1920.0, height: 1080.0 };
    assert_eq!(
        update_position(&mut position, &mut told, flags(false, true, true), Some(covered)),
        vec![WindowEvent::Maximize, WindowEvent::EnterFullScreen]
    );
    assert!(position.maximized && position.full_screen);
    assert_eq!((position.x, position.y), (Some(1.5), Some(2.0)));
    assert_eq!((position.width, position.height), (Some(800.0), Some(600.0)));
    assert_eq!(
        update_position(&mut position, &mut told, flags(true, false, false), None),
        vec![WindowEvent::Minimize]
    );
    assert!(position.maximized && position.full_screen);
    assert!(update_position(&mut position, &mut told, flags(true, false, false), None).is_empty());
    assert_eq!(
        update_position(&mut position, &mut told, flags(false, false, false), None),
        vec![WindowEvent::Unmaximize, WindowEvent::LeaveFullScreen]
    );
    assert_eq!(told, flags(false, false, false));
}

#[test]
fn names_of_window_events() {
    let names: Vec<&str> = [
        WindowEvent::Minimize,
        WindowEvent::Maximize,
        WindowEvent::Unmaximize,
        WindowEvent::EnterFullScreen,
        WindowEvent::LeaveFullScreen,
        WindowEvent::Focus,
        WindowEvent::Blur,
        WindowEvent::BeforeQuit,
    ]
    .into_iter()
    .map(|event| event.name())
    .collect();
    assert_eq!(
        names,
        vec![
            "launcher-minimize",
            "launcher-maximize",
            "launcher-unmaximize",
            "enter-full-screen",
            "leave-full-screen",
            "main-window-focus",
            "main-window-blur",
            "launcher-before-quit",
        ]
    );
}

#[test]
fn files_with_positions() {
    assert_eq!(saved_position(PositionFile::Text("{}".to_string())), Ok(Some("{}".to_string())));
    assert_eq!(saved_position(PositionFile::Missing), Ok(None));
    assert_eq!(saved_position(PositionFile::Failed("denied".to_string())), Err("denied".to_string()));
}

#[test]
fn a_burst_is_saved_once() {
    let mut saver = Saver::Idle;
    assert!(!saver.step(SaverEvent::Rested));
    let saves: Vec<bool> =
        [SaverEvent::Changed, SaverEvent::Changed, SaverEvent::Rested, SaverEvent::Rested, SaverEvent::Changed]
            .into_iter()
            .map(|event| saver.step(event))
            .collect();
    assert_eq!(saves, vec![false, false, true, false, false]);
    assert!(!saver.step(SaverEvent::Closed));
    assert!(!saver.step(SaverEvent::Changed));
    assert_eq!(saver, Saver::Ended);
}

#[test]
fn changes_of_the_window() {
    let shell = Shell::new();
    let steps = |change, shell: &Shell| on_window_event("main", true, change, shell);
    assert_eq!(
        steps(WindowChange::Focused(true), &shell),
        vec![WindowStep::Tell(WindowEvent::Focus), WindowStep::UpdatePosition { logged: false }]
    );
    assert_eq!(steps(WindowChange::Focused(false), &shell)[0], WindowStep::Tell(WindowEvent::Blur));
    assert_eq!(
        steps(WindowChange::Placed, &shell),
        vec![WindowStep::UpdatePosition { logged: true }, WindowStep::SignalSaver]
    );
    assert!(steps(WindowChange::Other, &shell).is_empty());
    assert!(on_window_event("other", true, WindowChange::Placed, &shell).is_empty());
    assert!(on_window_event("main", false, WindowChange::Placed, &shell).is_empty());
}

#[test]
fn closing_the_window() {
    let close = |shell: Shell| on_window_event("main", true, WindowChange::CloseRequested, &shell);
    let shell = Shell::new();
    assert_eq!(close(shell), vec![WindowStep::SavePosition]);
    assert_eq!(
        close(Shell { hook_before_quit: true, tray: true, ..shell }),
        vec![
            WindowStep::SavePosition,
            WindowStep::PreventClose,
            WindowStep::Tell(WindowEvent::BeforeQuit),
        ]
    );
    assert_eq!(
        close(Shell { tray: true, ..shell }),
        vec![WindowStep::SavePosition, WindowStep::PreventClose, WindowStep::MinimizeToTray]
    );
    assert_eq!(
        close(Shell { hook_before_quit: true, tray: true, exit_requested: true, ..shell }),
        vec![WindowStep::SavePosition]
    );
}

#[test]
fn windows_are_brought_back_to_a_monitor() {
    let area = Area { x: -1920, y: 25, width: 1920, height: 1055 };
    let place = coerce_to_monitor(
        area,
        Size { width: 1728, height: 949 },
        Size { width: 3000, height: 700 },
        Size { width: 2990, height: 670 },
    );
    assert_eq!(place, Placement { width: 1718, height: 670, x: -1824, y: 202 });
    let tiny = coerce_to_monitor(
        Area { x: 0, y: 0, width: 10, height: 10 },
        Size { width: 9, height: 9 },
        Size { width: 50, height: 50 },
        Size { width: 20, height: 60 },
    );
    assert_eq!(tiny, Placement { width: 0, height: 9, x: 0, y: 0 });
}
