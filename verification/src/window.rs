//! The main window: how it looks, where it is, and how it goes to the tray and comes
//! back.

use vstd::prelude::*;

use crate::json;
use crate::json::JsonValue;
use crate::platform::Platform;
use crate::shell::Shell;
use crate::text;

verus! {

/// The size of a new window.
pub const WINDOW_SIZE: (u32, u32) = (1000, 700);

/// The smallest size of the window.
pub const MIN_WINDOW_SIZE: (u32, u32) = (700, 400);

/// How long the window has to rest before its position is saved, in milliseconds.
pub const SAVE_DELAY_MILLIS: u64 = 500;

/// The file that the position of the window is saved to.
pub const POSITION_FILE: &'static str = "window-position.json";

/// Whether there is a window.
pub fn main_window(available: bool) -> (r: Result<(), String>)
    ensures
        text::outcome(r) == if available {
            Ok(())
        } else {
            Err("Main window is unavailable"@)
        },
{
    if available {
        Ok(())
    } else {
        Err("Main window is unavailable".to_owned())
    }
}

// ---------------------------------------------------------------------------
// Labels
// ---------------------------------------------------------------------------

/// The labels of the menu in the tray.
pub struct TrayLabels {
    pub restore: String,
    pub quit: String,
}

impl Default for TrayLabels {
    fn default() -> (r: TrayLabels)
        ensures
            r.restore@ == "Restore"@,
            r.quit@ == "Quit"@,
    {
        TrayLabels { restore: "Restore".to_owned(), quit: "Quit".to_owned() }
    }
}

/// The items of the menu bar that have a label.
#[derive(Clone, Copy, Debug, PartialEq, Eq, Structural)]
pub enum MenuLabel {
    About,
    Services,
    Hide,
    HideOthers,
    ShowAll,
    Quit,
    Edit,
    Undo,
    Redo,
    Cut,
    Copy,
    Paste,
    SelectAll,
    Window,
    Minimize,
    Close,
}

impl MenuLabel {
    /// The name of the label among the labels of the user interface.
    pub open spec fn name_text(self) -> Seq<char> {
        match self {
            MenuLabel::About => "sysMenuAboutKeeWeb"@,
            MenuLabel::Services => "sysMenuServices"@,
            MenuLabel::Hide => "sysMenuHide"@,
            MenuLabel::HideOthers => "sysMenuHideOthers"@,
            MenuLabel::ShowAll => "sysMenuUnhide"@,
            MenuLabel::Quit => "sysMenuQuit"@,
            MenuLabel::Edit => "sysMenuEdit"@,
            MenuLabel::Undo => "sysMenuUndo"@,
            MenuLabel::Redo => "sysMenuRedo"@,
            MenuLabel::Cut => "sysMenuCut"@,
            MenuLabel::Copy => "sysMenuCopy"@,
            MenuLabel::Paste => "sysMenuPaste"@,
            MenuLabel::SelectAll => "sysMenuSelectAll"@,
            MenuLabel::Window => "sysMenuWindow"@,
            MenuLabel::Minimize => "sysMenuMinimize"@,
            MenuLabel::Close => "sysMenuClose"@,
        }
    }

    /// The label if the user interface gives none.
    pub open spec fn fallback_text(self) -> Seq<char> {
        match self {
            MenuLabel::About => "About KeeWeb"@,
            MenuLabel::Services => "Services"@,
            MenuLabel::Hide => "Hide KeeWeb"@,
            MenuLabel::HideOthers => "Hide Others"@,
            MenuLabel::ShowAll => "Show All"@,
            MenuLabel::Quit => "Quit KeeWeb"@,
            MenuLabel::Edit => "Edit"@,
            MenuLabel::Undo => "Undo"@,
            MenuLabel::Redo => "Redo"@,
            MenuLabel::Cut => "Cut"@,
            MenuLabel::Copy => "Copy"@,
            MenuLabel::Paste => "Paste"@,
            MenuLabel::SelectAll => "Select All"@,
            MenuLabel::Window => "Window"@,
            MenuLabel::Minimize => "Minimize"@,
            MenuLabel::Close => "Close"@,
        }
    }

    fn name(self) -> (r: &'static str)
        ensures
            r@ == self.name_text(),
            json::is_plain_name(r@),
    {
        proof {
            reveal_strlit("sysMenuAboutKeeWeb");
            reveal_strlit("sysMenuServices");
            reveal_strlit("sysMenuHide");
            reveal_strlit("sysMenuHideOthers");
            reveal_strlit("sysMenuUnhide");
            reveal_strlit("sysMenuQuit");
            reveal_strlit("sysMenuEdit");
            reveal_strlit("sysMenuUndo");
            reveal_strlit("sysMenuRedo");
            reveal_strlit("sysMenuCut");
            reveal_strlit("sysMenuCopy");
            reveal_strlit("sysMenuPaste");
            reveal_strlit("sysMenuSelectAll");
            reveal_strlit("sysMenuWindow");
            reveal_strlit("sysMenuMinimize");
            reveal_strlit("sysMenuClose");
        }
        match self {
            MenuLabel::About => "sysMenuAboutKeeWeb",
            MenuLabel::Services => "sysMenuServices",
            MenuLabel::Hide => "sysMenuHide",
            MenuLabel::HideOthers => "sysMenuHideOthers",
            MenuLabel::ShowAll => "sysMenuUnhide",
            MenuLabel::Quit => "sysMenuQuit",
            MenuLabel::Edit => "sysMenuEdit",
            MenuLabel::Undo => "sysMenuUndo",
            MenuLabel::Redo => "sysMenuRedo",
            MenuLabel::Cut => "sysMenuCut",
            MenuLabel::Copy => "sysMenuCopy",
            MenuLabel::Paste => "sysMenuPaste",
            MenuLabel::SelectAll => "sysMenuSelectAll",
            MenuLabel::Window => "sysMenuWindow",
            MenuLabel::Minimize => "sysMenuMinimize",
            MenuLabel::Close => "sysMenuClose",
        }
    }

    fn fallback(self) -> (r: &'static str)
        ensures
            r@ == self.fallback_text(),
    {
        match self {
            MenuLabel::About => "About KeeWeb",
            MenuLabel::Services => "Services",
            MenuLabel::Hide => "Hide KeeWeb",
            MenuLabel::HideOthers => "Hide Others",
            MenuLabel::ShowAll => "Show All",
            MenuLabel::Quit => "Quit KeeWeb",
            MenuLabel::Edit => "Edit",
            MenuLabel::Undo => "Undo",
            MenuLabel::Redo => "Redo",
            MenuLabel::Cut => "Cut",
            MenuLabel::Copy => "Copy",
            MenuLabel::Paste => "Paste",
            MenuLabel::SelectAll => "Select All",
            MenuLabel::Window => "Window",
            MenuLabel::Minimize => "Minimize",
            MenuLabel::Close => "Close",
        }
    }
}

/// The text of a label, where the user interface may have left out the name of the
/// application.
pub open spec fn label_text(given: Option<Seq<char>>, fallback: Seq<char>) -> Seq<char> {
    text::replaced(
        match given {
            Some(label) => label,
            None => fallback,
        },
        "{}"@,
        "KeeWeb"@,
    )
}

/// The text of a label.
pub fn menu_text(given: Option<String>, fallback: &str) -> (r: String)
    ensures
        r@ == label_text(text::opt_text(given), fallback@),
{
    match given {
        Some(label) => text::replace(label.as_str(), "{}", "KeeWeb"),
        None => text::replace(fallback, "{}", "KeeWeb"),
    }
}

/// The text of an item of the menu bar, from the labels of the user interface.
pub fn apply_menu(label: MenuLabel, values: &[u8]) -> (r: String)
    ensures
        r@ == label_text(
            json::as_text(json::member_of(values@, label.name_text())),
            label.fallback_text(),
        ),
{
    menu_text(json::text_member(values, label.name()), label.fallback())
}

// ---------------------------------------------------------------------------
// Colors
// ---------------------------------------------------------------------------

/// The themes that come in pairs of a dark and a light one.
pub open spec fn theme_pairs() -> Seq<(Seq<char>, Seq<char>)> {
    seq![
        ("dark"@, "light"@),
        ("sd"@, "sl"@),
        ("fb"@, "bl"@),
        ("db"@, "lb"@),
        ("te"@, "lt"@),
        ("dc"@, "hc"@),
    ]
}

/// The theme of a pair that suits the system, if the theme belongs to one of some
/// pairs.
pub open spec fn switched_among(pairs: Seq<(Seq<char>, Seq<char>)>, theme: Seq<char>, dark: bool) -> Seq<
    char,
>
    decreases pairs.len(),
{
    if pairs.len() == 0 {
        theme
    } else if theme == pairs[0].0 || theme == pairs[0].1 {
        if dark {
            pairs[0].0
        } else {
            pairs[0].1
        }
    } else {
        switched_among(pairs.drop_first(), theme, dark)
    }
}

/// The present name of a theme, which may have had another one.
pub open spec fn current_name(theme: Seq<char>) -> Seq<char> {
    if theme == "macdark"@ {
        "dark"@
    } else if theme == "wh"@ {
        "light"@
    } else {
        theme
    }
}

/// The theme of the window: `auto` tells that it follows the system.
pub open spec fn effective_theme(theme: Option<Seq<char>>, auto: bool, dark: bool) -> Seq<char> {
    let chosen = match theme {
        Some(theme) => current_name(theme),
        None => "dark"@,
    };
    if auto {
        switched_among(theme_pairs(), chosen, dark)
    } else {
        chosen
    }
}

/// The background of a theme.
pub open spec fn theme_background(theme: Seq<char>) -> (u8, u8, u8) {
    if theme == "dark"@ {
        (0x1e, 0x1e, 0x1e)
    } else if theme == "light"@ {
        (0xf6, 0xf6, 0xf6)
    } else if theme == "db"@ {
        (0x34, 0x2f, 0x2e)
    } else if theme == "wh"@ || theme == "hc"@ {
        (0xfa, 0xfa, 0xfa)
    } else if theme == "te"@ {
        (0x22, 0x22, 0x22)
    } else if theme == "sd"@ {
        (0x00, 0x2b, 0x36)
    } else if theme == "sl"@ {
        (0xfd, 0xf6, 0xe3)
    } else {
        (0x28, 0x2c, 0x34)
    }
}

fn belongs(theme: &str, dark_theme: &str, light_theme: &str) -> (r: bool)
    ensures
        r == (theme@ == dark_theme@ || theme@ == light_theme@),
{
    text::same_text(theme, dark_theme) || text::same_text(theme, light_theme)
}

fn switch_theme(theme: String, dark: bool) -> (r: String)
    ensures
        r@ == switched_among(theme_pairs(), theme@, dark),
{
    reveal_with_fuel(switched_among, 7);
    let ghost pairs = theme_pairs();
    assert(pairs.drop_first()[0] == pairs[1]);
    assert(pairs.drop_first().drop_first()[0] == pairs[2]);
    assert(pairs.drop_first().drop_first().drop_first()[0] == pairs[3]);
    assert(pairs.drop_first().drop_first().drop_first().drop_first()[0] == pairs[4]);
    assert(pairs.drop_first().drop_first().drop_first().drop_first().drop_first()[0] == pairs[5]);
    let name = theme.as_str();
    if belongs(name, "dark", "light") {
        if dark {
            "dark".to_owned()
        } else {
            "light".to_owned()
        }
    } else if belongs(name, "sd", "sl") {
        if dark {
            "sd".to_owned()
        } else {
            "sl".to_owned()
        }
    } else if belongs(name, "fb", "bl") {
        if dark {
            "fb".to_owned()
        } else {
            "bl".to_owned()
        }
    } else if belongs(name, "db", "lb") {
        if dark {
            "db".to_owned()
        } else {
            "lb".to_owned()
        }
    } else if belongs(name, "te", "lt") {
        if dark {
            "te".to_owned()
        } else {
            "lt".to_owned()
        }
    } else if belongs(name, "dc", "hc") {
        if dark {
            "dc".to_owned()
        } else {
            "hc".to_owned()
        }
    } else {
        theme
    }
}

/// The background of a window with a theme.
pub fn theme_color(theme: Option<String>, auto: bool, dark: bool) -> (r: (u8, u8, u8, u8))
    ensures
        (r.0, r.1, r.2) == theme_background(effective_theme(text::opt_text(theme), auto, dark)),
        r.3 == 255,
{
    let chosen = match theme {
        Some(theme) => if text::same_text(theme.as_str(), "macdark") {
            "dark".to_owned()
        } else if text::same_text(theme.as_str(), "wh") {
            "light".to_owned()
        } else {
            theme
        },
        None => "dark".to_owned(),
    };
    let effective = if auto {
        switch_theme(chosen, dark)
    } else {
        chosen
    };
    let name = effective.as_str();
    if text::same_text(name, "dark") {
        (0x1e, 0x1e, 0x1e, 255)
    } else if text::same_text(name, "light") {
        (0xf6, 0xf6, 0xf6, 255)
    } else if text::same_text(name, "db") {
        (0x34, 0x2f, 0x2e, 255)
    } else if text::same_text(name, "wh") || text::same_text(name, "hc") {
        (0xfa, 0xfa, 0xfa, 255)
    } else if text::same_text(name, "te") {
        (0x22, 0x22, 0x22, 255)
    } else if text::same_text(name, "sd") {
        (0x00, 0x2b, 0x36, 255)
    } else if text::same_text(name, "sl") {
        (0xfd, 0xf6, 0xe3, 255)
    } else {
        (0x28, 0x2c, 0x34, 255)
    }
}

/// The background of the window with some settings.
pub fn background_color(settings: &[u8], dark: bool) -> (r: (u8, u8, u8, u8))
    ensures
        (r.0, r.1, r.2) == theme_background(
            effective_theme(
                json::as_text(json::member_of(settings@, "theme"@)),
                json::member_of(settings@, "autoSwitchTheme"@) == json::Json::Bool(true),
                dark,
            ),
        ),
        r.3 == 255,
{
    proof {
        reveal_strlit("theme");
        reveal_strlit("autoSwitchTheme");
    }
    let theme = json::text_member(settings, "theme");
    let auto = match json::json_member(settings, "autoSwitchTheme") {
        Ok(JsonValue::Bool(auto)) => auto,
        _ => false,
    };
    theme_color(theme, auto, dark)
}

/// A theme that does not follow the system looks the same whatever the system does.
pub proof fn law_fixed_theme_ignores_the_system(theme: Option<Seq<char>>)
    ensures
        effective_theme(theme, false, true) == effective_theme(theme, false, false),
{
}

// ---------------------------------------------------------------------------
// Setup
// ---------------------------------------------------------------------------

/// What becomes of the title bar.
#[derive(Clone, Copy, Debug, PartialEq, Eq, Structural)]
pub enum TitleBar {
    Normal,
    /// It lies over the page.
    Overlay,
    /// There is none.
    Undecorated,
}

/// What becomes of the title bar with a style from the settings.
pub open spec fn title_bar_for(platform: Platform, style: Option<Seq<char>>) -> TitleBar {
    let hidden = match style {
        Some(style) => style == "hidden"@ || style == "hidden-inset"@ || style == "hiddenInset"@,
        None => false,
    };
    match platform {
        Platform::MacOs if hidden => TitleBar::Overlay,
        Platform::Windows if hidden => TitleBar::Undecorated,
        _ => TitleBar::Normal,
    }
}

/// What becomes of the title bar with a style.
pub fn title_bar_style(platform: Platform, style: Option<String>) -> (r: TitleBar)
    ensures
        r == title_bar_for(platform, text::opt_text(style)),
{
    let hidden = match style {
        Some(style) => text::same_text(style.as_str(), "hidden") || text::same_text(
            style.as_str(),
            "hidden-inset",
        ) || text::same_text(style.as_str(), "hiddenInset"),
        None => false,
    };
    if !hidden {
        return TitleBar::Normal;
    }
    match platform {
        Platform::MacOs => TitleBar::Overlay,
        Platform::Windows => TitleBar::Undecorated,
        _ => TitleBar::Normal,
    }
}

/// What becomes of the title bar with some settings.
pub fn title_bar(platform: Platform, settings: &[u8]) -> (r: TitleBar)
    ensures
        r == title_bar_for(platform, json::as_text(json::member_of(settings@, "titlebarStyle"@))),
{
    proof {
        reveal_strlit("titlebarStyle");
    }
    title_bar_style(platform, json::text_member(settings, "titlebarStyle"))
}

/// What is done with the window and the application.
#[derive(Clone, Copy, Debug, PartialEq, Eq, Structural)]
pub enum WindowOp {
    /// Save where the window is.
    SavePosition,
    /// Take note of where the window is.
    UpdatePosition,
    /// Make the icon in the tray.
    CreateTray,
    /// Remove the icon from the tray.
    RemoveTray,
    Minimize,
    Unminimize,
    Maximize,
    Fullscreen,
    Hide,
    Show,
    Focus,
    /// Whether the task bar leaves the window out.
    SkipTaskbar(bool),
    /// Whether the application is in the dock.
    InDock(bool),
    /// Show the whole application.
    ShowApp,
    /// Hide the whole application.
    HideApp,
    /// Move the window to where it can be seen.
    CoerceToMonitor,
    /// Note whether the window is hidden in the tray.
    HiddenInTray(bool),
    /// Begin to save the position when it changes.
    StartSaver,
    /// Send the window to the tray, under the labels by default.
    MinimizeToTray,
    /// Tell that the program has started without a window.
    TellStartedMinimized,
    /// Keep the window visible, for scripts that look at it.
    KeepVisible,
    OpenDevtools,
    /// Note that the program ends.
    RequestExit,
    /// End the program.
    Exit,
}

/// What the setup of the window depends on.
#[derive(Clone, Copy, Debug, PartialEq, Eq, Structural)]
pub struct SetupOptions {
    pub maximized: bool,
    pub full_screen: bool,
    pub start_minimized: bool,
    /// A script looks at the window.
    pub smoke: bool,
    pub debug: bool,
    pub devtools: bool,
}

/// One operation under a condition.
pub open spec fn op_if(condition: bool, op: WindowOp) -> Seq<WindowOp> {
    if condition {
        seq![op]
    } else {
        Seq::empty()
    }
}

/// What is done with a new window once it has its place.
pub open spec fn setup_ops(options: SetupOptions) -> Seq<WindowOp> {
    seq![WindowOp::CoerceToMonitor] + op_if(options.maximized, WindowOp::Maximize) + op_if(
        options.full_screen,
        WindowOp::Fullscreen,
    ) + seq![WindowOp::StartSaver] + if options.start_minimized {
        seq![WindowOp::MinimizeToTray, WindowOp::TellStartedMinimized]
    } else {
        seq![WindowOp::Show, WindowOp::Focus] + op_if(
            options.debug && options.smoke,
            WindowOp::KeepVisible,
        )
    } + op_if(options.devtools, WindowOp::OpenDevtools)
}

/// What is done with a new window once it has its place, in order; the first failure
/// ends it.
pub fn setup(options: SetupOptions) -> (r: Vec<WindowOp>)
    ensures
        r@ == setup_ops(options),
{
    let mut ops: Vec<WindowOp> = Vec::new();
    ops.push(WindowOp::CoerceToMonitor);
    if options.maximized {
        ops.push(WindowOp::Maximize);
    }
    if options.full_screen {
        ops.push(WindowOp::Fullscreen);
    }
    ops.push(WindowOp::StartSaver);
    if options.start_minimized {
        ops.push(WindowOp::MinimizeToTray);
        ops.push(WindowOp::TellStartedMinimized);
    } else {
        ops.push(WindowOp::Show);
        ops.push(WindowOp::Focus);
        if options.debug && options.smoke {
            ops.push(WindowOp::KeepVisible);
        }
    }
    if options.devtools {
        ops.push(WindowOp::OpenDevtools);
    }
    assert(ops@ =~= setup_ops(options));
    ops
}

/// Which scripts are put into the page of a new window: the one that copies its
/// console, and the one that a developer gives.
pub fn setup_scripts(debug: bool, startup_logging: bool, smoke: bool) -> (r: (bool, bool))
    ensures
        r.0 == (debug || startup_logging),
        r.1 == (debug && smoke),
{
    (debug || startup_logging, debug && smoke)
}

// ---------------------------------------------------------------------------
// The tray
// ---------------------------------------------------------------------------

/// How the icon in the tray behaves.
#[derive(Clone, Copy, Debug, PartialEq, Eq, Structural)]
pub struct TrayBehavior {
    /// The icon is a template that the system colors.
    pub template: bool,
    /// A click opens the menu.
    pub menu_on_click: bool,
    /// A click brings the window back.
    pub restore_on_click: bool,
}

/// How the icon in the tray behaves.
pub fn tray_behavior(platform: Platform) -> (r: TrayBehavior)
    ensures
        r.template == (platform is MacOs),
        r.menu_on_click == (platform is MacOs),
        r.restore_on_click == !(platform is MacOs),
{
    match platform {
        Platform::MacOs => TrayBehavior {
            template: true,
            menu_on_click: true,
            restore_on_click: false,
        },
        _ => TrayBehavior { template: false, menu_on_click: false, restore_on_click: true },
    }
}

/// What an item of the menu in the tray does.
#[derive(Clone, Copy, Debug, PartialEq, Eq, Structural)]
pub enum TrayAction {
    Restore,
    /// Tell the user interface that the program should end.
    RequestExit,
    Nothing,
}

/// What an item of the menu in the tray does.
pub fn tray_menu(id: &str) -> (r: TrayAction)
    ensures
        r == if id@ == "tray-restore"@ {
            TrayAction::Restore
        } else if id@ == "tray-quit"@ {
            TrayAction::RequestExit
        } else {
            TrayAction::Nothing
        },
{
    if text::same_text(id, "tray-restore") {
        TrayAction::Restore
    } else if text::same_text(id, "tray-quit") {
        TrayAction::RequestExit
    } else {
        TrayAction::Nothing
    }
}

/// How the window goes to the tray.
pub open spec fn minimize_ops(platform: Platform, tray: bool) -> Seq<WindowOp> {
    seq![WindowOp::SavePosition] + op_if(!tray, WindowOp::CreateTray) + op_if(
        platform is Windows,
        WindowOp::Minimize,
    ) + seq![
        WindowOp::Hide,
        if platform is MacOs {
            WindowOp::InDock(false)
        } else {
            WindowOp::SkipTaskbar(true)
        },
        WindowOp::HiddenInTray(true),
    ]
}

/// How the window goes to the tray: in order, and the first failure ends it.
pub fn minimize_app(platform: Platform, tray: bool) -> (r: Vec<WindowOp>)
    ensures
        r@ == minimize_ops(platform, tray),
{
    let mut ops: Vec<WindowOp> = Vec::new();
    ops.push(WindowOp::SavePosition);
    if !tray {
        ops.push(WindowOp::CreateTray);
    }
    if platform == Platform::Windows {
        ops.push(WindowOp::Minimize);
    }
    ops.push(WindowOp::Hide);
    if platform == Platform::MacOs {
        ops.push(WindowOp::InDock(false));
    } else {
        ops.push(WindowOp::SkipTaskbar(true));
    }
    ops.push(WindowOp::HiddenInTray(true));
    assert(ops@ =~= minimize_ops(platform, tray));
    ops
}

/// How the window gets out of the way.
pub open spec fn minimize_hide_ops(tray: bool) -> Seq<WindowOp> {
    seq![WindowOp::SavePosition, WindowOp::Minimize] + if tray {
        seq![WindowOp::Hide, WindowOp::HiddenInTray(true)]
    } else {
        Seq::empty()
    } + seq![WindowOp::UpdatePosition]
}

/// How the window gets out of the way: it is hidden only if there is an icon in the
/// tray to bring it back.
pub fn minimize_then_hide_if_in_tray(tray: bool) -> (r: Vec<WindowOp>)
    ensures
        r@ == minimize_hide_ops(tray),
{
    let mut ops: Vec<WindowOp> = Vec::new();
    ops.push(WindowOp::SavePosition);
    ops.push(WindowOp::Minimize);
    if tray {
        ops.push(WindowOp::Hide);
        ops.push(WindowOp::HiddenInTray(true));
    }
    ops.push(WindowOp::UpdatePosition);
    assert(ops@ =~= minimize_hide_ops(tray));
    ops
}

/// How the window comes back.
pub open spec fn show_ops(platform: Platform, maximized: bool, tray: bool) -> Seq<WindowOp> {
    (if platform is MacOs {
        seq![WindowOp::InDock(true), WindowOp::ShowApp]
    } else {
        seq![WindowOp::SkipTaskbar(false)]
    }) + seq![WindowOp::Show, WindowOp::Unminimize, WindowOp::CoerceToMonitor] + op_if(
        maximized,
        WindowOp::Maximize,
    ) + seq![WindowOp::Focus, WindowOp::HiddenInTray(false)] + op_if(tray, WindowOp::RemoveTray)
}

/// How the window comes back: in order, and the first failure ends it.
pub fn show_main_window(platform: Platform, maximized: bool, tray: bool) -> (r: Vec<WindowOp>)
    ensures
        r@ == show_ops(platform, maximized, tray),
{
    let mut ops: Vec<WindowOp> = Vec::new();
    if platform == Platform::MacOs {
        ops.push(WindowOp::InDock(true));
        ops.push(WindowOp::ShowApp);
    } else {
        ops.push(WindowOp::SkipTaskbar(false));
    }
    ops.push(WindowOp::Show);
    ops.push(WindowOp::Unminimize);
    ops.push(WindowOp::CoerceToMonitor);
    if maximized {
        ops.push(WindowOp::Maximize);
    }
    ops.push(WindowOp::Focus);
    ops.push(WindowOp::HiddenInTray(false));
    if tray {
        ops.push(WindowOp::RemoveTray);
    }
    assert(ops@ =~= show_ops(platform, maximized, tray));
    ops
}

/// How the application gets out of the way.
pub fn hide_app(platform: Platform, tray: bool) -> (r: Vec<WindowOp>)
    ensures
        r@ == if platform is MacOs {
            seq![WindowOp::HideApp]
        } else {
            minimize_hide_ops(tray)
        },
{
    if platform == Platform::MacOs {
        let mut ops: Vec<WindowOp> = Vec::new();
        ops.push(WindowOp::HideApp);
        assert(ops@ =~= seq![WindowOp::HideApp]);
        ops
    } else {
        minimize_then_hide_if_in_tray(tray)
    }
}

/// How the program ends.
pub fn quit_app() -> (r: Vec<WindowOp>)
    ensures
        r@ == seq![WindowOp::SavePosition, WindowOp::RequestExit, WindowOp::Exit],
{
    let mut ops: Vec<WindowOp> = Vec::new();
    ops.push(WindowOp::SavePosition);
    ops.push(WindowOp::RequestExit);
    ops.push(WindowOp::Exit);
    assert(ops@ =~= seq![WindowOp::SavePosition, WindowOp::RequestExit, WindowOp::Exit]);
    ops
}

/// No proxy is known: requests go out directly.
pub fn resolve_proxy(_url: &str) -> (r: Result<Option<String>, String>)
    ensures
        r is Ok,
        r->Ok_0 is None,
{
    Ok(None)
}

/// What can be seen of the window and the application.
#[derive(Clone, Copy, Debug, PartialEq, Eq, Structural)]
pub struct Appearance {
    pub visible: bool,
    pub minimized: bool,
    pub in_taskbar: bool,
    pub in_dock: bool,
    pub tray: bool,
    pub hidden_in_tray: bool,
}

/// What an operation that succeeds does to the appearance.
pub open spec fn after(look: Appearance, op: WindowOp) -> Appearance {
    match op {
        WindowOp::CreateTray => Appearance { tray: true, ..look },
        WindowOp::RemoveTray => Appearance { tray: false, ..look },
        WindowOp::Minimize => Appearance { minimized: true, ..look },
        WindowOp::Unminimize => Appearance { minimized: false, ..look },
        WindowOp::Hide => Appearance { visible: false, ..look },
        WindowOp::Show => Appearance { visible: true, ..look },
        WindowOp::SkipTaskbar(skip) => Appearance { in_taskbar: !skip, ..look },
        WindowOp::InDock(shown) => Appearance { in_dock: shown, ..look },
        WindowOp::HiddenInTray(hidden) => Appearance { hidden_in_tray: hidden, ..look },
        _ => look,
    }
}

/// What some operations that succeed do to the appearance.
pub open spec fn after_all(look: Appearance, ops: Seq<WindowOp>) -> Appearance
    decreases ops.len(),
{
    if ops.len() == 0 {
        look
    } else {
        after(after_all(look, ops.drop_last()), ops.last())
    }
}

proof fn lemma_after_all(look: Appearance, ops: Seq<WindowOp>, op: WindowOp)
    ensures
        after_all(look, ops.push(op)) == after(after_all(look, ops), op),
{
    assert(ops.push(op).drop_last() =~= ops);
}

proof fn lemma_minimized(platform: Platform, look: Appearance)
    ensures
        after_all(look, minimize_ops(platform, look.tray)) == (Appearance {
            visible: false,
            tray: true,
            hidden_in_tray: true,
            minimized: look.minimized || platform is Windows,
            in_taskbar: look.in_taskbar && platform is MacOs,
            in_dock: look.in_dock && !(platform is MacOs),
        }),
{
    let none = Seq::<WindowOp>::empty();
    let a = none.push(WindowOp::SavePosition);
    let b = if look.tray {
        a
    } else {
        a.push(WindowOp::CreateTray)
    };
    let c = if platform is Windows {
        b.push(WindowOp::Minimize)
    } else {
        b
    };
    let d = c.push(WindowOp::Hide);
    let last = if platform is MacOs {
        WindowOp::InDock(false)
    } else {
        WindowOp::SkipTaskbar(true)
    };
    let e = d.push(last);
    lemma_after_all(look, none, WindowOp::SavePosition);
    lemma_after_all(look, a, WindowOp::CreateTray);
    lemma_after_all(look, b, WindowOp::Minimize);
    lemma_after_all(look, c, WindowOp::Hide);
    lemma_after_all(look, d, last);
    lemma_after_all(look, e, WindowOp::HiddenInTray(true));
    assert(e.push(WindowOp::HiddenInTray(true)) =~= minimize_ops(platform, look.tray));
}

proof fn lemma_shown(platform: Platform, maximized: bool, look: Appearance)
    ensures
        after_all(look, show_ops(platform, maximized, look.tray)) == (Appearance {
            visible: true,
            tray: false,
            hidden_in_tray: false,
            minimized: false,
            in_taskbar: look.in_taskbar || !(platform is MacOs),
            in_dock: look.in_dock || platform is MacOs,
        }),
{
    let none = Seq::<WindowOp>::empty();
    let a = if platform is MacOs {
        none.push(WindowOp::InDock(true)).push(WindowOp::ShowApp)
    } else {
        none.push(WindowOp::SkipTaskbar(false))
    };
    let b = a.push(WindowOp::Show).push(WindowOp::Unminimize).push(WindowOp::CoerceToMonitor);
    let c = if maximized {
        b.push(WindowOp::Maximize)
    } else {
        b
    };
    let d = c.push(WindowOp::Focus).push(WindowOp::HiddenInTray(false));
    let e = if look.tray {
        d.push(WindowOp::RemoveTray)
    } else {
        d
    };
    lemma_after_all(look, none, WindowOp::SkipTaskbar(false));
    lemma_after_all(look, none, WindowOp::InDock(true));
    lemma_after_all(look, none.push(WindowOp::InDock(true)), WindowOp::ShowApp);
    lemma_after_all(look, a, WindowOp::Show);
    lemma_after_all(look, a.push(WindowOp::Show), WindowOp::Unminimize);
    lemma_after_all(
        look,
        a.push(WindowOp::Show).push(WindowOp::Unminimize),
        WindowOp::CoerceToMonitor,
    );
    lemma_after_all(look, b, WindowOp::Maximize);
    lemma_after_all(look, c, WindowOp::Focus);
    lemma_after_all(look, c.push(WindowOp::Focus), WindowOp::HiddenInTray(false));
    lemma_after_all(look, d, WindowOp::RemoveTray);
    assert(e =~= show_ops(platform, maximized, look.tray));
}

/// A window that goes to the tray and comes back looks as before, if it was to be seen
/// before.
pub proof fn law_tray_and_back(platform: Platform, maximized: bool, look: Appearance)
    requires
        look.visible,
        !look.minimized,
        !look.tray,
        !look.hidden_in_tray,
    ensures
        after_all(
            after_all(look, minimize_ops(platform, look.tray)),
            show_ops(platform, maximized, true),
        ) == (Appearance {
            in_taskbar: look.in_taskbar || !(platform is MacOs),
            in_dock: look.in_dock || platform is MacOs,
            ..look
        }),
{
    lemma_minimized(platform, look);
    lemma_shown(platform, maximized, after_all(look, minimize_ops(platform, look.tray)));
}

/// A window that counts as hidden in the tray has an icon there.
pub open spec fn can_come_back(look: Appearance) -> bool {
    look.hidden_in_tray ==> look.tray
}

/// However far the way to the tray gets before an operation fails, a window that
/// counts as hidden there can come back.
pub proof fn law_hidden_has_an_icon(platform: Platform, look: Appearance, n: int)
    requires
        can_come_back(look),
        0 <= n <= minimize_ops(platform, look.tray).len(),
    ensures
        can_come_back(after_all(look, minimize_ops(platform, look.tray).take(n))),
{
    let ops = minimize_ops(platform, look.tray);
    lemma_minimized(platform, look);
    if n == ops.len() {
        assert(ops.take(n) =~= ops);
    } else {
        lemma_keeps_tray(look, ops.take(n));
    }
}

proof fn lemma_keeps_tray(look: Appearance, ops: Seq<WindowOp>)
    requires
        forall|i: int|
            0 <= i < ops.len() ==> !((#[trigger] ops[i]) is HiddenInTray || ops[i] is RemoveTray),
    ensures
        after_all(look, ops).hidden_in_tray == look.hidden_in_tray,
        look.tray ==> after_all(look, ops).tray,
    decreases ops.len(),
{
    if ops.len() > 0 {
        lemma_keeps_tray(look, ops.drop_last());
        assert(ops.last() == ops[ops.len() - 1]);
    }
}

// ---------------------------------------------------------------------------
// The position
// ---------------------------------------------------------------------------

/// Where the window is when it is neither maximized nor full screen, and whether it is.
/// `T` stands for a coordinate.
pub struct WindowPosition<T> {
    pub x: Option<T>,
    pub y: Option<T>,
    pub width: Option<T>,
    pub height: Option<T>,
    pub maximized: bool,
    pub full_screen: bool,
}

/// What the user interface was told last.
#[derive(Clone, Copy, Debug, PartialEq, Eq, Structural)]
pub struct WindowFlags {
    pub minimized: bool,
    pub maximized: bool,
    pub fullscreen: bool,
}

impl WindowFlags {
    /// What goes without saying for a window at a position.
    pub fn of(maximized: bool, full_screen: bool) -> (r: WindowFlags)
        ensures
            r == (WindowFlags { minimized: false, maximized, fullscreen: full_screen }),
    {
        WindowFlags { minimized: false, maximized, fullscreen: full_screen }
    }
}

/// What the user interface is told of the window.
#[derive(Clone, Copy, Debug, PartialEq, Eq, Structural)]
pub enum WindowEvent {
    Minimize,
    Maximize,
    Unmaximize,
    EnterFullScreen,
    LeaveFullScreen,
    Focus,
    Blur,
    BeforeQuit,
}

impl WindowEvent {
    /// The name of the event.
    pub open spec fn name_text(self) -> Seq<char> {
        match self {
            WindowEvent::Minimize => "launcher-minimize"@,
            WindowEvent::Maximize => "launcher-maximize"@,
            WindowEvent::Unmaximize => "launcher-unmaximize"@,
            WindowEvent::EnterFullScreen => "enter-full-screen"@,
            WindowEvent::LeaveFullScreen => "leave-full-screen"@,
            WindowEvent::Focus => "main-window-focus"@,
            WindowEvent::Blur => "main-window-blur"@,
            WindowEvent::BeforeQuit => "launcher-before-quit"@,
        }
    }

    /// The name of the event.
    pub fn name(self) -> (r: &'static str)
        ensures
            r@ == self.name_text(),
    {
        match self {
            WindowEvent::Minimize => "launcher-minimize",
            WindowEvent::Maximize => "launcher-maximize",
            WindowEvent::Unmaximize => "launcher-unmaximize",
            WindowEvent::EnterFullScreen => "enter-full-screen",
            WindowEvent::LeaveFullScreen => "leave-full-screen",
            WindowEvent::Focus => "main-window-focus",
            WindowEvent::Blur => "main-window-blur",
            WindowEvent::BeforeQuit => "launcher-before-quit",
        }
    }
}

/// The events for a window that has changed. A minimized window counts as what it was
/// before.
pub open spec fn change_events(before: WindowFlags, now: WindowFlags) -> Seq<WindowEvent> {
    if now.minimized {
        if before.minimized {
            Seq::empty()
        } else {
            seq![WindowEvent::Minimize]
        }
    } else {
        (if now.maximized == before.maximized {
            Seq::empty()
        } else if now.maximized {
            seq![WindowEvent::Maximize]
        } else {
            seq![WindowEvent::Unmaximize]
        }) + if now.fullscreen == before.fullscreen {
            Seq::empty()
        } else if now.fullscreen {
            seq![WindowEvent::EnterFullScreen]
        } else {
            seq![WindowEvent::LeaveFullScreen]
        }
    }
}

/// What the user interface was told last, after these events.
pub open spec fn flags_after(before: WindowFlags, now: WindowFlags) -> WindowFlags {
    if now.minimized {
        WindowFlags { minimized: true, ..before }
    } else {
        now
    }
}

/// Whether the place of the window is worth noting: not of one that covers the screen or
/// cannot be seen.
pub open spec fn is_placed(now: WindowFlags) -> bool {
    !now.maximized && !now.fullscreen && !now.minimized
}

/// Whether the place of the window is worth noting.
pub fn place_matters(now: WindowFlags) -> (r: bool)
    ensures
        r == is_placed(now),
{
    !now.maximized && !now.fullscreen && !now.minimized
}

/// The place of a window.
pub struct Bounds<T> {
    pub x: T,
    pub y: T,
    pub width: T,
    pub height: T,
}

/// Takes note of how the window is, and of where it is if that is worth noting. Returns
/// what to tell the user interface.
pub fn update_position<T>(
    position: &mut WindowPosition<T>,
    flags: &mut WindowFlags,
    now: WindowFlags,
    bounds: Option<Bounds<T>>,
) -> (r: Vec<WindowEvent>)
    ensures
        match bounds {
            Some(place) if is_placed(now) => {
                &&& final(position).x == Some(place.x)
                &&& final(position).y == Some(place.y)
                &&& final(position).width == Some(place.width)
                &&& final(position).height == Some(place.height)
            },
            _ => {
                &&& final(position).x == old(position).x
                &&& final(position).y == old(position).y
                &&& final(position).width == old(position).width
                &&& final(position).height == old(position).height
            },
        },
        final(position).maximized == if now.minimized {
            old(position).maximized
        } else {
            now.maximized
        },
        final(position).full_screen == if now.minimized {
            old(position).full_screen
        } else {
            now.fullscreen
        },
        *final(flags) == flags_after(*old(flags), now),
        r@ == change_events(*old(flags), now),
{
    if place_matters(now) {
        if let Some(place) = bounds {
            position.x = Some(place.x);
            position.y = Some(place.y);
            position.width = Some(place.width);
            position.height = Some(place.height);
        }
    }
    let mut events: Vec<WindowEvent> = Vec::new();
    if now.minimized {
        if !flags.minimized {
            events.push(WindowEvent::Minimize);
        }
    } else {
        position.maximized = now.maximized;
        position.full_screen = now.fullscreen;
        if now.maximized != flags.maximized {
            if now.maximized {
                events.push(WindowEvent::Maximize);
            } else {
                events.push(WindowEvent::Unmaximize);
            }
            flags.maximized = now.maximized;
        }
        if now.fullscreen != flags.fullscreen {
            if now.fullscreen {
                events.push(WindowEvent::EnterFullScreen);
            } else {
                events.push(WindowEvent::LeaveFullScreen);
            }
            flags.fullscreen = now.fullscreen;
        }
    }
    flags.minimized = now.minimized;
    assert(events@ =~= change_events(*old(flags), now));
    events
}

/// A window that does not change is not told of again.
pub proof fn law_no_change_no_event(before: WindowFlags, now: WindowFlags)
    ensures
        change_events(flags_after(before, now), now).len() == 0,
        flags_after(flags_after(before, now), now) == flags_after(before, now),
{
}

/// Minimizing a window and restoring it tells nothing but that it was minimized.
pub proof fn law_minimize_and_restore(flags: WindowFlags)
    requires
        !flags.minimized,
    ensures
        change_events(flags, WindowFlags { minimized: true, ..flags }) == seq![
            WindowEvent::Minimize,
        ],
        change_events(
            flags_after(flags, WindowFlags { minimized: true, ..flags }),
            flags,
        ).len() == 0,
        flags_after(flags_after(flags, WindowFlags { minimized: true, ..flags }), flags) == flags,
{
}

/// What came of reading the file with the position.
pub enum PositionFile {
    Text(String),
    Missing,
    Failed(String),
}

/// The text with the position to begin with, if there is one.
pub fn saved_position(file: PositionFile) -> (r: Result<Option<String>, String>)
    ensures
        match file {
            PositionFile::Text(text) => r == Ok::<Option<String>, String>(Some(text)),
            PositionFile::Missing => r == Ok::<Option<String>, String>(None),
            PositionFile::Failed(message) => r == Err::<Option<String>, String>(message),
        },
{
    match file {
        PositionFile::Text(text) => Ok(Some(text)),
        PositionFile::Missing => Ok(None),
        PositionFile::Failed(message) => Err(message),
    }
}

// ---------------------------------------------------------------------------
// Saving
// ---------------------------------------------------------------------------

/// What happens to the thread that saves the position.
#[derive(Clone, Copy, Debug, PartialEq, Eq, Structural)]
pub enum SaverEvent {
    /// The window has changed.
    Changed,
    /// The window has rested for the delay.
    Rested,
    /// Nobody will change the window any more.
    Closed,
}

/// What the thread that saves the position waits for.
#[derive(Clone, Copy, Debug, PartialEq, Eq, Structural)]
pub enum Saver {
    /// For a change.
    Idle,
    /// For the window to rest.
    Pending,
    /// For nothing.
    Ended,
}

impl Saver {
    /// What it waits for after an event.
    pub open spec fn next(self, event: SaverEvent) -> Saver {
        match (self, event) {
            (Saver::Ended, _) | (_, SaverEvent::Closed) => Saver::Ended,
            (_, SaverEvent::Changed) => Saver::Pending,
            (_, SaverEvent::Rested) => Saver::Idle,
        }
    }

    /// Whether it saves the position at an event.
    pub open spec fn saves(self, event: SaverEvent) -> bool {
        self is Pending && event is Rested
    }

    /// Takes an event, and tells whether to save the position.
    pub fn step(&mut self, event: SaverEvent) -> (r: bool)
        ensures
            *final(self) == old(self).next(event),
            r == old(self).saves(event),
    {
        let save = match (*self, event) {
            (Saver::Pending, SaverEvent::Rested) => true,
            _ => false,
        };
        *self =
        match (*self, event) {
            (Saver::Ended, _) => Saver::Ended,
            (_, SaverEvent::Closed) => Saver::Ended,
            (_, SaverEvent::Changed) => Saver::Pending,
            (_, SaverEvent::Rested) => Saver::Idle,
        };
        save
    }
}

/// What it waits for after some events.
pub open spec fn saver_after(saver: Saver, events: Seq<SaverEvent>) -> Saver
    decreases events.len(),
{
    if events.len() == 0 {
        saver
    } else {
        saver_after(saver, events.drop_last()).next(events.last())
    }
}

/// How often it saves during some events.
pub open spec fn save_count(saver: Saver, events: Seq<SaverEvent>) -> nat
    decreases events.len(),
{
    if events.len() == 0 {
        0
    } else {
        save_count(saver, events.drop_last()) + if saver_after(saver, events.drop_last()).saves(
            events.last(),
        ) {
            1nat
        } else {
            0nat
        }
    }
}

/// A burst of changes is saved once, when the window rests.
pub proof fn law_burst_is_saved_once(changes: Seq<SaverEvent>)
    requires
        changes.len() > 0,
        forall|i: int| 0 <= i < changes.len() ==> (#[trigger] changes[i]) is Changed,
    ensures
        save_count(Saver::Idle, changes.push(SaverEvent::Rested)) == 1,
        saver_after(Saver::Idle, changes.push(SaverEvent::Rested)) is Idle,
{
    lemma_burst(changes);
    assert(changes.push(SaverEvent::Rested).drop_last() =~= changes);
}

proof fn lemma_burst(changes: Seq<SaverEvent>)
    requires
        forall|i: int| 0 <= i < changes.len() ==> (#[trigger] changes[i]) is Changed,
    ensures
        save_count(Saver::Idle, changes) == 0,
        changes.len() > 0 ==> saver_after(Saver::Idle, changes) is Pending,
        changes.len() == 0 ==> saver_after(Saver::Idle, changes) is Idle,
    decreases changes.len(),
{
    if changes.len() > 0 {
        lemma_burst(changes.drop_last());
        assert(changes.last() == changes[changes.len() - 1]);
    }
}

// ---------------------------------------------------------------------------
// Events of the window
// ---------------------------------------------------------------------------

/// What happens to the window.
#[derive(Clone, Copy, Debug, PartialEq, Eq, Structural)]
pub enum WindowChange {
    Focused(bool),
    /// It was moved or resized, or its scale has changed.
    Placed,
    CloseRequested,
    Other,
}

/// What to do about it.
#[derive(Clone, Copy, Debug, PartialEq, Eq, Structural)]
pub enum WindowStep {
    Tell(WindowEvent),
    /// Take note of how the window is; failures are logged or not.
    UpdatePosition { logged: bool },
    /// Wake the thread that saves the position.
    SignalSaver,
    /// Save the position; failures are logged.
    SavePosition,
    /// Do not close the window.
    PreventClose,
    /// Send the window to the tray; failures are logged.
    MinimizeToTray,
}

/// What to do about a change of the main window.
pub open spec fn change_steps(change: WindowChange, shell: Shell) -> Seq<WindowStep> {
    match change {
        WindowChange::Focused(focused) => seq![
            WindowStep::Tell(
                if focused {
                    WindowEvent::Focus
                } else {
                    WindowEvent::Blur
                },
            ),
            WindowStep::UpdatePosition { logged: false },
        ],
        WindowChange::Placed => seq![
            WindowStep::UpdatePosition { logged: true },
            WindowStep::SignalSaver,
        ],
        WindowChange::CloseRequested => if shell.hook_before_quit && !shell.exit_requested {
            seq![
                WindowStep::SavePosition,
                WindowStep::PreventClose,
                WindowStep::Tell(WindowEvent::BeforeQuit),
            ]
        } else if !shell.exit_requested && shell.tray {
            seq![WindowStep::SavePosition, WindowStep::PreventClose, WindowStep::MinimizeToTray]
        } else {
            seq![WindowStep::SavePosition]
        },
        WindowChange::Other => Seq::empty(),
    }
}

/// What to do about a change of a window. Only the main window matters, and only once
/// it has been set up.
pub fn on_window_event(label: &str, set_up: bool, change: WindowChange, shell: &Shell) -> (r: Vec<
    WindowStep,
>)
    ensures
        r@ == if label@ == "main"@ && set_up {
            change_steps(change, *shell)
        } else {
            Seq::empty()
        },
{
    let mut steps: Vec<WindowStep> = Vec::new();
    if !text::same_text(label, "main") || !set_up {
        return steps;
    }
    match change {
        WindowChange::Focused(focused) => {
            steps.push(
                WindowStep::Tell(
                    if focused {
                        WindowEvent::Focus
                    } else {
                        WindowEvent::Blur
                    },
                ),
            );
            steps.push(WindowStep::UpdatePosition { logged: false });
        },
        WindowChange::Placed => {
            steps.push(WindowStep::UpdatePosition { logged: true });
            steps.push(WindowStep::SignalSaver);
        },
        WindowChange::CloseRequested => {
            steps.push(WindowStep::SavePosition);
            if shell.hook_before_quit && !shell.exit_requested {
                steps.push(WindowStep::PreventClose);
                steps.push(WindowStep::Tell(WindowEvent::BeforeQuit));
            } else if !shell.exit_requested && shell.tray {
                steps.push(WindowStep::PreventClose);
                steps.push(WindowStep::MinimizeToTray);
            }
        },
        WindowChange::Other => {},
    }
    assert(steps@ =~= change_steps(change, *shell));
    steps
}

/// A window that is closed is saved first, and it closes only if nobody wants to be
/// asked and there is no icon in the tray, or if it has been decided that the program
/// ends.
pub proof fn law_close(shell: Shell)
    ensures
        change_steps(WindowChange::CloseRequested, shell)[0] is SavePosition,
        change_steps(WindowChange::CloseRequested, shell).contains(WindowStep::PreventClose) <==> (
        shell.hook_before_quit || shell.tray) && !shell.exit_requested,
{
    let steps = change_steps(WindowChange::CloseRequested, shell);
    if (shell.hook_before_quit || shell.tray) && !shell.exit_requested {
        assert(steps[1] is PreventClose);
    }
}

// ---------------------------------------------------------------------------
// The monitor
// ---------------------------------------------------------------------------

/// A rectangle on the screen, in pixels.
#[derive(Clone, Copy, Debug, PartialEq, Eq, Structural)]
pub struct Area {
    pub x: i32,
    pub y: i32,
    pub width: u32,
    pub height: u32,
}

/// A size in pixels.
#[derive(Clone, Copy, Debug, PartialEq, Eq, Structural)]
pub struct Size {
    pub width: u32,
    pub height: u32,
}

/// Where a window goes that cannot be seen: its size without its frame, and its corner.
#[derive(Clone, Copy, Debug, PartialEq, Eq, Structural)]
pub struct Placement {
    pub width: u32,
    pub height: u32,
    pub x: i32,
    pub y: i32,
}

/// The smaller of two numbers.
pub open spec fn least(a: u32, b: u32) -> u32 {
    if a <= b {
        a
    } else {
        b
    }
}

/// What is left of a number, or zero.
pub open spec fn less(a: u32, b: u32) -> u32 {
    if a >= b {
        (a - b) as u32
    } else {
        0
    }
}

fn smaller(a: u32, b: u32) -> (r: u32)
    ensures
        r == least(a, b),
{
    if a <= b {
        a
    } else {
        b
    }
}

/// Where a window goes that cannot be seen: to the middle of the area, no larger than a
/// limit. `outer` is its size with its frame, and `inner` without.
pub open spec fn centered(area: Area, limit: Size, outer: Size, inner: Size) -> Placement {
    let width = least(outer.width, limit.width);
    let height = least(outer.height, limit.height);
    Placement {
        width: less(width, less(outer.width, inner.width)),
        height: less(height, less(outer.height, inner.height)),
        x: (area.x + (area.width - width) / 2) as i32,
        y: (area.y + (area.height - height) / 2) as i32,
    }
}

/// Areas with room for the window, in which its corner has coordinates.
pub open spec fn has_room(area: Area, limit: Size, outer: Size) -> bool {
    let width = least(outer.width, limit.width);
    let height = least(outer.height, limit.height);
    &&& width <= area.width
    &&& height <= area.height
    &&& area.x + (area.width - width) / 2 <= i32::MAX
    &&& area.y + (area.height - height) / 2 <= i32::MAX
}

/// Where a window goes that cannot be seen.
pub fn coerce_to_monitor(area: Area, limit: Size, outer: Size, inner: Size) -> (r: Placement)
    requires
        has_room(area, limit, outer),
    ensures
        r == centered(area, limit, outer, inner),
{
    let width: u32 = smaller(outer.width, limit.width);
    let height: u32 = smaller(outer.height, limit.height);
    Placement {
        width: width.saturating_sub(outer.width.saturating_sub(inner.width)),
        height: height.saturating_sub(outer.height.saturating_sub(inner.height)),
        x: area.x + ((area.width - width) / 2) as i32,
        y: area.y + ((area.height - height) / 2) as i32,
    }
}

/// A window that was moved to where it can be seen lies in the area, with its frame.
pub proof fn law_window_lies_in_the_area(area: Area, limit: Size, outer: Size, inner: Size)
    requires
        has_room(area, limit, outer),
    ensures
        ({
            let place = centered(area, limit, outer, inner);
            let width = least(outer.width, limit.width);
            let height = least(outer.height, limit.height);
            &&& area.x <= place.x
            &&& place.x + width <= area.x + area.width
            &&& area.y <= place.y
            &&& place.y + height <= area.y + area.height
            &&& place.width <= width
            &&& place.height <= height
        }),
{
}

// ---------------------------------------------------------------------------
// What the operations do
// ---------------------------------------------------------------------------

/// Each label is looked up under its own name and has its own text to fall back on.
pub proof fn law_labels(label: MenuLabel, values: &[u8], r: String)
    requires
        call_ensures(apply_menu, (label, values), r),
    ensures
        ({
            let shown = |name: Seq<char>, fallback: Seq<char>|
                r@ == label_text(json::as_text(json::member_of(values@, name)), fallback);
            &&& label is About ==> shown("sysMenuAboutKeeWeb"@, "About KeeWeb"@)
            &&& label is Services ==> shown("sysMenuServices"@, "Services"@)
            &&& label is Hide ==> shown("sysMenuHide"@, "Hide KeeWeb"@)
            &&& label is HideOthers ==> shown("sysMenuHideOthers"@, "Hide Others"@)
            &&& label is ShowAll ==> shown("sysMenuUnhide"@, "Show All"@)
            &&& label is Quit ==> shown("sysMenuQuit"@, "Quit KeeWeb"@)
            &&& label is Edit ==> shown("sysMenuEdit"@, "Edit"@)
            &&& label is Undo ==> shown("sysMenuUndo"@, "Undo"@)
            &&& label is Redo ==> shown("sysMenuRedo"@, "Redo"@)
            &&& label is Cut ==> shown("sysMenuCut"@, "Cut"@)
            &&& label is Copy ==> shown("sysMenuCopy"@, "Copy"@)
            &&& label is Paste ==> shown("sysMenuPaste"@, "Paste"@)
            &&& label is SelectAll ==> shown("sysMenuSelectAll"@, "Select All"@)
            &&& label is Window ==> shown("sysMenuWindow"@, "Window"@)
            &&& label is Minimize ==> shown("sysMenuMinimize"@, "Minimize"@)
            &&& label is Close ==> shown("sysMenuClose"@, "Close"@)
        }),
{
}

/// A label that is given prevails over the one to fall back on. Wherever it holds a pair of
/// braces, the name of the application stands instead, and nothing else is changed.
pub proof fn law_label_names_the_application(given: Option<String>, fallback: &str, r: String)
    requires
        call_ensures(menu_text, (given, fallback), r),
    ensures
        text::is_replacement(
            match given {
                Some(label) => label@,
                None => fallback@,
            },
            "{}"@,
            "KeeWeb"@,
            r@,
        ),
{
    reveal_strlit("{}");
    text::law_replacing(
        match given {
            Some(label) => label@,
            None => fallback@,
        },
        "{}"@,
        "KeeWeb"@,
    );
}

/// The two themes of a pair, dark and light.
pub open spec fn is_theme_pair(dark: Seq<char>, light: Seq<char>) -> bool {
    ||| dark == "dark"@ && light == "light"@
    ||| dark == "sd"@ && light == "sl"@
    ||| dark == "fb"@ && light == "bl"@
    ||| dark == "db"@ && light == "lb"@
    ||| dark == "te"@ && light == "lt"@
    ||| dark == "dc"@ && light == "hc"@
}

/// The names of the themes, by what tells them apart.
proof fn lemma_theme_names()
    ensures
        "dark"@.len() == 4,
        "light"@.len() == 5,
        "sd"@.len() == 2 && "sd"@[0] == 's' && "sd"@[1] == 'd',
        "sl"@.len() == 2 && "sl"@[0] == 's' && "sl"@[1] == 'l',
        "fb"@.len() == 2 && "fb"@[0] == 'f' && "fb"@[1] == 'b',
        "bl"@.len() == 2 && "bl"@[0] == 'b' && "bl"@[1] == 'l',
        "db"@.len() == 2 && "db"@[0] == 'd' && "db"@[1] == 'b',
        "lb"@.len() == 2 && "lb"@[0] == 'l' && "lb"@[1] == 'b',
        "te"@.len() == 2 && "te"@[0] == 't' && "te"@[1] == 'e',
        "lt"@.len() == 2 && "lt"@[0] == 'l' && "lt"@[1] == 't',
        "dc"@.len() == 2 && "dc"@[0] == 'd' && "dc"@[1] == 'c',
        "hc"@.len() == 2 && "hc"@[0] == 'h' && "hc"@[1] == 'c',
        "macdark"@.len() == 7,
        "wh"@.len() == 2 && "wh"@[0] == 'w' && "wh"@[1] == 'h',
{
    reveal_strlit("dark");
    reveal_strlit("light");
    reveal_strlit("sd");
    reveal_strlit("sl");
    reveal_strlit("fb");
    reveal_strlit("bl");
    reveal_strlit("db");
    reveal_strlit("lb");
    reveal_strlit("te");
    reveal_strlit("lt");
    reveal_strlit("dc");
    reveal_strlit("hc");
    reveal_strlit("macdark");
    reveal_strlit("wh");
}

/// A theme that follows the system has the color of the member of its pair that goes with
/// the system, whichever of the two was chosen.
pub proof fn law_theme_follows_the_system(
    dark_theme: Seq<char>,
    light_theme: Seq<char>,
    chosen: String,
    shown: String,
    dark: bool,
    r: (u8, u8, u8, u8),
    fixed: (u8, u8, u8, u8),
)
    requires
        is_theme_pair(dark_theme, light_theme),
        chosen@ == dark_theme || chosen@ == light_theme,
        shown@ == if dark {
            dark_theme
        } else {
            light_theme
        },
        call_ensures(theme_color, (Some(chosen), true, dark), r),
        call_ensures(theme_color, (Some(shown), false, dark), fixed),
    ensures
        r == fixed,
{
    lemma_theme_names();
    reveal_with_fuel(switched_among, 7);
}

/// Without a choice the theme is the dark one, and two further names mean the dark and the
/// light one; whether a theme is fixed or not.
pub proof fn law_theme_names(
    theme: String,
    alias: String,
    auto: bool,
    dark: bool,
    r: (u8, u8, u8, u8),
    q: (u8, u8, u8, u8),
)
    requires
        theme@ == "dark"@ && alias@ == "macdark"@ || theme@ == "light"@ && alias@ == "wh"@,
        call_ensures(theme_color, (Some(theme), auto, dark), r),
        call_ensures(theme_color, (Some(alias), auto, dark), q) || theme@ == "dark"@
            && call_ensures(theme_color, (None, auto, dark), q),
    ensures
        r == q,
{
    lemma_theme_names();
}

/// The colors of the themes. All are opaque, and a theme that is not among them has the
/// color of none of them.
pub proof fn law_theme_colors(theme: String, dark: bool, r: (u8, u8, u8, u8))
    requires
        call_ensures(theme_color, (Some(theme), false, dark), r),
    ensures
        r.3 == 255,
        theme@ == "dark"@ || theme@ == "macdark"@ <==> r == (0x1eu8, 0x1eu8, 0x1eu8, 255u8),
        theme@ == "light"@ || theme@ == "wh"@ <==> r == (0xf6u8, 0xf6u8, 0xf6u8, 255u8),
        theme@ == "db"@ <==> r == (0x34u8, 0x2fu8, 0x2eu8, 255u8),
        theme@ == "hc"@ <==> r == (0xfau8, 0xfau8, 0xfau8, 255u8),
        theme@ == "te"@ <==> r == (0x22u8, 0x22u8, 0x22u8, 255u8),
        theme@ == "sd"@ <==> r == (0x00u8, 0x2bu8, 0x36u8, 255u8),
        theme@ == "sl"@ <==> r == (0xfdu8, 0xf6u8, 0xe3u8, 255u8),
        theme@ == "fb"@ ==> r == (0x28u8, 0x2cu8, 0x34u8, 255u8),
{
    lemma_theme_names();
}

/// A style hides the title bar under one of three names, and only on two platforms: macOS
/// puts it over the contents, Windows leaves it away.
pub proof fn law_title_bar(platform: Platform, style: Option<String>, r: TitleBar)
    requires
        call_ensures(title_bar_style, (platform, style), r),
    ensures
        r is Overlay <==> platform is MacOs && style is Some && (style->Some_0@ == "hidden"@
            || style->Some_0@ == "hidden-inset"@ || style->Some_0@ == "hiddenInset"@),
        r is Undecorated <==> platform is Windows && style is Some && (style->Some_0@ == "hidden"@
            || style->Some_0@ == "hidden-inset"@ || style->Some_0@ == "hiddenInset"@),
{
}

/// `a` stands before `b`.
pub open spec fn precedes(ops: Seq<WindowOp>, a: WindowOp, b: WindowOp) -> bool {
    exists|i: int, j: int| 0 <= i < j < ops.len() && #[trigger] ops[i] == a && #[trigger] ops[j] == b
}

proof fn lemma_precedes(ops: Seq<WindowOp>, i: int, j: int)
    requires
        0 <= i < j < ops.len(),
    ensures
        precedes(ops, ops[i], ops[j]),
{
}

proof fn lemma_contains(a: Seq<WindowOp>, b: Seq<WindowOp>, op: WindowOp)
    ensures
        (a + b).contains(op) <==> a.contains(op) || b.contains(op),
{
    if a.contains(op) {
        let i = choose|i: int| 0 <= i < a.len() && a[i] == op;
        assert((a + b)[i] == op);
    }
    if b.contains(op) {
        let i = choose|i: int| 0 <= i < b.len() && b[i] == op;
        assert((a + b)[a.len() + i] == op);
    }
}

proof fn lemma_op_if(condition: bool, op: WindowOp, other: WindowOp)
    ensures
        op_if(condition, op).contains(other) <==> condition && other == op,
{
    if condition {
        assert(op_if(condition, op)[0] == op);
    }
}

/// Which operations there are at startup.
proof fn lemma_setup_contains(options: SetupOptions, op: WindowOp)
    ensures
        setup_ops(options).contains(op) <==> {
            ||| op is CoerceToMonitor
            ||| op is Maximize && options.maximized
            ||| op is Fullscreen && options.full_screen
            ||| op is StartSaver
            ||| (op is MinimizeToTray || op is TellStartedMinimized) && options.start_minimized
            ||| (op is Show || op is Focus) && !options.start_minimized
            ||| op is KeepVisible && !options.start_minimized && options.debug && options.smoke
            ||| op is OpenDevtools && options.devtools
        },
{
    let p1 = seq![WindowOp::CoerceToMonitor];
    let p2 = op_if(options.maximized, WindowOp::Maximize);
    let p3 = op_if(options.full_screen, WindowOp::Fullscreen);
    let p4 = seq![WindowOp::StartSaver];
    let keep = op_if(options.debug && options.smoke, WindowOp::KeepVisible);
    let tray = seq![WindowOp::MinimizeToTray, WindowOp::TellStartedMinimized];
    let show = seq![WindowOp::Show, WindowOp::Focus];
    let p5 = if options.start_minimized {
        tray
    } else {
        show + keep
    };
    let p6 = op_if(options.devtools, WindowOp::OpenDevtools);
    assert(setup_ops(options) =~= p1 + p2 + p3 + p4 + p5 + p6);
    lemma_contains(p1, p2, op);
    lemma_contains(p1 + p2, p3, op);
    lemma_contains(p1 + p2 + p3, p4, op);
    lemma_contains(p1 + p2 + p3 + p4, p5, op);
    lemma_contains(p1 + p2 + p3 + p4 + p5, p6, op);
    lemma_contains(show, keep, op);
    lemma_op_if(options.maximized, WindowOp::Maximize, op);
    lemma_op_if(options.full_screen, WindowOp::Fullscreen, op);
    lemma_op_if(options.debug && options.smoke, WindowOp::KeepVisible, op);
    lemma_op_if(options.devtools, WindowOp::OpenDevtools, op);
    assert(p1[0] == WindowOp::CoerceToMonitor);
    assert(p4[0] == WindowOp::StartSaver);
    assert(tray[0] == WindowOp::MinimizeToTray && tray[1] == WindowOp::TellStartedMinimized);
    assert(show[0] == WindowOp::Show && show[1] == WindowOp::Focus);
}

/// At startup the window is brought to the monitor first. It is shown, or goes to the tray
/// if that is asked for, never both; it is maximized or fills the screen if it did so when
/// it was left.
pub proof fn law_setup(options: SetupOptions, r: Vec<WindowOp>)
    requires
        call_ensures(setup, (options,), r),
    ensures
        r@[0] is CoerceToMonitor,
        r@.contains(WindowOp::Maximize) <==> options.maximized,
        r@.contains(WindowOp::Fullscreen) <==> options.full_screen,
        r@.contains(WindowOp::StartSaver),
        r@.contains(WindowOp::Show) <==> !options.start_minimized,
        r@.contains(WindowOp::Focus) <==> !options.start_minimized,
        r@.contains(WindowOp::MinimizeToTray) <==> options.start_minimized,
        r@.contains(WindowOp::TellStartedMinimized) <==> options.start_minimized,
        r@.contains(WindowOp::KeepVisible) <==> !options.start_minimized && options.debug
            && options.smoke,
        r@.contains(WindowOp::OpenDevtools) <==> options.devtools,
{
    lemma_setup_contains(options, WindowOp::Maximize);
    lemma_setup_contains(options, WindowOp::Fullscreen);
    lemma_setup_contains(options, WindowOp::StartSaver);
    lemma_setup_contains(options, WindowOp::Show);
    lemma_setup_contains(options, WindowOp::Focus);
    lemma_setup_contains(options, WindowOp::MinimizeToTray);
    lemma_setup_contains(options, WindowOp::TellStartedMinimized);
    lemma_setup_contains(options, WindowOp::KeepVisible);
    lemma_setup_contains(options, WindowOp::OpenDevtools);
}

/// The place of the window is watched before it appears, and after it has the size that it
/// starts with. It gets the focus once it is shown.
pub proof fn law_setup_order(options: SetupOptions, r: Vec<WindowOp>)
    requires
        call_ensures(setup, (options,), r),
    ensures
        options.maximized ==> precedes(r@, WindowOp::Maximize, WindowOp::StartSaver),
        options.full_screen ==> precedes(r@, WindowOp::Fullscreen, WindowOp::StartSaver),
        options.start_minimized ==> precedes(r@, WindowOp::StartSaver, WindowOp::MinimizeToTray),
        options.start_minimized ==> precedes(
            r@,
            WindowOp::MinimizeToTray,
            WindowOp::TellStartedMinimized,
        ),
        !options.start_minimized ==> precedes(r@, WindowOp::StartSaver, WindowOp::Show),
        !options.start_minimized ==> precedes(r@, WindowOp::Show, WindowOp::Focus),
{
    let ops = r@;
    let m: int = if options.maximized {
        1
    } else {
        0
    };
    let s: int = 1 + m + if options.full_screen {
        1int
    } else {
        0int
    };
    assert(ops[s] == WindowOp::StartSaver);
    if options.maximized {
        assert(ops[1] == WindowOp::Maximize);
        lemma_precedes(ops, 1, s);
    }
    if options.full_screen {
        assert(ops[1 + m] == WindowOp::Fullscreen);
        lemma_precedes(ops, 1 + m, s);
    }
    if options.start_minimized {
        assert(ops[s + 1] == WindowOp::MinimizeToTray);
        assert(ops[s + 2] == WindowOp::TellStartedMinimized);
    } else {
        assert(ops[s + 1] == WindowOp::Show);
        assert(ops[s + 2] == WindowOp::Focus);
    }
    lemma_precedes(ops, s, s + 1);
    lemma_precedes(ops, s + 1, s + 2);
}

/// Going to the tray hides the window behind an icon, which is there before the window is
/// gone; its place is saved before all else. On Windows it is minimized as well, and it
/// leaves the Dock or the taskbar.
pub proof fn law_to_the_tray(platform: Platform, look: Appearance, r: Vec<WindowOp>)
    requires
        call_ensures(minimize_app, (platform, look.tray), r),
    ensures
        after_all(look, r@) == (Appearance {
            visible: false,
            tray: true,
            hidden_in_tray: true,
            minimized: look.minimized || platform is Windows,
            in_taskbar: look.in_taskbar && platform is MacOs,
            in_dock: look.in_dock && !(platform is MacOs),
        }),
        r@[0] is SavePosition,
        r@.contains(WindowOp::CreateTray) <==> !look.tray,
        !look.tray ==> precedes(r@, WindowOp::CreateTray, WindowOp::Hide),
{
    lemma_minimized(platform, look);
    let w: int = if platform is Windows {
        1
    } else {
        0
    };
    if !look.tray {
        assert(r@[1] == WindowOp::CreateTray);
        assert(r@[2 + w] == WindowOp::Hide);
        lemma_precedes(r@, 1, 2 + w);
    }
}

/// Showing the window undoes whatever hid it, drops the icon and gives it the focus once it
/// is shown and on the monitor; it is maximized if it was.
pub proof fn law_shown_again(platform: Platform, maximized: bool, look: Appearance, r: Vec<WindowOp>)
    requires
        call_ensures(show_main_window, (platform, maximized, look.tray), r),
    ensures
        after_all(look, r@) == (Appearance {
            visible: true,
            tray: false,
            hidden_in_tray: false,
            minimized: false,
            in_taskbar: look.in_taskbar || !(platform is MacOs),
            in_dock: look.in_dock || platform is MacOs,
        }),
        r@.contains(WindowOp::Maximize) <==> maximized,
        r@.contains(WindowOp::ShowApp) <==> platform is MacOs,
        precedes(r@, WindowOp::Show, WindowOp::CoerceToMonitor),
        precedes(r@, WindowOp::CoerceToMonitor, WindowOp::Focus),
{
    lemma_shown(platform, maximized, look);
    let s: int = if platform is MacOs {
        2
    } else {
        1
    };
    let m: int = if maximized {
        1
    } else {
        0
    };
    if platform is MacOs {
        assert(r@[1] == WindowOp::ShowApp);
    }
    if maximized {
        assert(r@[s + 3] == WindowOp::Maximize);
    }
    assert(r@[s] == WindowOp::Show);
    assert(r@[s + 2] == WindowOp::CoerceToMonitor);
    assert(r@[s + 3 + m] == WindowOp::Focus);
    lemma_precedes(r@, s, s + 2);
    lemma_precedes(r@, s + 2, s + 3 + m);
}

/// Minimizing hides the window only if there is an icon to bring it back.
pub proof fn law_minimized_and_hidden(tray: bool, look: Appearance, r: Vec<WindowOp>)
    requires
        call_ensures(minimize_then_hide_if_in_tray, (tray,), r),
    ensures
        after_all(look, r@) == (Appearance {
            minimized: true,
            visible: look.visible && !tray,
            hidden_in_tray: look.hidden_in_tray || tray,
            ..look
        }),
        r@[0] is SavePosition,
        r@.last() is UpdatePosition,
{
    let ops = r@;
    let none = Seq::<WindowOp>::empty();
    let a = none.push(WindowOp::SavePosition);
    let b = a.push(WindowOp::Minimize);
    lemma_after_all(look, none, WindowOp::SavePosition);
    lemma_after_all(look, a, WindowOp::Minimize);
    if tray {
        let c = b.push(WindowOp::Hide);
        let d = c.push(WindowOp::HiddenInTray(true));
        lemma_after_all(look, b, WindowOp::Hide);
        lemma_after_all(look, c, WindowOp::HiddenInTray(true));
        lemma_after_all(look, d, WindowOp::UpdatePosition);
        assert(ops =~= d.push(WindowOp::UpdatePosition));
    } else {
        lemma_after_all(look, b, WindowOp::UpdatePosition);
        assert(ops =~= b.push(WindowOp::UpdatePosition));
    }
}

/// Hiding the application does what minimizing does, except on macOS, which can hide an
/// application as a whole.
pub proof fn law_hide_is_minimize(platform: Platform, tray: bool, r: Vec<WindowOp>, q: Vec<WindowOp>)
    requires
        call_ensures(hide_app, (platform, tray), r),
        call_ensures(minimize_then_hide_if_in_tray, (tray,), q),
    ensures
        !(platform is MacOs) ==> r@ == q@,
        platform is MacOs ==> r@ == seq![WindowOp::HideApp],
{
}

/// Quitting saves the place of the window before anything else, and leaves at the end, once
/// that is on record as decided.
pub proof fn law_quit(r: Vec<WindowOp>)
    requires
        call_ensures(quit_app, (), r),
    ensures
        r@.len() == 3,
        r@[0] is SavePosition,
        r@[1] is RequestExit,
        r@[2] is Exit,
{
}

/// What is told of a change: minimizing if the window was not minimized, and of a window
/// that is not minimized each of the other two ways in which it changed, once. A minimized
/// window keeps what was known of the other two.
pub proof fn law_changes_are_told(before: WindowFlags, now: WindowFlags)
    ensures
        ({
            let told = change_events(before, now);
            let known = flags_after(before, now);
            &&& told.no_duplicates()
            &&& told.contains(WindowEvent::Minimize) <==> now.minimized && !before.minimized
            &&& told.contains(WindowEvent::Maximize) <==> !now.minimized && now.maximized
                && !before.maximized
            &&& told.contains(WindowEvent::Unmaximize) <==> !now.minimized && !now.maximized
                && before.maximized
            &&& told.contains(WindowEvent::EnterFullScreen) <==> !now.minimized && now.fullscreen
                && !before.fullscreen
            &&& told.contains(WindowEvent::LeaveFullScreen) <==> !now.minimized && !now.fullscreen
                && before.fullscreen
            &&& forall|i: int|
                0 <= i < told.len() ==> !((#[trigger] told[i]) is Focus || told[i] is Blur
                    || told[i] is BeforeQuit)
            &&& known.minimized == now.minimized
            &&& known.maximized == if now.minimized {
                before.maximized
            } else {
                now.maximized
            }
            &&& known.fullscreen == if now.minimized {
                before.fullscreen
            } else {
                now.fullscreen
            }
        }),
{
    let told = change_events(before, now);
    if now.minimized && !before.minimized {
        assert(told[0] == WindowEvent::Minimize);
    }
    if !now.minimized && now.maximized != before.maximized {
        assert(told[0] == if now.maximized {
            WindowEvent::Maximize
        } else {
            WindowEvent::Unmaximize
        });
    }
    if !now.minimized && now.fullscreen != before.fullscreen {
        assert(told.last() == if now.fullscreen {
            WindowEvent::EnterFullScreen
        } else {
            WindowEvent::LeaveFullScreen
        });
    }
}

/// The names of the events.
pub proof fn law_event_names(event: WindowEvent, r: &'static str)
    requires
        call_ensures(WindowEvent::name, (event,), r),
    ensures
        event is Minimize ==> r@ == "launcher-minimize"@,
        event is Maximize ==> r@ == "launcher-maximize"@,
        event is Unmaximize ==> r@ == "launcher-unmaximize"@,
        event is EnterFullScreen ==> r@ == "enter-full-screen"@,
        event is LeaveFullScreen ==> r@ == "leave-full-screen"@,
        event is Focus ==> r@ == "main-window-focus"@,
        event is Blur ==> r@ == "main-window-blur"@,
        event is BeforeQuit ==> r@ == "launcher-before-quit"@,
{
}

/// The place of a window counts exactly while it is neither minimized nor maximized and
/// does not fill the screen.
pub proof fn law_place(now: WindowFlags, r: bool)
    requires
        call_ensures(place_matters, (now,), r),
    ensures
        now.minimized || now.maximized || now.fullscreen ==> !r,
        !now.minimized && !now.maximized && !now.fullscreen ==> r,
{
}

/// The place is saved after each rest that follows a change, and never once the window is
/// closed: a change waits exactly if it came last, and an end is for good.
pub proof fn law_saver(events: Seq<SaverEvent>)
    ensures
        saver_after(Saver::Idle, events) is Ended <==> events.contains(SaverEvent::Closed),
        saver_after(Saver::Idle, events) is Pending <==> !events.contains(SaverEvent::Closed)
            && events.len() > 0 && events.last() is Changed,
        forall|event: SaverEvent|
            #[trigger] saver_after(Saver::Idle, events).saves(event) <==> event is Rested
                && !events.contains(SaverEvent::Closed) && events.len() > 0
                && events.last() is Changed,
    decreases events.len(),
{
    if events.len() > 0 {
        let before = events.drop_last();
        law_saver(before);
        assert(events == before.push(events.last()));
        if before.contains(SaverEvent::Closed) {
            let i = choose|i: int| 0 <= i < before.len() && before[i] == SaverEvent::Closed;
            assert(events[i] == SaverEvent::Closed);
        }
        if events.contains(SaverEvent::Closed) && !(events.last() is Closed) {
            let i = choose|i: int| 0 <= i < events.len() && events[i] == SaverEvent::Closed;
            assert(before[i] == SaverEvent::Closed);
        }
        assert(events.last() is Closed ==> events[events.len() - 1] == SaverEvent::Closed);
    }
}

/// What follows on an event of the main window, once the shell is set up; other windows
/// cause nothing. The user interface is told of the focus and, if it wants to know, of a
/// request to close; such a request is the one occasion to save the place.
pub proof fn law_window_events(
    label: &str,
    set_up: bool,
    change: WindowChange,
    shell: &Shell,
    r: Vec<WindowStep>,
)
    requires
        call_ensures(on_window_event, (label, set_up, change, shell), r),
    ensures
        label@ != "main"@ || !set_up ==> r@.len() == 0,
        label@ == "main"@ && set_up ==> {
            &&& r@.contains(WindowStep::Tell(WindowEvent::Focus)) <==> change == WindowChange::Focused(true)
            &&& r@.contains(WindowStep::Tell(WindowEvent::Blur)) <==> change == WindowChange::Focused(false)
            &&& r@.contains(WindowStep::SignalSaver) <==> change is Placed
            &&& r@.contains(WindowStep::UpdatePosition { logged: true }) <==> change is Placed
            &&& r@.contains(WindowStep::UpdatePosition { logged: false }) <==> change is Focused
            &&& r@.contains(WindowStep::SavePosition) <==> change is CloseRequested
            &&& r@.contains(WindowStep::PreventClose) <==> change is CloseRequested && (
            shell.hook_before_quit || shell.tray) && !shell.exit_requested
            &&& r@.contains(WindowStep::Tell(WindowEvent::BeforeQuit)) <==> change is CloseRequested
                && shell.hook_before_quit && !shell.exit_requested
            &&& r@.contains(WindowStep::MinimizeToTray) <==> change is CloseRequested
                && !shell.hook_before_quit && shell.tray && !shell.exit_requested
            &&& change is Placed ==> r@[0] is UpdatePosition
            &&& change is CloseRequested ==> r@[0] is SavePosition
        },
{
    if label@ == "main"@ && set_up {
        match change {
            WindowChange::Focused(focused) => {
                assert(r@[0] == WindowStep::Tell(
                    if focused {
                        WindowEvent::Focus
                    } else {
                        WindowEvent::Blur
                    },
                ));
                assert(r@[1] == WindowStep::UpdatePosition { logged: false });
            },
            WindowChange::Placed => {
                assert(r@[0] == WindowStep::UpdatePosition { logged: true });
                assert(r@[1] == WindowStep::SignalSaver);
            },
            WindowChange::CloseRequested => {
                assert(r@[0] == WindowStep::SavePosition);
                if !shell.exit_requested && (shell.hook_before_quit || shell.tray) {
                    assert(r@[1] == WindowStep::PreventClose);
                    assert(r@[2] == if shell.hook_before_quit {
                        WindowStep::Tell(WindowEvent::BeforeQuit)
                    } else {
                        WindowStep::MinimizeToTray
                    });
                }
            },
            WindowChange::Other => {},
        }
    }
}

/// The window is put in the middle of the area: what is left free on one side differs from
/// what is left free on the other by at most one, and the smaller share comes first. A
/// window that is within the limit keeps its size; a larger one is cut to the limit, with
/// its frame counted in.
pub proof fn law_window_is_centered(
    area: Area,
    limit: Size,
    outer: Size,
    inner: Size,
    width: int,
    height: int,
    r: Placement,
)
    requires
        has_room(area, limit, outer),
        call_ensures(coerce_to_monitor, (area, limit, outer, inner), r),
        inner.width <= outer.width,
        inner.height <= outer.height,
        width == outer.width || width == limit.width,
        width <= outer.width && width <= limit.width,
        height == outer.height || height == limit.height,
        height <= outer.height && height <= limit.height,
    ensures
        ({
            let left = r.x - area.x;
            let right = (area.x + area.width) - (r.x + width);
            let above = r.y - area.y;
            let below = (area.y + area.height) - (r.y + height);
            &&& 0 <= left <= right <= left + 1
            &&& 0 <= above <= below <= above + 1
        }),
        outer.width <= limit.width ==> r.width == inner.width,
        outer.height <= limit.height ==> r.height == inner.height,
        outer.width - inner.width <= width ==> r.width + (outer.width - inner.width) == width,
        outer.height - inner.height <= height ==> r.height + (outer.height - inner.height) == height,
        outer.width - inner.width > width ==> r.width == 0,
        outer.height - inner.height > height ==> r.height == 0,
{
}

/// What a choice in the menu of the icon does.
pub proof fn law_tray_menu(id: &str, r: TrayAction)
    requires
        call_ensures(tray_menu, (id,), r),
    ensures
        id@ == "tray-restore"@ <==> r is Restore,
        id@ == "tray-quit"@ <==> r is RequestExit,
{
    reveal_strlit("tray-restore");
    reveal_strlit("tray-quit");
    assert("tray-restore"@.len() != "tray-quit"@.len());
}

/// The place is taken over only from a window that is neither minimized nor maximized and
/// does not fill the screen. Whether it is maximized or fills the screen is taken over
/// unless it is minimized. The events are those of the change.
pub proof fn law_position_follows_the_window<T>(
    position: &mut WindowPosition<T>,
    flags: &mut WindowFlags,
    now: WindowFlags,
    bounds: Option<Bounds<T>>,
    r: Vec<WindowEvent>,
)
    requires
        call_ensures(update_position::<T>, (position, flags, now, bounds), r),
    ensures
        ({
            let plain = !now.minimized && !now.maximized && !now.fullscreen;
            let p = *old(position);
            let q = *final(position);
            &&& plain && bounds is Some ==> {
                let b = bounds->Some_0;
                q.x == Some(b.x) && q.y == Some(b.y) && q.width == Some(b.width) && q.height == Some(
                    b.height,
                )
            }
            &&& !plain || bounds is None ==> q.x == p.x && q.y == p.y && q.width == p.width
                && q.height == p.height
            &&& now.minimized ==> q.maximized == p.maximized && q.full_screen == p.full_screen
            &&& !now.minimized ==> q.maximized == now.maximized && q.full_screen == now.fullscreen
            &&& !now.minimized ==> *final(flags) == now
            &&& now.minimized ==> final(flags).minimized && final(flags).maximized == old(
                flags).maximized && final(flags).fullscreen == old(flags).fullscreen
            &&& r@.contains(WindowEvent::Minimize) <==> now.minimized && !old(flags).minimized
            &&& r@.contains(WindowEvent::Maximize) <==> !now.minimized && now.maximized && !old(
                flags).maximized
            &&& r@.contains(WindowEvent::Unmaximize) <==> !now.minimized && !now.maximized && old(
                flags).maximized
            &&& r@.contains(WindowEvent::EnterFullScreen) <==> !now.minimized && now.fullscreen && !old(
                flags).fullscreen
            &&& r@.contains(WindowEvent::LeaveFullScreen) <==> !now.minimized && !now.fullscreen && old(
                flags).fullscreen
        }),
{
    law_changes_are_told(*old(flags), now);
}

/// A rest after a change saves, once; a saver that has ended never does.
pub proof fn law_saver_step(saver: &mut Saver, event: SaverEvent, r: bool)
    requires
        call_ensures(Saver::step, (saver, event), r),
    ensures
        r <==> *old(saver) is Pending && event is Rested,
        *old(saver) is Ended || event is Closed <==> *final(saver) is Ended,
        !(*old(saver) is Ended) && event is Changed <==> *final(saver) is Pending,
{
}

/// The settings decide like their values: the theme and whether it follows the system, and
/// the style of the title bar.
pub proof fn law_settings_decide(
    settings: &[u8],
    platform: Platform,
    dark: bool,
    theme: Option<String>,
    style: Option<String>,
    auto: bool,
    color: (u8, u8, u8, u8),
    bar: TitleBar,
    r: (u8, u8, u8, u8),
    q: TitleBar,
)
    requires
        call_ensures(background_color, (settings, dark), r),
        call_ensures(title_bar, (platform, settings), q),
        text::opt_text(theme) == json::as_text(json::member_of(settings@, "theme"@)),
        auto == (json::member_of(settings@, "autoSwitchTheme"@) == json::Json::Bool(true)),
        text::opt_text(style) == json::as_text(json::member_of(settings@, "titlebarStyle"@)),
        call_ensures(theme_color, (theme, auto, dark), color),
        call_ensures(title_bar_style, (platform, style), bar),
    ensures
        r == color,
        q == bar,
{
}

/// The icon shows its menu on a click where that is usual, on macOS, and the window
/// elsewhere; scripts for startup are for debug builds and for logging.
pub proof fn law_tray_and_scripts(
    platform: Platform,
    tray: TrayBehavior,
    debug: bool,
    startup_logging: bool,
    smoke: bool,
    scripts: (bool, bool),
)
    requires
        call_ensures(tray_behavior, (platform,), tray),
        call_ensures(setup_scripts, (debug, startup_logging, smoke), scripts),
    ensures
        platform is MacOs <==> tray.template,
        platform is MacOs <==> tray.menu_on_click,
        platform is MacOs <==> !tray.restore_on_click,
        debug ==> scripts.0 && scripts.1 == smoke,
        !debug ==> scripts.0 == startup_logging && !scripts.1,
{
}

/// A place that was never saved is none; a failure to read it is one.
pub proof fn law_saved_position(file: PositionFile, r: Result<Option<String>, String>)
    requires
        call_ensures(saved_position, (file,), r),
    ensures
        file matches PositionFile::Text(text) ==> r is Ok && r->Ok_0 is Some && r->Ok_0->Some_0@
            == text@,
        file is Missing ==> r is Ok && r->Ok_0 is None,
        file matches PositionFile::Failed(message) ==> r is Err && (r->Err_0)@ == message@,
{
}

} // verus!
