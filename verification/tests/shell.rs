use lemonkee::platform::{Arch, Platform};
use lemonkee::shell::{
    configured_shortcuts, dev_log, exit_requested, menu_quits, opens_database, second_instance,
    ExitStep, PendingEvents, Shell, StartupInfo,
};

fn start(args: &[&str]) -> StartupInfo {
    let args = args.iter().map(|arg| arg.to_string()).collect();
    StartupInfo::from_args(&args, Platform::MacOs, Arch::Arm64, "1.2.3", false)
}

#[test]
fn arguments() {
    let info = start(&["/x/own.kdbx", "--minimized", "--other.kdbx", "My.KDBX", "b.kdbx", "--keyfile=k.key"]);
    assert_eq!(info.open_file, Some("My.KDBX".to_string()));
    assert_eq!(info.open_keyfile, Some("k.key".to_string()));
    assert!(info.start_minimized);
    assert_eq!((info.platform, info.arch, info.version), ("darwin", "arm64", "1.2.3"));
    assert!(!info.dev_mode);
    let info = start(&["/x/own.kdbx"]);
    assert_eq!((info.open_file, info.open_keyfile, info.start_minimized), (None, None, false));
    let info = start(&[]);
    assert_eq!(info.open_file, None);
    let info = start(&["--keyfile=first", "--keyfile=second", "--minimized-to-tray", "kdbx"]);
    assert_eq!(info.open_keyfile, Some("first".to_string()));
    assert_eq!(info.open_file, None);
    assert!(info.start_minimized);
}

#[test]
fn names_of_machines() {
    let info = |platform, arch| StartupInfo::from_args(&vec![], platform, arch, "", true);
    assert_eq!(info(Platform::Windows, Arch::X86).platform, "win32");
    assert_eq!(info(Platform::Windows, Arch::X86).arch, "ia32");
    assert_eq!(info(Platform::Linux, Arch::X64).platform, "linux");
    assert_eq!(info(Platform::Other, Arch::Other).platform, "linux");
    assert_eq!(info(Platform::Other, Arch::Other).arch, "x64");
    assert!(info(Platform::Linux, Arch::X64).dev_mode);
}

#[test]
fn another_start_opens_files() {
    let open = second_instance(start(&["x", "a.kdbx", "--keyfile=k"])).unwrap();
    assert_eq!((open.file, open.key), ("a.kdbx".to_string(), Some("k".to_string())));
    assert!(second_instance(start(&["x", "--keyfile=k"])).is_none());
    assert!(opens_database(Some("KDBX")));
    assert!(!opens_database(Some("kdb")));
    assert!(!opens_database(None));
}

#[test]
fn lines_of_the_log() {
    assert_eq!(dev_log("warn", "careful"), "[js:warn] careful");
}

#[test]
fn shortcuts_in_settings() {
    let settings = br#"{"globalShortcutCopyOtp":"Ctrl+O","globalShortcutCopyUrl":5,"globalShortcutAutoType":""}"#;
    let shortcuts = configured_shortcuts(settings);
    let expected = [
        ("autoType", Some("")),
        ("copyPassword", None),
        ("copyUser", None),
        ("copyUrl", None),
        ("copyOtp", Some("Ctrl+O")),
        ("restoreApp", None),
    ];
    assert_eq!(shortcuts.len(), 6);
    for ((key, value), (name, text)) in shortcuts.iter().zip(expected) {
        assert_eq!((key.as_str(), value.as_deref()), (name, text));
    }
    assert!(configured_shortcuts(b"broken").iter().all(|(_, value)| value.is_none()));
}

#[test]
fn events_wait_for_the_user_interface() {
    let mut pending = PendingEvents::new();
    for i in 0..40 {
        assert_eq!(pending.emit_app_event("os-lock", i, true, false, true), None);
    }
    assert_eq!(pending.emit_app_event("os-lock", 40, true, true, false), None);
    assert_eq!(pending.emit_app_event("os-lock", 41, true, true, true), Some(41));
    assert_eq!(pending.emit_app_event("log", 42, true, false, false), Some(42));
    assert_eq!(pending.emit_app_event("os-lock", 43, false, false, false), Some(43));
    assert_eq!(pending.take_all(), (9..=40).collect::<Vec<i32>>());
    assert!(pending.take_all().is_empty());
}

#[test]
fn ends_of_the_program() {
    let mut shell = Shell::new();
    assert_eq!(exit_requested(&shell, false, true), ExitStep::SavePosition);
    assert_eq!(exit_requested(&shell, false, false), ExitStep::Leave);
    shell.set_hook_before_quit(true);
    assert_eq!(exit_requested(&shell, false, true), ExitStep::Ask);
    assert_eq!(exit_requested(&shell, true, true), ExitStep::Ask);
    shell.tray = true;
    assert_eq!(exit_requested(&shell, false, true), ExitStep::Stay);
    assert_eq!(exit_requested(&shell, true, true), ExitStep::Ask);
    shell.exit_requested = true;
    assert_eq!(exit_requested(&shell, false, true), ExitStep::SavePosition);
    assert!(menu_quits("app-quit"));
    assert!(!menu_quits("tray-quit"));
}
