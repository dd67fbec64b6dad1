use lemonkee::platform::Platform;
use lemonkee::shortcuts::{actions, bindings, handle, normalize, Action, Binding, ShortcutActions, ShortcutStep};

#[test]
fn shortcuts_as_the_system_writes_them() {
    assert_eq!(normalize("Ctrl+Alt+T", Platform::MacOs), "Control+Alt+T");
    assert_eq!(normalize(" Cmd + Shift +x", Platform::Linux), "Super+Shift+x");
    assert_eq!(normalize("CmdOrCtrl+Option+1", Platform::MacOs), "Super+Alt+1");
    assert_eq!(normalize("CommandOrControl+Option+1", Platform::Windows), "Control+Alt+1");
    assert_eq!(normalize("Command+Control", Platform::Windows), "Super+Control");
    assert_eq!(normalize("", Platform::Windows), "");
    assert_eq!(normalize("Ctrl++", Platform::Windows), "Control++");
}

#[test]
fn normalizing_twice_changes_nothing() {
    for accelerator in ["Ctrl+Alt+T", " Cmd + Shift +x", "CmdOrCtrl+Option+1", "", "Ctrl++", "+ +", " a b + c "] {
        for platform in [Platform::MacOs, Platform::Windows, Platform::Linux] {
            let once = normalize(accelerator, platform);
            assert_eq!(normalize(&once, platform), once);
        }
    }
}

fn request(entries: &[(&str, Option<&str>)]) -> Vec<(String, Option<String>)> {
    entries.iter().map(|(key, value)| (key.to_string(), value.map(|v| v.to_string()))).collect()
}

fn bound(entries: &[(&str, Option<&str>)], platform: Platform) -> Vec<(Action, String, String)> {
    bindings(&request(entries), platform).into_iter().map(|b| (b.action, b.accelerator, b.shortcut)).collect()
}

#[test]
fn default_bindings() {
    let expected = |modifiers: &str, written: &str| -> Vec<(Action, String, String)> {
        [
            (Action::AutoType, "T"),
            (Action::CopyPassword, "C"),
            (Action::CopyUser, "B"),
            (Action::CopyUrl, "U"),
        ]
        .into_iter()
        .map(|(action, letter)| (action, format!("{modifiers}{letter}"), format!("{written}{letter}")))
        .collect()
    };
    assert_eq!(bound(&[], Platform::MacOs), expected("Ctrl+Alt+", "Control+Alt+"));
    assert_eq!(bound(&[], Platform::Linux), expected("Shift+Alt+", "Shift+Alt+"));
    assert_eq!(
        bound(&[("copyOtp", None), ("autoType", Some(""))], Platform::Linux),
        expected("Shift+Alt+", "Shift+Alt+")
    );
}

#[test]
fn requested_bindings() {
    let all = bound(&[("restoreApp", Some("Cmd+R")), ("copyUser", Some("F9"))], Platform::Windows);
    assert_eq!(all.len(), 5);
    assert_eq!(all[2], (Action::CopyUser, "F9".to_string(), "F9".to_string()));
    assert_eq!(all[4], (Action::RestoreApp, "Cmd+R".to_string(), "Super+R".to_string()));
}

fn binding(action: Action, accelerator: &str) -> Binding {
    Binding { action, accelerator: accelerator.to_string(), shortcut: String::new() }
}

#[test]
fn registration() {
    let mut table = ShortcutActions::new();
    table.registered(&binding(Action::AutoType, "F1"), Ok(11));
    table.registered(&binding(Action::CopyUser, "F2"), Ok(12));
    assert_eq!(table.outcome(), Ok(()));
    table.registered(&binding(Action::CopyUrl, "F3"), Err("taken".to_string()));
    table.registered(&binding(Action::CopyOtp, "F4"), Err("bad".to_string()));
    assert_eq!(table.outcome(), Err("copyUrl (F3): taken; copyOtp (F4): bad".to_string()));
    assert_eq!(table.action(11), Some(Action::AutoType));
    assert_eq!(table.action(12), Some(Action::CopyUser));
    assert_eq!(table.action(13), None);
    table.clear();
    assert_eq!(table.action(11), None);
    assert_eq!(table.outcome(), Ok(()));
}

#[test]
fn pressed_shortcuts() {
    assert_eq!(handle(true, Some(Action::RestoreApp), true), vec![ShortcutStep::ShowMainWindow]);
    assert_eq!(handle(true, Some(Action::CopyUrl), false), vec![ShortcutStep::Emit(Action::CopyUrl)]);
    assert_eq!(handle(true, Some(Action::AutoType), true), vec![ShortcutStep::Emit(Action::AutoType)]);
    assert_eq!(
        handle(true, Some(Action::AutoType), false),
        vec![ShortcutStep::Emit(Action::AutoType), ShortcutStep::ShowMainWindow]
    );
    assert!(handle(false, Some(Action::AutoType), false).is_empty());
    assert!(handle(true, None, false).is_empty());
}

#[test]
fn names_of_actions() {
    let names: Vec<(&str, &str, &str)> =
        actions().into_iter().map(|a| (a.key(), a.setting(), a.event())).collect();
    assert_eq!(
        names,
        vec![
            ("autoType", "globalShortcutAutoType", "auto-type"),
            ("copyPassword", "globalShortcutCopyPassword", "copy-password"),
            ("copyUser", "globalShortcutCopyUser", "copy-user"),
            ("copyUrl", "globalShortcutCopyUrl", "copy-url"),
            ("copyOtp", "globalShortcutCopyOtp", "copy-otp"),
            ("restoreApp", "globalShortcutRestoreApp", "restore-app"),
        ]
    );
}
