use lemonkee::autotype::{
    accessibility_permission, active_process, browser_query, browser_script_result, browser_url,
    kbd_ensure_modifier_not_pressed, kbd_get_active_pid, kbd_get_active_window,
    kbd_key_move_with_modifier, kbd_key_press, kbd_key_press_with_character, kbd_shortcut,
    kbd_show_window, kbd_text, kbd_text_as_keys, key_code, keyboard_action, keypad_key, modifiers,
    needs_focused_title, script_step, show_window, single_character, window_activated,
    window_title, ActiveWindowOptions, Chord, Input, Key, KeyboardStep, Permission, RawWindow,
    ScriptState, ScriptStep, WindowHandle,
};
use lemonkee::platform::Platform;

fn names(list: &[&str]) -> Vec<String> {
    list.iter().map(|name| name.to_string()).collect()
}

/// Sends a chord, failing at the given inputs.
fn send(mut chord: Chord, failing: &[usize]) -> (Vec<Input>, Result<(), String>) {
    let mut sent = vec![];
    while let Some(input) = chord.next() {
        let outcome = if failing.contains(&sent.len()) { Err(format!("failure {}", sent.len())) } else { Ok(()) };
        sent.push(input);
        chord.report(outcome);
    }
    (sent, chord.result())
}

fn chord(result: Result<Chord, String>) -> Chord {
    result.unwrap_or_else(|message| panic!("{message}"))
}

#[test]
fn names_of_modifiers() {
    assert_eq!(
        modifiers(&names(&["Ctrl", "Option", "Shift", "Cmd", "Control", "Win"])),
        Ok(vec![Key::Control, Key::Alt, Key::Shift, Key::Meta])
    );
    for name in ["Meta", "Command", "Cmd", "Super", "Win", "Windows"] {
        assert_eq!(modifiers(&names(&[name])), Ok(vec![Key::Meta]));
    }
    assert_eq!(modifiers(&names(&["Shift", "Hyper", "Bad"])), Err("Bad modifier: Hyper".to_string()));
    assert_eq!(modifiers(&vec![]), Ok(vec![]));
}

#[test]
fn names_of_keys() {
    let code = |name| key_code(Platform::Linux, name);
    assert_eq!(code("Tab"), Ok(Key::Tab));
    assert_eq!(code("enter"), Ok(Key::Return));
    assert_eq!(code("pgdn"), Ok(Key::PageDown));
    assert_eq!(code("ForwardDelete"), Ok(Key::Delete));
    assert_eq!(code("bs"), Ok(Key::Backspace));
    assert_eq!(code("win"), Ok(Key::Meta));
    assert_eq!(code("f16"), Ok(Key::F16));
    assert_eq!(code("D7"), Ok(Key::Unicode('7')));
    assert_eq!(code("F17"), Err("Bad code: F17".to_string()));
    assert_eq!(code(""), Err("Bad code: ".to_string()));
}

#[test]
fn keys_that_differ_by_platform() {
    assert_eq!(key_code(Platform::MacOs, "ins"), Ok(Key::Other(0x72)));
    assert_eq!(key_code(Platform::Windows, "Insert"), Ok(Key::Insert));
    assert_eq!(key_code(Platform::MacOs, "rwin"), Ok(Key::RCommand));
    assert_eq!(key_code(Platform::Windows, "rwin"), Ok(Key::RWin));
    assert_eq!(key_code(Platform::Linux, "RightMeta"), Ok(Key::Other(0xffec)));
    assert_eq!(key_code(Platform::Other, "rwin"), Err("Bad code: rwin".to_string()));
    assert_eq!(key_code(Platform::MacOs, "KeypadPlus"), Ok(Key::Other(0x45)));
    assert_eq!(key_code(Platform::Windows, "KeypadMinus"), Ok(Key::Other(0x6d)));
    assert_eq!(key_code(Platform::Linux, "KeypadMultiply"), Ok(Key::Other(0xffaa)));
    assert_eq!(key_code(Platform::Other, "KeypadDivide"), Ok(Key::Other(0xffaf)));
    assert_eq!(keypad_key(Platform::Windows, 1, 2, 3), Key::Other(2));
}

#[test]
fn single_characters() {
    assert_eq!(single_character("\u{1f34b}"), Ok('\u{1f34b}'));
    for text in ["", "ab", "\0"] {
        assert_eq!(single_character(text), Err("Expected one non-NUL character".to_string()));
    }
}

#[test]
fn a_chord_in_full() {
    let press = chord(kbd_key_press(Platform::MacOs, "tab", &names(&["Ctrl", "Shift"])));
    let (sent, result) = send(press, &[]);
    assert_eq!(
        sent,
        vec![
            Input::Press(Key::Control),
            Input::Press(Key::Shift),
            Input::Click(Key::Tab),
            Input::Release(Key::Shift),
            Input::Release(Key::Control),
        ]
    );
    assert_eq!(result, Ok(()));
}

#[test]
fn no_modifier_is_stranded() {
    let press = || chord(kbd_text_as_keys("ab", &names(&["Ctrl", "Shift"])));
    let (sent, result) = send(press(), &[2]);
    assert_eq!(
        sent,
        vec![
            Input::Press(Key::Control),
            Input::Press(Key::Shift),
            Input::Click(Key::Unicode('a')),
            Input::Release(Key::Shift),
            Input::Release(Key::Control),
        ]
    );
    assert_eq!(result, Err("failure 2".to_string()));
    let (sent, result) = send(press(), &[1, 2]);
    assert_eq!(
        sent,
        vec![
            Input::Press(Key::Control),
            Input::Press(Key::Shift),
            Input::Release(Key::Shift),
            Input::Release(Key::Control),
        ]
    );
    assert_eq!(result, Err("failure 1".to_string()));
    let (sent, result) = send(press(), &[4, 5]);
    assert_eq!(sent.len(), 6);
    assert_eq!(result, Err("failure 4".to_string()));
}

#[test]
fn held_modifiers() {
    let hold = || chord(kbd_key_move_with_modifier(true, &names(&["Alt", "Cmd"])));
    assert_eq!(
        send(hold(), &[]),
        (vec![Input::Press(Key::Alt), Input::Press(Key::Meta)], Ok(()))
    );
    assert_eq!(
        send(hold(), &[1]),
        (
            vec![
                Input::Press(Key::Alt),
                Input::Press(Key::Meta),
                Input::Release(Key::Meta),
                Input::Release(Key::Alt),
            ],
            Err("failure 1".to_string())
        )
    );
    let release = chord(kbd_key_move_with_modifier(false, &names(&["Alt", "Cmd"])));
    assert_eq!(
        send(release, &[0]),
        (vec![Input::Release(Key::Meta), Input::Release(Key::Alt)], Err("failure 0".to_string()))
    );
    assert!(kbd_key_move_with_modifier(true, &names(&["x"])).is_err());
}

#[test]
fn typed_text() {
    assert_eq!(kbd_text("pass\u{e4}"), Ok("pass\u{e4}".to_string()));
    let message = "Text must not contain NUL characters".to_string();
    assert_eq!(kbd_text("a\0"), Err(message.clone()));
    assert_eq!(kbd_text_as_keys("\0", &names(&["bad"])).err(), Some(message));
    assert_eq!(kbd_text_as_keys("a", &names(&["bad"])).err(), Some("Bad modifier: bad".to_string()));
    assert_eq!(send(chord(kbd_text_as_keys("", &vec![])), &[]), (vec![], Ok(())));
}

#[test]
fn shortcuts_of_the_platform() {
    let sent = |platform| send(chord(kbd_shortcut(platform, "V")), &[]).0;
    assert_eq!(
        sent(Platform::MacOs),
        vec![Input::Press(Key::Meta), Input::Click(Key::Unicode('v')), Input::Release(Key::Meta)]
    );
    assert_eq!(sent(Platform::Linux)[0], Input::Press(Key::Control));
    assert!(kbd_shortcut(Platform::Linux, "VV").is_err());
}

#[test]
fn keys_by_character_or_number() {
    let press = |platform, character, code| kbd_key_press_with_character(platform, character, code, &vec![]);
    assert_eq!(
        send(chord(press(Platform::MacOs, "A", Some(5))), &[]).0,
        vec![Input::Click(Key::Unicode('A'))]
    );
    assert_eq!(
        send(chord(press(Platform::Linux, "", Some(0x10000))), &[]).0,
        vec![Input::Click(Key::Other(0x10000))]
    );
    assert_eq!(
        press(Platform::Windows, "", Some(0x10000)).err(),
        Some("Virtual key code must fit in 16 bits".to_string())
    );
    assert_eq!(
        press(Platform::Windows, "", None).err(),
        Some("A virtual key code is required when character is empty".to_string())
    );
    assert_eq!(
        press(Platform::Windows, "ab", None).err(),
        Some("Expected one non-NUL character".to_string())
    );
    assert_eq!(
        kbd_key_press(Platform::Windows, "nope", &names(&["bad"])).err(),
        Some("Bad code: nope".to_string())
    );
}

#[test]
fn all_modifiers_are_released() {
    let released = |platform| -> Vec<Input> {
        kbd_ensure_modifier_not_pressed(platform).into_iter().flat_map(|chord| send(chord, &[0]).0).collect()
    };
    let common = [Key::Meta, Key::Alt, Key::Control, Key::Shift, Key::RControl, Key::RShift];
    for (platform, own) in [
        (Platform::MacOs, vec![Key::RCommand, Key::ROption]),
        (Platform::Windows, vec![Key::RWin, Key::RMenu]),
        (Platform::Linux, vec![Key::Other(0xffec), Key::Other(0xffea)]),
        (Platform::Other, vec![]),
    ] {
        let expected: Vec<Input> = common.iter().copied().chain(own).map(Input::Release).collect();
        assert_eq!(released(platform), expected);
    }
}

#[test]
fn permission_to_type() {
    assert!(matches!(keyboard_action(Platform::MacOs, true, true, true), KeyboardStep::Act));
    assert!(matches!(keyboard_action(Platform::MacOs, true, true, false), KeyboardStep::Create));
    assert!(matches!(keyboard_action(Platform::MacOs, false, false, true), KeyboardStep::Skip));
    assert!(matches!(
        keyboard_action(Platform::MacOs, true, false, true),
        KeyboardStep::Refuse(message) if message == "Accessibility permission required"
    ));
    assert!(matches!(keyboard_action(Platform::Linux, true, false, false), KeyboardStep::Create));
    let mut prompted = false;
    assert_eq!(accessibility_permission(true, true, &mut prompted), Permission { granted: true, ask: false });
    assert_eq!(accessibility_permission(false, false, &mut prompted), Permission { granted: false, ask: false });
    assert_eq!(accessibility_permission(false, true, &mut prompted), Permission { granted: false, ask: true });
    assert_eq!(accessibility_permission(false, true, &mut prompted), Permission { granted: false, ask: false });
}

fn window(id: &str, title: &str) -> RawWindow {
    RawWindow {
        window_id: id.to_string(),
        process_id: 88,
        title: title.to_string(),
        app_name: "Safari".to_string(),
    }
}

fn both() -> ActiveWindowOptions {
    ActiveWindowOptions { get_window_title: true, get_browser_url: true }
}

#[test]
fn the_active_window() {
    let url = || Some("https://example.com/".to_string());
    let told = kbd_get_active_window(Platform::MacOs, both(), Some(window("", "")), url(), Some("Login".to_string()))
        .unwrap_or_else(|e| panic!("{e}"));
    assert_eq!((told.id.as_str(), told.pid), ("88", 88));
    assert_eq!(told.title, Some("Login".to_string()));
    assert_eq!(told.url, url());
    let told = kbd_get_active_window(Platform::Windows, both(), Some(window("5", "Bank")), url(), None)
        .unwrap_or_else(|e| panic!("{e}"));
    assert_eq!((told.id.as_str(), told.title, told.url), ("5", Some("Bank".to_string()), None));
    let nothing = ActiveWindowOptions { get_window_title: false, get_browser_url: false };
    let told = kbd_get_active_window(Platform::MacOs, nothing, Some(window("5", "Bank")), url(), None)
        .unwrap_or_else(|e| panic!("{e}"));
    assert_eq!((told.title, told.url), (None, None));
    assert_eq!(
        kbd_get_active_window(Platform::MacOs, both(), None, None, None).err(),
        Some("Cannot determine the active window".to_string())
    );
    assert!(needs_focused_title(Platform::MacOs, both(), &window("5", "")));
    assert!(!needs_focused_title(Platform::MacOs, both(), &window("5", "Bank")));
    assert!(!needs_focused_title(Platform::Linux, both(), &window("5", "")));
    assert_eq!(window_title(true, 88), Some(88));
    assert_eq!(window_title(false, 88), None);
    assert_eq!(window_title(true, 0x8000_0000), None);
}

#[test]
fn addresses_of_browsers() {
    assert_eq!(browser_url("Safari"), Some("tell application \"Safari\" to get URL of front document"));
    assert_eq!(
        browser_url("Arc"),
        Some("tell application \"Arc\" to get URL of active tab of front window")
    );
    assert_eq!(browser_url("Safari\" to quit"), None);
    assert_eq!(browser_query(Platform::Linux, both(), "Safari"), None);
    assert!(browser_query(Platform::MacOs, both(), "Google Chrome").is_some());
    assert_eq!(browser_script_result(true, " https://a/ \n"), Some("https://a/".to_string()));
    assert_eq!(browser_script_result(true, "missing value\n"), None);
    assert_eq!(browser_script_result(true, " "), None);
    assert_eq!(browser_script_result(false, "https://a/"), None);
    assert_eq!(script_step(ScriptState::Exited(false), true), ScriptStep::Over(false));
    assert_eq!(script_step(ScriptState::Running, true), ScriptStep::Wait);
    assert_eq!(script_step(ScriptState::Running, false), ScriptStep::Kill);
    assert_eq!(script_step(ScriptState::Unknown, true), ScriptStep::Kill);
}

#[test]
fn processes_of_windows() {
    assert_eq!(kbd_get_active_pid(Some(7)), Ok(7));
    assert_eq!(kbd_get_active_pid(Some(-1)), Err("Invalid active process ID".to_string()));
    assert_eq!(kbd_get_active_pid(None), Err("Cannot determine the active process".to_string()));
    assert_eq!(active_process(Some(u64::MAX)), Ok(u64::MAX));
    assert_eq!(active_process(None), Err("Cannot determine the active process".to_string()));
}

#[test]
fn windows_to_show() {
    let invalid = Err("Invalid window ID".to_string());
    assert_eq!(kbd_show_window(Platform::MacOs, "42"), Ok(WindowHandle::Mac(42)));
    for id in ["0", "", "-1", "4294967296", "x"] {
        assert_eq!(kbd_show_window(Platform::MacOs, id), invalid);
    }
    assert_eq!(kbd_show_window(Platform::Windows, "HWND(1234)"), Ok(WindowHandle::Windows(1234)));
    assert_eq!(kbd_show_window(Platform::Windows, "-5"), Ok(WindowHandle::Windows(-5)));
    for id in ["HWND(0)", "HWND(1", "HWND()", "0", "9223372036854775808"] {
        assert_eq!(kbd_show_window(Platform::Windows, id), invalid);
    }
    assert_eq!(kbd_show_window(Platform::Linux, "1"), Err("Not supported on this platform".to_string()));
    assert_eq!(show_window(true, Some(12)), Ok(12));
    assert_eq!(show_window(false, Some(12)), Err("Cannot find the requested window".to_string()));
    assert_eq!(
        show_window(true, Some(0x8000_0000)),
        Err("Cannot determine the window's process".to_string())
    );
    assert_eq!(show_window(true, None), Err("Cannot determine the window's process".to_string()));
}

#[test]
fn activation_of_windows() {
    assert_eq!(window_activated(Platform::MacOs, true, true), Ok(()));
    assert_eq!(
        window_activated(Platform::MacOs, false, false),
        Err("The requested application is no longer running".to_string())
    );
    assert_eq!(
        window_activated(Platform::MacOs, true, false),
        Err("Cannot activate the requested application".to_string())
    );
    assert_eq!(window_activated(Platform::Windows, false, true), Ok(()));
    assert_eq!(
        window_activated(Platform::Windows, true, false),
        Err("Cannot activate the requested window".to_string())
    );
    assert_eq!(
        window_activated(Platform::Linux, true, true),
        Err("Not supported on this platform".to_string())
    );
}
