use lemonkee::ext_process::{
    behind_shell, browser_name, parse_ps, parse_wmic, process_info, process_query, with_initial,
    ProcessInfo,
};
use lemonkee::platform::Platform;

#[test]
fn questions_about_processes() {
    assert_eq!(
        process_query(Platform::MacOs, 42),
        Some(vec!["-opid=,ppid=,comm=".to_string(), "-p".to_string(), "42".to_string()])
    );
    assert_eq!(
        process_query(Platform::Windows, 42).unwrap(),
        vec![
            "process",
            "where",
            "ProcessId=42",
            "get",
            "ProcessId,ParentProcessId,ExecutablePath",
            "/format:value"
        ]
    );
    assert_eq!(process_query(Platform::Unix, 42), process_query(Platform::MacOs, 42));
    assert_eq!(process_query(Platform::Linux, 42), process_query(Platform::MacOs, 42));
    assert_eq!(process_query(Platform::Other, 42), None);
}

#[test]
fn lines_of_ps() {
    assert_eq!(
        parse_ps("  312     1 /Applications/Google Chrome.app/Contents/MacOS/Google Chrome\n", 312),
        Ok("Google Chrome".to_string())
    );
    assert_eq!(parse_ps("5 1 firefox", 5), Ok("firefox".to_string()));
    assert_eq!(parse_ps("", 5), Err("Bad PS output".to_string()));
    assert_eq!(parse_ps("5 1", 5), Err("Bad PS output".to_string()));
    assert_eq!(parse_ps("6 1 firefox", 5), Err("PID mismatch in PS output".to_string()));
    assert_eq!(parse_ps("x 1 firefox", 5), Err("PID mismatch in PS output".to_string()));
    assert_eq!(parse_ps("4294967296 1 firefox", 0), Err("PID mismatch in PS output".to_string()));
    assert_eq!(parse_ps("5 1 /usr/bin/", 5), Err("Missing process name".to_string()));
}

#[test]
fn lines_of_wmic() {
    let output = "\r\r\n\r\r\nExecutablePath=\"C:\\Program Files\\Google\\Chrome.EXE\"\r\r\nParentProcessId=77\r\r\nProcessId=42\r\r\n";
    let info = parse_wmic(output, 42).unwrap_or_else(|e| panic!("{e}"));
    assert_eq!((info.app_name.as_str(), info.ppid), ("Chrome", 77));
    let message = Some("Cannot identify browser process".to_string());
    assert_eq!(parse_wmic(output, 43).err(), message);
    assert_eq!(parse_wmic("ProcessId=42\n", 42).err(), message);
    assert_eq!(parse_wmic("ProcessId=x\nExecutablePath=a", 0).err(), message);
    let info = parse_wmic("ProcessId=1\nParentProcessId=?\nExecutablePath=a.exe.exe\nOther=5\nnothing", 1)
        .unwrap_or_else(|e| panic!("{e}"));
    assert_eq!((info.app_name.as_str(), info.ppid), ("a.exe", 0));
    let later = parse_wmic("ProcessId=2\nProcessId=1\nExecutablePath=a\nExecutablePath=b", 1)
        .unwrap_or_else(|e| panic!("{e}"));
    assert_eq!(later.app_name, "b");
}

#[test]
fn processes_by_platform() {
    let name = |platform, output: &[u8]| process_info(platform, &output.to_vec(), 5).map(|info| info.app_name);
    assert_eq!(name(Platform::Linux, b"5 1 /opt/f\xffx"), Ok("f\u{fffd}x".to_string()));
    assert_eq!(name(Platform::Windows, b"ProcessId=5\nExecutablePath=e.exe"), Ok("e".to_string()));
    assert_eq!(name(Platform::Unix, b"5 1 /usr/local/bin/firefox"), Ok("firefox".to_string()));
    assert_eq!(name(Platform::Other, b"5 1 x"), Err("Not supported on this platform".to_string()));
    assert_eq!(name(Platform::MacOs, b"7 1 x"), Err("PID mismatch in PS output".to_string()));
}

#[test]
fn browsers_behind_a_shell() {
    let info = |name: &str| ProcessInfo { app_name: name.to_string(), ppid: 9 };
    assert_eq!(behind_shell(Platform::Windows, &info("cmd")), Some(9));
    assert_eq!(behind_shell(Platform::Windows, &info("chrome")), None);
    assert_eq!(behind_shell(Platform::Linux, &info("cmd")), None);
}

#[test]
fn names_of_browsers() {
    let name = |process: &str| browser_name(Some(process.to_string()));
    assert_eq!(name("msedge"), "Microsoft Edge");
    assert_eq!(name("chrome"), "Google Chrome");
    assert_eq!(name("firefox"), "Firefox");
    assert_eq!(name("\u{df}x"), "SSx");
    assert_eq!(name(""), "");
    assert_eq!(browser_name(None), "Unidentified browser");
    assert_eq!(with_initial("AB", "xyz"), "AByz");
}
