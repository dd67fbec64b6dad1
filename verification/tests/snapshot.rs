use lemonkee::platform::Platform;
use lemonkee::snapshot::{captured, dev_snapshot, enabled, Capture};

#[test]
fn when_pictures_are_taken() {
    assert!(enabled(true, false) && enabled(false, true) && !enabled(false, false));
    assert_eq!(dev_snapshot(Platform::MacOs, true), Ok(()));
    assert_eq!(
        dev_snapshot(Platform::MacOs, false),
        Err("dev_snapshot is only available in debug builds".to_string())
    );
    assert_eq!(
        dev_snapshot(Platform::Linux, true),
        Err("dev_snapshot is only implemented on macOS".to_string())
    );
}

#[test]
fn pictures() {
    assert_eq!(captured(Capture::Png(vec![1])), Ok(vec![1]));
    assert_eq!(captured(Capture::NoImage(Some("gone".to_string()))), Err("gone".to_string()));
    assert_eq!(captured(Capture::NoImage(None)), Err("snapshot failed".to_string()));
    assert_eq!(captured(Capture::Undecoded), Err("cannot decode snapshot".to_string()));
    assert_eq!(captured(Capture::Unencoded), Err("PNG encoding failed".to_string()));
    assert_eq!(captured(Capture::TimedOut), Err("snapshot timed out".to_string()));
}
