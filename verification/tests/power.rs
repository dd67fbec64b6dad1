use lemonkee::power::{observed, queue_step, window_proc, Notification, PowerEvent, QueueStep};

#[test]
fn messages_of_windows() {
    assert_eq!(window_proc(0x218, 4, true), (Some(PowerEvent::Suspend), true));
    assert_eq!(window_proc(0x218, 18, true), (Some(PowerEvent::Resume), true));
    assert_eq!(window_proc(0x218, 0x1_0000_0004, true), (Some(PowerEvent::Suspend), true));
    assert_eq!(window_proc(0x218, 10, true), (None, true));
    assert_eq!(window_proc(0x218, 4, false), (None, true));
    assert_eq!(window_proc(0x2b1, 7, false), (Some(PowerEvent::Lock), false));
    assert_eq!(window_proc(0x2b1, 8, true), (None, false));
    assert_eq!(window_proc(0x16, 1, false), (Some(PowerEvent::Lock), false));
    assert_eq!(window_proc(0x16, 0, false), (None, false));
    assert_eq!(window_proc(0x10, 4, true), (None, false));
}

#[test]
fn steps_of_the_queue() {
    assert_eq!(queue_step(-1), QueueStep::Fail);
    assert_eq!(queue_step(0), QueueStep::Quit);
    assert_eq!(queue_step(1), QueueStep::Dispatch);
    assert_eq!(queue_step(-2), QueueStep::Dispatch);
}

#[test]
fn announcements_of_macos() {
    assert_eq!(observed(Notification::WillSleep).name(), "power-monitor-suspend");
    assert_eq!(observed(Notification::DidWake).name(), "power-monitor-resume");
    assert_eq!(observed(Notification::ScreenIsLocked).name(), "os-lock");
}
