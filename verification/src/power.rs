//! Sleep, wake-up and lock of the computer.

use vstd::prelude::*;

verus! {

/// What the user interface is told.
#[derive(Clone, Copy, Debug, PartialEq, Eq, Structural)]
pub enum PowerEvent {
    Suspend,
    Resume,
    Lock,
}

/// The name of an event.
pub open spec fn event_name(event: PowerEvent) -> Seq<char> {
    match event {
        PowerEvent::Suspend => "power-monitor-suspend"@,
        PowerEvent::Resume => "power-monitor-resume"@,
        PowerEvent::Lock => "os-lock"@,
    }
}

impl PowerEvent {
    /// The name of an event.
    pub fn name(self) -> (r: &'static str)
        ensures
            r@ == event_name(self),
    {
        match self {
            PowerEvent::Suspend => "power-monitor-suspend",
            PowerEvent::Resume => "power-monitor-resume",
            PowerEvent::Lock => "os-lock",
        }
    }
}

/// The message that the session ends.
pub const WM_ENDSESSION: u32 = 0x16;

/// The message about the power supply.
pub const WM_POWERBROADCAST: u32 = 0x218;

/// The message about the session.
pub const WM_WTSSESSION_CHANGE: u32 = 0x2b1;

/// The computer is about to sleep.
pub const PBT_APMSUSPEND: u32 = 4;

/// The computer has woken up.
pub const PBT_APMRESUMEAUTOMATIC: u32 = 18;

/// The session was locked.
pub const WTS_SESSION_LOCK: u32 = 7;

/// The lowest 32 bits of a parameter.
pub open spec fn low_word(parameter: u64) -> int {
    parameter as int % 0x1_0000_0000
}

/// The event that a message to a window stands for. Two windows listen; only the
/// first takes messages about the power supply, so that none is told twice.
pub open spec fn message_event(message: u32, parameter: u64, first_window: bool) -> Option<
    PowerEvent,
> {
    if message == WM_POWERBROADCAST && first_window {
        if low_word(parameter) == PBT_APMSUSPEND {
            Some(PowerEvent::Suspend)
        } else if low_word(parameter) == PBT_APMRESUMEAUTOMATIC {
            Some(PowerEvent::Resume)
        } else {
            None
        }
    } else if message == WM_WTSSESSION_CHANGE && low_word(parameter) == WTS_SESSION_LOCK {
        Some(PowerEvent::Lock)
    } else if message == WM_ENDSESSION && parameter != 0 {
        Some(PowerEvent::Lock)
    } else {
        None
    }
}

/// The event that a message to a window stands for, and whether the message is
/// answered here: the others go to the system.
pub fn window_proc(message: u32, parameter: u64, first_window: bool) -> (r: (
    Option<PowerEvent>,
    bool,
))
    ensures
        r.0 == message_event(message, parameter, first_window),
        r.1 == (message == WM_POWERBROADCAST),
{
    let word: u64 = parameter % 0x1_0000_0000;
    let event = if message == WM_POWERBROADCAST && first_window {
        if word == PBT_APMSUSPEND as u64 {
            Some(PowerEvent::Suspend)
        } else if word == PBT_APMRESUMEAUTOMATIC as u64 {
            Some(PowerEvent::Resume)
        } else {
            None
        }
    } else if message == WM_WTSSESSION_CHANGE && word == WTS_SESSION_LOCK as u64 {
        Some(PowerEvent::Lock)
    } else if message == WM_ENDSESSION && parameter != 0 {
        Some(PowerEvent::Lock)
    } else {
        None
    };
    (event, message == WM_POWERBROADCAST)
}

/// A message about the power supply is told once, though it goes to both windows.
pub proof fn law_power_is_told_once(parameter: u64)
    ensures
        message_event(WM_POWERBROADCAST, parameter, false) is None,
{
}

/// What to do with the status of taking a message from the queue.
#[derive(Clone, Copy, Debug, PartialEq, Eq, Structural)]
pub enum QueueStep {
    Dispatch,
    Quit,
    Fail,
}

/// What to do with the status of taking a message from the queue.
pub fn queue_step(status: i32) -> (r: QueueStep)
    ensures
        r == if status == -1 {
            QueueStep::Fail
        } else if status == 0 {
            QueueStep::Quit
        } else {
            QueueStep::Dispatch
        },
{
    if status == -1 {
        QueueStep::Fail
    } else if status == 0 {
        QueueStep::Quit
    } else {
        QueueStep::Dispatch
    }
}

/// What the system announces on macOS.
#[derive(Clone, Copy, Debug, PartialEq, Eq, Structural)]
pub enum Notification {
    WillSleep,
    DidWake,
    ScreenIsLocked,
}

/// The event that an announcement stands for. That only the display sleeps is none.
pub fn observed(notification: Notification) -> (r: PowerEvent)
    ensures
        r == match notification {
            Notification::WillSleep => PowerEvent::Suspend,
            Notification::DidWake => PowerEvent::Resume,
            Notification::ScreenIsLocked => PowerEvent::Lock,
        },
{
    match notification {
        Notification::WillSleep => PowerEvent::Suspend,
        Notification::DidWake => PowerEvent::Resume,
        Notification::ScreenIsLocked => PowerEvent::Lock,
    }
}

/// Sleep and wake-up come from messages about the power supply to the first window; a lock
/// comes from the session, to either window, when it is locked or ends. Only messages about
/// the power supply are answered here.
pub proof fn law_window_messages(
    message: u32,
    parameter: u64,
    first_window: bool,
    r: (Option<PowerEvent>, bool),
)
    requires
        call_ensures(window_proc, (message, parameter, first_window), r),
        parameter < 0x1_0000_0000,
    ensures
        r.0 == Some(PowerEvent::Suspend) <==> message == 0x218 && parameter == 4 && first_window,
        r.0 == Some(PowerEvent::Resume) <==> message == 0x218 && parameter == 18 && first_window,
        r.0 == Some(PowerEvent::Lock) <==> message == 0x2b1 && parameter == 7 || message == 0x16
            && parameter != 0,
        r.1 <==> message == 0x218,
{
}

/// Of the parameter, only the lowest 32 bits count, but for the end of the session.
pub proof fn law_low_word(
    message: u32,
    parameter: u64,
    other: u64,
    first_window: bool,
    r: (Option<PowerEvent>, bool),
    q: (Option<PowerEvent>, bool),
)
    requires
        call_ensures(window_proc, (message, parameter, first_window), r),
        call_ensures(window_proc, (message, other, first_window), q),
        parameter % 0x1_0000_0000 == other % 0x1_0000_0000,
        message != 0x16,
    ensures
        r == q,
{
}

/// The names of the events.
pub proof fn law_event_names(event: PowerEvent, r: &'static str)
    requires
        call_ensures(PowerEvent::name, (event,), r),
    ensures
        event is Suspend ==> r@ == "power-monitor-suspend"@,
        event is Resume ==> r@ == "power-monitor-resume"@,
        event is Lock ==> r@ == "os-lock"@,
{
}

/// What the system announces, and what becomes of a message in the queue.
pub proof fn law_announcements(
    notification: Notification,
    event: PowerEvent,
    status: i32,
    step: QueueStep,
)
    requires
        call_ensures(observed, (notification,), event),
        call_ensures(queue_step, (status,), step),
    ensures
        event is Suspend <==> notification is WillSleep,
        event is Resume <==> notification is DidWake,
        event is Lock <==> notification is ScreenIsLocked,
        step is Fail <==> status == -1,
        step is Quit <==> status == 0,
        step is Dispatch <==> status != -1 && status != 0,
{
}

} // verus!
