//! The shell as a whole: how it is started, what it tells the user interface and when
//! it ends.

use std::collections::VecDeque;

use vstd::prelude::*;

use crate::json;
use crate::platform::{Arch, Platform};
use crate::shortcuts;
use crate::text;

verus! {

// ---------------------------------------------------------------------------
// Startup
// ---------------------------------------------------------------------------

/// What the user interface is told about how the shell was started.
pub struct StartupInfo {
    pub platform: &'static str,
    pub arch: &'static str,
    pub version: &'static str,
    pub open_file: Option<String>,
    pub open_keyfile: Option<String>,
    pub start_minimized: bool,
    pub dev_mode: bool,
}

/// The name of a platform.
pub open spec fn platform_text(platform: Platform) -> Seq<char> {
    match platform {
        Platform::MacOs => "darwin"@,
        Platform::Windows => "win32"@,
        _ => "linux"@,
    }
}

/// The name of a processor family.
pub open spec fn arch_text(arch: Arch) -> Seq<char> {
    match arch {
        Arch::Arm64 => "arm64"@,
        Arch::X86 => "ia32"@,
        _ => "x64"@,
    }
}

/// Whether an argument names a database. An option does not, whatever it ends with.
pub open spec fn is_database(arg: Seq<char>) -> bool {
    text::ends(text::lowered(arg), ".kdbx"@) && !text::begins(arg, "--"@)
}

/// The first database that some arguments name.
pub open spec fn first_database(args: Seq<Seq<char>>) -> Option<Seq<char>>
    decreases args.len(),
{
    if args.len() == 0 {
        None
    } else if is_database(args[0]) {
        Some(args[0])
    } else {
        first_database(args.drop_first())
    }
}

/// The first key file that some arguments name.
pub open spec fn first_keyfile(args: Seq<Seq<char>>) -> Option<Seq<char>>
    decreases args.len(),
{
    if args.len() == 0 {
        None
    } else if text::begins(args[0], "--keyfile="@) {
        Some(args[0].skip("--keyfile="@.len() as int))
    } else {
        first_keyfile(args.drop_first())
    }
}

/// Whether some arguments ask to start without a window.
pub open spec fn asks_minimized(args: Seq<Seq<char>>) -> bool {
    exists|i: int| 0 <= i < args.len() && text::begins(#[trigger] args[i], "--minimized"@)
}

fn names_database(arg: &str) -> (r: bool)
    ensures
        r == is_database(arg@),
{
    text::ends_with(text::lower(arg).as_str(), ".kdbx") && !text::starts_with(arg, "--")
}

fn find_database(args: &Vec<String>) -> (r: Option<String>)
    ensures
        text::opt_text(r) == if args@.len() == 0 {
            None
        } else {
            first_database(text::texts(args@).drop_first())
        },
{
    if args.len() == 0 {
        return None;
    }
    let ghost all = text::texts(args@);
    let mut i: usize = 1;
    assert(all.drop_first() =~= all.skip(1));
    while i < args.len()
        invariant
            1 <= i <= args@.len(),
            all == text::texts(args@),
            first_database(all.drop_first()) == first_database(all.skip(i as int)),
        decreases args@.len() - i,
    {
        assert(all.skip(i as int)[0] == args@[i as int]@);
        if names_database(args[i].as_str()) {
            return Some(args[i].as_str().to_owned());
        }
        assert(all.skip(i as int).drop_first() =~= all.skip(i + 1));
        i += 1;
    }
    None
}

fn find_keyfile(args: &Vec<String>) -> (r: Option<String>)
    ensures
        text::opt_text(r) == first_keyfile(text::texts(args@)),
{
    let ghost all = text::texts(args@);
    let mut i: usize = 0;
    assert(all.skip(0) =~= all);
    while i < args.len()
        invariant
            i <= args@.len(),
            all == text::texts(args@),
            first_keyfile(all) == first_keyfile(all.skip(i as int)),
        decreases args@.len() - i,
    {
        assert(all.skip(i as int)[0] == args@[i as int]@);
        if let Some(file) = text::strip_prefix(args[i].as_str(), "--keyfile=") {
            return Some(file);
        }
        assert(all.skip(i as int).drop_first() =~= all.skip(i + 1));
        i += 1;
    }
    None
}

fn find_minimized(args: &Vec<String>) -> (r: bool)
    ensures
        r == asks_minimized(text::texts(args@)),
{
    let ghost all = text::texts(args@);
    let mut i: usize = 0;
    while i < args.len()
        invariant
            i <= args@.len(),
            all == text::texts(args@),
            forall|k: int| 0 <= k < i ==> !text::begins(#[trigger] all[k], "--minimized"@),
        decreases args@.len() - i,
    {
        if text::starts_with(args[i].as_str(), "--minimized") {
            assert(text::begins(all[i as int], "--minimized"@));
            return true;
        }
        i += 1;
    }
    false
}

impl StartupInfo {
    /// What the arguments of the program say. The first of them is the program itself,
    /// and no database.
    pub fn from_args(
        args: &Vec<String>,
        platform: Platform,
        arch: Arch,
        version: &'static str,
        debug: bool,
    ) -> (r: StartupInfo)
        ensures
            r.platform@ == platform_text(platform),
            r.arch@ == arch_text(arch),
            r.version == version,
            text::opt_text(r.open_file) == if args@.len() == 0 {
                None
            } else {
                first_database(text::texts(args@).drop_first())
            },
            text::opt_text(r.open_keyfile) == first_keyfile(text::texts(args@)),
            r.start_minimized == asks_minimized(text::texts(args@)),
            r.dev_mode == debug,
    {
        StartupInfo {
            platform: match platform {
                Platform::MacOs => "darwin",
                Platform::Windows => "win32",
                _ => "linux",
            },
            arch: match arch {
                Arch::Arm64 => "arm64",
                Arch::X86 => "ia32",
                _ => "x64",
            },
            version,
            open_file: find_database(args),
            open_keyfile: find_keyfile(args),
            start_minimized: find_minimized(args),
            dev_mode: debug,
        }
    }
}

/// A database to open, and the key file that goes with it.
pub struct OpenFile {
    pub file: String,
    pub key: Option<String>,
}

/// What another start of the program asks the one that runs to open: nothing without a
/// database, even if there is a key file.
pub fn second_instance(startup: StartupInfo) -> (r: Option<OpenFile>)
    ensures
        match (startup.open_file, r) {
            (Some(file), Some(open)) => open.file == file && open.key == startup.open_keyfile,
            (None, None) => true,
            _ => false,
        },
{
    match startup.open_file {
        Some(file) => Some(OpenFile { file, key: startup.open_keyfile }),
        None => None,
    }
}

/// Whether a file that the system asks to open is a database, by its extension.
pub fn opens_database(extension: Option<&str>) -> (r: bool)
    ensures
        r == match extension {
            Some(extension) => text::lowered(extension@) == "kdbx"@,
            None => false,
        },
{
    match extension {
        Some(extension) => text::same_text(text::lower(extension).as_str(), "kdbx"),
        None => false,
    }
}

/// The line for a message of the user interface.
pub fn dev_log(level: &str, message: &str) -> (r: String)
    ensures
        r@ == "[js:"@ + level@ + "] "@ + message@,
{
    let mut line = text::concat3("[js:", level, "] ");
    line.append(message);
    line
}

/// The shortcuts that the settings give to some actions.
pub open spec fn settings_shortcuts(actions: Seq<shortcuts::Action>, settings: Seq<u8>) -> Seq<
    (Seq<char>, Option<Seq<char>>),
> {
    actions.map_values(
        |action: shortcuts::Action|
            (
                action.key_text(),
                json::as_text(json::member_of(settings, action.setting_text())),
            ),
    )
}

/// Shortcuts by name.
pub open spec fn shortcut_texts(entries: Seq<(String, Option<String>)>) -> Seq<
    (Seq<char>, Option<Seq<char>>),
> {
    entries.map_values(|entry: (String, Option<String>)| (entry.0@, text::opt_text(entry.1)))
}

proof fn lemma_settings_are_plain(action: shortcuts::Action)
    ensures
        json::is_plain_name(action.setting_text()),
{
    reveal_strlit("globalShortcutAutoType");
    reveal_strlit("globalShortcutCopyPassword");
    reveal_strlit("globalShortcutCopyUser");
    reveal_strlit("globalShortcutCopyUrl");
    reveal_strlit("globalShortcutCopyOtp");
    reveal_strlit("globalShortcutRestoreApp");
}

/// The shortcuts in the settings. Settings that cannot be read have none.
pub fn configured_shortcuts(settings: &[u8]) -> (r: Vec<(String, Option<String>)>)
    ensures
        shortcut_texts(r@) == settings_shortcuts(shortcuts::all_actions(), settings@),
{
    let actions = shortcuts::actions();
    let mut r: Vec<(String, Option<String>)> = Vec::new();
    let mut i: usize = 0;
    while i < actions.len()
        invariant
            i <= actions@.len(),
            shortcut_texts(r@) =~= settings_shortcuts(actions@.take(i as int), settings@),
        decreases actions@.len() - i,
    {
        let action = actions[i];
        proof {
            lemma_settings_are_plain(action);
        }
        let value = json::text_member(settings, action.setting());
        let ghost before = r@;
        let entry = (action.key().to_owned(), value);
        let ghost model = (entry.0@, text::opt_text(entry.1));
        r.push(entry);
        assert(shortcut_texts(r@) =~= shortcut_texts(before).push(model));
        assert(actions@.take(i + 1) =~= actions@.take(i as int).push(action));
        i += 1;
    }
    assert(actions@.take(i as int) =~= actions@);
    r
}

// ---------------------------------------------------------------------------
// Events
// ---------------------------------------------------------------------------

/// How many events wait for the user interface at most.
pub const PENDING_LIMIT: usize = 32;

/// Events that wait until the user interface can take them. `T` stands for an event.
pub struct PendingEvents<T> {
    queue: VecDeque<T>,
}

/// The events that wait after one more: the oldest has to go if there are too many.
pub open spec fn queued<T>(events: Seq<T>, event: T) -> Seq<T> {
    if events.len() == 32 {
        events.skip(1).push(event)
    } else {
        events.push(event)
    }
}

/// Whether an event has to wait: not a line for the log, and else as long as there is
/// nobody to take it.
pub open spec fn has_to_wait(name: Seq<char>, managed: bool, ready: bool, main_window: bool) -> bool {
    name != "log"@ && managed && (!ready || !main_window)
}

impl<T> PendingEvents<T> {
    /// The events that wait, the oldest first.
    pub closed spec fn events(self) -> Seq<T> {
        self.queue@
    }

    /// There are never more events than the limit.
    pub open spec fn wf(self) -> bool {
        self.events().len() <= PENDING_LIMIT
    }

    /// No event waits.
    pub fn new() -> (r: PendingEvents<T>)
        ensures
            r.wf(),
            r.events() == Seq::<T>::empty(),
    {
        PendingEvents { queue: VecDeque::new() }
    }

    /// Takes an event, and hands it back if it is to be emitted at once. `managed`
    /// tells that the shell has been set up, `ready` that the user interface takes
    /// events.
    pub fn emit_app_event(
        &mut self,
        name: &str,
        event: T,
        managed: bool,
        ready: bool,
        main_window: bool,
    ) -> (r: Option<T>)
        requires
            old(self).wf(),
        ensures
            final(self).wf(),
            if has_to_wait(name@, managed, ready, main_window) {
                r is None && final(self).events() == queued(old(self).events(), event)
            } else {
                r == Some(event) && final(self).events() == old(self).events()
            },
    {
        if !text::same_text(name, "log") && managed && (!ready || !main_window) {
            if self.queue.len() == PENDING_LIMIT {
                self.queue.pop_front();
                assert(self.queue@ =~= old(self).queue@.skip(1));
            }
            self.queue.push_back(event);
            return None;
        }
        Some(event)
    }

    /// Hands out the events that wait, the oldest first, once the user interface can
    /// take them.
    pub fn take_all(&mut self) -> (r: Vec<T>)
        requires
            old(self).wf(),
        ensures
            r@ == old(self).events(),
            final(self).events() == Seq::<T>::empty(),
            final(self).wf(),
    {
        let mut events: Vec<T> = Vec::new();
        let ghost all = self.queue@;
        assert(events@ + self.queue@ =~= all);
        loop
            invariant
                events@ + self.queue@ == all,
            ensures
                self.queue@.len() == 0,
            decreases self.queue@.len(),
        {
            match self.queue.pop_front() {
                Some(event) => {
                    events.push(event);
                    assert(events@ + self.queue@ =~= all);
                },
                None => {
                    break;
                },
            }
        }
        assert(events@ =~= all);
        assert(self.queue@ =~= Seq::empty());
        events
    }
}

/// The events that wait after a number of events.
pub open spec fn queued_all<T>(events: Seq<T>) -> Seq<T>
    decreases events.len(),
{
    if events.len() == 0 {
        Seq::empty()
    } else {
        queued(queued_all(events.drop_last()), events.last())
    }
}

/// What waits are the latest events, all of them if they are not too many, in the
/// order in which they happened.
pub proof fn law_latest_events_wait<T>(events: Seq<T>)
    ensures
        events.len() <= 32 ==> queued_all(events) == events,
        events.len() > 32 ==> queued_all(events) == events.skip(events.len() - 32),
    decreases events.len(),
{
    if events.len() > 0 {
        law_latest_events_wait(events.drop_last());
        if events.len() <= 32 {
            assert(events.drop_last().push(events.last()) =~= events);
        } else if events.len() == 33 {
            assert(events.drop_last().skip(1).push(events.last()) =~= events.skip(1));
        } else {
            let kept = events.drop_last().skip(events.len() - 33);
            assert(kept.skip(1).push(events.last()) =~= events.skip(events.len() - 32));
        }
    } else {
        assert(queued_all(events) =~= events);
    }
}

// ---------------------------------------------------------------------------
// The end
// ---------------------------------------------------------------------------

/// The state of the shell, as far as it decides what happens.
#[derive(Clone, Copy, Debug, PartialEq, Eq, Structural)]
pub struct Shell {
    /// There is an icon in the tray.
    pub tray: bool,
    /// The user interface wants to be asked before the shell ends.
    pub hook_before_quit: bool,
    /// It has been decided that the shell ends.
    pub exit_requested: bool,
    /// The window is hidden, with an icon in the tray to bring it back.
    pub hidden_in_tray: bool,
    /// Databases are open.
    pub has_open_files: bool,
    /// The user interface takes events.
    pub window_ready: bool,
    /// The user interface has read how the shell was started.
    pub startup_info_read: bool,
}

impl Shell {
    /// The state at the start.
    pub fn new() -> (r: Shell)
        ensures
            r == (Shell {
                tray: false,
                hook_before_quit: false,
                exit_requested: false,
                hidden_in_tray: false,
                has_open_files: false,
                window_ready: false,
                startup_info_read: false,
            }),
    {
        Shell {
            tray: false,
            hook_before_quit: false,
            exit_requested: false,
            hidden_in_tray: false,
            has_open_files: false,
            window_ready: false,
            startup_info_read: false,
        }
    }

    /// Whether the user interface wants to be asked before the shell ends.
    pub fn set_hook_before_quit(&mut self, hooked: bool)
        ensures
            *final(self) == (Shell { hook_before_quit: hooked, ..*old(self) }),
    {
        self.hook_before_quit = hooked;
    }
}

/// What to do when the program is about to end.
#[derive(Clone, Copy, Debug, PartialEq, Eq, Structural)]
pub enum ExitStep {
    /// Go on running.
    Stay,
    /// Go on running, and ask the user interface.
    Ask,
    /// Save where the window is, and end.
    SavePosition,
    /// End.
    Leave,
}

/// What to do when the program is about to end. `coded` tells that it ends with a code,
/// and not because its last window was closed. A program with an icon in the tray goes
/// on without a window.
pub open spec fn exit_step(shell: Shell, coded: bool, main_window: bool) -> ExitStep {
    if !shell.exit_requested && !coded && shell.tray {
        ExitStep::Stay
    } else if shell.hook_before_quit && !shell.exit_requested {
        ExitStep::Ask
    } else if main_window {
        ExitStep::SavePosition
    } else {
        ExitStep::Leave
    }
}

/// What to do when the program is about to end.
pub fn exit_requested(shell: &Shell, coded: bool, main_window: bool) -> (r: ExitStep)
    ensures
        r == exit_step(*shell, coded, main_window),
{
    if !shell.exit_requested && !coded && shell.tray {
        ExitStep::Stay
    } else if shell.hook_before_quit && !shell.exit_requested {
        ExitStep::Ask
    } else if main_window {
        ExitStep::SavePosition
    } else {
        ExitStep::Leave
    }
}

/// Once it has been decided that the shell ends, nothing keeps it.
pub proof fn law_decided_exit_is_kept(shell: Shell, coded: bool, main_window: bool)
    requires
        shell.exit_requested,
    ensures
        exit_step(shell, coded, main_window) is SavePosition || exit_step(
            shell,
            coded,
            main_window,
        ) is Leave,
{
}

/// A user interface that wants to be asked is asked, or the shell stays, before it is
/// decided that the shell ends.
pub proof fn law_user_interface_is_asked(shell: Shell, coded: bool, main_window: bool)
    requires
        shell.hook_before_quit,
        !shell.exit_requested,
    ensures
        exit_step(shell, coded, main_window) is Stay || exit_step(shell, coded, main_window) is Ask,
{
}

/// Whether the item of a menu that was chosen ends the program.
pub fn menu_quits(id: &str) -> (r: bool)
    ensures
        r == (id@ == "app-quit"@),
{
    text::same_text(id, "app-quit")
}

// ---------------------------------------------------------------------------
// What the operations do
// ---------------------------------------------------------------------------

proof fn lemma_first_database(args: Seq<Seq<char>>)
    ensures
        match first_database(args) {
            Some(file) => exists|i: int|
                0 <= i < args.len() && #[trigger] args[i] == file && is_database(args[i])
                    && forall|k: int| 0 <= k < i ==> !is_database(#[trigger] args[k]),
            None => forall|k: int| 0 <= k < args.len() ==> !is_database(#[trigger] args[k]),
        },
    decreases args.len(),
{
    if args.len() > 0 && is_database(args[0]) {
        assert(args[0] == first_database(args)->Some_0);
    } else if args.len() > 0 {
        let rest = args.drop_first();
        lemma_first_database(rest);
        match first_database(rest) {
            Some(file) => {
                let i = choose|i: int|
                    0 <= i < rest.len() && #[trigger] rest[i] == file && is_database(rest[i])
                        && forall|k: int| 0 <= k < i ==> !is_database(#[trigger] rest[k]);
                assert(args[i + 1] == rest[i]);
                assert forall|k: int| 0 <= k < i + 1 implies !is_database(#[trigger] args[k]) by {
                    if k > 0 {
                        assert(rest[k - 1] == args[k]);
                    }
                }
            },
            None => {
                assert forall|k: int| 0 <= k < args.len() implies !is_database(#[trigger] args[k]) by {
                    if k > 0 {
                        assert(rest[k - 1] == args[k]);
                    }
                }
            },
        }
    }
}

proof fn lemma_first_keyfile(args: Seq<Seq<char>>)
    ensures
        match first_keyfile(args) {
            Some(file) => exists|i: int|
                0 <= i < args.len() && #[trigger] args[i] == "--keyfile="@ + file && forall|k: int|
                    0 <= k < i ==> !text::begins(#[trigger] args[k], "--keyfile="@),
            None => forall|k: int|
                0 <= k < args.len() ==> !text::begins(#[trigger] args[k], "--keyfile="@),
        },
    decreases args.len(),
{
    let option = "--keyfile="@;
    if args.len() > 0 && text::begins(args[0], option) {
        assert(args[0] =~= option + args[0].skip(option.len() as int)) by {
            assert(args[0].subrange(0, option.len() as int) =~= args[0].take(option.len() as int));
        }
    } else if args.len() > 0 {
        let rest = args.drop_first();
        lemma_first_keyfile(rest);
        match first_keyfile(rest) {
            Some(file) => {
                let i = choose|i: int|
                    0 <= i < rest.len() && #[trigger] rest[i] == option + file && forall|k: int|
                        0 <= k < i ==> !text::begins(#[trigger] rest[k], option);
                assert(args[i + 1] == rest[i]);
                assert forall|k: int| 0 <= k < i + 1 implies !text::begins(#[trigger] args[k], option) by {
                    if k > 0 {
                        assert(rest[k - 1] == args[k]);
                    }
                }
            },
            None => {
                assert forall|k: int| 0 <= k < args.len() implies !text::begins(
                    #[trigger] args[k],
                    option,
                ) by {
                    if k > 0 {
                        assert(rest[k - 1] == args[k]);
                    }
                }
            },
        }
    }
}

/// An argument that names a database: it ends with `.kdbx` in any case, and is no option.
pub open spec fn names_kdbx(arg: Seq<char>) -> bool {
    &&& arg.len() >= 5
    &&& arg[arg.len() - 5] == '.'
    &&& arg[arg.len() - 4] == 'k' || arg[arg.len() - 4] == 'K'
    &&& arg[arg.len() - 3] == 'd' || arg[arg.len() - 3] == 'D'
    &&& arg[arg.len() - 2] == 'b' || arg[arg.len() - 2] == 'B'
    &&& arg[arg.len() - 1] == 'x' || arg[arg.len() - 1] == 'X'
    &&& !(arg[0] == '-' && arg[1] == '-')
}

proof fn lemma_is_database(arg: Seq<char>)
    ensures
        is_database(arg) <==> names_kdbx(arg),
{
    reveal_strlit(".kdbx");
    reveal_strlit("--");
    let low = text::lowered(arg);
    if arg.len() >= 5 {
        let n = arg.len();
        let tail = low.subrange(n - 5, n as int);
        assert(tail[0] == text::ascii_lower(arg[n - 5]));
        assert(tail[1] == text::ascii_lower(arg[n - 4]));
        assert(tail[2] == text::ascii_lower(arg[n - 3]));
        assert(tail[3] == text::ascii_lower(arg[n - 2]));
        assert(tail[4] == text::ascii_lower(arg[n - 1]));
        assert(".kdbx"@ =~= seq!['.', 'k', 'd', 'b', 'x']);
        if names_kdbx(arg) {
            assert(tail =~= ".kdbx"@);
        }
        let head = arg.subrange(0, 2);
        assert("--"@ =~= seq!['-', '-']);
        assert(head == "--"@ <==> arg[0] == '-' && arg[1] == '-') by {
            if arg[0] == '-' && arg[1] == '-' {
                assert(head =~= "--"@);
            }
            assert(head[0] == arg[0] && head[1] == arg[1]);
        }
    }
}

/// The database to open is the first argument after the program that names one; the key
/// file is what follows the first option for it, wherever that stands; and the window
/// starts minimized if any argument asks for it.
pub proof fn law_arguments(
    args: &Vec<String>,
    platform: Platform,
    arch: Arch,
    version: &'static str,
    debug: bool,
    r: StartupInfo,
)
    requires
        call_ensures(StartupInfo::from_args, (args, platform, arch, version, debug), r),
    ensures
        r.open_file matches Some(file) ==> exists|i: int|
            0 < i < args@.len() && (#[trigger] args@[i])@ == file@ && names_kdbx(args@[i]@)
                && forall|k: int| 0 < k < i ==> !names_kdbx((#[trigger] args@[k])@),
        r.open_file is None ==> forall|k: int|
            0 < k < args@.len() ==> !names_kdbx((#[trigger] args@[k])@),
        r.open_keyfile matches Some(file) ==> exists|i: int|
            0 <= i < args@.len() && (#[trigger] args@[i])@ == "--keyfile="@ + file@ && forall|k: int|
                0 <= k < i ==> !"--keyfile="@.is_prefix_of((#[trigger] args@[k])@),
        r.open_keyfile is None ==> forall|k: int|
            0 <= k < args@.len() ==> !"--keyfile="@.is_prefix_of((#[trigger] args@[k])@),
        r.start_minimized <==> exists|i: int|
            0 <= i < args@.len() && "--minimized"@.is_prefix_of((#[trigger] args@[i])@),
        r.version == version,
        r.dev_mode == debug,
{
    let all = text::texts(args@);
    assert forall|k: int| 0 <= k < args@.len() implies #[trigger] all[k] == args@[k]@ && (
    "--keyfile="@.is_prefix_of(all[k]) <==> text::begins(all[k], "--keyfile="@)) && (
    "--minimized"@.is_prefix_of(all[k]) <==> text::begins(all[k], "--minimized"@)) && (names_kdbx(
        all[k],
    ) <==> is_database(all[k])) by {
        text::law_ends_of_a_text(all[k], "--keyfile="@);
        text::law_ends_of_a_text(all[k], "--minimized"@);
        lemma_is_database(all[k]);
    }
    lemma_first_keyfile(all);
    match r.open_keyfile {
        Some(file) => {
            let i = choose|i: int|
                0 <= i < all.len() && #[trigger] all[i] == "--keyfile="@ + file@ && forall|k: int|
                    0 <= k < i ==> !text::begins(#[trigger] all[k], "--keyfile="@);
            assert(args@[i]@ == all[i]);
            assert forall|k: int| 0 <= k < i implies !"--keyfile="@.is_prefix_of(
                (#[trigger] args@[k])@,
            ) by {
                assert(all[k] == args@[k]@);
            }
        },
        None => {
            assert forall|k: int| 0 <= k < args@.len() implies !"--keyfile="@.is_prefix_of(
                (#[trigger] args@[k])@,
            ) by {
                assert(all[k] == args@[k]@);
            }
        },
    }
    if args@.len() > 0 {
        let rest = all.drop_first();
        lemma_first_database(rest);
        match r.open_file {
            Some(file) => {
                let i = choose|i: int|
                    0 <= i < rest.len() && #[trigger] rest[i] == file@ && is_database(rest[i])
                        && forall|k: int| 0 <= k < i ==> !is_database(#[trigger] rest[k]);
                assert(all[i + 1] == rest[i]);
                assert(args@[i + 1]@ == file@);
                assert forall|k: int| 0 < k < i + 1 implies !names_kdbx((#[trigger] args@[k])@) by {
                    assert(all[k] == args@[k]@);
                    assert(rest[k - 1] == all[k]);
                }
            },
            None => {
                assert forall|k: int| 0 < k < args@.len() implies !names_kdbx(
                    (#[trigger] args@[k])@,
                ) by {
                    assert(all[k] == args@[k]@);
                    assert(rest[k - 1] == all[k]);
                }
            },
        }
    }
    if r.start_minimized {
        let i = choose|i: int| 0 <= i < all.len() && text::begins(#[trigger] all[i], "--minimized"@);
        assert(args@[i]@ == all[i]);
    }
    if exists|i: int| 0 <= i < args@.len() && "--minimized"@.is_prefix_of((#[trigger] args@[i])@) {
        let i = choose|i: int|
            0 <= i < args@.len() && "--minimized"@.is_prefix_of((#[trigger] args@[i])@);
        assert(all[i] == args@[i]@);
    }
}

/// How the user interface calls the platform and the processor.
pub proof fn law_machine_names(
    args: &Vec<String>,
    platform: Platform,
    arch: Arch,
    version: &'static str,
    debug: bool,
    r: StartupInfo,
)
    requires
        call_ensures(StartupInfo::from_args, (args, platform, arch, version, debug), r),
    ensures
        platform is MacOs ==> r.platform@ == "darwin"@,
        platform is Windows ==> r.platform@ == "win32"@,
        !(platform is MacOs || platform is Windows) ==> r.platform@ == "linux"@,
        arch is Arm64 ==> r.arch@ == "arm64"@,
        arch is X86 ==> r.arch@ == "ia32"@,
        !(arch is Arm64 || arch is X86) ==> r.arch@ == "x64"@,
{
}

/// A second start opens the database that it names, with the key file that it names, and
/// nothing if it names no database.
pub proof fn law_second_start(startup: StartupInfo, r: Option<OpenFile>)
    requires
        call_ensures(second_instance, (startup,), r),
    ensures
        r is Some <==> startup.open_file is Some,
        r matches Some(open) ==> Some(open.file) == startup.open_file && open.key
            == startup.open_keyfile,
{
}

/// A file is opened by its extension, in any case.
pub proof fn law_extension(extension: Option<&str>, r: bool)
    requires
        call_ensures(opens_database, (extension,), r),
    ensures
        r <==> extension is Some && ({
            let e = extension->Some_0@;
            &&& e.len() == 4
            &&& e[0] == 'k' || e[0] == 'K'
            &&& e[1] == 'd' || e[1] == 'D'
            &&& e[2] == 'b' || e[2] == 'B'
            &&& e[3] == 'x' || e[3] == 'X'
        }),
{
    reveal_strlit("kdbx");
    assert("kdbx"@ =~= seq!['k', 'd', 'b', 'x']);
    if let Some(extension) = extension {
        let e = extension@;
        let low = text::lowered(e);
        if e.len() == 4 {
            assert(low[0] == text::ascii_lower(e[0]) && low[1] == text::ascii_lower(e[1]) && low[2]
                == text::ascii_lower(e[2]) && low[3] == text::ascii_lower(e[3]));
            if (e[0] == 'k' || e[0] == 'K') && (e[1] == 'd' || e[1] == 'D') && (e[2] == 'b' || e[2]
                == 'B') && (e[3] == 'x' || e[3] == 'X') {
                assert(low =~= "kdbx"@);
            }
        } else {
            assert(low.len() == e.len());
        }
    }
}

/// The shortcut of each action comes from the setting of that action, if it is text.
pub proof fn law_shortcuts_come_from_their_settings(
    settings: &[u8],
    r: Vec<(String, Option<String>)>,
)
    requires
        call_ensures(configured_shortcuts, (settings,), r),
    ensures
        ({
            let entry = |i: int, key: Seq<char>, setting: Seq<char>|
                r@[i].0@ == key && text::opt_text(r@[i].1) == json::as_text(
                    json::member_of(settings@, setting),
                );
            &&& r@.len() == 6
            &&& entry(0, "autoType"@, "globalShortcutAutoType"@)
            &&& entry(1, "copyPassword"@, "globalShortcutCopyPassword"@)
            &&& entry(2, "copyUser"@, "globalShortcutCopyUser"@)
            &&& entry(3, "copyUrl"@, "globalShortcutCopyUrl"@)
            &&& entry(4, "copyOtp"@, "globalShortcutCopyOtp"@)
            &&& entry(5, "restoreApp"@, "globalShortcutRestoreApp"@)
        }),
{
    let all = shortcut_texts(r@);
    assert(all.len() == r@.len());
    assert(all[0] == (r@[0].0@, text::opt_text(r@[0].1)));
    assert(all[1] == (r@[1].0@, text::opt_text(r@[1].1)));
    assert(all[2] == (r@[2].0@, text::opt_text(r@[2].1)));
    assert(all[3] == (r@[3].0@, text::opt_text(r@[3].1)));
    assert(all[4] == (r@[4].0@, text::opt_text(r@[4].1)));
    assert(all[5] == (r@[5].0@, text::opt_text(r@[5].1)));
}

/// An event waits exactly while there is a shell but no window that is ready for it; a line
/// for the log never waits.
pub proof fn law_what_waits(name: Seq<char>, managed: bool, ready: bool, main_window: bool)
    ensures
        name == "log"@ ==> !has_to_wait(name, managed, ready, main_window),
        !managed ==> !has_to_wait(name, managed, ready, main_window),
        ready && main_window ==> !has_to_wait(name, managed, ready, main_window),
        name != "log"@ && managed && !ready ==> has_to_wait(name, managed, ready, main_window),
        name != "log"@ && managed && !main_window ==> has_to_wait(name, managed, ready, main_window),
{
}

/// The shell stays while there is an icon, unless it is decided or demanded that it leaves;
/// it asks the user interface if that wants to be asked; and only then it leaves, after the
/// place of the window is saved if there is one.
pub proof fn law_exit(shell: &Shell, coded: bool, main_window: bool, r: ExitStep)
    requires
        call_ensures(exit_requested, (shell, coded, main_window), r),
    ensures
        r is Stay <==> shell.tray && !shell.exit_requested && !coded,
        r is Ask <==> shell.hook_before_quit && !shell.exit_requested && (coded || !shell.tray),
        !(r is Stay || r is Ask) ==> (r is SavePosition <==> main_window),
{
}

/// One entry of the menu quits.
pub proof fn law_menu_quits(id: &str, r: bool)
    requires
        call_ensures(menu_quits, (id,), r),
    ensures
        r <==> id@ == "app-quit"@,
{
}

/// An event is handed on at once or waits behind those that wait, never both, and never
/// neither; of those that wait, at most the oldest is dropped, and only if there are 32.
pub proof fn law_event_is_told_or_waits<T>(
    pending: &mut PendingEvents<T>,
    name: &str,
    event: T,
    managed: bool,
    ready: bool,
    main_window: bool,
    r: Option<T>,
)
    requires
        old(pending).wf(),
        call_ensures(
            PendingEvents::<T>::emit_app_event,
            (pending, name, event, managed, ready, main_window),
            r,
        ),
    ensures
        ({
            let waits = name@ != "log"@ && managed && !(ready && main_window);
            let before = old(pending).events();
            let after = final(pending).events();
            &&& !waits ==> r == Some(event) && after == before
            &&& waits ==> r is None && after.len() > 0 && after.last() == event
            &&& waits && before.len() < 32 ==> after.drop_last() == before
            &&& waits && before.len() == 32 ==> after.len() == 32 && after.drop_last()
                == before.drop_first()
        }),
{
    let before = old(pending).events();
    let after = final(pending).events();
    if name@ != "log"@ && managed && !(ready && main_window) {
        if before.len() == 32 {
            assert(after.drop_last() =~= before.drop_first());
        } else {
            assert(after.drop_last() =~= before);
        }
    }
}

/// What waits is handed over in its order, all of it, once.
pub proof fn law_all_that_waits_is_taken<T>(pending: &mut PendingEvents<T>, r: Vec<T>)
    requires
        old(pending).wf(),
        call_ensures(PendingEvents::<T>::take_all, (pending,), r),
    ensures
        r@ == old(pending).events(),
        final(pending).events().len() == 0,
{
}

/// A shell starts with nothing asked for, nothing open and nothing hidden; the wish to be
/// asked before it quits is all that setting it changes.
pub proof fn law_fresh_shell(fresh: Shell, shell: &mut Shell, hooked: bool)
    requires
        call_ensures(Shell::new, (), fresh),
        call_ensures(Shell::set_hook_before_quit, (shell, hooked), ()),
    ensures
        !fresh.tray && !fresh.hook_before_quit && !fresh.exit_requested && !fresh.hidden_in_tray,
        !fresh.has_open_files && !fresh.window_ready && !fresh.startup_info_read,
        final(shell).hook_before_quit == hooked,
        final(shell).tray == old(shell).tray,
        final(shell).exit_requested == old(shell).exit_requested,
        final(shell).hidden_in_tray == old(shell).hidden_in_tray,
        final(shell).has_open_files == old(shell).has_open_files,
        final(shell).window_ready == old(shell).window_ready,
        final(shell).startup_info_read == old(shell).startup_info_read,
{
}

} // verus!
