//! Shortcuts that work while another application has the focus.

use std::collections::HashMap;

use vstd::prelude::*;

use crate::platform::Platform;
use crate::text;

verus! {

broadcast use vstd::std_specs::hash::group_hash_axioms;

// ---------------------------------------------------------------------------
// Writing
// ---------------------------------------------------------------------------

/// A part of a shortcut as the system writes it.
pub open spec fn normal_token(token: Seq<char>, platform: Platform) -> Seq<char> {
    let key = text::trimmed(token);
    if key == "Ctrl"@ || key == "Control"@ {
        "Control"@
    } else if key == "Cmd"@ || key == "Command"@ {
        "Super"@
    } else if key == "CmdOrCtrl"@ || key == "CommandOrControl"@ {
        if platform is MacOs {
            "Super"@
        } else {
            "Control"@
        }
    } else if key == "Option"@ || key == "Alt"@ {
        "Alt"@
    } else {
        key
    }
}

/// Parts of a shortcut as the system writes them.
pub open spec fn normal_tokens(tokens: Seq<Seq<char>>, platform: Platform) -> Seq<Seq<char>> {
    tokens.map_values(|token: Seq<char>| normal_token(token, platform))
}

/// A shortcut as the system writes it.
pub open spec fn normalized(accelerator: Seq<char>, platform: Platform) -> Seq<char> {
    text::joined(normal_tokens(text::pieces(accelerator, '+'), platform), "+"@)
}

fn normalize_token(token: &str, platform: Platform) -> (r: String)
    ensures
        r@ == normal_token(token@, platform),
{
    let trimmed = text::trim(token);
    let key = trimmed.as_str();
    if text::same_text(key, "Ctrl") || text::same_text(key, "Control") {
        "Control".to_owned()
    } else if text::same_text(key, "Cmd") || text::same_text(key, "Command") {
        "Super".to_owned()
    } else if text::same_text(key, "CmdOrCtrl") || text::same_text(key, "CommandOrControl") {
        match platform {
            Platform::MacOs => "Super".to_owned(),
            _ => "Control".to_owned(),
        }
    } else if text::same_text(key, "Option") || text::same_text(key, "Alt") {
        "Alt".to_owned()
    } else {
        trimmed
    }
}

/// A shortcut as the system writes it.
pub fn normalize(accelerator: &str, platform: Platform) -> (r: String)
    ensures
        r@ == normalized(accelerator@, platform),
{
    let tokens = text::split(accelerator, '+');
    let ghost all = text::texts(tokens@);
    let mut parts: Vec<String> = Vec::new();
    let mut i: usize = 0;
    while i < tokens.len()
        invariant
            i <= tokens@.len(),
            all == text::texts(tokens@),
            text::texts(parts@) =~= normal_tokens(all.take(i as int), platform),
        decreases tokens@.len() - i,
    {
        let ghost before = parts@;
        let part = normalize_token(tokens[i].as_str(), platform);
        let ghost written = part@;
        parts.push(part);
        assert(text::texts(parts@) =~= text::texts(before).push(written));
        assert(all.take(i + 1) =~= all.take(i as int).push(all[i as int]));
        i += 1;
    }
    assert(all.take(i as int) =~= all);
    text::join(&parts, "+")
}

/// A part that the system writes is written as it is, and holds no plus sign.
proof fn lemma_normal_token(token: Seq<char>, platform: Platform)
    requires
        !token.contains('+'),
    ensures
        normal_token(normal_token(token, platform), platform) == normal_token(token, platform),
        !normal_token(token, platform).contains('+'),
{
    text::lemma_trimmed(token);
    reveal_strlit("Control");
    reveal_strlit("Super");
    reveal_strlit("Alt");
    reveal_strlit("Ctrl");
    reveal_strlit("Cmd");
    reveal_strlit("Command");
    reveal_strlit("CmdOrCtrl");
    reveal_strlit("CommandOrControl");
    reveal_strlit("Option");
}

/// Writing a shortcut as the system writes it changes nothing the second time.
pub proof fn law_normalizing_twice(accelerator: Seq<char>, platform: Platform)
    ensures
        normalized(normalized(accelerator, platform), platform) == normalized(accelerator, platform),
{
    let tokens = text::pieces(accelerator, '+');
    let parts = normal_tokens(tokens, platform);
    text::lemma_pieces(accelerator, '+');
    assert forall|i: int| 0 <= i < parts.len() implies !(#[trigger] parts[i]).contains('+')
        && normal_token(parts[i], platform) == parts[i] by {
        lemma_normal_token(tokens[i], platform);
    }
    reveal_strlit("+");
    assert("+"@ =~= seq!['+']);
    text::lemma_pieces_of_joined(parts, "+"@, '+');
    assert(normal_tokens(parts, platform) =~= parts);
}

// ---------------------------------------------------------------------------
// Actions
// ---------------------------------------------------------------------------

/// What a shortcut does.
#[derive(Clone, Copy, Debug, PartialEq, Eq, Structural)]
pub enum Action {
    AutoType,
    CopyPassword,
    CopyUser,
    CopyUrl,
    CopyOtp,
    RestoreApp,
}

/// All actions, in the order in which their shortcuts are registered.
pub open spec fn all_actions() -> Seq<Action> {
    seq![
        Action::AutoType,
        Action::CopyPassword,
        Action::CopyUser,
        Action::CopyUrl,
        Action::CopyOtp,
        Action::RestoreApp,
    ]
}

impl Action {
    /// The name of the action in a request.
    pub open spec fn key_text(self) -> Seq<char> {
        match self {
            Action::AutoType => "autoType"@,
            Action::CopyPassword => "copyPassword"@,
            Action::CopyUser => "copyUser"@,
            Action::CopyUrl => "copyUrl"@,
            Action::CopyOtp => "copyOtp"@,
            Action::RestoreApp => "restoreApp"@,
        }
    }

    /// The name of its shortcut in the settings.
    pub open spec fn setting_text(self) -> Seq<char> {
        match self {
            Action::AutoType => "globalShortcutAutoType"@,
            Action::CopyPassword => "globalShortcutCopyPassword"@,
            Action::CopyUser => "globalShortcutCopyUser"@,
            Action::CopyUrl => "globalShortcutCopyUrl"@,
            Action::CopyOtp => "globalShortcutCopyOtp"@,
            Action::RestoreApp => "globalShortcutRestoreApp"@,
        }
    }

    /// The name of the event that it causes.
    pub open spec fn event_text(self) -> Seq<char> {
        match self {
            Action::AutoType => "auto-type"@,
            Action::CopyPassword => "copy-password"@,
            Action::CopyUser => "copy-user"@,
            Action::CopyUrl => "copy-url"@,
            Action::CopyOtp => "copy-otp"@,
            Action::RestoreApp => "restore-app"@,
        }
    }

    /// The letter of its shortcut, unless it has none by default.
    pub open spec fn suffix_text(self) -> Seq<char> {
        match self {
            Action::AutoType => "T"@,
            Action::CopyPassword => "C"@,
            Action::CopyUser => "B"@,
            Action::CopyUrl => "U"@,
            Action::CopyOtp => ""@,
            Action::RestoreApp => ""@,
        }
    }

    /// The name of the action in a request.
    pub fn key(self) -> (r: &'static str)
        ensures
            r@ == self.key_text(),
    {
        match self {
            Action::AutoType => "autoType",
            Action::CopyPassword => "copyPassword",
            Action::CopyUser => "copyUser",
            Action::CopyUrl => "copyUrl",
            Action::CopyOtp => "copyOtp",
            Action::RestoreApp => "restoreApp",
        }
    }

    /// The name of its shortcut in the settings.
    pub fn setting(self) -> (r: &'static str)
        ensures
            r@ == self.setting_text(),
    {
        match self {
            Action::AutoType => "globalShortcutAutoType",
            Action::CopyPassword => "globalShortcutCopyPassword",
            Action::CopyUser => "globalShortcutCopyUser",
            Action::CopyUrl => "globalShortcutCopyUrl",
            Action::CopyOtp => "globalShortcutCopyOtp",
            Action::RestoreApp => "globalShortcutRestoreApp",
        }
    }

    /// The name of the event that it causes.
    pub fn event(self) -> (r: &'static str)
        ensures
            r@ == self.event_text(),
    {
        match self {
            Action::AutoType => "auto-type",
            Action::CopyPassword => "copy-password",
            Action::CopyUser => "copy-user",
            Action::CopyUrl => "copy-url",
            Action::CopyOtp => "copy-otp",
            Action::RestoreApp => "restore-app",
        }
    }

    fn suffix(self) -> (r: &'static str)
        ensures
            r@ == self.suffix_text(),
    {
        match self {
            Action::AutoType => "T",
            Action::CopyPassword => "C",
            Action::CopyUser => "B",
            Action::CopyUrl => "U",
            Action::CopyOtp => "",
            Action::RestoreApp => "",
        }
    }
}

/// All actions, in the order in which their shortcuts are registered.
pub fn actions() -> (r: Vec<Action>)
    ensures
        r@ == all_actions(),
{
    let mut r: Vec<Action> = Vec::new();
    r.push(Action::AutoType);
    r.push(Action::CopyPassword);
    r.push(Action::CopyUser);
    r.push(Action::CopyUrl);
    r.push(Action::CopyOtp);
    r.push(Action::RestoreApp);
    assert(r@ =~= all_actions());
    r
}

// ---------------------------------------------------------------------------
// Registration
// ---------------------------------------------------------------------------

/// The shortcut that a request gives to an action.
pub open spec fn requested(shortcuts: Seq<(String, Option<String>)>, key: Seq<char>) -> Option<
    Seq<char>,
>
    decreases shortcuts.len(),
{
    if shortcuts.len() == 0 {
        None
    } else if shortcuts[0].0@ == key {
        text::opt_text(shortcuts[0].1)
    } else {
        requested(shortcuts.drop_first(), key)
    }
}

/// The shortcut of an action: the one that was requested, or else the one that it has
/// by default, or none.
pub open spec fn shortcut_of(
    shortcuts: Seq<(String, Option<String>)>,
    action: Action,
    platform: Platform,
) -> Seq<char> {
    match requested(shortcuts, action.key_text()) {
        Some(accelerator) if accelerator.len() > 0 => accelerator,
        _ => if action.suffix_text().len() == 0 {
            Seq::empty()
        } else if platform is MacOs {
            "Ctrl+Alt+"@ + action.suffix_text()
        } else {
            "Shift+Alt+"@ + action.suffix_text()
        },
    }
}

fn find_requested(shortcuts: &Vec<(String, Option<String>)>, key: &str) -> (r: Option<String>)
    ensures
        text::opt_text(r) == requested(shortcuts@, key@),
{
    let mut i: usize = 0;
    assert(shortcuts@.skip(0) =~= shortcuts@);
    while i < shortcuts.len()
        invariant
            i <= shortcuts@.len(),
            requested(shortcuts@, key@) == requested(shortcuts@.skip(i as int), key@),
        decreases shortcuts@.len() - i,
    {
        if text::same_text(shortcuts[i].0.as_str(), key) {
            return text::copy_option(&shortcuts[i].1);
        }
        assert(shortcuts@.skip(i as int).drop_first() =~= shortcuts@.skip(i + 1));
        i += 1;
    }
    None
}

fn find_shortcut(
    shortcuts: &Vec<(String, Option<String>)>,
    action: Action,
    platform: Platform,
) -> (r: String)
    ensures
        r@ == shortcut_of(shortcuts@, action, platform),
{
    if let Some(accelerator) = find_requested(shortcuts, action.key()) {
        if !accelerator.as_str().is_empty() {
            return accelerator;
        }
    }
    let suffix = action.suffix();
    if suffix.is_empty() {
        return String::new();
    }
    match platform {
        Platform::MacOs => text::concat("Ctrl+Alt+", suffix),
        _ => text::concat("Shift+Alt+", suffix),
    }
}

/// A shortcut to register.
pub struct Binding {
    pub action: Action,
    /// The shortcut as it was requested.
    pub accelerator: String,
    /// The shortcut as the system writes it.
    pub shortcut: String,
}

/// The model of a shortcut to register.
pub struct Bound {
    pub action: Action,
    pub accelerator: Seq<char>,
    pub shortcut: Seq<char>,
}

impl View for Binding {
    type V = Bound;

    open spec fn view(&self) -> Bound {
        Bound { action: self.action, accelerator: self.accelerator@, shortcut: self.shortcut@ }
    }
}

/// Bindings by their models.
pub open spec fn bound(bindings: Seq<Binding>) -> Seq<Bound> {
    bindings.map_values(|binding: Binding| binding@)
}

/// The shortcuts to register for some actions: those that have one.
pub open spec fn bindings_for(
    actions: Seq<Action>,
    shortcuts: Seq<(String, Option<String>)>,
    platform: Platform,
) -> Seq<Bound>
    decreases actions.len(),
{
    if actions.len() == 0 {
        Seq::empty()
    } else {
        let before = bindings_for(actions.drop_last(), shortcuts, platform);
        let accelerator = shortcut_of(shortcuts, actions.last(), platform);
        if accelerator.len() == 0 {
            before
        } else {
            before.push(
                Bound {
                    action: actions.last(),
                    accelerator,
                    shortcut: normalized(accelerator, platform),
                },
            )
        }
    }
}

/// The shortcuts to register, in their order.
pub fn bindings(shortcuts: &Vec<(String, Option<String>)>, platform: Platform) -> (r: Vec<Binding>)
    ensures
        bound(r@) == bindings_for(all_actions(), shortcuts@, platform),
{
    let list = actions();
    let mut r: Vec<Binding> = Vec::new();
    let mut i: usize = 0;
    assert(bound(r@) =~= bindings_for(list@.take(0), shortcuts@, platform));
    while i < list.len()
        invariant
            i <= list@.len(),
            bound(r@) == bindings_for(list@.take(i as int), shortcuts@, platform),
        decreases list@.len() - i,
    {
        assert(list@.take(i + 1).drop_last() =~= list@.take(i as int));
        let ghost before = r@;
        let action = list[i];
        let accelerator = find_shortcut(shortcuts, action, platform);
        if !accelerator.as_str().is_empty() {
            let shortcut = normalize(accelerator.as_str(), platform);
            let binding = Binding { action, accelerator, shortcut };
            let ghost model = binding@;
            r.push(binding);
            assert(bound(r@) =~= bound(before).push(model));
        }
        i += 1;
    }
    assert(list@.take(i as int) =~= list@);
    r
}

/// The line for a shortcut that could not be registered.
pub open spec fn refusal(binding: Bound, message: Seq<char>) -> Seq<char> {
    binding.action.key_text() + " ("@ + binding.accelerator + "): "@ + message
}

/// The actions of the shortcuts that are registered, by the numbers of the shortcuts,
/// and what could not be registered.
pub struct ShortcutActions {
    actions: HashMap<u32, Action>,
    errors: Vec<String>,
}

impl ShortcutActions {
    /// The actions by the numbers of their shortcuts.
    pub closed spec fn table(self) -> Map<u32, Action> {
        self.actions@
    }

    /// The lines for what could not be registered.
    pub closed spec fn refusals(self) -> Seq<Seq<char>> {
        text::texts(self.errors@)
    }

    /// Nothing is registered.
    pub fn new() -> (r: ShortcutActions)
        ensures
            r.table() == Map::<u32, Action>::empty(),
            r.refusals() == Seq::<Seq<char>>::empty(),
    {
        let r = ShortcutActions { actions: HashMap::new(), errors: Vec::new() };
        assert(r.refusals() =~= Seq::empty());
        r
    }

    /// Forgets everything, before shortcuts are registered anew.
    pub fn clear(&mut self)
        ensures
            final(self).table() == Map::<u32, Action>::empty(),
            final(self).refusals() == Seq::<Seq<char>>::empty(),
    {
        self.actions.clear();
        self.errors.clear();
        assert(self.refusals() =~= Seq::empty());
    }

    /// Takes what came of registering a shortcut: its number, or why not.
    pub fn registered(&mut self, binding: &Binding, outcome: Result<u32, String>)
        ensures
            match outcome {
                Ok(id) => {
                    &&& final(self).table() == old(self).table().insert(id, binding.action)
                    &&& final(self).refusals() == old(self).refusals()
                },
                Err(message) => {
                    &&& final(self).table() == old(self).table()
                    &&& final(self).refusals() == old(self).refusals().push(
                        refusal(binding@, message@),
                    )
                },
            },
    {
        match outcome {
            Ok(id) => {
                self.actions.insert(id, binding.action);
            },
            Err(message) => {
                let mut line = text::concat3(
                    binding.action.key(),
                    " (",
                    binding.accelerator.as_str(),
                );
                line.append("): ");
                line.append(message.as_str());
                let ghost before = self.errors@;
                let ghost written = line@;
                self.errors.push(line);
                assert(self.refusals() =~= text::texts(before).push(written));
            },
        }
    }

    /// The outcome of a registration: all that could not be registered.
    pub fn outcome(&self) -> (r: Result<(), String>)
        ensures
            text::outcome(r) == if self.refusals().len() == 0 {
                Ok(())
            } else {
                Err(text::joined(self.refusals(), "; "@))
            },
    {
        if self.errors.len() == 0 {
            Ok(())
        } else {
            Err(text::join(&self.errors, "; "))
        }
    }

    /// The action of a shortcut.
    pub fn action(&self, id: u32) -> (r: Option<Action>)
        ensures
            r == if self.table().dom().contains(id) {
                Some(self.table()[id])
            } else {
                None
            },
    {
        match self.actions.get(&id) {
            Some(action) => Some(*action),
            None => None,
        }
    }
}

/// What to do.
#[derive(Clone, Copy, Debug, PartialEq, Eq, Structural)]
pub enum ShortcutStep {
    Emit(Action),
    ShowMainWindow,
}

/// What a shortcut that was pressed or released does. Typing needs a window: if there
/// is none, one is shown.
pub open spec fn shortcut_steps(pressed: bool, action: Option<Action>, main_window: bool) -> Seq<
    ShortcutStep,
> {
    match action {
        Some(action) if pressed => if action is RestoreApp {
            seq![ShortcutStep::ShowMainWindow]
        } else if action is AutoType && !main_window {
            seq![ShortcutStep::Emit(action), ShortcutStep::ShowMainWindow]
        } else {
            seq![ShortcutStep::Emit(action)]
        },
        _ => Seq::empty(),
    }
}

/// What a shortcut that was pressed or released does.
pub fn handle(pressed: bool, action: Option<Action>, main_window: bool) -> (r: Vec<ShortcutStep>)
    ensures
        r@ == shortcut_steps(pressed, action, main_window),
{
    let mut steps: Vec<ShortcutStep> = Vec::new();
    if pressed {
        if let Some(action) = action {
            if action == Action::RestoreApp {
                steps.push(ShortcutStep::ShowMainWindow);
            } else {
                steps.push(ShortcutStep::Emit(action));
                if action == Action::AutoType && !main_window {
                    steps.push(ShortcutStep::ShowMainWindow);
                }
            }
        }
    }
    assert(steps@ =~= shortcut_steps(pressed, action, main_window));
    steps
}

// ---------------------------------------------------------------------------
// Laws
// ---------------------------------------------------------------------------

/// Releasing a shortcut does nothing.
pub proof fn law_release_does_nothing(action: Option<Action>, main_window: bool)
    ensures
        shortcut_steps(false, action, main_window).len() == 0,
{
}

/// A pressed shortcut of any action but showing the application emits that very action
/// first, and nothing emits another one.
pub proof fn law_own_action_is_emitted(action: Action, main_window: bool, steps: Vec<ShortcutStep>)
    requires
        call_ensures(handle, (true, Some(action), main_window), steps),
        action != Action::RestoreApp,
    ensures
        steps@.len() > 0,
        steps@[0] == ShortcutStep::Emit(action),
        forall|i: int|
            0 <= i < steps@.len() && (#[trigger] steps@[i]) is Emit ==> steps@[i]
                == ShortcutStep::Emit(action),
{
}

/// A shortcut that is empty in a request counts as not requested.
pub proof fn law_empty_shortcut_is_default(
    shortcuts: Seq<(String, Option<String>)>,
    action: Action,
    platform: Platform,
)
    requires
        requested(shortcuts, action.key_text()) == Some(Seq::<char>::empty()),
    ensures
        shortcut_of(shortcuts, action, platform) == shortcut_of(Seq::empty(), action, platform),
{
}

/// Four actions have a shortcut on every platform, whatever is requested; the others
/// only if one is requested.
pub proof fn law_default_shortcuts(
    shortcuts: Seq<(String, Option<String>)>,
    action: Action,
    platform: Platform,
)
    ensures
        !(action is CopyOtp || action is RestoreApp) ==> shortcut_of(shortcuts, action, platform).len()
            > 0,
        (action is CopyOtp || action is RestoreApp) && requested(
            shortcuts,
            action.key_text(),
        ) is None ==> shortcut_of(shortcuts, action, platform).len() == 0,
{
    reveal_strlit("T");
    reveal_strlit("C");
    reveal_strlit("B");
    reveal_strlit("U");
    reveal_strlit("");
    reveal_strlit("Ctrl+Alt+");
    reveal_strlit("Shift+Alt+");
}

/// The parts of a shortcut are written one by one: those around a plus sign are those
/// before it and those after it.
pub proof fn law_parts_are_written_one_by_one(
    before: Seq<char>,
    after: Seq<char>,
    platform: Platform,
)
    ensures
        normalized(before + "+"@ + after, platform) == normalized(before, platform) + "+"@
            + normalized(after, platform),
{
    reveal_strlit("+");
    assert("+"@ =~= seq!['+']);
    text::law_pieces_around(before, '+', after);
    text::lemma_pieces(before, '+');
    text::lemma_pieces(after, '+');
    let a = normal_tokens(text::pieces(before, '+'), platform);
    let b = normal_tokens(text::pieces(after, '+'), platform);
    assert(normal_tokens(text::pieces(before + "+"@ + after, '+'), platform) =~= a + b);
    text::law_joining(a, b, "+"@);
}

/// A single part of a shortcut: the white space around it is left out, the names of the
/// modifiers become those of the system, and any other part is kept to the letter.
pub proof fn law_part_of_a_shortcut(part: &str, platform: Platform, r: String)
    requires
        call_ensures(normalize, (part, platform), r),
        !part@.contains('+'),
    ensures
        ({
            let is = |name: Seq<char>| text::is_core(part@, name);
            let command_or_control = is("CmdOrCtrl"@) || is("CommandOrControl"@);
            let known = is("Ctrl"@) || is("Control"@) || is("Cmd"@) || is("Command"@)
                || command_or_control || is("Option"@) || is("Alt"@);
            &&& is("Ctrl"@) || is("Control"@) || command_or_control && !(platform is MacOs) ==> r@
                == "Control"@
            &&& is("Cmd"@) || is("Command"@) || command_or_control && platform is MacOs ==> r@
                == "Super"@
            &&& is("Option"@) || is("Alt"@) ==> r@ == "Alt"@
            &&& !known ==> is(r@)
        }),
{
    text::law_trimming_drops_only_white_ends(part@);
    text::law_one_piece(part@, '+');
    let parts = normal_tokens(text::pieces(part@, '+'), platform);
    assert(parts =~= seq![normal_token(part@, platform)]);
    assert(text::joined(parts, "+"@) == parts[0]);
    reveal_strlit("Control");
    reveal_strlit("Alt");
    reveal_strlit("Ctrl");
    reveal_strlit("Cmd");
    reveal_strlit("Command");
    reveal_strlit("CmdOrCtrl");
    reveal_strlit("CommandOrControl");
    reveal_strlit("Option");
    assert("Control"@.len() == 7 && "Control"@[2] == 'n');
    assert("Command"@.len() == 7 && "Command"@[2] == 'm');
    assert("Alt"@.len() == 3 && "Alt"@[0] == 'A');
    assert("Cmd"@.len() == 3 && "Cmd"@[0] == 'C');
    assert("Ctrl"@.len() == 4 && "CmdOrCtrl"@.len() == 9 && "CommandOrControl"@.len() == 16);
    assert("Option"@.len() == 6);
}

/// The names of the actions: in requests, in the settings and as events.
pub proof fn law_action_names(
    action: Action,
    key: &'static str,
    setting: &'static str,
    event: &'static str,
)
    requires
        call_ensures(Action::key, (action,), key),
        call_ensures(Action::setting, (action,), setting),
        call_ensures(Action::event, (action,), event),
    ensures
        action is AutoType ==> key@ == "autoType"@ && setting@ == "globalShortcutAutoType"@ && event@
            == "auto-type"@,
        action is CopyPassword ==> key@ == "copyPassword"@ && setting@
            == "globalShortcutCopyPassword"@ && event@ == "copy-password"@,
        action is CopyUser ==> key@ == "copyUser"@ && setting@ == "globalShortcutCopyUser"@ && event@
            == "copy-user"@,
        action is CopyUrl ==> key@ == "copyUrl"@ && setting@ == "globalShortcutCopyUrl"@ && event@
            == "copy-url"@,
        action is CopyOtp ==> key@ == "copyOtp"@ && setting@ == "globalShortcutCopyOtp"@ && event@
            == "copy-otp"@,
        action is RestoreApp ==> key@ == "restoreApp"@ && setting@ == "globalShortcutRestoreApp"@
            && event@ == "restore-app"@,
{
}

/// What a request gives to an action is what its first entry under the name of the action
/// gives, and nothing if there is no such entry.
pub proof fn law_first_entry_counts(shortcuts: Seq<(String, Option<String>)>, key: Seq<char>, i: int)
    requires
        forall|k: int| 0 <= k < i ==> (#[trigger] shortcuts[k]).0@ != key,
        0 <= i <= shortcuts.len(),
        i < shortcuts.len() ==> shortcuts[i].0@ == key,
    ensures
        i < shortcuts.len() ==> requested(shortcuts, key) == text::opt_text(shortcuts[i].1),
        i == shortcuts.len() ==> requested(shortcuts, key) is None,
    decreases shortcuts.len(),
{
    if shortcuts.len() > 0 && i > 0 {
        let rest = shortcuts.drop_first();
        assert(shortcuts[0].0@ != key);
        assert forall|k: int| 0 <= k < i - 1 implies (#[trigger] rest[k]).0@ != key by {
            assert(rest[k] == shortcuts[k + 1]);
        }
        law_first_entry_counts(rest, key, i - 1);
    }
}

/// A shortcut that is requested prevails, to the letter. Without one, four actions have a
/// letter with two modifiers, and two have none.
pub proof fn law_shortcut_of_an_action(
    shortcuts: Seq<(String, Option<String>)>,
    action: Action,
    platform: Platform,
)
    ensures
        ({
            let wanted = requested(shortcuts, action.key_text());
            let found = shortcut_of(shortcuts, action, platform);
            let given = wanted is Some && wanted->Some_0.len() > 0;
            &&& given ==> found == wanted->Some_0
            &&& !given && platform is MacOs ==> {
                &&& action is AutoType ==> found == "Ctrl+Alt+T"@
                &&& action is CopyPassword ==> found == "Ctrl+Alt+C"@
                &&& action is CopyUser ==> found == "Ctrl+Alt+B"@
                &&& action is CopyUrl ==> found == "Ctrl+Alt+U"@
            }
            &&& !given && !(platform is MacOs) ==> {
                &&& action is AutoType ==> found == "Shift+Alt+T"@
                &&& action is CopyPassword ==> found == "Shift+Alt+C"@
                &&& action is CopyUser ==> found == "Shift+Alt+B"@
                &&& action is CopyUrl ==> found == "Shift+Alt+U"@
            }
            &&& !given && (action is CopyOtp || action is RestoreApp) ==> found.len() == 0
        }),
{
    reveal_strlit("T");
    reveal_strlit("C");
    reveal_strlit("B");
    reveal_strlit("U");
    reveal_strlit("");
    reveal_strlit("Ctrl+Alt+");
    reveal_strlit("Shift+Alt+");
    reveal_strlit("Ctrl+Alt+T");
    reveal_strlit("Ctrl+Alt+C");
    reveal_strlit("Ctrl+Alt+B");
    reveal_strlit("Ctrl+Alt+U");
    reveal_strlit("Shift+Alt+T");
    reveal_strlit("Shift+Alt+C");
    reveal_strlit("Shift+Alt+B");
    reveal_strlit("Shift+Alt+U");
    assert("Ctrl+Alt+"@ + "T"@ =~= "Ctrl+Alt+T"@);
    assert("Ctrl+Alt+"@ + "C"@ =~= "Ctrl+Alt+C"@);
    assert("Ctrl+Alt+"@ + "B"@ =~= "Ctrl+Alt+B"@);
    assert("Ctrl+Alt+"@ + "U"@ =~= "Ctrl+Alt+U"@);
    assert("Shift+Alt+"@ + "T"@ =~= "Shift+Alt+T"@);
    assert("Shift+Alt+"@ + "C"@ =~= "Shift+Alt+C"@);
    assert("Shift+Alt+"@ + "B"@ =~= "Shift+Alt+B"@);
    assert("Shift+Alt+"@ + "U"@ =~= "Shift+Alt+U"@);
}

proof fn lemma_bindings(
    actions: Seq<Action>,
    shortcuts: Seq<(String, Option<String>)>,
    platform: Platform,
)
    ensures
        ({
            let all = bindings_for(actions, shortcuts, platform);
            &&& forall|i: int|
                0 <= i < all.len() ==> {
                    let b = #[trigger] all[i];
                    &&& actions.contains(b.action)
                    &&& b.accelerator == shortcut_of(shortcuts, b.action, platform)
                    &&& b.accelerator.len() > 0
                    &&& b.shortcut == normalized(b.accelerator, platform)
                }
            &&& forall|k: int|
                #![trigger actions[k]]
                0 <= k < actions.len() && shortcut_of(shortcuts, actions[k], platform).len() > 0
                    ==> exists|i: int| 0 <= i < all.len() && (#[trigger] all[i]).action == actions[k]
        }),
    decreases actions.len(),
{
    if actions.len() > 0 {
        let before = actions.drop_last();
        let old = bindings_for(before, shortcuts, platform);
        let all = bindings_for(actions, shortcuts, platform);
        lemma_bindings(before, shortcuts, platform);
        assert forall|i: int| 0 <= i < all.len() implies {
            let b = #[trigger] all[i];
            &&& actions.contains(b.action)
            &&& b.accelerator == shortcut_of(shortcuts, b.action, platform)
            &&& b.accelerator.len() > 0
            &&& b.shortcut == normalized(b.accelerator, platform)
        } by {
            if i < old.len() {
                assert(all[i] == old[i]);
                let k = choose|k: int| 0 <= k < before.len() && before[k] == old[i].action;
                assert(actions[k] == old[i].action);
            } else {
                assert(actions[actions.len() - 1] == all[i].action);
            }
        }
        assert forall|k: int|
            #![trigger actions[k]]
            0 <= k < actions.len() && shortcut_of(shortcuts, actions[k], platform).len()
                > 0 implies exists|i: int|
            0 <= i < all.len() && (#[trigger] all[i]).action == actions[k] by {
            if k < before.len() {
                assert(before[k] == actions[k]);
                let i = choose|i: int| 0 <= i < old.len() && (#[trigger] old[i]).action == before[k];
                assert(all[i] == old[i]);
            } else {
                assert(all[old.len() as int].action == actions[k]);
            }
        }
    }
}

/// A shortcut is registered for each action that has one, and for no other: the one that
/// the action has, written as the system writes it.
pub proof fn law_each_shortcut_is_registered(
    shortcuts: &Vec<(String, Option<String>)>,
    platform: Platform,
    action: Action,
    r: Vec<Binding>,
)
    requires
        call_ensures(bindings, (shortcuts, platform), r),
    ensures
        shortcut_of(shortcuts@, action, platform).len() > 0 <==> exists|i: int|
            0 <= i < r@.len() && (#[trigger] r@[i]).action == action,
        forall|i: int|
            0 <= i < r@.len() ==> {
                let b = #[trigger] r@[i];
                &&& b.accelerator@ == shortcut_of(shortcuts@, b.action, platform)
                &&& b.shortcut@ == normalized(b.accelerator@, platform)
            },
{
    let all = all_actions();
    let models = bindings_for(all, shortcuts@, platform);
    lemma_bindings(all, shortcuts@, platform);
    assert(bound(r@) == models);
    assert(r@.len() == models.len());
    assert forall|i: int| 0 <= i < r@.len() implies {
        let b = #[trigger] r@[i];
        &&& b.accelerator@ == shortcut_of(shortcuts@, b.action, platform)
        &&& b.shortcut@ == normalized(b.accelerator@, platform)
        &&& b.accelerator@.len() > 0
    } by {
        assert(bound(r@)[i] == r@[i]@);
        assert(models[i] == r@[i]@);
    }
    let k: int = match action {
        Action::AutoType => 0,
        Action::CopyPassword => 1,
        Action::CopyUser => 2,
        Action::CopyUrl => 3,
        Action::CopyOtp => 4,
        Action::RestoreApp => 5,
    };
    assert(all[k] == action);
    if shortcut_of(shortcuts@, action, platform).len() > 0 {
        let i = choose|i: int| 0 <= i < models.len() && (#[trigger] models[i]).action == all[k];
        assert(bound(r@)[i] == r@[i]@);
        assert(r@[i].action == action);
    }
}

/// Showing the application is the one action that emits nothing: it shows the window, and
/// so does typing if there is none to type from. Nothing happens without an action.
pub proof fn law_when_the_window_is_shown(
    pressed: bool,
    action: Option<Action>,
    main_window: bool,
    steps: Vec<ShortcutStep>,
)
    requires
        call_ensures(handle, (pressed, action, main_window), steps),
    ensures
        !pressed || action is None ==> steps@.len() == 0,
        steps@.contains(ShortcutStep::ShowMainWindow) <==> pressed && (action == Some(
            Action::RestoreApp,
        ) || action == Some(Action::AutoType) && !main_window),
        forall|i: int|
            0 <= i < steps@.len() && (#[trigger] steps@[i]) is Emit ==> action == Some(
                steps@[i]->Emit_0,
            ) && !(action == Some(Action::RestoreApp)),
{
    if pressed && action == Some(Action::RestoreApp) {
        assert(steps@[0] == ShortcutStep::ShowMainWindow);
    }
    if pressed && action == Some(Action::AutoType) && !main_window {
        assert(steps@[1] == ShortcutStep::ShowMainWindow);
    }
}

/// A shortcut that could not be registered is reported with its action, as it was
/// requested, and with the reason.
pub proof fn law_refusal(binding: Bound, message: Seq<char>)
    ensures
        binding.action.key_text().is_prefix_of(refusal(binding, message)),
        message.is_suffix_of(refusal(binding, message)),
        text::occurs(refusal(binding, message), " ("@ + binding.accelerator + "): "@),
{
    let line = refusal(binding, message);
    let key = binding.action.key_text();
    let middle = " ("@ + binding.accelerator + "): "@;
    assert(line =~= key + middle + message);
    assert(line.subrange(key.len() as int, key.len() + middle.len() as int) =~= middle);
    assert(text::occurs_at(line, middle, key.len() as int));
}

/// A shortcut that was registered stands for the action that it was registered for, and
/// the others stand for what they did; one that was refused stands for nothing and is kept
/// for the report.
pub proof fn law_registration(
    actions: &mut ShortcutActions,
    binding: &Binding,
    outcome: Result<u32, String>,
    other: u32,
)
    requires
        call_ensures(ShortcutActions::registered, (actions, binding, outcome), ()),
    ensures
        outcome matches Ok(id) ==> {
            &&& final(actions).table().dom().contains(id)
            &&& final(actions).table()[id] == binding.action
            &&& other != id ==> (final(actions).table().dom().contains(other) <==> old(
                actions).table().dom().contains(other))
            &&& other != id && old(actions).table().dom().contains(other) ==> final(
                actions).table()[other] == old(actions).table()[other]
            &&& final(actions).refusals() == old(actions).refusals()
        },
        outcome matches Err(message) ==> {
            &&& final(actions).table() == old(actions).table()
            &&& final(actions).refusals().len() == old(actions).refusals().len() + 1
            &&& message@.is_suffix_of(final(actions).refusals().last())
            &&& binding.action.key_text().is_prefix_of(final(actions).refusals().last())
            &&& old(actions).refusals().is_prefix_of(final(actions).refusals())
        },
{
    if let Err(message) = outcome {
        law_refusal(binding@, message@);
    }
}

/// A registration succeeds if nothing was refused; else all refusals are told together.
pub proof fn law_registration_outcome(actions: &ShortcutActions, r: Result<(), String>, i: int)
    requires
        call_ensures(ShortcutActions::outcome, (actions,), r),
    ensures
        r is Ok <==> actions.refusals().len() == 0,
        r matches Err(e) ==> e@ == text::joined(actions.refusals(), "; "@),
{
}

/// The action of a shortcut is the one in the table, and none after all is forgotten.
pub proof fn law_action_of_a_shortcut(
    actions: &ShortcutActions,
    id: u32,
    r: Option<Action>,
    cleared: &mut ShortcutActions,
)
    requires
        call_ensures(ShortcutActions::action, (actions, id), r),
        call_ensures(ShortcutActions::clear, (cleared,), ()),
    ensures
        r is Some <==> actions.table().dom().contains(id),
        r matches Some(action) ==> action == actions.table()[id],
        !final(cleared).table().dom().contains(id),
        final(cleared).refusals().len() == 0,
{
}

} // verus!
