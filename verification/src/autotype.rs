//! Auto-type: which keys are sent to the active window, in which order, and what
//! is reported of that window.

use vstd::prelude::*;

use crate::platform::Platform;
use crate::text::{
    begins, chars_of, concat, contains_char, decimal, decimal_text, ends, lower_char,
    opt_text, outcome, parse_signed, parse_unsigned, same_text, signed_number, starts_with,
    string_between, texts, trim, trimmed, unsigned_number,
};

verus! {

// ---------------------------------------------------------------------------
// Keys
// ---------------------------------------------------------------------------

/// A key of the keyboard.
#[derive(Clone, Copy, Debug, PartialEq, Eq, Structural)]
pub enum Key {
    Control,
    Alt,
    Shift,
    Meta,
    RControl,
    RShift,
    ROption,
    RMenu,
    RCommand,
    RWin,
    Tab,
    Return,
    Space,
    UpArrow,
    DownArrow,
    LeftArrow,
    RightArrow,
    Home,
    End,
    PageUp,
    PageDown,
    Delete,
    Backspace,
    Escape,
    Insert,
    F1,
    F2,
    F3,
    F4,
    F5,
    F6,
    F7,
    F8,
    F9,
    F10,
    F11,
    F12,
    F13,
    F14,
    F15,
    F16,
    /// The key that types a character.
    Unicode(char),
    /// A key by its number on the platform.
    Other(u32),
}

/// The modifier of that name.
pub open spec fn modifier_key(name: Seq<char>) -> Option<Key> {
    if name == "Ctrl"@ || name == "Control"@ {
        Some(Key::Control)
    } else if name == "Alt"@ || name == "Option"@ {
        Some(Key::Alt)
    } else if name == "Shift"@ {
        Some(Key::Shift)
    } else if name == "Meta"@ || name == "Command"@ || name == "Cmd"@ || name == "Super"@ || name
        == "Win"@ || name == "Windows"@ {
        Some(Key::Meta)
    } else {
        None
    }
}

/// The modifiers of those names, each once, in the order in which they are first
/// named; or the message for the first name that is none.
pub open spec fn modifier_keys(names: Seq<Seq<char>>) -> Result<Seq<Key>, Seq<char>>
    decreases names.len(),
{
    if names.len() == 0 {
        Ok(Seq::empty())
    } else {
        match modifier_keys(names.drop_last()) {
            Ok(keys) => match modifier_key(names.last()) {
                Some(key) => Ok(
                    if keys.contains(key) {
                        keys
                    } else {
                        keys.push(key)
                    },
                ),
                None => Err("Bad modifier: "@ + names.last()),
            },
            Err(message) => Err(message),
        }
    }
}

/// A key of the numeric keypad, by its number on each platform.
pub open spec fn keypad(platform: Platform, mac: u32, windows: u32, linux: u32) -> Key {
    match platform {
        Platform::MacOs => Key::Other(mac),
        Platform::Windows => Key::Other(windows),
        _ => Key::Other(linux),
    }
}

/// The key of that name.
pub open spec fn named_key(platform: Platform, code: Seq<char>) -> Option<Key> {
    if code == "Tab"@ || code == "tab"@ {
        Some(Key::Tab)
    } else if code == "Return"@ || code == "enter"@ {
        Some(Key::Return)
    } else if code == "Space"@ || code == "space"@ {
        Some(Key::Space)
    } else if code == "UpArrow"@ || code == "up"@ {
        Some(Key::UpArrow)
    } else if code == "DownArrow"@ || code == "down"@ {
        Some(Key::DownArrow)
    } else if code == "LeftArrow"@ || code == "left"@ {
        Some(Key::LeftArrow)
    } else if code == "RightArrow"@ || code == "right"@ {
        Some(Key::RightArrow)
    } else if code == "Home"@ || code == "home"@ {
        Some(Key::Home)
    } else if code == "End"@ || code == "end"@ {
        Some(Key::End)
    } else if code == "PageUp"@ || code == "pgup"@ {
        Some(Key::PageUp)
    } else if code == "PageDown"@ || code == "pgdn"@ {
        Some(Key::PageDown)
    } else if code == "ForwardDelete"@ || code == "del"@ {
        Some(Key::Delete)
    } else if code == "BackwardDelete"@ || code == "bs"@ {
        Some(Key::Backspace)
    } else if code == "Escape"@ || code == "esc"@ {
        Some(Key::Escape)
    } else if code == "Meta"@ || code == "win"@ {
        Some(Key::Meta)
    } else if code == "F1"@ || code == "f1"@ {
        Some(Key::F1)
    } else if code == "F2"@ || code == "f2"@ {
        Some(Key::F2)
    } else if code == "F3"@ || code == "f3"@ {
        Some(Key::F3)
    } else if code == "F4"@ || code == "f4"@ {
        Some(Key::F4)
    } else if code == "F5"@ || code == "f5"@ {
        Some(Key::F5)
    } else if code == "F6"@ || code == "f6"@ {
        Some(Key::F6)
    } else if code == "F7"@ || code == "f7"@ {
        Some(Key::F7)
    } else if code == "F8"@ || code == "f8"@ {
        Some(Key::F8)
    } else if code == "F9"@ || code == "f9"@ {
        Some(Key::F9)
    } else if code == "F10"@ || code == "f10"@ {
        Some(Key::F10)
    } else if code == "F11"@ || code == "f11"@ {
        Some(Key::F11)
    } else if code == "F12"@ || code == "f12"@ {
        Some(Key::F12)
    } else if code == "F13"@ || code == "f13"@ {
        Some(Key::F13)
    } else if code == "F14"@ || code == "f14"@ {
        Some(Key::F14)
    } else if code == "F15"@ || code == "f15"@ {
        Some(Key::F15)
    } else if code == "F16"@ || code == "f16"@ {
        Some(Key::F16)
    } else if code == "Insert"@ || code == "ins"@ {
        Some(
            if platform is MacOs {
                Key::Other(0x72)
            } else {
                Key::Insert
            },
        )
    } else if code == "RightMeta"@ || code == "rwin"@ {
        match platform {
            Platform::MacOs => Some(Key::RCommand),
            Platform::Windows => Some(Key::RWin),
            Platform::Linux => Some(Key::Other(0xffec)),
            Platform::Unix | Platform::Other => None,
        }
    } else if code == "KeypadPlus"@ {
        Some(keypad(platform, 0x45, 0x6b, 0xffab))
    } else if code == "KeypadMinus"@ {
        Some(keypad(platform, 0x4e, 0x6d, 0xffad))
    } else if code == "KeypadMultiply"@ {
        Some(keypad(platform, 0x43, 0x6a, 0xffaa))
    } else if code == "KeypadDivide"@ {
        Some(keypad(platform, 0x4b, 0x6f, 0xffaf))
    } else if code == "D0"@ {
        Some(Key::Unicode('0'))
    } else if code == "D1"@ {
        Some(Key::Unicode('1'))
    } else if code == "D2"@ {
        Some(Key::Unicode('2'))
    } else if code == "D3"@ {
        Some(Key::Unicode('3'))
    } else if code == "D4"@ {
        Some(Key::Unicode('4'))
    } else if code == "D5"@ {
        Some(Key::Unicode('5'))
    } else if code == "D6"@ {
        Some(Key::Unicode('6'))
    } else if code == "D7"@ {
        Some(Key::Unicode('7'))
    } else if code == "D8"@ {
        Some(Key::Unicode('8'))
    } else if code == "D9"@ {
        Some(Key::Unicode('9'))
    } else {
        None
    }
}

/// The keys that type the characters of a text.
pub open spec fn typed_keys(text: Seq<char>) -> Seq<Key>
    decreases text.len(),
{
    if text.len() == 0 {
        Seq::empty()
    } else {
        typed_keys(text.drop_last()).push(Key::Unicode(text.last()))
    }
}

fn either(s: &str, a: &str, b: &str) -> (r: bool)
    ensures
        r == (s@ == a@ || s@ == b@),
{
    same_text(s, a) || same_text(s, b)
}

fn holds(keys: &Vec<Key>, key: Key) -> (r: bool)
    ensures
        r == keys@.contains(key),
{
    let mut i: usize = 0;
    while i < keys.len()
        invariant
            i <= keys@.len(),
            forall|k: int| 0 <= k < i ==> keys@[k] != key,
        decreases keys.len() - i,
    {
        if keys[i] == key {
            return true;
        }
        i += 1;
    }
    false
}

/// The modifiers of some names.
pub fn modifiers(names: &Vec<String>) -> (r: Result<Vec<Key>, String>)
    ensures
        match r {
            Ok(keys) => modifier_keys(texts(names@)) == Ok::<Seq<Key>, Seq<char>>(keys@),
            Err(e) => modifier_keys(texts(names@)) == Err::<Seq<Key>, Seq<char>>(e@),
        },
{
    let mut keys: Vec<Key> = Vec::new();
    let mut i: usize = 0;
    let ghost all = texts(names@);
    while i < names.len()
        invariant
            i <= names@.len(),
            all == texts(names@),
            modifier_keys(all.take(i as int)) == Ok::<Seq<Key>, Seq<char>>(keys@),
        decreases names.len() - i,
    {
        let name = names[i].as_str();
        assert(all.take(i + 1).drop_last() =~= all.take(i as int));
        let key = if either(name, "Ctrl", "Control") {
            Key::Control
        } else if either(name, "Alt", "Option") {
            Key::Alt
        } else if same_text(name, "Shift") {
            Key::Shift
        } else if either(name, "Meta", "Command") || either(name, "Cmd", "Super") || either(
            name,
            "Win",
            "Windows",
        ) {
            Key::Meta
        } else {
            proof {
                lemma_bad_modifier(all, i as int);
            }
            return Err(concat("Bad modifier: ", name));
        };
        if !holds(&keys, key) {
            keys.push(key);
        }
        i += 1;
    }
    assert(all.take(all.len() as int) =~= all);
    Ok(keys)
}

/// The first bad name decides.
proof fn lemma_bad_modifier(names: Seq<Seq<char>>, i: int)
    requires
        0 <= i < names.len(),
        modifier_keys(names.take(i)) is Ok,
        modifier_key(names[i]) is None,
    ensures
        modifier_keys(names) == Err::<Seq<Key>, Seq<char>>("Bad modifier: "@ + names[i]),
    decreases names.len(),
{
    if i == names.len() - 1 {
        assert(names.drop_last() =~= names.take(i));
    } else {
        assert(names.drop_last().take(i) =~= names.take(i));
        lemma_bad_modifier(names.drop_last(), i);
    }
}

/// The key of a name.
pub fn key_code(platform: Platform, code: &str) -> (r: Result<Key, String>)
    ensures
        outcome(r) == match named_key(platform, code@) {
            Some(key) => Ok::<Key, Seq<char>>(key),
            None => Err("Bad code: "@ + code@),
        },
{
    let key = if either(code, "Tab", "tab") {
        Key::Tab
    } else if either(code, "Return", "enter") {
        Key::Return
    } else if either(code, "Space", "space") {
        Key::Space
    } else if either(code, "UpArrow", "up") {
        Key::UpArrow
    } else if either(code, "DownArrow", "down") {
        Key::DownArrow
    } else if either(code, "LeftArrow", "left") {
        Key::LeftArrow
    } else if either(code, "RightArrow", "right") {
        Key::RightArrow
    } else if either(code, "Home", "home") {
        Key::Home
    } else if either(code, "End", "end") {
        Key::End
    } else if either(code, "PageUp", "pgup") {
        Key::PageUp
    } else if either(code, "PageDown", "pgdn") {
        Key::PageDown
    } else if either(code, "ForwardDelete", "del") {
        Key::Delete
    } else if either(code, "BackwardDelete", "bs") {
        Key::Backspace
    } else if either(code, "Escape", "esc") {
        Key::Escape
    } else if either(code, "Meta", "win") {
        Key::Meta
    } else if either(code, "F1", "f1") {
        Key::F1
    } else if either(code, "F2", "f2") {
        Key::F2
    } else if either(code, "F3", "f3") {
        Key::F3
    } else if either(code, "F4", "f4") {
        Key::F4
    } else if either(code, "F5", "f5") {
        Key::F5
    } else if either(code, "F6", "f6") {
        Key::F6
    } else if either(code, "F7", "f7") {
        Key::F7
    } else if either(code, "F8", "f8") {
        Key::F8
    } else if either(code, "F9", "f9") {
        Key::F9
    } else if either(code, "F10", "f10") {
        Key::F10
    } else if either(code, "F11", "f11") {
        Key::F11
    } else if either(code, "F12", "f12") {
        Key::F12
    } else if either(code, "F13", "f13") {
        Key::F13
    } else if either(code, "F14", "f14") {
        Key::F14
    } else if either(code, "F15", "f15") {
        Key::F15
    } else if either(code, "F16", "f16") {
        Key::F16
    } else if either(code, "Insert", "ins") {
        match platform {
            Platform::MacOs => Key::Other(0x72),
            _ => Key::Insert,
        }
    } else if either(code, "RightMeta", "rwin") {
        match platform {
            Platform::MacOs => Key::RCommand,
            Platform::Windows => Key::RWin,
            Platform::Linux => Key::Other(0xffec),
            Platform::Unix | Platform::Other => {
                return Err(concat("Bad code: ", code));
            },
        }
    } else if same_text(code, "KeypadPlus") {
        keypad_key(platform, 0x45, 0x6b, 0xffab)
    } else if same_text(code, "KeypadMinus") {
        keypad_key(platform, 0x4e, 0x6d, 0xffad)
    } else if same_text(code, "KeypadMultiply") {
        keypad_key(platform, 0x43, 0x6a, 0xffaa)
    } else if same_text(code, "KeypadDivide") {
        keypad_key(platform, 0x4b, 0x6f, 0xffaf)
    } else if same_text(code, "D0") {
        Key::Unicode('0')
    } else if same_text(code, "D1") {
        Key::Unicode('1')
    } else if same_text(code, "D2") {
        Key::Unicode('2')
    } else if same_text(code, "D3") {
        Key::Unicode('3')
    } else if same_text(code, "D4") {
        Key::Unicode('4')
    } else if same_text(code, "D5") {
        Key::Unicode('5')
    } else if same_text(code, "D6") {
        Key::Unicode('6')
    } else if same_text(code, "D7") {
        Key::Unicode('7')
    } else if same_text(code, "D8") {
        Key::Unicode('8')
    } else if same_text(code, "D9") {
        Key::Unicode('9')
    } else {
        return Err(concat("Bad code: ", code));
    };
    Ok(key)
}

/// A key of the numeric keypad.
pub fn keypad_key(platform: Platform, mac: u32, windows: u32, linux: u32) -> (r: Key)
    ensures
        r == keypad(platform, mac, windows, linux),
{
    match platform {
        Platform::MacOs => Key::Other(mac),
        Platform::Windows => Key::Other(windows),
        _ => Key::Other(linux),
    }
}

/// The one character of a text, which must not be NUL.
pub open spec fn only_char(text: Seq<char>) -> Result<char, Seq<char>> {
    if text.len() == 1 && text[0] != '\0' {
        Ok(text[0])
    } else {
        Err("Expected one non-NUL character"@)
    }
}

/// The one character of a text.
pub fn single_character(text: &str) -> (r: Result<char, String>)
    ensures
        outcome(r) == only_char(text@),
{
    let chars = chars_of(text);
    if chars.len() == 1 && chars[0] != '\0' {
        Ok(chars[0])
    } else {
        Err("Expected one non-NUL character".to_owned())
    }
}

// ---------------------------------------------------------------------------
// Chords
// ---------------------------------------------------------------------------

/// What is done to a key.
#[derive(Clone, Copy, Debug, PartialEq, Eq, Structural)]
pub enum Input {
    Press(Key),
    Click(Key),
    Release(Key),
}

/// How far a chord has come.
#[derive(Clone, Copy, Debug, PartialEq, Eq, Structural)]
pub enum Phase {
    /// The modifier at this position is pressed next.
    Pressing(usize),
    /// The key at this position is clicked next.
    Clicking(usize),
    /// So many modifiers are still to be released, the last of them next.
    Releasing(usize),
    /// Nothing is left to do.
    Done,
}

/// Modifiers that are pressed one after another, keys that are clicked while the
/// modifiers are down, and the release of the modifiers in the opposite order. If
/// the modifiers are to be held, the chord ends when they are down. A failure ends
/// the pressing and the clicking, never the releasing.
pub struct Chord {
    keys: Vec<Key>,
    clicks: Vec<Key>,
    hold: bool,
    phase: Phase,
    failure: Option<String>,
}

/// The model of a chord.
pub struct ChordState {
    pub keys: Seq<Key>,
    pub clicks: Seq<Key>,
    pub hold: bool,
    pub phase: Phase,
    pub failure: Option<Seq<char>>,
}

impl View for Chord {
    type V = ChordState;

    closed spec fn view(&self) -> ChordState {
        ChordState {
            keys: self.keys@,
            clicks: self.clicks@,
            hold: self.hold,
            phase: self.phase,
            failure: opt_text(self.failure),
        }
    }
}

impl ChordState {
    /// The phase stands within the keys, and points to something that is left to do.
    pub open spec fn wf(self) -> bool {
        &&& self.keys.len() <= usize::MAX
        &&& self.clicks.len() <= usize::MAX
        &&& match self.phase {
            Phase::Pressing(i) => i < self.keys.len() && self.failure is None,
            Phase::Clicking(i) => i < self.clicks.len() && !self.hold && self.failure is None,
            Phase::Releasing(n) => 0 < n <= self.keys.len(),
            Phase::Done => true,
        }
    }

    /// The state with the next phase in which something is left to do, after the
    /// first `i` modifiers have been pressed.
    pub open spec fn pressing(self, i: int) -> ChordState {
        if i < self.keys.len() {
            ChordState { phase: Phase::Pressing(i as usize), ..self }
        } else if self.hold {
            ChordState { phase: Phase::Done, ..self }
        } else {
            self.clicking(0)
        }
    }

    /// The same, after the first `i` keys have been clicked.
    pub open spec fn clicking(self, i: int) -> ChordState {
        if i < self.clicks.len() {
            ChordState { phase: Phase::Clicking(i as usize), ..self }
        } else {
            self.releasing(self.keys.len() as int)
        }
    }

    /// The same, with `n` modifiers still to be released.
    pub open spec fn releasing(self, n: int) -> ChordState {
        if n > 0 {
            ChordState { phase: Phase::Releasing(n as usize), ..self }
        } else {
            ChordState { phase: Phase::Done, ..self }
        }
    }

    /// The state with the first failure that there was.
    pub open spec fn failed(self, failure: Option<Seq<char>>) -> ChordState {
        ChordState {
            failure: if self.failure is Some {
                self.failure
            } else {
                failure
            },
            ..self
        }
    }

    /// What is to be done next.
    pub open spec fn input(self) -> Option<Input> {
        match self.phase {
            Phase::Pressing(i) => Some(Input::Press(self.keys[i as int])),
            Phase::Clicking(i) => Some(Input::Click(self.clicks[i as int])),
            Phase::Releasing(n) => Some(Input::Release(self.keys[n - 1])),
            Phase::Done => None,
        }
    }

    /// The state after the next input, which failed with a message or did not.
    pub open spec fn after(self, failure: Option<Seq<char>>) -> ChordState {
        let next = self.failed(failure);
        match self.phase {
            Phase::Pressing(i) => if failure is Some {
                next.releasing(i + 1)
            } else {
                next.pressing(i + 1)
            },
            Phase::Clicking(i) => if failure is Some {
                next.releasing(self.keys.len() as int)
            } else {
                next.clicking(i + 1)
            },
            Phase::Releasing(n) => next.releasing(n - 1),
            Phase::Done => self,
        }
    }

    /// The number of inputs that are left if none fails.
    pub open spec fn left(self) -> nat {
        match self.phase {
            Phase::Pressing(i) => (self.keys.len() - i + self.clicks.len() + self.keys.len()) as nat,
            Phase::Clicking(i) => (self.clicks.len() - i + self.keys.len()) as nat,
            Phase::Releasing(n) => n as nat,
            Phase::Done => 0,
        }
    }

    /// The inputs that are sent, given how each of them ends.
    pub open spec fn inputs(self, failures: Seq<Option<Seq<char>>>) -> Seq<Input>
        decreases failures.len(),
    {
        match self.input() {
            Some(input) => if failures.len() == 0 {
                seq![input]
            } else {
                seq![input] + self.after(failures[0]).inputs(failures.drop_first())
            },
            None => Seq::empty(),
        }
    }

    /// The state in the end, given how each input ends.
    pub open spec fn end(self, failures: Seq<Option<Seq<char>>>) -> ChordState
        decreases failures.len(),
    {
        if failures.len() == 0 || self.phase is Done {
            self
        } else {
            self.after(failures[0]).end(failures.drop_first())
        }
    }

    /// How many of the modifiers, counted from the first, are down.
    pub open spec fn down(self) -> int {
        match self.phase {
            Phase::Pressing(i) => i as int,
            Phase::Clicking(_) => self.keys.len() as int,
            Phase::Releasing(n) => n as int,
            Phase::Done => 0,
        }
    }
}

/// The chord before its first input.
pub open spec fn chord(keys: Seq<Key>, clicks: Seq<Key>, hold: bool) -> ChordState {
    ChordState { keys, clicks, hold, phase: Phase::Done, failure: None }.pressing(0)
}

/// The chord that only releases.
pub open spec fn release(keys: Seq<Key>) -> ChordState {
    ChordState {
        keys,
        clicks: Seq::empty(),
        hold: false,
        phase: Phase::Done,
        failure: None,
    }.releasing(keys.len() as int)
}

impl Chord {
    /// Presses the modifiers, clicks the keys and releases the modifiers.
    pub fn with_modifiers(keys: Vec<Key>, clicks: Vec<Key>) -> (r: Chord)
        ensures
            r@ == chord(keys@, clicks@, false),
            r@.wf(),
    {
        let phase = if keys.len() > 0 {
            Phase::Pressing(0)
        } else if clicks.len() > 0 {
            Phase::Clicking(0)
        } else {
            Phase::Done
        };
        assert(keys@.len() == keys.len() && clicks@.len() == clicks.len());
        Chord { keys, clicks, hold: false, phase, failure: None }
    }

    /// Presses the modifiers and leaves them down, unless one of them fails.
    pub fn hold_modifiers(keys: Vec<Key>) -> (r: Chord)
        ensures
            r@ == chord(keys@, Seq::empty(), true),
            r@.wf(),
    {
        let phase = if keys.len() > 0 {
            Phase::Pressing(0)
        } else {
            Phase::Done
        };
        assert(keys@.len() == keys.len());
        let clicks: Vec<Key> = Vec::new();
        let r = Chord { keys, clicks, hold: true, phase, failure: None };
        assert(r@.clicks =~= Seq::empty());
        r
    }

    /// Releases the keys, the last one first.
    pub fn release_keys(keys: Vec<Key>) -> (r: Chord)
        ensures
            r@ == release(keys@),
            r@.wf(),
    {
        let phase = if keys.len() > 0 {
            Phase::Releasing(keys.len())
        } else {
            Phase::Done
        };
        let clicks: Vec<Key> = Vec::new();
        let r = Chord { keys, clicks, hold: false, phase, failure: None };
        assert(r@.clicks =~= Seq::empty());
        r
    }

    /// What is to be done next.
    pub fn next(&self) -> (r: Option<Input>)
        requires
            self@.wf(),
        ensures
            r == self@.input(),
    {
        match self.phase {
            Phase::Pressing(i) => Some(Input::Press(self.keys[i])),
            Phase::Clicking(i) => Some(Input::Click(self.clicks[i])),
            Phase::Releasing(n) => Some(Input::Release(self.keys[n - 1])),
            Phase::Done => None,
        }
    }

    /// Takes note of how the input ended that `next` had named.
    pub fn report(&mut self, outcome: Result<(), String>)
        requires
            old(self)@.wf(),
        ensures
            final(self)@ == old(self)@.after(
                match outcome {
                    Ok(_) => None,
                    Err(message) => Some(message@),
                },
            ),
            final(self)@.wf(),
    {
        let bad = outcome.is_err();
        let phase = match self.phase {
            Phase::Pressing(i) => if bad {
                Phase::Releasing(i + 1)
            } else if i + 1 < self.keys.len() {
                Phase::Pressing(i + 1)
            } else if self.hold {
                Phase::Done
            } else if self.clicks.len() > 0 {
                Phase::Clicking(0)
            } else {
                Phase::Releasing(self.keys.len())
            },
            Phase::Clicking(i) => if !bad && i + 1 < self.clicks.len() {
                Phase::Clicking(i + 1)
            } else if self.keys.len() > 0 {
                Phase::Releasing(self.keys.len())
            } else {
                Phase::Done
            },
            Phase::Releasing(n) => if n > 1 {
                Phase::Releasing(n - 1)
            } else {
                Phase::Done
            },
            Phase::Done => {
                return;
            },
        };
        self.phase = phase;
        if self.failure.is_none() {
            self.failure = match outcome {
                Ok(_) => None,
                Err(message) => Some(message),
            };
        }
    }

    /// The outcome of the whole chord: the first failure, if there was one.
    pub fn result(&self) -> (r: Result<(), String>)
        ensures
            outcome(r) == match self@.failure {
                Some(message) => Err::<(), Seq<char>>(message),
                None => Ok(()),
            },
    {
        match &self.failure {
            Some(message) => Err(message.clone()),
            None => Ok(()),
        }
    }
}

// ---------------------------------------------------------------------------
// Commands
// ---------------------------------------------------------------------------

/// What stands between a command and the keyboard.
pub enum KeyboardStep {
    /// The command fails.
    Refuse(String),
    /// The command is done without touching the keyboard.
    Skip,
    /// The connection to the keyboard has to be made first.
    Create,
    /// The keys can be sent.
    Act,
}

/// Whether a command may use the keyboard. Releasing modifiers needs no permission
/// and is skipped without one.
pub fn keyboard_action(
    platform: Platform,
    permission_required: bool,
    permitted: bool,
    connected: bool,
) -> (r: KeyboardStep)
    ensures
        match r {
            KeyboardStep::Refuse(message) => {
                &&& platform is MacOs && !permitted && permission_required
                &&& message@ == "Accessibility permission required"@
            },
            KeyboardStep::Skip => platform is MacOs && !permitted && !permission_required,
            KeyboardStep::Create => (platform is MacOs ==> permitted) && !connected,
            KeyboardStep::Act => (platform is MacOs ==> permitted) && connected,
        },
{
    let blocked = match platform {
        Platform::MacOs => !permitted,
        _ => false,
    };
    if blocked {
        if permission_required {
            KeyboardStep::Refuse("Accessibility permission required".to_owned())
        } else {
            KeyboardStep::Skip
        }
    } else if connected {
        KeyboardStep::Act
    } else {
        KeyboardStep::Create
    }
}

/// The outcome of a check for the permission to send keys.
#[derive(Clone, Copy, Debug, PartialEq, Eq, Structural)]
pub struct Permission {
    pub granted: bool,
    /// The user is to be asked.
    pub ask: bool,
}

/// Checks the permission to send keys. The user is asked at most once.
pub fn accessibility_permission(trusted: bool, prompt: bool, prompted: &mut bool) -> (r: Permission)
    ensures
        r.granted == trusted,
        r.ask == (!trusted && prompt && !*old(prompted)),
        *final(prompted) == (*old(prompted) || r.ask),
{
    if trusted {
        return Permission { granted: true, ask: false };
    }
    let ask = prompt && !*prompted;
    if ask {
        *prompted = true;
    }
    Permission { granted: false, ask }
}

/// The text that is typed as it is.
pub fn kbd_text(text: &str) -> (r: Result<String, String>)
    ensures
        match r {
            Ok(typed) => !text@.contains('\0') && typed@ == text@,
            Err(e) => text@.contains('\0') && e@ == "Text must not contain NUL characters"@,
        },
{
    if contains_char(text, '\0') {
        return Err("Text must not contain NUL characters".to_owned());
    }
    Ok(text.to_owned())
}

/// What a command makes of the names of its modifiers.
pub open spec fn modified(modifiers: Seq<String>, clicks: Seq<Key>) -> Result<ChordState, Seq<char>> {
    match modifier_keys(texts(modifiers)) {
        Ok(keys) => Ok(chord(keys, clicks, false)),
        Err(message) => Err(message),
    }
}

/// The model of what a command returns.
pub open spec fn chord_outcome(r: Result<Chord, String>) -> Result<ChordState, Seq<char>> {
    match r {
        Ok(c) => Ok(c@),
        Err(e) => Err(e@),
    }
}

/// A text typed key by key, with modifiers.
pub fn kbd_text_as_keys(text: &str, modifiers: &Vec<String>) -> (r: Result<Chord, String>)
    ensures
        chord_outcome(r) == if text@.contains('\0') {
            Err("Text must not contain NUL characters"@)
        } else {
            modified(modifiers@, typed_keys(text@))
        },
        r matches Ok(c) ==> c@.wf(),
{
    if contains_char(text, '\0') {
        return Err("Text must not contain NUL characters".to_owned());
    }
    let keys = self::modifiers(modifiers)?;
    let chars = chars_of(text);
    let mut clicks: Vec<Key> = Vec::new();
    let mut i: usize = 0;
    while i < chars.len()
        invariant
            i <= chars@.len(),
            chars@ == text@,
            clicks@ == typed_keys(text@.take(i as int)),
        decreases chars.len() - i,
    {
        clicks.push(Key::Unicode(chars[i]));
        i += 1;
        assert(text@.take(i as int).drop_last() =~= text@.take(i - 1));
    }
    assert(text@.take(text@.len() as int) =~= text@);
    Ok(Chord::with_modifiers(keys, clicks))
}

/// One key click with modifiers.
fn click(key: Key, keys: Vec<Key>) -> (r: Chord)
    ensures
        r@ == chord(keys@, seq![key], false),
        r@.wf(),
{
    let mut clicks: Vec<Key> = Vec::new();
    clicks.push(key);
    assert(clicks@ =~= seq![key]);
    Chord::with_modifiers(keys, clicks)
}

/// A named key with modifiers.
pub fn kbd_key_press(platform: Platform, code: &str, modifiers: &Vec<String>) -> (r: Result<
    Chord,
    String,
>)
    ensures
        chord_outcome(r) == match named_key(platform, code@) {
            Some(key) => modified(modifiers@, seq![key]),
            None => Err("Bad code: "@ + code@),
        },
        r matches Ok(c) ==> c@.wf(),
{
    let key = key_code(platform, code)?;
    let keys = self::modifiers(modifiers)?;
    Ok(click(key, keys))
}

/// The modifier of the shortcuts of a platform.
pub open spec fn shortcut_modifier(platform: Platform) -> Key {
    if platform is MacOs {
        Key::Meta
    } else {
        Key::Control
    }
}

/// A shortcut of one character. An upper-case letter does not mean the shift key.
pub fn kbd_shortcut(platform: Platform, code: &str) -> (r: Result<Chord, String>)
    ensures
        chord_outcome(r) == match only_char(code@) {
            Ok(c) => Ok(
                chord(
                    seq![shortcut_modifier(platform)],
                    seq![Key::Unicode(crate::text::ascii_lower(c))],
                    false,
                ),
            ),
            Err(message) => Err(message),
        },
        r matches Ok(c) ==> c@.wf(),
{
    let key = Key::Unicode(lower_char(single_character(code)?));
    let modifier = match platform {
        Platform::MacOs => Key::Meta,
        _ => Key::Control,
    };
    let mut keys: Vec<Key> = Vec::new();
    keys.push(modifier);
    assert(keys@ =~= seq![modifier]);
    Ok(click(key, keys))
}

/// Modifiers that go down and stay there, or that are released. Only pressing them
/// needs the permission.
pub fn kbd_key_move_with_modifier(down: bool, modifiers: &Vec<String>) -> (r: Result<Chord, String>)
    ensures
        chord_outcome(r) == match modifier_keys(texts(modifiers@)) {
            Ok(keys) => Ok(
                if down {
                    chord(keys, Seq::empty(), true)
                } else {
                    release(keys)
                },
            ),
            Err(message) => Err(message),
        },
        r matches Ok(c) ==> c@.wf(),
{
    let keys = self::modifiers(modifiers)?;
    if down {
        Ok(Chord::hold_modifiers(keys))
    } else {
        Ok(Chord::release_keys(keys))
    }
}

/// The key that is meant by a character, or by a number if there is none.
pub open spec fn character_key(platform: Platform, character: Seq<char>, code: Option<u32>) -> Result<
    Key,
    Seq<char>,
> {
    if character.len() == 0 {
        match code {
            Some(number) => if number > 0xffff && (platform is MacOs || platform is Windows) {
                Err("Virtual key code must fit in 16 bits"@)
            } else {
                Ok(Key::Other(number))
            },
            None => Err("A virtual key code is required when character is empty"@),
        }
    } else {
        match only_char(character) {
            Ok(c) => Ok(Key::Unicode(c)),
            Err(message) => Err(message),
        }
    }
}

/// A key by its character or number, with modifiers.
pub fn kbd_key_press_with_character(
    platform: Platform,
    character: &str,
    code: Option<u32>,
    modifiers: &Vec<String>,
) -> (r: Result<Chord, String>)
    ensures
        chord_outcome(r) == match character_key(platform, character@, code) {
            Ok(key) => modified(modifiers@, seq![key]),
            Err(message) => Err(message),
        },
        r matches Ok(c) ==> c@.wf(),
{
    let key = if character.is_empty() {
        match code {
            Some(number) => {
                let narrow = match platform {
                    Platform::MacOs | Platform::Windows => true,
                    _ => false,
                };
                if narrow && number > 0xffff {
                    return Err("Virtual key code must fit in 16 bits".to_owned());
                }
                Key::Other(number)
            },
            None => {
                return Err("A virtual key code is required when character is empty".to_owned());
            },
        }
    } else {
        Key::Unicode(single_character(character)?)
    };
    let keys = self::modifiers(modifiers)?;
    Ok(click(key, keys))
}

/// The right-hand modifiers that have a key of their own on a platform.
pub open spec fn right_modifiers(platform: Platform) -> Seq<Key> {
    match platform {
        Platform::MacOs => seq![Key::ROption, Key::RCommand],
        Platform::Windows => seq![Key::RMenu, Key::RWin],
        Platform::Linux => seq![Key::Other(0xffea), Key::Other(0xffec)],
        Platform::Unix | Platform::Other => Seq::empty(),
    }
}

/// The releases of all modifiers. Whether one of them fails does not matter.
pub fn kbd_ensure_modifier_not_pressed(platform: Platform) -> (r: Vec<Chord>)
    ensures
        r@.len() == 3,
        r@[0]@ == release(seq![Key::Shift, Key::Control, Key::Alt, Key::Meta]),
        r@[1]@ == release(seq![Key::RShift, Key::RControl]),
        r@[2]@ == release(right_modifiers(platform)),
        forall|i: int| 0 <= i < 3 ==> (#[trigger] r@[i])@.wf(),
{
    let left: Vec<Key> = vec![Key::Shift, Key::Control, Key::Alt, Key::Meta];
    let right: Vec<Key> = vec![Key::RShift, Key::RControl];
    let own: Vec<Key> = match platform {
        Platform::MacOs => vec![Key::ROption, Key::RCommand],
        Platform::Windows => vec![Key::RMenu, Key::RWin],
        Platform::Linux => vec![Key::Other(0xffea), Key::Other(0xffec)],
        Platform::Unix | Platform::Other => Vec::new(),
    };
    assert(left@ =~= seq![Key::Shift, Key::Control, Key::Alt, Key::Meta]);
    assert(right@ =~= seq![Key::RShift, Key::RControl]);
    assert(own@ =~= right_modifiers(platform));
    let mut r: Vec<Chord> = Vec::new();
    r.push(Chord::release_keys(left));
    r.push(Chord::release_keys(right));
    r.push(Chord::release_keys(own));
    r
}

// ---------------------------------------------------------------------------
// Windows
// ---------------------------------------------------------------------------

/// What is asked of the active window.
#[derive(Clone, Copy, Debug, PartialEq, Eq, Structural)]
pub struct ActiveWindowOptions {
    pub get_window_title: bool,
    pub get_browser_url: bool,
}

/// What is told of the active window.
pub struct ActiveWindow {
    pub id: String,
    pub pid: u64,
    pub title: Option<String>,
    pub url: Option<String>,
}

/// What the system knows of the active window.
pub struct RawWindow {
    pub window_id: String,
    pub process_id: u64,
    pub title: String,
    pub app_name: String,
}

/// The script that asks a browser for the address it shows.
pub open spec fn browser_script(app: Seq<char>) -> Option<Seq<char>> {
    if app == "Safari"@ {
        Some("tell application \"Safari\" to get URL of front document"@)
    } else if app == "Google Chrome"@ {
        Some("tell application \"Google Chrome\" to get URL of active tab of front window"@)
    } else if app == "Microsoft Edge"@ {
        Some("tell application \"Microsoft Edge\" to get URL of active tab of front window"@)
    } else if app == "Brave Browser"@ {
        Some("tell application \"Brave Browser\" to get URL of active tab of front window"@)
    } else if app == "Arc"@ {
        Some("tell application \"Arc\" to get URL of active tab of front window"@)
    } else {
        None
    }
}

/// The script that asks a browser for the address it shows. Only the names of
/// known browsers lead to a script, and nothing else enters one.
pub fn browser_url(app: &str) -> (r: Option<&'static str>)
    ensures
        crate::text::opt_str(r) == browser_script(app@),
{
    if same_text(app, "Safari") {
        Some("tell application \"Safari\" to get URL of front document")
    } else if same_text(app, "Google Chrome") {
        Some("tell application \"Google Chrome\" to get URL of active tab of front window")
    } else if same_text(app, "Microsoft Edge") {
        Some("tell application \"Microsoft Edge\" to get URL of active tab of front window")
    } else if same_text(app, "Brave Browser") {
        Some("tell application \"Brave Browser\" to get URL of active tab of front window")
    } else if same_text(app, "Arc") {
        Some("tell application \"Arc\" to get URL of active tab of front window")
    } else {
        None
    }
}

/// The script to run before the active window is described, if any.
pub fn browser_query(platform: Platform, options: ActiveWindowOptions, app: &str) -> (r: Option<
    &'static str,
>)
    ensures
        crate::text::opt_str(r) == if platform is MacOs && options.get_browser_url {
            browser_script(app@)
        } else {
            None
        },
{
    match platform {
        Platform::MacOs => if options.get_browser_url {
            browser_url(app)
        } else {
            None
        },
        _ => None,
    }
}

/// What to do about a script that is asked how it stands.
#[derive(Clone, Copy, Debug, PartialEq, Eq, Structural)]
pub enum ScriptStep {
    /// The script is over; it succeeded or not.
    Over(bool),
    /// Ask again after a while.
    Wait,
    /// Kill the script, which counts as a failure.
    Kill,
}

/// How a script stands.
#[derive(Clone, Copy, Debug, PartialEq, Eq, Structural)]
pub enum ScriptState {
    Exited(bool),
    Running,
    Unknown,
}

/// A script may run until its deadline.
pub fn script_step(state: ScriptState, before_deadline: bool) -> (r: ScriptStep)
    ensures
        r == match state {
            ScriptState::Exited(success) => ScriptStep::Over(success),
            ScriptState::Running => if before_deadline {
                ScriptStep::Wait
            } else {
                ScriptStep::Kill
            },
            ScriptState::Unknown => ScriptStep::Kill,
        },
{
    match state {
        ScriptState::Exited(success) => ScriptStep::Over(success),
        ScriptState::Running => if before_deadline {
            ScriptStep::Wait
        } else {
            ScriptStep::Kill
        },
        ScriptState::Unknown => ScriptStep::Kill,
    }
}

/// The address that a script printed.
pub open spec fn script_address(success: bool, output: Seq<char>) -> Option<Seq<char>> {
    let address = trimmed(output);
    if success && address.len() > 0 && address != "missing value"@ {
        Some(address)
    } else {
        None
    }
}

/// The address that a script printed.
pub fn browser_script_result(success: bool, output: &str) -> (r: Option<String>)
    ensures
        opt_text(r) == script_address(success, output@),
{
    if !success {
        return None;
    }
    let address = trim(output);
    if address.as_str().is_empty() || same_text(address.as_str(), "missing value") {
        None
    } else {
        Some(address)
    }
}

/// Whether the title of the focused window has to be asked for: the system does
/// not tell it without a further permission.
pub open spec fn title_withheld(
    platform: Platform,
    options: ActiveWindowOptions,
    title: Seq<char>,
) -> bool {
    platform is MacOs && options.get_window_title && title.len() == 0
}

/// Whether the title of the focused window has to be asked for.
pub fn needs_focused_title(platform: Platform, options: ActiveWindowOptions, window: &RawWindow) -> (r:
    bool)
    ensures
        r == title_withheld(platform, options, window.title@),
{
    match platform {
        Platform::MacOs => options.get_window_title && window.title.as_str().is_empty(),
        _ => false,
    }
}

/// The process whose focused window is asked for its title.
pub fn window_title(permitted: bool, pid: u64) -> (r: Option<i32>)
    ensures
        r == if permitted && pid <= i32::MAX {
            Some(pid as i32)
        } else {
            None
        },
{
    if permitted && pid <= 0x7fff_ffff {
        Some(pid as i32)
    } else {
        None
    }
}

/// What is told of the active window, from what the system knows of it, the
/// address that its browser shows and the title of the focused window.
pub fn kbd_get_active_window(
    platform: Platform,
    options: ActiveWindowOptions,
    window: Option<RawWindow>,
    url: Option<String>,
    focused_title: Option<String>,
) -> (r: Result<ActiveWindow, String>)
    ensures
        match (window, r) {
            (Some(w), Ok(a)) => {
                &&& a.id@ == if w.window_id@.len() == 0 {
                    decimal(w.process_id as nat)
                } else {
                    w.window_id@
                }
                &&& a.pid == w.process_id
                &&& opt_text(a.title) == if !options.get_window_title {
                    None
                } else if title_withheld(platform, options, w.title@) && focused_title is Some {
                    opt_text(focused_title)
                } else {
                    Some(w.title@)
                }
                &&& opt_text(a.url) == if platform is MacOs && options.get_browser_url {
                    opt_text(url)
                } else {
                    None
                }
            },
            (None, Err(e)) => e@ == "Cannot determine the active window"@,
            _ => false,
        },
{
    match window {
        Some(w) => {
            let shown = match platform {
                Platform::MacOs => if options.get_browser_url {
                    url
                } else {
                    None
                },
                _ => None,
            };
            let withheld = needs_focused_title(platform, options, &w);
            let id = if w.window_id.as_str().is_empty() {
                decimal_text(w.process_id)
            } else {
                w.window_id
            };
            let title = if options.get_window_title {
                match focused_title {
                    Some(t) => if withheld {
                        Some(t)
                    } else {
                        Some(w.title)
                    },
                    None => Some(w.title),
                }
            } else {
                None
            };
            Ok(ActiveWindow { id, pid: w.process_id, title, url: shown })
        },
        None => Err("Cannot determine the active window".to_owned()),
    }
}

/// The process of the active window, as the system numbers it.
pub fn kbd_get_active_pid(process: Option<i32>) -> (r: Result<u64, String>)
    ensures
        outcome(r) == match process {
            Some(pid) => if pid < 0 {
                Err("Invalid active process ID"@)
            } else {
                Ok(pid as u64)
            },
            None => Err("Cannot determine the active process"@),
        },
{
    match process {
        Some(pid) => if pid < 0 {
            Err("Invalid active process ID".to_owned())
        } else {
            Ok(pid as u64)
        },
        None => Err("Cannot determine the active process".to_owned()),
    }
}

/// The process of the active window, where the window itself tells it.
pub fn active_process(process: Option<u64>) -> (r: Result<u64, String>)
    ensures
        outcome(r) == match process {
            Some(pid) => Ok(pid),
            None => Err("Cannot determine the active process"@),
        },
{
    match process {
        Some(pid) => Ok(pid),
        None => Err("Cannot determine the active process".to_owned()),
    }
}

/// A window, as the platform numbers it.
#[derive(Clone, Copy, Debug, PartialEq, Eq, Structural)]
pub enum WindowHandle {
    Mac(u32),
    Windows(i64),
}

/// A window handle without the name that its debug form puts around it.
pub open spec fn bare_handle(id: Seq<char>) -> Seq<char> {
    if begins(id, "HWND("@) && ends(id.skip(5), ")"@) {
        id.subrange(5, id.len() - 1)
    } else {
        id
    }
}

/// The window that an ID stands for.
pub open spec fn window_handle(platform: Platform, id: Seq<char>) -> Result<WindowHandle, Seq<char>> {
    match platform {
        Platform::MacOs => match unsigned_number(id, u32::MAX as nat) {
            Some(n) => if n == 0 {
                Err("Invalid window ID"@)
            } else {
                Ok(WindowHandle::Mac(n as u32))
            },
            None => Err("Invalid window ID"@),
        },
        Platform::Windows => match signed_number(bare_handle(id)) {
            Some(n) => if n == 0 {
                Err("Invalid window ID"@)
            } else {
                Ok(WindowHandle::Windows(n as i64))
            },
            None => Err("Invalid window ID"@),
        },
        _ => Err("Not supported on this platform"@),
    }
}

/// The window that an ID stands for.
pub fn kbd_show_window(platform: Platform, id: &str) -> (r: Result<WindowHandle, String>)
    ensures
        outcome(r) == window_handle(platform, id@),
{
    match platform {
        Platform::MacOs => match parse_unsigned(id, 0xffff_ffff) {
            Some(n) => if n == 0 {
                Err("Invalid window ID".to_owned())
            } else {
                Ok(WindowHandle::Mac(n as u32))
            },
            None => Err("Invalid window ID".to_owned()),
        },
        Platform::Windows => {
            let chars = chars_of(id);
            proof {
                reveal_strlit("HWND(");
                reveal_strlit(")");
            }
            let wrapped = starts_with(id, "HWND(") && chars.len() > 5 && chars[chars.len() - 1] == ')';
            assert(wrapped == (begins(id@, "HWND("@) && ends(id@.skip(5), ")"@))) by {
                if id@.len() > 5 {
                    let tail = id@.skip(5);
                    assert(tail.subrange(tail.len() - 1, tail.len() as int) =~= seq![id@.last()]);
                    assert(")"@ =~= seq![')']);
                    assert(seq![id@.last()][0] == id@.last());
                }
            }
            let bare = if wrapped {
                string_between(&chars, 5, chars.len() - 1)
            } else {
                id.to_owned()
            };
            match parse_signed(bare.as_str()) {
                Some(n) => if n == 0 {
                    Err("Invalid window ID".to_owned())
                } else {
                    Ok(WindowHandle::Windows(n))
                },
                None => Err("Invalid window ID".to_owned()),
            }
        },
        _ => Err("Not supported on this platform".to_owned()),
    }
}

/// The process that owns a window, from the number that the window list gives.
pub fn show_window(found: bool, owner: Option<i64>) -> (r: Result<i32, String>)
    ensures
        outcome(r) == if !found {
            Err("Cannot find the requested window"@)
        } else {
            match owner {
                Some(pid) => if i32::MIN <= pid <= i32::MAX {
                    Ok(pid as i32)
                } else {
                    Err("Cannot determine the window's process"@)
                },
                None => Err("Cannot determine the window's process"@),
            }
        },
{
    if !found {
        return Err("Cannot find the requested window".to_owned());
    }
    match owner {
        Some(pid) => if -0x8000_0000 <= pid && pid <= 0x7fff_ffff {
            Ok(pid as i32)
        } else {
            Err("Cannot determine the window's process".to_owned())
        },
        None => Err("Cannot determine the window's process".to_owned()),
    }
}

/// The outcome of bringing a window to the front. `running` tells that its application
/// still runs, where that is asked for.
pub fn window_activated(platform: Platform, running: bool, activated: bool) -> (r: Result<
    (),
    String,
>)
    ensures
        outcome(r) == match platform {
            Platform::MacOs => if !running {
                Err("The requested application is no longer running"@)
            } else if !activated {
                Err("Cannot activate the requested application"@)
            } else {
                Ok(())
            },
            Platform::Windows => if activated {
                Ok(())
            } else {
                Err("Cannot activate the requested window"@)
            },
            _ => Err("Not supported on this platform"@),
        },
{
    match platform {
        Platform::MacOs => if !running {
            Err("The requested application is no longer running".to_owned())
        } else if !activated {
            Err("Cannot activate the requested application".to_owned())
        } else {
            Ok(())
        },
        Platform::Windows => if activated {
            Ok(())
        } else {
            Err("Cannot activate the requested window".to_owned())
        },
        _ => Err("Not supported on this platform".to_owned()),
    }
}

// ---------------------------------------------------------------------------
// Laws
// ---------------------------------------------------------------------------

/// The modifiers of a chord are four keys, none of them named twice.
pub proof fn law_modifiers_are_distinct(names: Seq<Seq<char>>)
    requires
        modifier_keys(names) is Ok,
    ensures
        modifier_keys(names)->Ok_0.no_duplicates(),
        forall|i: int|
            0 <= i < modifier_keys(names)->Ok_0.len() ==> {
                let key = #[trigger] modifier_keys(names)->Ok_0[i];
                key is Control || key is Alt || key is Shift || key is Meta
            },
    decreases names.len(),
{
    if names.len() > 0 {
        law_modifiers_are_distinct(names.drop_last());
        let keys = modifier_keys(names.drop_last())->Ok_0;
        let key = modifier_key(names.last())->0;
        if !keys.contains(key) {
            assert forall|i: int, j: int|
                0 <= i < keys.push(key).len() && 0 <= j < keys.push(key).len() && i != j implies keys.push(
                key,
            )[i] != keys.push(key)[j] by {
                if i < keys.len() && j == keys.len() {
                    assert(keys.contains(keys[i]));
                }
                if j < keys.len() && i == keys.len() {
                    assert(keys.contains(keys[j]));
                }
            }
        }
    }
}

/// Every input brings a chord closer to its end, whether it fails or not.
pub proof fn law_chord_ends(state: ChordState, failure: Option<Seq<char>>)
    requires
        state.wf(),
        !(state.phase is Done),
    ensures
        state.after(failure).wf(),
        state.after(failure).left() < state.left(),
{
}

/// A chord keeps its first failure and reports it in the end.
pub proof fn law_first_failure_is_kept(state: ChordState, failures: Seq<Option<Seq<char>>>)
    requires
        state.wf(),
        state.failure is Some,
    ensures
        state.end(failures).failure == state.failure,
    decreases failures.len(),
{
    if failures.len() > 0 && !(state.phase is Done) {
        law_first_failure_is_kept(state.after(failures[0]), failures.drop_first());
    }
}

/// The modifiers that are down in a state are released before the chord ends.
proof fn lemma_down_is_released(state: ChordState, failures: Seq<Option<Seq<char>>>, k: int)
    requires
        state.wf(),
        !state.hold || state.phase is Releasing,
        0 <= k < state.down(),
        state.end(failures).phase is Done,
    ensures
        state.inputs(failures).contains(Input::Release(state.keys[k])),
    decreases failures.len(),
{
    if failures.len() > 0 {
        let next = state.after(failures[0]);
        let rest = failures.drop_first();
        let tail = next.inputs(rest);
        let all = state.inputs(failures);
        assert(all =~= seq![state.input()->0] + tail);
        if state.phase is Releasing && k == state.phase->Releasing_0 - 1 {
            assert(all[0] == Input::Release(state.keys[k]));
        } else {
            lemma_down_is_released(next, rest, k);
            let j = choose|j: int| 0 <= j < tail.len() && tail[j] == Input::Release(state.keys[k]);
            assert(all[j + 1] == Input::Release(state.keys[k]));
        }
    }
}

/// No modifier is left down: whatever fails on the way, each key that a chord
/// presses is released after that, unless the chord is there to hold it.
pub proof fn law_no_modifier_is_stranded(
    state: ChordState,
    failures: Seq<Option<Seq<char>>>,
    i: int,
)
    requires
        state.wf(),
        !state.hold,
        state.end(failures).phase is Done,
        0 <= i < state.inputs(failures).len(),
        state.inputs(failures)[i] is Press,
    ensures
        exists|j: int|
            i < j < state.inputs(failures).len() && #[trigger] state.inputs(failures)[j]
                == Input::Release(state.inputs(failures)[i]->Press_0),
    decreases failures.len(),
{
    assert(failures.len() > 0);
    let next = state.after(failures[0]);
    let rest = failures.drop_first();
    let tail = next.inputs(rest);
    let all = state.inputs(failures);
    assert(all =~= seq![state.input()->0] + tail);
    if i == 0 {
        let k = state.phase->Pressing_0 as int;
        lemma_down_is_released(next, rest, k);
        let j = choose|j: int| 0 <= j < tail.len() && tail[j] == Input::Release(state.keys[k]);
        assert(all[j + 1] == Input::Release(state.keys[k]));
    } else {
        law_no_modifier_is_stranded(next, rest, i - 1);
        let j = choose|j: int|
            i - 1 < j < tail.len() && #[trigger] tail[j] == Input::Release(tail[i - 1]->Press_0);
        assert(all[j + 1] == Input::Release(all[i]->Press_0));
    }
}

/// Modifiers that are to be held stay down only if all of them could be pressed:
/// after a failure, those that were pressed are released.
pub proof fn law_failed_hold_is_undone(
    keys: Seq<Key>,
    failures: Seq<Option<Seq<char>>>,
    state: ChordState,
    k: int,
)
    requires
        state.wf(),
        state.hold,
        state.keys == keys,
        state.phase is Pressing,
        failures.len() > 0,
        failures[0] is Some,
        state.end(failures).phase is Done,
        0 <= k <= state.phase->Pressing_0,
    ensures
        state.inputs(failures).contains(Input::Release(keys[k])),
{
    let next = state.after(failures[0]);
    let rest = failures.drop_first();
    lemma_down_is_released(next, rest, k);
    let tail = next.inputs(rest);
    let all = state.inputs(failures);
    assert(all =~= seq![state.input()->0] + tail);
    let j = choose|j: int| 0 <= j < tail.len() && tail[j] == Input::Release(keys[k]);
    assert(all[j + 1] == Input::Release(keys[k]));
}

/// One more character is one more key.
proof fn lemma_typed_key(text: Seq<char>, c: char)
    ensures
        typed_keys(text.push(c)).len() == typed_keys(text).len() + 1,
        typed_keys(text.push(c))[typed_keys(text).len() as int] == Key::Unicode(c),
        forall|i: int|
            0 <= i < typed_keys(text).len() ==> #[trigger] typed_keys(text.push(c))[i] == typed_keys(
                text,
            )[i],
{
    assert(text.push(c).drop_last() =~= text);
    assert(text.push(c).last() == c);
}

/// There are as many keys as characters, each in its place.
proof fn lemma_typed_keys(text: Seq<char>)
    ensures
        typed_keys(text).len() == text.len(),
        forall|i: int| 0 <= i < text.len() ==> #[trigger] typed_keys(text)[i] == Key::Unicode(text[i]),
    decreases text.len(),
{
    if text.len() > 0 {
        let before = text.drop_last();
        let c: char = text.last();
        lemma_typed_keys(before);
        lemma_typed_key(before, c);
        assert(before.push(c) =~= text);
        let keys = typed_keys(before);
        assert forall|i: int| 0 <= i < text.len() implies #[trigger] typed_keys(text)[i]
            == Key::Unicode(text[i]) by {
            if i < before.len() {
                assert(keys[i] == Key::Unicode(before[i]));
            }
        }
    }
}

/// A text is typed by as many clicks as it has characters, and the click at each position
/// is on the key of the very character at that position.
pub proof fn law_each_character_is_typed(
    text: &str,
    modifiers: &Vec<String>,
    r: Result<Chord, String>,
)
    requires
        call_ensures(kbd_text_as_keys, (text, modifiers), r),
    ensures
        text@.contains('\0') ==> r is Err && (r->Err_0)@ == "Text must not contain NUL characters"@,
        r is Ok ==> (r->Ok_0)@.clicks.len() == text@.len(),
        r is Ok ==> forall|i: int|
            0 <= i < text@.len() ==> #[trigger] (r->Ok_0)@.clicks[i] == Key::Unicode(text@[i]),
        r is Ok ==> !(r->Ok_0)@.hold,
{
    lemma_typed_keys(text@);
}

/// Read backwards: the names that lead to a key. Each key has its own names, and no name
/// that has a key is refused.
pub proof fn law_names_of_a_key(platform: Platform, code: &str, r: Result<Key, String>)
    requires
        call_ensures(key_code, (platform, code), r),
    ensures
        r matches Ok(key) ==> match key {
            Key::Tab => code@ == "Tab"@ || code@ == "tab"@,
            Key::Return => code@ == "Return"@ || code@ == "enter"@,
            Key::Space => code@ == "Space"@ || code@ == "space"@,
            Key::UpArrow => code@ == "UpArrow"@ || code@ == "up"@,
            Key::DownArrow => code@ == "DownArrow"@ || code@ == "down"@,
            Key::LeftArrow => code@ == "LeftArrow"@ || code@ == "left"@,
            Key::RightArrow => code@ == "RightArrow"@ || code@ == "right"@,
            Key::Home => code@ == "Home"@ || code@ == "home"@,
            Key::End => code@ == "End"@ || code@ == "end"@,
            Key::PageUp => code@ == "PageUp"@ || code@ == "pgup"@,
            Key::PageDown => code@ == "PageDown"@ || code@ == "pgdn"@,
            Key::Delete => code@ == "ForwardDelete"@ || code@ == "del"@,
            Key::Backspace => code@ == "BackwardDelete"@ || code@ == "bs"@,
            Key::Escape => code@ == "Escape"@ || code@ == "esc"@,
            Key::Meta => code@ == "Meta"@ || code@ == "win"@,
            Key::F1 => code@ == "F1"@ || code@ == "f1"@,
            Key::F2 => code@ == "F2"@ || code@ == "f2"@,
            Key::F3 => code@ == "F3"@ || code@ == "f3"@,
            Key::F4 => code@ == "F4"@ || code@ == "f4"@,
            Key::F5 => code@ == "F5"@ || code@ == "f5"@,
            Key::F6 => code@ == "F6"@ || code@ == "f6"@,
            Key::F7 => code@ == "F7"@ || code@ == "f7"@,
            Key::F8 => code@ == "F8"@ || code@ == "f8"@,
            Key::F9 => code@ == "F9"@ || code@ == "f9"@,
            Key::F10 => code@ == "F10"@ || code@ == "f10"@,
            Key::F11 => code@ == "F11"@ || code@ == "f11"@,
            Key::F12 => code@ == "F12"@ || code@ == "f12"@,
            Key::F13 => code@ == "F13"@ || code@ == "f13"@,
            Key::F14 => code@ == "F14"@ || code@ == "f14"@,
            Key::F15 => code@ == "F15"@ || code@ == "f15"@,
            Key::F16 => code@ == "F16"@ || code@ == "f16"@,
            Key::Insert => !(platform is MacOs) && (code@ == "Insert"@ || code@ == "ins"@),
            Key::RCommand => platform is MacOs && (code@ == "RightMeta"@ || code@ == "rwin"@),
            Key::RWin => platform is Windows && (code@ == "RightMeta"@ || code@ == "rwin"@),
            Key::Unicode(c) => '0' <= c <= '9' && code@ == seq!['D', c],
            Key::Other(number) => match platform {
                Platform::MacOs => {
                    ||| number == 0x72 && (code@ == "Insert"@ || code@ == "ins"@)
                    ||| number == 0x45 && code@ == "KeypadPlus"@
                    ||| number == 0x4e && code@ == "KeypadMinus"@
                    ||| number == 0x43 && code@ == "KeypadMultiply"@
                    ||| number == 0x4b && code@ == "KeypadDivide"@
                },
                Platform::Windows => {
                    ||| number == 0x6b && code@ == "KeypadPlus"@
                    ||| number == 0x6d && code@ == "KeypadMinus"@
                    ||| number == 0x6a && code@ == "KeypadMultiply"@
                    ||| number == 0x6f && code@ == "KeypadDivide"@
                },
                _ => {
                    ||| number == 0xffab && code@ == "KeypadPlus"@
                    ||| number == 0xffad && code@ == "KeypadMinus"@
                    ||| number == 0xffaa && code@ == "KeypadMultiply"@
                    ||| number == 0xffaf && code@ == "KeypadDivide"@
                    ||| number == 0xffec && platform is Linux && (code@ == "RightMeta"@ || code@
                        == "rwin"@)
                },
            },
            _ => false,
        },
        r matches Err(e) ==> {
            &&& e@ == "Bad code: "@ + code@
            &&& code@ != "Tab"@
            &&& code@ != "tab"@
            &&& code@ != "Return"@
            &&& code@ != "enter"@
            &&& code@ != "Space"@
            &&& code@ != "space"@
            &&& code@ != "UpArrow"@
            &&& code@ != "up"@
            &&& code@ != "DownArrow"@
            &&& code@ != "down"@
            &&& code@ != "LeftArrow"@
            &&& code@ != "left"@
            &&& code@ != "RightArrow"@
            &&& code@ != "right"@
            &&& code@ != "Home"@
            &&& code@ != "home"@
            &&& code@ != "End"@
            &&& code@ != "end"@
            &&& code@ != "PageUp"@
            &&& code@ != "pgup"@
            &&& code@ != "PageDown"@
            &&& code@ != "pgdn"@
            &&& code@ != "ForwardDelete"@
            &&& code@ != "del"@
            &&& code@ != "BackwardDelete"@
            &&& code@ != "bs"@
            &&& code@ != "Escape"@
            &&& code@ != "esc"@
            &&& code@ != "Meta"@
            &&& code@ != "win"@
            &&& code@ != "F1"@
            &&& code@ != "f1"@
            &&& code@ != "F2"@
            &&& code@ != "f2"@
            &&& code@ != "F3"@
            &&& code@ != "f3"@
            &&& code@ != "F4"@
            &&& code@ != "f4"@
            &&& code@ != "F5"@
            &&& code@ != "f5"@
            &&& code@ != "F6"@
            &&& code@ != "f6"@
            &&& code@ != "F7"@
            &&& code@ != "f7"@
            &&& code@ != "F8"@
            &&& code@ != "f8"@
            &&& code@ != "F9"@
            &&& code@ != "f9"@
            &&& code@ != "F10"@
            &&& code@ != "f10"@
            &&& code@ != "F11"@
            &&& code@ != "f11"@
            &&& code@ != "F12"@
            &&& code@ != "f12"@
            &&& code@ != "F13"@
            &&& code@ != "f13"@
            &&& code@ != "F14"@
            &&& code@ != "f14"@
            &&& code@ != "F15"@
            &&& code@ != "f15"@
            &&& code@ != "F16"@
            &&& code@ != "f16"@
            &&& code@ != "Insert"@
            &&& code@ != "ins"@
            &&& code@ != "KeypadPlus"@
            &&& code@ != "KeypadMinus"@
            &&& code@ != "KeypadMultiply"@
            &&& code@ != "KeypadDivide"@
            &&& code@ != "D0"@
            &&& code@ != "D1"@
            &&& code@ != "D2"@
            &&& code@ != "D3"@
            &&& code@ != "D4"@
            &&& code@ != "D5"@
            &&& code@ != "D6"@
            &&& code@ != "D7"@
            &&& code@ != "D8"@
            &&& code@ != "D9"@
            &&& code@ == "RightMeta"@ || code@ == "rwin"@ ==> platform is Unix || platform is Other
        },
{
    reveal_strlit("RightMeta");
    reveal_strlit("rwin");
    reveal_strlit("KeypadPlus");
    reveal_strlit("KeypadMinus");
    reveal_strlit("KeypadMultiply");
    reveal_strlit("KeypadDivide");
    assert("RightMeta"@.len() == 9 && "rwin"@.len() == 4);
    assert("KeypadPlus"@.len() == 10 && "KeypadMinus"@.len() == 11);
    assert("KeypadMultiply"@.len() == 14 && "KeypadDivide"@.len() == 12);
    reveal_strlit("D0");
    reveal_strlit("D1");
    reveal_strlit("D2");
    reveal_strlit("D3");
    reveal_strlit("D4");
    reveal_strlit("D5");
    reveal_strlit("D6");
    reveal_strlit("D7");
    reveal_strlit("D8");
    reveal_strlit("D9");
    assert("D0"@ =~= seq!['D', '0']);
    assert("D1"@ =~= seq!['D', '1']);
    assert("D2"@ =~= seq!['D', '2']);
    assert("D3"@ =~= seq!['D', '3']);
    assert("D4"@ =~= seq!['D', '4']);
    assert("D5"@ =~= seq!['D', '5']);
    assert("D6"@ =~= seq!['D', '6']);
    assert("D7"@ =~= seq!['D', '7']);
    assert("D8"@ =~= seq!['D', '8']);
    assert("D9"@ =~= seq!['D', '9']);
}

/// The four modifiers go by eleven names.
pub proof fn law_names_of_a_modifier(name: Seq<char>)
    ensures
        modifier_key(name) == Some(Key::Control) <==> name == "Ctrl"@ || name == "Control"@,
        modifier_key(name) == Some(Key::Alt) <==> name == "Alt"@ || name == "Option"@,
        modifier_key(name) == Some(Key::Shift) <==> name == "Shift"@,
        modifier_key(name) == Some(Key::Meta) <==> name == "Meta"@ || name == "Command"@ || name
            == "Cmd"@ || name == "Super"@ || name == "Win"@ || name == "Windows"@,
        modifier_key(name) matches Some(key) ==> key is Control || key is Alt || key is Shift
            || key is Meta,
{
    reveal_strlit("Ctrl");
    reveal_strlit("Control");
    reveal_strlit("Alt");
    reveal_strlit("Option");
    reveal_strlit("Shift");
    reveal_strlit("Meta");
    reveal_strlit("Command");
    reveal_strlit("Cmd");
    reveal_strlit("Super");
    reveal_strlit("Win");
    reveal_strlit("Windows");
    assert("Ctrl"@.len() == 4 && "Ctrl"@[0] == 'C');
    assert("Control"@.len() == 7 && "Control"@[3] == 't');
    assert("Alt"@.len() == 3 && "Alt"@[0] == 'A');
    assert("Option"@.len() == 6);
    assert("Shift"@.len() == 5 && "Shift"@[1] == 'h');
    assert("Meta"@.len() == 4 && "Meta"@[0] == 'M');
    assert("Command"@.len() == 7 && "Command"@[3] == 'm');
    assert("Cmd"@.len() == 3 && "Cmd"@[0] == 'C');
    assert("Super"@.len() == 5 && "Super"@[1] == 'u');
    assert("Win"@.len() == 3 && "Win"@[0] == 'W');
    assert("Windows"@.len() == 7 && "Windows"@[3] == 'd');
}

/// The modifiers of a chord in terms of their names, as far as all of them are known.
proof fn lemma_modifier_keys(names: Seq<Seq<char>>)
    ensures
        match modifier_keys(names) {
            Ok(keys) => {
                &&& forall|i: int| 0 <= i < names.len() ==> modifier_key(#[trigger] names[i]) is Some
                    && keys.contains(modifier_key(names[i])->0)
                &&& forall|k: int|
                    0 <= k < keys.len() ==> is_named(names, #[trigger] keys[k])
                &&& forall|k: int, l: int|
                    0 <= k < l < keys.len() ==> named_before(
                        names,
                        #[trigger] keys[k],
                        #[trigger] keys[l],
                    )
            },
            Err(message) => first_bad(names, message),
        },
    decreases names.len(),
{
    if names.len() > 0 {
        let before = names.drop_last();
        let last = names.len() - 1;
        lemma_modifier_keys(before);
        match modifier_keys(before) {
            Ok(keys) => {
                match modifier_key(names.last()) {
                    Some(key) => {
                        let all = modifier_keys(names)->Ok_0;
                        assert forall|i: int| 0 <= i < names.len() implies modifier_key(
                            #[trigger] names[i],
                        ) is Some && all.contains(modifier_key(names[i])->0) by {
                            if i < last {
                                assert(before[i] == names[i]);
                                let k = choose|k: int|
                                    0 <= k < keys.len() && keys[k] == modifier_key(names[i])->0;
                                assert(all[k] == keys[k]);
                            } else if keys.contains(key) {
                            } else {
                                assert(all[keys.len() as int] == key);
                            }
                        }
                        assert forall|k: int| 0 <= k < all.len() implies is_named(
                            names,
                            #[trigger] all[k],
                        ) by {
                            if k < keys.len() {
                                assert(is_named(before, keys[k]));
                                let i = choose|i: int|
                                    0 <= i < before.len() && modifier_key(#[trigger] before[i])
                                        == Some(keys[k]);
                                assert(names[i] == before[i]);
                            } else {
                                assert(modifier_key(names[last]) == Some(all[k]));
                            }
                        }
                        assert forall|k: int, l: int|
                            0 <= k < l < all.len() implies named_before(
                            names,
                            #[trigger] all[k],
                            #[trigger] all[l],
                        ) by {
                            if l < keys.len() {
                                assert(named_before(before, keys[k], keys[l]));
                                let a = choose|a: int|
                                    0 <= a < before.len() && modifier_key(#[trigger] before[a])
                                        == Some(keys[k]) && forall|b: int|
                                        0 <= b <= a ==> modifier_key(#[trigger] before[b]) != Some(
                                            keys[l],
                                        );
                                assert(names[a] == before[a]);
                                assert forall|b: int| 0 <= b <= a implies modifier_key(
                                    #[trigger] names[b],
                                ) != Some(all[l]) by {
                                    assert(before[b] == names[b]);
                                }
                            } else {
                                assert(is_named(before, keys[k]));
                                let a = choose|a: int|
                                    0 <= a < before.len() && modifier_key(#[trigger] before[a])
                                        == Some(keys[k]);
                                assert(names[a] == before[a]);
                                assert forall|b: int| 0 <= b <= a implies modifier_key(
                                    #[trigger] names[b],
                                ) != Some(all[l]) by {
                                    assert(before[b] == names[b]);
                                    assert(keys.contains(modifier_key(before[b])->0));
                                }
                            }
                        }
                    },
                    None => {
                        assert forall|k: int| 0 <= k < last implies modifier_key(
                            #[trigger] names[k],
                        ) is Some by {
                            assert(before[k] == names[k]);
                        }
                        assert(modifier_key(names[last]) is None);
                    },
                }
            },
            Err(message) => {
                let i = choose|i: int|
                    {
                        &&& 0 <= i < before.len()
                        &&& modifier_key(#[trigger] before[i]) is None
                        &&& message == "Bad modifier: "@ + before[i]
                        &&& forall|k: int| 0 <= k < i ==> modifier_key(#[trigger] before[k]) is Some
                    };
                assert(names[i] == before[i]);
                assert forall|k: int| 0 <= k < i implies modifier_key(#[trigger] names[k]) is Some by {
                    assert(before[k] == names[k]);
                }
            },
        }
    }
}

/// A key is named.
pub open spec fn is_named(names: Seq<Seq<char>>, key: Key) -> bool {
    exists|i: int| 0 <= i < names.len() && modifier_key(#[trigger] names[i]) == Some(key)
}

/// A key is named before another one is named for the first time.
pub open spec fn named_before(names: Seq<Seq<char>>, key: Key, other: Key) -> bool {
    exists|a: int|
        0 <= a < names.len() && modifier_key(#[trigger] names[a]) == Some(key) && forall|b: int|
            0 <= b <= a ==> modifier_key(#[trigger] names[b]) != Some(other)
}

/// The message is about the first name that is no modifier.
pub open spec fn first_bad(names: Seq<Seq<char>>, message: Seq<char>) -> bool {
    exists|i: int|
        {
            &&& 0 <= i < names.len()
            &&& modifier_key(#[trigger] names[i]) is None
            &&& message == "Bad modifier: "@ + names[i]
            &&& forall|k: int| 0 <= k < i ==> modifier_key(#[trigger] names[k]) is Some
        }
}

/// If all names are known, the modifiers are those that are named, in the order in which
/// they are named first; else the first unknown name is reported.
pub proof fn law_modifiers_are_those_named(names: &Vec<String>, r: Result<Vec<Key>, String>)
    requires
        call_ensures(modifiers, (names,), r),
    ensures
        r matches Ok(keys) ==> {
            &&& forall|i: int|
                0 <= i < names@.len() ==> modifier_key((#[trigger] names@[i])@) is Some
                    && keys@.contains(modifier_key(names@[i]@)->0)
            &&& forall|k: int| 0 <= k < keys@.len() ==> is_named(texts(names@), #[trigger] keys@[k])
            &&& forall|k: int, l: int|
                0 <= k < l < keys@.len() ==> named_before(
                    texts(names@),
                    #[trigger] keys@[k],
                    #[trigger] keys@[l],
                )
        },
        r matches Err(e) ==> first_bad(texts(names@), e@),
{
    lemma_modifier_keys(texts(names@));
    assert forall|i: int| 0 <= i < names@.len() && r is Ok implies modifier_key(
        (#[trigger] names@[i])@,
    ) is Some && (r->Ok_0)@.contains(modifier_key(names@[i]@)->0) by {
        assert(texts(names@)[i] == names@[i]@);
    }
}

/// The number of modifiers that are pressed, of keys that are clicked and of modifiers that
/// are released from a state on.
spec fn counts(state: ChordState) -> (int, int, int) {
    let k = state.keys.len() as int;
    let m = state.clicks.len() as int;
    match state.phase {
        Phase::Pressing(i) => (k - i, m, k),
        Phase::Clicking(i) => (0, m - i, k),
        Phase::Releasing(n) => (0, 0, n as int),
        Phase::Done => (0, 0, 0),
    }
}

#[verifier::spinoff_prover]
#[verifier::rlimit(50)]
proof fn lemma_undisturbed(state: ChordState, failures: Seq<Option<Seq<char>>>)
    requires
        state.wf(),
        !state.hold || state.phase is Releasing || state.phase is Done,
        state.phase is Releasing || state.phase is Done || forall|i: int|
            0 <= i < failures.len() ==> (#[trigger] failures[i]) is None,
        failures.len() >= counts(state).0 + counts(state).1 + counts(state).2,
    ensures
        ({
            let (p, q, n) = counts(state);
            let all = state.inputs(failures);
            &&& all.len() == p + q + n
            &&& forall|j: int|
                0 <= j < p + q + n ==> #[trigger] all[j] == if j < p {
                    Input::Press(state.keys[state.keys.len() - p + j])
                } else if j < p + q {
                    Input::Click(state.clicks[state.clicks.len() - q + (j - p)])
                } else {
                    Input::Release(state.keys[p + q + n - 1 - j])
                }
            &&& state.end(failures).phase is Done
        }),
    decreases failures.len(),
{
    let (p, q, n) = counts(state);
    if p + q + n > 0 {
        let next = state.after(failures[0]);
        let rest = failures.drop_first();
        assert forall|i: int| 0 <= i < rest.len() && !(state.phase is Releasing) implies (
        #[trigger] rest[i]) is None by {
            assert(rest[i] == failures[i + 1]);
        }
        lemma_undisturbed(next, rest);
        let tail = next.inputs(rest);
        let all = state.inputs(failures);
        assert(all =~= seq![state.input()->0] + tail);
        assert forall|j: int| 0 <= j < p + q + n implies #[trigger] all[j] == if j < p {
            Input::Press(state.keys[state.keys.len() - p + j])
        } else if j < p + q {
            Input::Click(state.clicks[state.clicks.len() - q + (j - p)])
        } else {
            Input::Release(state.keys[p + q + n - 1 - j])
        } by {
            if j > 0 {
                assert(all[j] == tail[j - 1]);
            }
        }
    }
}

/// A chord that nothing disturbs presses its modifiers in their order, clicks its keys in
/// their order, and releases the modifiers in the opposite order; and that is all.
pub proof fn law_chord_in_order(
    keys: Vec<Key>,
    clicks: Vec<Key>,
    c: Chord,
    failures: Seq<Option<Seq<char>>>,
    j: int,
)
    requires
        call_ensures(Chord::with_modifiers, (keys, clicks), c),
        forall|i: int| 0 <= i < failures.len() ==> (#[trigger] failures[i]) is None,
        failures.len() >= 2 * keys@.len() + clicks@.len(),
    ensures
        ({
            let k = keys@.len();
            let m = clicks@.len();
            let all = c@.inputs(failures);
            &&& all.len() == 2 * k + m
            &&& 0 <= j < k ==> all[j] == Input::Press(keys@[j])
            &&& 0 <= j < m ==> all[k + j] == Input::Click(clicks@[j])
            &&& 0 <= j < k ==> all[k + m + j] == Input::Release(keys@[k - 1 - j])
            &&& c@.end(failures).phase is Done
        }),
{
    assert(keys@.len() == keys.len() && clicks@.len() == clicks.len());
    lemma_undisturbed(c@, failures);
}

/// Releasing goes from the last key to the first, whichever release fails.
pub proof fn law_releases_in_opposite_order(
    keys: Vec<Key>,
    c: Chord,
    failures: Seq<Option<Seq<char>>>,
    j: int,
)
    requires
        call_ensures(Chord::release_keys, (keys,), c),
        failures.len() >= keys@.len(),
        0 <= j < keys@.len(),
    ensures
        c@.inputs(failures).len() == keys@.len(),
        c@.inputs(failures)[j] == Input::Release(keys@[keys@.len() - 1 - j]),
{
    assert(keys@.len() == keys.len());
    lemma_undisturbed(c@, failures);
}

/// Modifiers that are to be held are pressed in their order, and nothing else is done if
/// none fails.
pub proof fn law_held_in_order(
    keys: Vec<Key>,
    c: Chord,
    failures: Seq<Option<Seq<char>>>,
    j: int,
)
    requires
        call_ensures(Chord::hold_modifiers, (keys,), c),
        forall|i: int| 0 <= i < failures.len() ==> (#[trigger] failures[i]) is None,
        failures.len() >= keys@.len(),
        0 <= j < keys@.len(),
    ensures
        c@.inputs(failures).len() == keys@.len(),
        c@.inputs(failures)[j] == Input::Press(keys@[j]),
        c@.end(failures).failure is None,
{
    assert(keys@.len() == keys.len());
    lemma_held(c@, failures);
}

proof fn lemma_held(state: ChordState, failures: Seq<Option<Seq<char>>>)
    requires
        state.wf(),
        state.hold,
        state.failure is None,
        state.phase is Pressing || state.phase is Done,
        forall|i: int| 0 <= i < failures.len() ==> (#[trigger] failures[i]) is None,
        state.phase is Pressing ==> failures.len() >= state.keys.len() - state.phase->Pressing_0,
    ensures
        state.phase is Done ==> state.inputs(failures).len() == 0,
        state.phase is Pressing ==> {
            let i = state.phase->Pressing_0 as int;
            let all = state.inputs(failures);
            &&& all.len() == state.keys.len() - i
            &&& forall|j: int| 0 <= j < all.len() ==> #[trigger] all[j] == Input::Press(state.keys[i + j])
        },
        state.end(failures).failure is None,
    decreases failures.len(),
{
    if state.phase is Pressing {
        let next = state.after(failures[0]);
        let rest = failures.drop_first();
        assert forall|i: int| 0 <= i < rest.len() implies (#[trigger] rest[i]) is None by {
            assert(rest[i] == failures[i + 1]);
        }
        lemma_held(next, rest);
        let tail = next.inputs(rest);
        let all = state.inputs(failures);
        assert(all =~= seq![state.input()->0] + tail);
        assert forall|j: int| 0 <= j < all.len() implies #[trigger] all[j] == Input::Press(
            state.keys[state.phase->Pressing_0 + j],
        ) by {
            if j > 0 {
                assert(all[j] == tail[j - 1]);
            }
        }
    }
}

/// After a press or a click that fails, the modifiers that were pressed until then, the one
/// that failed included, are released from the last to the first; nothing else is pressed
/// or clicked any more, and the failure is the one that is reported.
pub proof fn law_failure_ends_the_chord(
    state: ChordState,
    failures: Seq<Option<Seq<char>>>,
    j: int,
)
    requires
        state.wf(),
        state.phase is Pressing || state.phase is Clicking,
        failures.len() > state.keys.len(),
        failures[0] is Some,
    ensures
        ({
            let down = if state.phase is Pressing {
                state.phase->Pressing_0 + 1
            } else {
                state.keys.len() as int
            };
            let all = state.inputs(failures);
            &&& all.len() == 1 + down
            &&& 0 <= j < down ==> all[1 + j] == Input::Release(state.keys[down - 1 - j])
            &&& state.end(failures).failure == failures[0]
            &&& state.end(failures).phase is Done
        }),
{
    let next = state.after(failures[0]);
    let rest = failures.drop_first();
    assert(next.wf());
    lemma_undisturbed(next, rest);
    law_first_failure_is_kept(next, rest);
    assert(state.inputs(failures) =~= seq![state.input()->0] + next.inputs(rest));
}

/// A chord in which nothing fails reports no failure.
pub proof fn law_no_failure_is_made_up(state: ChordState, failures: Seq<Option<Seq<char>>>)
    requires
        state.wf(),
        state.failure is None,
        forall|i: int| 0 <= i < failures.len() ==> (#[trigger] failures[i]) is None,
    ensures
        state.end(failures).failure is None,
    decreases failures.len(),
{
    if failures.len() > 0 && !(state.phase is Done) {
        let rest = failures.drop_first();
        assert forall|i: int| 0 <= i < rest.len() implies (#[trigger] rest[i]) is None by {
            assert(rest[i] == failures[i + 1]);
        }
        law_no_failure_is_made_up(state.after(failures[0]), rest);
    }
}

/// The one character of a text is accepted exactly if there is one and it is not NUL.
pub proof fn law_single_character(text: &str, r: Result<char, String>)
    requires
        call_ensures(single_character, (text,), r),
    ensures
        r is Ok <==> text@.len() == 1 && text@[0] != '\0',
        r matches Ok(c) ==> text@ == seq![c],
        r matches Err(e) ==> e@ == "Expected one non-NUL character"@,
{
    if r is Ok {
        assert(text@ =~= seq![r->Ok_0]);
    }
}

/// A shortcut presses the modifier of the platform alone and clicks the letter without the
/// shift key; other characters are clicked as they are.
pub proof fn law_shortcut(platform: Platform, code: &str, r: Result<Chord, String>)
    requires
        call_ensures(kbd_shortcut, (platform, code), r),
    ensures
        r is Ok <==> code@.len() == 1 && code@[0] != '\0',
        r matches Ok(c) ==> {
            &&& c@.keys.len() == 1
            &&& platform is MacOs ==> c@.keys[0] == Key::Meta
            &&& !(platform is MacOs) ==> c@.keys[0] == Key::Control
            &&& c@.clicks.len() == 1
            &&& c@.clicks[0] is Unicode
            &&& 'A' <= code@[0] <= 'Z' ==> (c@.clicks[0]->Unicode_0 as int) - ('a' as int) == (
            code@[0] as int) - ('A' as int)
            &&& !('A' <= code@[0] <= 'Z') ==> c@.clicks[0] == Key::Unicode(code@[0])
            &&& !c@.hold
            &&& c@.failure is None
        },
{
}

/// One key by its name: the key that the name stands for is clicked once, with the
/// modifiers that are named, neither more nor fewer.
pub proof fn law_key_press(
    platform: Platform,
    code: &str,
    names: &Vec<String>,
    key: Result<Key, String>,
    keys: Result<Vec<Key>, String>,
    r: Result<Chord, String>,
)
    requires
        call_ensures(key_code, (platform, code), key),
        call_ensures(modifiers, (names,), keys),
        call_ensures(kbd_key_press, (platform, code, names), r),
    ensures
        r is Ok <==> key is Ok && keys is Ok,
        r matches Ok(c) ==> c@.keys == (keys->Ok_0)@ && c@.clicks == seq![key->Ok_0] && !c@.hold,
        key is Err ==> (r->Err_0)@ == (key->Err_0)@,
        key is Ok && keys is Err ==> (r->Err_0)@ == (keys->Err_0)@,
{
}

/// A text is typed with the modifiers that are named.
pub proof fn law_text_with_modifiers(
    text: &str,
    names: &Vec<String>,
    keys: Result<Vec<Key>, String>,
    r: Result<Chord, String>,
)
    requires
        call_ensures(modifiers, (names,), keys),
        call_ensures(kbd_text_as_keys, (text, names), r),
    ensures
        r is Ok <==> !text@.contains('\0') && keys is Ok,
        r matches Ok(c) ==> c@.keys == (keys->Ok_0)@,
        !text@.contains('\0') && keys is Err ==> (r->Err_0)@ == (keys->Err_0)@,
{
}

/// Modifiers go down to stay there, or come up; no other key is touched.
pub proof fn law_move_modifiers(
    down: bool,
    names: &Vec<String>,
    keys: Result<Vec<Key>, String>,
    r: Result<Chord, String>,
)
    requires
        call_ensures(modifiers, (names,), keys),
        call_ensures(kbd_key_move_with_modifier, (down, names), r),
    ensures
        r is Ok <==> keys is Ok,
        r matches Err(e) ==> e@ == (keys->Err_0)@,
        r matches Ok(c) ==> {
            &&& c@.keys == (keys->Ok_0)@
            &&& c@.clicks.len() == 0
            &&& c@.hold == down
            &&& c@.keys.len() > 0 && down ==> c@.phase == Phase::Pressing(0)
            &&& c@.keys.len() > 0 && !down ==> c@.phase is Releasing && c@.down() == c@.keys.len()
            &&& c@.keys.len() == 0 ==> c@.phase is Done
        },
{
    if keys is Ok {
        let all = keys->Ok_0;
        assert(all@.len() == all.len());
    }
}

/// A key by its character is the key of that character; without a character it is the key
/// of that number, which has 16 bits at most on two platforms.
pub proof fn law_character_or_number(
    platform: Platform,
    character: &str,
    code: Option<u32>,
    names: &Vec<String>,
    keys: Result<Vec<Key>, String>,
    r: Result<Chord, String>,
)
    requires
        call_ensures(modifiers, (names,), keys),
        call_ensures(kbd_key_press_with_character, (platform, character, code, names), r),
    ensures
        r matches Ok(c) ==> {
            &&& keys is Ok
            &&& c@.keys == (keys->Ok_0)@
            &&& c@.clicks.len() == 1
            &&& character@.len() == 1 && character@[0] != '\0' && c@.clicks[0] == Key::Unicode(
                character@[0],
            ) || character@.len() == 0 && code is Some && c@.clicks[0] == Key::Other(code->Some_0)
        },
        keys is Ok && character@.len() > 0 ==> (r is Ok <==> character@.len() == 1
            && character@[0] != '\0'),
        keys is Ok && character@.len() == 0 ==> (r is Ok <==> code is Some && (code->Some_0 <= 0xffff
            || !(platform is MacOs || platform is Windows))),
{
}

/// All modifiers are released, the left ones and the right ones, as far as the platform
/// tells them apart.
pub proof fn law_all_modifiers_are_released(platform: Platform, r: Vec<Chord>)
    requires
        call_ensures(kbd_ensure_modifier_not_pressed, (platform,), r),
    ensures
        r@.len() == 3,
        r@[0]@.keys == seq![Key::Shift, Key::Control, Key::Alt, Key::Meta],
        r@[1]@.keys == seq![Key::RShift, Key::RControl],
        platform is MacOs ==> r@[2]@.keys == seq![Key::ROption, Key::RCommand],
        platform is Windows ==> r@[2]@.keys == seq![Key::RMenu, Key::RWin],
        platform is Linux ==> r@[2]@.keys == seq![Key::Other(0xffea), Key::Other(0xffec)],
        platform is Unix || platform is Other ==> r@[2]@.keys.len() == 0,
        forall|i: int|
            0 <= i < 3 ==> (#[trigger] r@[i])@.down() == r@[i]@.keys.len() && r@[i]@.clicks.len() == 0,
{
    assert forall|i: int| 0 <= i < 3 implies (#[trigger] r@[i])@.down() == r@[i]@.keys.len()
        && r@[i]@.clicks.len() == 0 by {
        assert(i == 0 || i == 1 || i == 2);
    }
}

/// A key of the keypad has one number on macOS, one on Windows and one elsewhere.
pub proof fn law_keypad(platform: Platform, mac: u32, windows: u32, linux: u32, r: Key)
    requires
        call_ensures(keypad_key, (platform, mac, windows, linux), r),
    ensures
        platform is MacOs ==> r == Key::Other(mac),
        platform is Windows ==> r == Key::Other(windows),
        !(platform is MacOs || platform is Windows) ==> r == Key::Other(linux),
{
}

/// Five browsers are asked, on macOS and if that is wanted; the script is told to the very
/// browser and names no other one.
pub proof fn law_browser_is_asked(
    platform: Platform,
    options: ActiveWindowOptions,
    app: &str,
    r: Option<&'static str>,
)
    requires
        call_ensures(browser_query, (platform, options, app), r),
    ensures
        r is Some <==> platform is MacOs && options.get_browser_url && (app@ == "Safari"@ || app@
            == "Google Chrome"@ || app@ == "Microsoft Edge"@ || app@ == "Brave Browser"@ || app@
            == "Arc"@),
        r matches Some(script) ==> script@ == "tell application \""@ + app@ + if app@ == "Safari"@ {
            "\" to get URL of front document"@
        } else {
            "\" to get URL of active tab of front window"@
        },
{
    reveal_strlit("tell application \"");
    reveal_strlit("\" to get URL of front document");
    reveal_strlit("\" to get URL of active tab of front window");
    reveal_strlit("Safari");
    reveal_strlit("Google Chrome");
    reveal_strlit("Microsoft Edge");
    reveal_strlit("Brave Browser");
    reveal_strlit("Arc");
    reveal_strlit("tell application \"Safari\" to get URL of front document");
    reveal_strlit("tell application \"Google Chrome\" to get URL of active tab of front window");
    reveal_strlit("tell application \"Microsoft Edge\" to get URL of active tab of front window");
    reveal_strlit("tell application \"Brave Browser\" to get URL of active tab of front window");
    reveal_strlit("tell application \"Arc\" to get URL of active tab of front window");
    if app@ == "Google Chrome"@ || app@ == "Microsoft Edge"@ || app@ == "Brave Browser"@ || app@
        == "Arc"@ {
        assert("Safari"@.len() != app@.len());
    }
    if r is Some {
        let script = r->Some_0;
        let expected = "tell application \""@ + app@ + if app@ == "Safari"@ {
            "\" to get URL of front document"@
        } else {
            "\" to get URL of active tab of front window"@
        };
        assert(script@ =~= expected);
    }
}

/// The address is what the script printed, without the white space around it; there is none
/// if the script failed, printed nothing or says that there is none.
pub proof fn law_address_is_printed(success: bool, output: &str, r: Option<String>)
    requires
        call_ensures(browser_script_result, (success, output), r),
    ensures
        r matches Some(address) ==> success && address@.len() > 0 && address@ != "missing value"@
            && crate::text::is_core(output@, address@),
        success && r is None ==> crate::text::is_core(output@, Seq::empty()) || crate::text::is_core(
            output@,
            "missing value"@,
        ),
{
    crate::text::law_trimming_drops_only_white_ends(output@);
    if trimmed(output@).len() == 0 {
        assert(trimmed(output@) =~= Seq::<char>::empty());
    }
}

/// A window is found again by its number, written in decimal; on Windows the form in which
/// handles are shown is understood too. Zero is no window.
pub proof fn law_window_by_number(platform: Platform, id: &str, n: int, r: Result<WindowHandle, String>)
    requires
        call_ensures(kbd_show_window, (platform, id), r),
    ensures
        platform is MacOs && id@ == decimal(n as nat) && 0 < n <= u32::MAX ==> r is Ok && r->Ok_0
            == WindowHandle::Mac(n as u32),
        platform is MacOs && id@ == decimal(n as nat) && (n == 0 || n > u32::MAX) ==> r is Err
            && (r->Err_0)@ == "Invalid window ID"@,
        platform is Windows && (id@ == crate::text::signed_decimal(n) || id@ == "HWND("@
            + crate::text::signed_decimal(n) + ")"@) && i64::MIN <= n <= i64::MAX && n != 0 ==> r is Ok
            && r->Ok_0 == WindowHandle::Windows(n as i64),
        platform is Windows && (id@ == crate::text::signed_decimal(0) || id@ == "HWND("@
            + crate::text::signed_decimal(0) + ")"@) ==> r is Err && (r->Err_0)@
            == "Invalid window ID"@,
        !(platform is MacOs || platform is Windows) ==> r is Err && (r->Err_0)@
            == "Not supported on this platform"@,
{
    lemma_bare_handle(n);
    lemma_bare_handle(0);
    crate::text::law_signed_numbers(n, Seq::empty());
    crate::text::law_signed_numbers(0, Seq::empty());
    if n >= 0 {
        crate::text::law_decimal_round_trip(n as nat);
        crate::text::law_unsigned_numbers(decimal(n as nat), u32::MAX as nat);
    }
}

proof fn lemma_bare_handle(n: int)
    ensures
        bare_handle(crate::text::signed_decimal(n)) == crate::text::signed_decimal(n),
        bare_handle("HWND("@ + crate::text::signed_decimal(n) + ")"@)
            == crate::text::signed_decimal(n),
{
    reveal_strlit("HWND(");
    reveal_strlit(")");
    let plain = crate::text::signed_decimal(n);
    let shown = "HWND("@ + plain + ")"@;
    crate::text::law_signed_decimal(n);
    crate::text::law_decimal_round_trip(
        if n < 0 {
            (-n) as nat
        } else {
            n as nat
        },
    );
    assert(plain[0] != 'H') by {
        if n >= 0 {
            assert('0' <= decimal(n as nat)[0] <= '9');
        }
    }
    if begins(plain, "HWND("@) {
        assert(plain.subrange(0, 5)[0] == plain[0]);
        assert("HWND("@[0] == 'H');
    }
    assert(shown.subrange(0, 5) =~= "HWND("@);
    let tail = shown.skip(5);
    assert(tail.subrange(tail.len() - 1, tail.len() as int) =~= ")"@);
    assert(shown.subrange(5, shown.len() - 1) =~= plain);
}

/// The user is asked for the permission at most once, and only if it is missing and the
/// command needs it.
pub proof fn law_permission_is_asked_once(
    trusted: bool,
    prompt: bool,
    prompted: &mut bool,
    r: Permission,
)
    requires
        call_ensures(accessibility_permission, (trusted, prompt, prompted), r),
    ensures
        r.granted <==> trusted,
        r.ask <==> !trusted && prompt && !*old(prompted),
        r.ask ==> *final(prompted),
        *old(prompted) ==> !r.ask && *final(prompted),
        !r.ask ==> *final(prompted) == *old(prompted),
{
}

/// Only macOS asks for a permission; what needs none is skipped there rather than refused.
pub proof fn law_keyboard(
    platform: Platform,
    permission_required: bool,
    permitted: bool,
    connected: bool,
    r: KeyboardStep,
)
    requires
        call_ensures(keyboard_action, (platform, permission_required, permitted, connected), r),
    ensures
        r is Refuse <==> platform is MacOs && !permitted && permission_required,
        r is Skip <==> platform is MacOs && !permitted && !permission_required,
        r is Create <==> (!(platform is MacOs) || permitted) && !connected,
        r is Act <==> (!(platform is MacOs) || permitted) && connected,
{
}

/// A text is typed to the letter, unless it holds NUL.
pub proof fn law_text_is_typed(text: &str, r: Result<String, String>)
    requires
        call_ensures(kbd_text, (text,), r),
    ensures
        r is Ok <==> !text@.contains('\0'),
        r matches Ok(typed) ==> typed@ == text@,
{
}

/// The active window is told by its identifier, or by its process if it has none; its title
/// and its address only if they are asked for. A title that the system withholds is that of
/// the focused window, if that is known.
pub proof fn law_active_window(
    platform: Platform,
    options: ActiveWindowOptions,
    window: Option<RawWindow>,
    url: Option<String>,
    focused_title: Option<String>,
    r: Result<ActiveWindow, String>,
)
    requires
        call_ensures(kbd_get_active_window, (platform, options, window, url, focused_title), r),
    ensures
        r is Ok <==> window is Some,
        r matches Ok(a) ==> {
            let w = window->Some_0;
            &&& a.pid == w.process_id
            &&& w.window_id@.len() > 0 ==> a.id@ == w.window_id@
            &&& w.window_id@.len() == 0 ==> a.id@ == decimal(w.process_id as nat)
            &&& a.title is Some <==> options.get_window_title
            &&& a.title is Some && w.title@.len() > 0 ==> a.title->Some_0@ == w.title@
            &&& a.title is Some && w.title@.len() == 0 && platform is MacOs && focused_title is Some
                ==> a.title->Some_0@ == focused_title->Some_0@
            &&& a.title is Some && w.title@.len() == 0 && (!(platform is MacOs)
                || focused_title is None) ==> a.title->Some_0@.len() == 0
            &&& a.url is Some ==> platform is MacOs && options.get_browser_url && url is Some
                && a.url->Some_0@ == url->Some_0@
            &&& platform is MacOs && options.get_browser_url && url is Some ==> a.url is Some
        },
{
}

/// A script is waited for until its deadline, and killed after that or if its state cannot
/// be told.
pub proof fn law_script(state: ScriptState, before_deadline: bool, r: ScriptStep)
    requires
        call_ensures(script_step, (state, before_deadline), r),
    ensures
        r is Wait <==> state is Running && before_deadline,
        r is Kill <==> state is Running && !before_deadline || state is Unknown,
        r matches ScriptStep::Over(success) ==> state == ScriptState::Exited(success),
{
}

/// Processes are told and looked for by their numbers, as far as those are numbers of
/// processes.
pub proof fn law_processes(
    process: Option<i32>,
    active: Result<u64, String>,
    found: bool,
    owner: Option<i64>,
    shown: Result<i32, String>,
    permitted: bool,
    pid: u64,
    titled: Option<i32>,
)
    requires
        call_ensures(kbd_get_active_pid, (process,), active),
        call_ensures(show_window, (found, owner), shown),
        call_ensures(window_title, (permitted, pid), titled),
    ensures
        active is Ok <==> process is Some && process->Some_0 >= 0,
        active matches Ok(n) ==> n == process->Some_0,
        shown is Ok <==> found && owner is Some && i32::MIN <= owner->Some_0 <= i32::MAX,
        shown matches Ok(n) ==> n == owner->Some_0,
        titled is Some <==> permitted && pid <= i32::MAX,
        titled matches Some(n) ==> n == pid,
{
}

/// A window is brought to the front on the two platforms that can do so; on macOS its
/// application has to run still.
pub proof fn law_activation(
    platform: Platform,
    running: bool,
    activated: bool,
    r: Result<(), String>,
    process: Option<u64>,
    active: Result<u64, String>,
)
    requires
        call_ensures(window_activated, (platform, running, activated), r),
        call_ensures(active_process, (process,), active),
    ensures
        r is Ok <==> activated && (platform is Windows || platform is MacOs && running),
        platform is MacOs && !running ==> (r->Err_0)@
            == "The requested application is no longer running"@,
        active is Ok <==> process is Some,
        active matches Ok(pid) ==> pid == process->Some_0,
{
}

/// How a chord is driven: what is next is an input of its own keys, a report changes none of
/// them and keeps the first failure, and the result is that failure.
pub proof fn law_driving_a_chord(
    chord: &mut Chord,
    next: Option<Input>,
    outcome: Result<(), String>,
    done: &Chord,
    r: Result<(), String>,
)
    requires
        old(chord)@.wf(),
        call_ensures(Chord::next, (&*old(chord),), next),
        call_ensures(Chord::report, (chord, outcome), ()),
        call_ensures(Chord::result, (done,), r),
    ensures
        next is None <==> old(chord)@.phase is Done,
        next matches Some(Input::Press(key)) ==> old(chord)@.keys.contains(key),
        next matches Some(Input::Click(key)) ==> old(chord)@.clicks.contains(key),
        next matches Some(Input::Release(key)) ==> old(chord)@.keys.contains(key),
        final(chord)@.wf(),
        final(chord)@.keys == old(chord)@.keys && final(chord)@.clicks == old(chord)@.clicks,
        next is Some ==> final(chord)@.left() < old(chord)@.left(),
        next is Some && old(chord)@.failure is None && outcome is Err ==> final(chord)@.failure
            == Some((outcome->Err_0)@),
        old(chord)@.failure is Some || outcome is Ok ==> final(chord)@.failure == old(chord)@.failure,
        r is Ok <==> done@.failure is None,
        r matches Err(e) ==> done@.failure == Some(e@),
{
}

/// A browser is asked only by a script of its own.
pub proof fn law_script_of_a_browser(
    platform: Platform,
    options: ActiveWindowOptions,
    app: &str,
    script: Option<&'static str>,
    r: Option<&'static str>,
)
    requires
        call_ensures(browser_url, (app,), script),
        call_ensures(browser_query, (platform, options, app), r),
    ensures
        platform is MacOs && options.get_browser_url ==> crate::text::opt_str(r)
            == crate::text::opt_str(script),
        !(platform is MacOs && options.get_browser_url) ==> r is None,
{
}

} // verus!
