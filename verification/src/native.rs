//! Key derivation, and the exchange with hardware keys that answer challenges.

use std::collections::HashSet;

use vstd::prelude::*;

use crate::crypto;
use crate::crypto::Argon2Kind;
use crate::platform::Platform;
use crate::text;

verus! {

broadcast use vstd::std_specs::hash::group_hash_axioms;

/// The USB vendor whose keys are used.
pub const YUBICO_VENDOR_ID: u16 = 0x1050;

/// How long a key may take to answer, in seconds.
pub const CHALLENGE_TIMEOUT_SECONDS: u64 = 15;

// ---------------------------------------------------------------------------
// Key derivation
// ---------------------------------------------------------------------------

/// The parameters of a derivation. The memory is counted in KiB.
pub struct Argon2Options {
    pub algorithm: u32,
    pub version: u32,
    pub memory: u32,
    pub iterations: u32,
    pub parallelism: u32,
    pub length: usize,
}

impl Argon2Options {
    /// The variant that the number stands for.
    pub open spec fn kind(self) -> Option<Argon2Kind> {
        match self.algorithm {
            0 => Some(Argon2Kind::D),
            1 => Some(Argon2Kind::I),
            2 => Some(Argon2Kind::Id),
            _ => None,
        }
    }

    /// Why the parameters are refused, if they are.
    pub open spec fn complaint(self) -> Option<Seq<char>> {
        if self.kind() is None {
            Some("Invalid Argon2 type"@)
        } else {
            crypto::argon2_complaint(
                self.version,
                self.memory,
                self.iterations,
                self.parallelism,
                self.length,
            )
        }
    }

    /// Parameters on which the product of the lanes with eight fits its type where it
    /// is formed.
    pub open spec fn in_range(self) -> bool {
        self.kind() is Some && (self.version == 0x10 || self.version == 0x13) && self.memory >= 8
            ==> self.parallelism <= 0x1fff_ffff
    }

    /// The bytes that are derived.
    pub open spec fn digest(self, password: Seq<u8>, salt: Seq<u8>) -> Seq<u8> {
        crypto::argon2_digest(
            self.kind()->Some_0,
            self.version,
            self.memory,
            self.iterations,
            self.parallelism,
            self.length,
            password,
            salt,
        )
    }
}

fn argon2_kind(options: &Argon2Options) -> (r: Option<Argon2Kind>)
    ensures
        r == options.kind(),
{
    match options.algorithm {
        0 => Some(Argon2Kind::D),
        1 => Some(Argon2Kind::I),
        2 => Some(Argon2Kind::Id),
        _ => None,
    }
}

/// Room for the bytes to derive: what `argon2_reserved` makes of a reservation. The
/// parameters decide whether they are accepted; whether there is room for so many bytes is
/// up to the machine.
pub fn argon2_room(options: &Argon2Options) -> (r: Result<Vec<u8>, String>)
    requires
        options.in_range(),
    ensures
        match r {
            Ok(room) => options.complaint() is None && room@.len() == options.length,
            Err(e) => options.complaint() is Some ==> options.complaint() == Some(e@),
        },
{
    if argon2_kind(options).is_none() {
        return Err("Invalid Argon2 type".to_owned());
    }
    crypto::argon2_check(
        options.version,
        options.memory,
        options.iterations,
        options.parallelism,
        options.length,
    )?;
    let mut room: Vec<u8> = Vec::new();
    let reserved = crypto::reserve(&mut room, options.length);
    argon2_reserved(options, room, reserved)
}

/// The room for the bytes to derive, once it has been reserved.
pub fn argon2_reserved(options: &Argon2Options, room: Vec<u8>, reserved: Result<(), String>) -> (r:
    Result<Vec<u8>, String>)
    ensures
        match reserved {
            Ok(_) => r is Ok && (r->Ok_0)@.len() == options.length,
            Err(e) => text::outcome(r) == Err::<Vec<u8>, Seq<char>>(e@),
        },
{
    match reserved {
        Ok(_) => {
            let mut room = room;
            room.resize(options.length, 0);
            Ok(room)
        },
        Err(message) => Err(message),
    }
}

/// Derives bytes into the room for them.
pub fn argon2_into(password: &Vec<u8>, salt: &Vec<u8>, options: &Argon2Options, room: Vec<u8>) -> (r:
    Result<Vec<u8>, String>)
    requires
        options.complaint() is None,
        room@.len() == options.length,
    ensures
        match (r, crypto::argon2_input_complaint(password@, salt@)) {
            (Ok(hash), None) => hash@ == options.digest(password@, salt@) && hash@.len()
                == options.length,
            (Err(e), Some(complaint)) => e@ == complaint,
            _ => false,
        },
{
    let mut hash = room;
    match argon2_kind(options) {
        Some(kind) => {
            crypto::argon2_fill(
                kind,
                options.version,
                options.memory,
                options.iterations,
                options.parallelism,
                password.as_slice(),
                salt.as_slice(),
                &mut hash,
            )?;
            Ok(hash)
        },
        None => Err("Invalid Argon2 type".to_owned()),
    }
}

/// Derives bytes from a password and a salt.
pub fn argon2(password: &Vec<u8>, salt: &Vec<u8>, options: &Argon2Options) -> (r: Result<
    Vec<u8>,
    String,
>)
    requires
        options.in_range(),
    ensures
        match r {
            Ok(hash) => {
                &&& options.complaint() is None
                &&& crypto::argon2_input_complaint(password@, salt@) is None
                &&& hash@ == options.digest(password@, salt@)
                &&& hash@.len() == options.length
                &&& options.algorithm == 0 ==> hash@ == crypto::argon2_digest(
                    Argon2Kind::D,
                    options.version,
                    options.memory,
                    options.iterations,
                    options.parallelism,
                    options.length,
                    password@,
                    salt@,
                )
                &&& options.algorithm == 1 ==> hash@ == crypto::argon2_digest(
                    Argon2Kind::I,
                    options.version,
                    options.memory,
                    options.iterations,
                    options.parallelism,
                    options.length,
                    password@,
                    salt@,
                )
                &&& options.algorithm == 2 ==> hash@ == crypto::argon2_digest(
                    Argon2Kind::Id,
                    options.version,
                    options.memory,
                    options.iterations,
                    options.parallelism,
                    options.length,
                    password@,
                    salt@,
                )
            },
            Err(e) => options.complaint() is Some ==> options.complaint() == Some(e@),
        },
{
    let room = argon2_room(options)?;
    argon2_into(password, salt, options, room)
}

/// The numbers 0, 1 and 2 stand for Argon2d, Argon2i and Argon2id in this order: what is
/// derived is the digest of that variant with the very parameters that were given. Any
/// other number is refused.
pub proof fn law_number_decides_variant(
    password: &Vec<u8>,
    salt: &Vec<u8>,
    options: &Argon2Options,
    kind: Argon2Kind,
    r: Result<Vec<u8>, String>,
)
    requires
        call_ensures(argon2, (password, salt, options), r),
        options.algorithm == 0 ==> kind == Argon2Kind::D,
        options.algorithm == 1 ==> kind == Argon2Kind::I,
        options.algorithm == 2 ==> kind == Argon2Kind::Id,
    ensures
        r is Ok ==> (r->Ok_0)@ == crypto::argon2_digest(
            kind,
            options.version,
            options.memory,
            options.iterations,
            options.parallelism,
            options.length,
            password@,
            salt@,
        ),
        options.algorithm > 2 ==> r is Err && (r->Err_0)@ == "Invalid Argon2 type"@,
{
}

/// Derivation into room that was made before gives the digest of the variant that the
/// number stands for.
pub proof fn law_room_does_not_matter(
    password: &Vec<u8>,
    salt: &Vec<u8>,
    options: &Argon2Options,
    room: Vec<u8>,
    kind: Argon2Kind,
    r: Result<Vec<u8>, String>,
)
    requires
        call_ensures(argon2_into, (password, salt, options, room), r),
        options.algorithm == 0 ==> kind == Argon2Kind::D,
        options.algorithm == 1 ==> kind == Argon2Kind::I,
        options.algorithm == 2 ==> kind == Argon2Kind::Id,
        options.algorithm <= 2,
    ensures
        r is Ok <==> crypto::argon2_input_complaint(password@, salt@) is None,
        r is Ok ==> (r->Ok_0)@ == crypto::argon2_digest(
            kind,
            options.version,
            options.memory,
            options.iterations,
            options.parallelism,
            options.length,
            password@,
            salt@,
        ),
{
}

// ---------------------------------------------------------------------------
// Events
// ---------------------------------------------------------------------------

/// What went wrong in an exchange, or what the user has to do for it to go on.
pub struct ChallengeError {
    pub code: String,
    pub message: String,
    pub touch_requested: bool,
}

/// The model of an error.
pub struct ChallengeFault {
    pub code: Seq<char>,
    pub message: Seq<char>,
    pub touch_requested: bool,
}

impl View for ChallengeError {
    type V = ChallengeFault;

    open spec fn view(&self) -> ChallengeFault {
        ChallengeFault {
            code: self.code@,
            message: self.message@,
            touch_requested: self.touch_requested,
        }
    }
}

/// An error that ends the exchange.
pub open spec fn fault(code: Seq<char>, message: Seq<char>) -> ChallengeFault {
    ChallengeFault { code, message, touch_requested: false }
}

/// The error of an exchange that was canceled.
pub open spec fn canceled_fault() -> ChallengeFault {
    fault("YK_ECANCELED"@, "YubiKey challenge canceled"@)
}

/// The outcome of an exchange, in terms of models.
pub open spec fn answer(r: Result<Vec<u8>, ChallengeError>) -> Result<Seq<u8>, ChallengeFault> {
    match r {
        Ok(bytes) => Ok(bytes@),
        Err(e) => Err(e@),
    }
}

/// What the user interface is told of an exchange.
pub struct ChallengeEvent {
    pub callback_id: u32,
    pub outcome: Result<Vec<u8>, ChallengeError>,
}

fn failure(code: &str, message: &str) -> (r: ChallengeError)
    ensures
        r@ == fault(code@, message@),
{
    ChallengeError { code: code.to_owned(), message: message.to_owned(), touch_requested: false }
}

/// The error of an exchange that was canceled.
pub fn canceled() -> (r: ChallengeError)
    ensures
        r@ == canceled_fault(),
{
    failure("YK_ECANCELED", "YubiKey challenge canceled")
}

/// The error of an exchange that took too long.
pub fn timed_out() -> (r: ChallengeError)
    ensures
        r@ == fault("YK_ETIMEOUT"@, "Timed out waiting for the YubiKey"@),
{
    failure("YK_ETIMEOUT", "Timed out waiting for the YubiKey")
}

// ---------------------------------------------------------------------------
// One exchange
// ---------------------------------------------------------------------------

/// An exchange that has begun. It is settled once, by whoever comes first: the key,
/// the clock or the user.
#[derive(Clone, Copy, Debug, PartialEq, Eq, Structural)]
pub struct PendingChallenge {
    pub callback_id: u32,
    pub finished: bool,
}

impl PendingChallenge {
    /// An exchange that is not settled yet.
    pub fn new(callback_id: u32) -> (r: PendingChallenge)
        ensures
            r == (PendingChallenge { callback_id, finished: false }),
    {
        PendingChallenge { callback_id, finished: false }
    }

    /// Settles the exchange, and tells what to report: nothing if it was settled
    /// before.
    pub fn finish(&mut self, result: Result<Vec<u8>, ChallengeError>) -> (r: Option<ChallengeEvent>)
        ensures
            *final(self) == (PendingChallenge { finished: true, ..*old(self) }),
            r is Some <==> !old(self).finished,
            r matches Some(event) ==> event.callback_id == old(self).callback_id && event.outcome
                == result,
    {
        if self.finished {
            return None;
        }
        self.finished = true;
        Some(ChallengeEvent { callback_id: self.callback_id, outcome: result })
    }
}

/// How many of a number of attempts to settle an exchange are reported.
pub open spec fn reports(pending: PendingChallenge, attempts: nat) -> nat
    decreases attempts,
{
    if attempts == 0 {
        0
    } else {
        (if pending.finished {
            0nat
        } else {
            1nat
        }) + reports(PendingChallenge { finished: true, ..pending }, (attempts - 1) as nat)
    }
}

/// An exchange is reported exactly once, however often and in whatever order the
/// key, the clock and the user try to settle it.
pub proof fn law_settled_once(pending: PendingChallenge, attempts: nat)
    ensures
        pending.finished ==> reports(pending, attempts) == 0,
        !pending.finished && attempts > 0 ==> reports(pending, attempts) == 1,
    decreases attempts,
{
    if attempts > 0 {
        law_settled_once(PendingChallenge { finished: true, ..pending }, (attempts - 1) as nat);
    }
}

/// What went wrong between the computer and the key.
#[derive(Clone, Copy, Debug, PartialEq, Eq, Structural)]
pub enum ChallengeFailure {
    DeviceNotFound,
    UsbNoDevice,
    UsbTimeout,
    IoTimedOut,
    Other,
}

/// The code for what went wrong. Failures that the user interface does not know go
/// by their message.
pub open spec fn failure_code(failure: ChallengeFailure, message: Seq<char>) -> Seq<char> {
    match failure {
        ChallengeFailure::DeviceNotFound | ChallengeFailure::UsbNoDevice => "YK_ENOKEY"@,
        ChallengeFailure::UsbTimeout | ChallengeFailure::IoTimedOut => "YK_ETIMEOUT"@,
        ChallengeFailure::Other => message,
    }
}

/// The error for what went wrong between the computer and the key.
pub fn challenge_error(kind: ChallengeFailure, message: &str) -> (r: ChallengeError)
    ensures
        r@ == fault(failure_code(kind, message@), message@),
{
    match kind {
        ChallengeFailure::DeviceNotFound | ChallengeFailure::UsbNoDevice => failure(
            "YK_ENOKEY",
            message,
        ),
        ChallengeFailure::UsbTimeout | ChallengeFailure::IoTimedOut => failure(
            "YK_ETIMEOUT",
            message,
        ),
        ChallengeFailure::Other => failure(message, message),
    }
}

/// `Display` of `challenge_response::error::ChallengeResponseError::DeviceNotFound`.
#[verifier::external_body]
pub(crate) fn not_found_text() -> (r: String)
    ensures
        r@ == "Device not found"@,
{
    challenge_response::error::ChallengeResponseError::DeviceNotFound.to_string()
}

/// Which key is meant: any, unless a number is given.
pub struct YubiKeySelector {
    pub serial: Option<u32>,
    pub vid: Option<u16>,
    pub pid: Option<u16>,
}

impl YubiKeySelector {
    /// Whether a key is meant.
    pub open spec fn accepts(self, vendor: u16, product: u16) -> bool {
        &&& vendor == YUBICO_VENDOR_ID
        &&& self.vid is Some ==> self.vid == Some(vendor)
        &&& self.pid is Some ==> self.pid == Some(product)
    }
}

/// Whether an exchange may look for the key: not if it was settled meanwhile.
pub fn challenge_begins(pending: &PendingChallenge) -> (r: Result<(), ChallengeError>)
    ensures
        r is Ok <==> !pending.finished,
        r matches Err(e) ==> e@ == canceled_fault(),
{
    if pending.finished {
        Err(canceled())
    } else {
        Ok(())
    }
}

/// Whether the key that was found may be asked, and if so what to tell the user
/// before: to touch it, though not every key needs it.
pub fn perform_challenge(
    pending: &PendingChallenge,
    yubikey: &YubiKeySelector,
    vendor: u16,
    product: u16,
) -> (r: Result<ChallengeEvent, ChallengeError>)
    ensures
        match r {
            Ok(event) => {
                &&& yubikey.accepts(vendor, product)
                &&& !pending.finished
                &&& event.callback_id == pending.callback_id
                &&& answer(event.outcome) == Err::<Seq<u8>, ChallengeFault>(
                    ChallengeFault {
                        code: "YK_ETOUCH"@,
                        message: "Touch your YubiKey if it is blinking"@,
                        touch_requested: true,
                    },
                )
            },
            Err(e) => if !yubikey.accepts(vendor, product) {
                e@ == fault("YK_ENOKEY"@, "Device not found"@)
            } else {
                pending.finished && e@ == canceled_fault()
            },
        },
{
    let other_vendor = match yubikey.vid {
        Some(vid) => vid != vendor,
        None => false,
    };
    let other_product = match yubikey.pid {
        Some(pid) => pid != product,
        None => false,
    };
    if vendor != YUBICO_VENDOR_ID || other_vendor || other_product {
        return Err(
            challenge_error(ChallengeFailure::DeviceNotFound, not_found_text().as_str()),
        );
    }
    if pending.finished {
        return Err(canceled());
    }
    Ok(
        ChallengeEvent {
            callback_id: pending.callback_id,
            outcome: Err(
                ChallengeError {
                    code: "YK_ETOUCH".to_owned(),
                    message: "Touch your YubiKey if it is blinking".to_owned(),
                    touch_requested: true,
                },
            ),
        },
    )
}

/// The slots of a key.
#[derive(Clone, Copy, Debug, PartialEq, Eq, Structural)]
pub enum Slot {
    First,
    Second,
}

/// The answer to requests on a platform without USB.
pub open spec fn unsupported() -> Seq<char> {
    "Not supported on this platform"@
}

/// Checks a request to answer a challenge.
pub fn check_challenge(platform: Platform, slot: u8, challenge: &Vec<u8>) -> (r: Result<Slot, String>)
    ensures
        text::outcome(r) == if !platform.is_desktop() {
            Err(unsupported())
        } else if slot != 1 && slot != 2 {
            Err("Invalid YubiKey slot: expected 1 or 2"@)
        } else if challenge@.len() > 64 {
            Err("YubiKey challenges must not exceed 64 bytes"@)
        } else if slot == 1 {
            Ok(Slot::First)
        } else {
            Ok(Slot::Second)
        },
{
    if !platform.desktop() {
        return Err("Not supported on this platform".to_owned());
    }
    let slot = match slot {
        1 => Slot::First,
        2 => Slot::Second,
        _ => return Err("Invalid YubiKey slot: expected 1 or 2".to_owned()),
    };
    if challenge.len() > 64 {
        return Err("YubiKey challenges must not exceed 64 bytes".to_owned());
    }
    Ok(slot)
}

// ---------------------------------------------------------------------------
// The key and its listener
// ---------------------------------------------------------------------------

/// Who uses the key, and who listens for keys. An exchange holds the key from its
/// beginning to its end, even if it was settled before: its commands would garble
/// those of another one. `T` stands for an exchange and `L` for a listener.
pub struct NativeState<T, L> {
    pub challenge: Option<T>,
    pub usb_listener: Option<L>,
}

impl<T, L> NativeState<T, L> {
    /// Nobody uses the key or listens.
    pub fn new() -> (r: NativeState<T, L>)
        ensures
            r.challenge is None,
            r.usb_listener is None,
    {
        NativeState { challenge: None, usb_listener: None }
    }

    /// Whether the keys may be listed: not during an exchange.
    pub fn listing_allowed(&self) -> (r: Result<(), String>)
        ensures
            text::outcome(r) == if self.challenge is Some {
                Err("YK_EBUSY: YubiKey is in use"@)
            } else {
                Ok(())
            },
    {
        if self.challenge.is_some() {
            Err("YK_EBUSY: YubiKey is in use".to_owned())
        } else {
            Ok(())
        }
    }

    /// Reserves the key for an exchange.
    pub fn begin(&mut self, pending: T) -> (r: Result<(), String>)
        ensures
            text::outcome(r) == if old(self).challenge is Some {
                Err(
                    "YK_EBUSY: Previous YubiKey operation is still finishing; reconnect the key if it is stuck"@,
                )
            } else {
                Ok(())
            },
            final(self).challenge == if old(self).challenge is Some {
                old(self).challenge
            } else {
                Some(pending)
            },
            final(self).usb_listener == old(self).usb_listener,
    {
        if self.challenge.is_some() {
            return Err(
                "YK_EBUSY: Previous YubiKey operation is still finishing; reconnect the key if it is stuck".to_owned(),
            );
        }
        self.challenge = Some(pending);
        Ok(())
    }

    /// Releases the key. This comes before the outcome is published, so that whoever
    /// receives it can begin the next exchange at once.
    pub fn end(&mut self)
        ensures
            final(self).challenge is None,
            final(self).usb_listener == old(self).usb_listener,
    {
        self.challenge = None;
    }

    /// Whether a listener has to be started.
    pub fn needs_listener(&self) -> (r: bool)
        ensures
            r == self.usb_listener is None,
    {
        self.usb_listener.is_none()
    }

    /// Keeps the listener that was started.
    pub fn listener_started(&mut self, listener: L)
        ensures
            final(self).usb_listener == Some(listener),
            final(self).challenge == old(self).challenge,
    {
        self.usb_listener = Some(listener);
    }

    /// Gives up the listener, and hands it out to be stopped.
    pub fn usb_listener_stop(&mut self) -> (r: Option<L>)
        ensures
            r == old(self).usb_listener,
            final(self).usb_listener is None,
            final(self).challenge == old(self).challenge,
    {
        self.usb_listener.take()
    }
}

/// The exchange of which the user wants to hear no more is settled; it goes on
/// holding the key. Nothing is reported if it was settled before, or if there is none.
pub fn yubikey_cancel_challenge_response(
    platform: Platform,
    active: Option<PendingChallenge>,
) -> (r: Result<(Option<PendingChallenge>, Option<ChallengeEvent>), String>)
    ensures
        match r {
            Err(e) => !platform.is_desktop() && e@ == unsupported(),
            Ok((after, event)) => {
                &&& platform.is_desktop()
                &&& match (active, after) {
                    (Some(before), Some(pending)) => pending == (PendingChallenge {
                        finished: true,
                        ..before
                    }),
                    (None, None) => true,
                    _ => false,
                }
                &&& event is Some <==> (active matches Some(before) && !before.finished)
                &&& event matches Some(e) ==> e.callback_id == active->Some_0.callback_id && answer(
                    e.outcome,
                ) == Err::<Seq<u8>, ChallengeFault>(canceled_fault())
            },
        },
{
    if !platform.desktop() {
        return Err("Not supported on this platform".to_owned());
    }
    match active {
        Some(pending) => {
            let mut after = pending;
            let event = after.finish(Err(canceled()));
            Ok((Some(after), event))
        },
        None => Ok((None, None)),
    }
}

// ---------------------------------------------------------------------------
// The keys that are there
// ---------------------------------------------------------------------------

/// A slot as it is listed.
#[derive(Clone, Copy, Debug, PartialEq, Eq, Structural)]
pub struct YubiKeySlot {
    pub number: u8,
    pub valid: bool,
}

/// A key as it is listed. Which slots are set up cannot be asked, so both are listed
/// as valid: a challenge to one that is not fails.
pub struct YubiKeyInfo {
    pub serial: u32,
    pub vid: u16,
    pub pid: u16,
    pub version: String,
    pub slots: [YubiKeySlot; 2],
}

/// The model of a listed key.
pub struct ListedKey {
    pub serial: u32,
    pub vid: u16,
    pub pid: u16,
    pub version: Seq<char>,
    pub slots: Seq<YubiKeySlot>,
}

impl View for YubiKeyInfo {
    type V = ListedKey;

    open spec fn view(&self) -> ListedKey {
        ListedKey {
            serial: self.serial,
            vid: self.vid,
            pid: self.pid,
            version: self.version@,
            slots: self.slots@,
        }
    }
}

/// A key that answers to the commands of a key.
pub struct FoundKey {
    pub serial: Option<u32>,
    pub vendor: u16,
    pub product: u16,
    pub bus: u8,
    pub address: u8,
}

/// What came of looking for keys.
pub enum KeySearch {
    Found(Vec<FoundKey>),
    NotFound,
    Failed(String),
}

/// A device on the USB, and the version in its descriptor.
pub struct UsbEntry {
    pub bus: u8,
    pub address: u8,
    pub version: Result<String, String>,
}

/// Where a key stands among the devices on the USB: the number of devices if it does
/// not.
pub open spec fn device_position(bus: u8, address: u8, devices: Seq<UsbEntry>) -> int
    decreases devices.len(),
{
    if devices.len() == 0 || (devices[0].bus == bus && devices[0].address == address) {
        0
    } else {
        1 + device_position(bus, address, devices.skip(1))
    }
}

/// How a key is listed. One of another vendor is not, nor one that is no longer
/// plugged in.
pub open spec fn listed_key(key: FoundKey, devices: Seq<UsbEntry>) -> Option<
    Result<ListedKey, Seq<char>>,
> {
    let i = device_position(key.bus, key.address, devices);
    if key.vendor != YUBICO_VENDOR_ID || i == devices.len() {
        None
    } else {
        match devices[i].version {
            Ok(version) => Some(
                Ok(
                    ListedKey {
                        serial: match key.serial {
                            Some(serial) => serial,
                            None => 0,
                        },
                        vid: key.vendor,
                        pid: key.product,
                        version: version@,
                        slots: seq![
                            YubiKeySlot { number: 1, valid: true },
                            YubiKeySlot { number: 2, valid: true },
                        ],
                    },
                ),
            ),
            Err(message) => Some(Err(message@)),
        }
    }
}

/// How keys are listed: in their order, unless one of them fails.
pub open spec fn listed_keys(keys: Seq<FoundKey>, devices: Seq<UsbEntry>) -> Result<
    Seq<ListedKey>,
    Seq<char>,
>
    decreases keys.len(),
{
    if keys.len() == 0 {
        Ok(Seq::empty())
    } else {
        match listed_keys(keys.drop_last(), devices) {
            Ok(listed) => match listed_key(keys.last(), devices) {
                None => Ok(listed),
                Some(Ok(key)) => Ok(listed.push(key)),
                Some(Err(message)) => Err(message),
            },
            Err(message) => Err(message),
        }
    }
}

proof fn lemma_listed_failure(keys: Seq<FoundKey>, devices: Seq<UsbEntry>, i: int)
    requires
        0 <= i <= keys.len(),
        listed_keys(keys.take(i), devices) is Err,
    ensures
        listed_keys(keys, devices) == listed_keys(keys.take(i), devices),
    decreases keys.len() - i,
{
    if i == keys.len() {
        assert(keys.take(i) =~= keys);
    } else {
        assert(keys.take(i + 1).drop_last() =~= keys.take(i));
        lemma_listed_failure(keys, devices, i + 1);
    }
}

fn find_device(bus: u8, address: u8, devices: &Vec<UsbEntry>) -> (r: usize)
    ensures
        r == device_position(bus, address, devices@),
        r <= devices@.len(),
{
    let mut i: usize = 0;
    assert(devices@.skip(0) =~= devices@);
    while i < devices.len() && (devices[i].bus != bus || devices[i].address != address)
        invariant
            i <= devices@.len(),
            device_position(bus, address, devices@) == i + device_position(
                bus,
                address,
                devices@.skip(i as int),
            ),
        decreases devices@.len() - i,
    {
        assert(devices@.skip(i as int).skip(1) =~= devices@.skip(i + 1));
        i += 1;
    }
    i
}

fn list_key(key: &FoundKey, devices: &Vec<UsbEntry>) -> (r: Option<Result<YubiKeyInfo, String>>)
    ensures
        match (r, listed_key(*key, devices@)) {
            (None, None) => true,
            (Some(Ok(info)), Some(Ok(model))) => info@ == model,
            (Some(Err(e)), Some(Err(message))) => e@ == message,
            _ => false,
        },
{
    if key.vendor != YUBICO_VENDOR_ID {
        return None;
    }
    let i = find_device(key.bus, key.address, devices);
    if i == devices.len() {
        return None;
    }
    match &devices[i].version {
        Ok(version) => {
            let slots = [
                YubiKeySlot { number: 1, valid: true },
                YubiKeySlot { number: 2, valid: true },
            ];
            assert(slots@ =~= seq![
                YubiKeySlot { number: 1, valid: true },
                YubiKeySlot { number: 2, valid: true },
            ]);
            Some(
                Ok(
                    YubiKeyInfo {
                        serial: match key.serial {
                            Some(serial) => serial,
                            None => 0,
                        },
                        vid: key.vendor,
                        pid: key.product,
                        version: version.as_str().to_owned(),
                        slots,
                    },
                ),
            )
        },
        Err(message) => Some(Err(message.as_str().to_owned())),
    }
}

/// Lists keys, from what came of looking for keys and of enumerating the devices on
/// the USB.
pub fn yubikey_list(platform: Platform, search: KeySearch, devices: Result<Vec<UsbEntry>, String>) -> (r:
    Result<Vec<YubiKeyInfo>, String>)
    ensures
        match r {
            Ok(keys) => platform.is_desktop() && match (search, devices) {
                (KeySearch::NotFound, _) => keys@.len() == 0,
                (KeySearch::Found(found), Ok(entries)) => {
                    &&& listed_keys(found@, entries@) matches Ok(listed)
                    &&& keys@.len() == listed.len()
                    &&& forall|i: int| 0 <= i < listed.len() ==> #[trigger] keys@[i]@ == listed[i]
                },
                _ => false,
            },
            Err(e) => if !platform.is_desktop() {
                e@ == unsupported()
            } else {
                match (search, devices) {
                    (KeySearch::Failed(message), _) => e@ == message@,
                    (KeySearch::Found(_), Err(message)) => e@ == message@,
                    (KeySearch::Found(found), Ok(entries)) => listed_keys(found@, entries@) == Err::<
                        Seq<ListedKey>,
                        Seq<char>,
                    >(e@),
                    _ => false,
                }
            },
        },
{
    if !platform.desktop() {
        return Err("Not supported on this platform".to_owned());
    }
    let found = match search {
        KeySearch::Found(found) => found,
        KeySearch::NotFound => return Ok(Vec::new()),
        KeySearch::Failed(message) => return Err(message),
    };
    let entries = devices?;
    let mut keys: Vec<YubiKeyInfo> = Vec::new();
    let ghost mut listed: Seq<ListedKey> = Seq::empty();
    let mut i: usize = 0;
    while i < found.len()
        invariant
            i <= found@.len(),
            platform.is_desktop(),
            search == KeySearch::Found(found),
            devices == Ok::<Vec<UsbEntry>, String>(entries),
            listed_keys(found@.take(i as int), entries@) == Ok::<Seq<ListedKey>, Seq<char>>(listed),
            keys@.len() == listed.len(),
            forall|k: int| 0 <= k < listed.len() ==> #[trigger] keys@[k]@ == listed[k],
        decreases found@.len() - i,
    {
        assert(found@.take(i + 1).drop_last() =~= found@.take(i as int));
        assert(found@.take(i + 1).last() == found@[i as int]);
        match list_key(&found[i], &entries) {
            None => {},
            Some(Ok(key)) => {
                proof {
                    listed = listed.push(key@);
                }
                keys.push(key);
            },
            Some(Err(message)) => {
                proof {
                    assert(listed_keys(found@.take(i + 1), entries@) == Err::<
                        Seq<ListedKey>,
                        Seq<char>,
                    >(message@));
                    lemma_listed_failure(found@, entries@, i + 1);
                }
                return Err(message);
            },
        }
        i += 1;
    }
    assert(found@.take(i as int) =~= found@);
    Ok(keys)
}

/// A device on the USB, by a number that tells it from the others.
#[derive(Clone, Copy, Debug, PartialEq, Eq, Structural)]
pub struct UsbDevice {
    pub id: u64,
    pub vendor: u16,
}

/// What happens on the USB.
#[derive(Clone, Copy, Debug, PartialEq, Eq, Structural)]
pub enum HotplugEvent {
    Connected(UsbDevice),
    Disconnected(u64),
}

/// The keys among some devices.
pub open spec fn keys_among(devices: Seq<UsbDevice>) -> Set<u64>
    decreases devices.len(),
{
    if devices.len() == 0 {
        Set::empty()
    } else if devices.last().vendor == YUBICO_VENDOR_ID {
        keys_among(devices.drop_last()).insert(devices.last().id)
    } else {
        keys_among(devices.drop_last())
    }
}

/// The keys that are plugged in after an event.
pub open spec fn keys_after(keys: Set<u64>, event: HotplugEvent) -> Set<u64> {
    match event {
        HotplugEvent::Connected(device) => if device.vendor == YUBICO_VENDOR_ID {
            keys.insert(device.id)
        } else {
            keys
        },
        HotplugEvent::Disconnected(id) => keys.remove(id),
    }
}

/// The keys that are plugged in. Nothing is reported twice: an enumeration may see a
/// device whose arrival is still to be announced.
pub struct AttachedKeys {
    ids: HashSet<u64>,
}

impl View for AttachedKeys {
    type V = Set<u64>;

    closed spec fn view(&self) -> Set<u64> {
        self.ids@
    }
}

impl AttachedKeys {
    /// The keys among the devices that are plugged in when the listener starts.
    pub fn usb_listener_start(devices: &Vec<UsbDevice>) -> (r: AttachedKeys)
        ensures
            r@ == keys_among(devices@),
    {
        let mut ids: HashSet<u64> = HashSet::new();
        let mut i: usize = 0;
        while i < devices.len()
            invariant
                i <= devices@.len(),
                ids@ == keys_among(devices@.take(i as int)),
            decreases devices@.len() - i,
        {
            assert(devices@.take(i + 1).drop_last() =~= devices@.take(i as int));
            if devices[i].vendor == YUBICO_VENDOR_ID {
                ids.insert(devices[i].id);
            }
            i += 1;
        }
        assert(devices@.take(i as int) =~= devices@);
        AttachedKeys { ids }
    }

    /// How many keys are plugged in.
    pub fn count(&self) -> (r: usize)
        ensures
            r == self@.len(),
    {
        self.ids.len()
    }

    /// Follows an event. If it changes which keys are plugged in, tells how many
    /// there are now.
    pub fn event(&mut self, event: HotplugEvent) -> (r: Option<usize>)
        ensures
            final(self)@ == keys_after(old(self)@, event),
            r is Some <==> final(self)@ != old(self)@,
            r matches Some(count) ==> count == final(self)@.len(),
    {
        let ghost before = self.ids@;
        let changed = match event {
            HotplugEvent::Connected(device) => device.vendor == YUBICO_VENDOR_ID && self.ids.insert(
                device.id,
            ),
            HotplugEvent::Disconnected(id) => self.ids.remove(&id),
        };
        proof {
            match event {
                HotplugEvent::Connected(device) => {
                    assert(before.contains(device.id) ==> before.insert(device.id) =~= before);
                    assert(before.insert(device.id).contains(device.id));
                },
                HotplugEvent::Disconnected(id) => {
                    assert(!before.contains(id) ==> before.remove(id) =~= before);
                    assert(!before.remove(id).contains(id));
                },
            }
        }
        if changed {
            Some(self.ids.len())
        } else {
            None
        }
    }
}

/// The keys that are plugged in after a number of events.
pub open spec fn keys_after_all(keys: Set<u64>, events: Seq<HotplugEvent>) -> Set<u64>
    decreases events.len(),
{
    if events.len() == 0 {
        keys
    } else {
        keys_after(keys_after_all(keys, events.drop_last()), events.last())
    }
}

/// Only events of devices that are keys or were taken for keys change what is
/// reported: a key that comes and goes leaves everything as it was.
pub proof fn law_plug_and_unplug(keys: Set<u64>, device: UsbDevice)
    requires
        !keys.contains(device.id),
    ensures
        keys_after_all(
            keys,
            seq![HotplugEvent::Connected(device), HotplugEvent::Disconnected(device.id)],
        ) == keys,
{
    let events = seq![HotplugEvent::Connected(device), HotplugEvent::Disconnected(device.id)];
    reveal_with_fuel(keys_after_all, 3);
    assert(events.drop_last() =~= seq![HotplugEvent::Connected(device)]);
    assert(events.drop_last().drop_last() =~= Seq::empty());
    assert(keys.insert(device.id).remove(device.id) =~= keys);
    assert(keys.remove(device.id) =~= keys);
}

/// An arrival that the enumeration has already seen changes nothing.
pub proof fn law_early_arrival(devices: Seq<UsbDevice>, i: int)
    requires
        0 <= i < devices.len(),
    ensures
        keys_after(keys_among(devices), HotplugEvent::Connected(devices[i])) == keys_among(devices),
    decreases devices.len(),
{
    if i < devices.len() - 1 {
        law_early_arrival(devices.drop_last(), i);
        assert(devices.drop_last()[i] == devices[i]);
        let id = devices[i].id;
        if devices[i].vendor == YUBICO_VENDOR_ID {
            assert(keys_among(devices.drop_last()).contains(id));
            assert(keys_among(devices).contains(id));
            assert(keys_among(devices).insert(id) =~= keys_among(devices));
        }
    } else if devices[i].vendor == YUBICO_VENDOR_ID {
        assert(keys_among(devices).insert(devices[i].id) =~= keys_among(devices));
    }
}

// ---------------------------------------------------------------------------
// What the operations do
// ---------------------------------------------------------------------------

/// A missing key and a key that takes too long have codes of their own; any other failure
/// is told by its message, which is told in any case.
pub proof fn law_failure_codes(kind: ChallengeFailure, message: &str, r: ChallengeError)
    requires
        call_ensures(challenge_error, (kind, message), r),
    ensures
        r.message@ == message@,
        !r.touch_requested,
        kind is DeviceNotFound || kind is UsbNoDevice ==> r.code@ == "YK_ENOKEY"@,
        kind is UsbTimeout || kind is IoTimedOut ==> r.code@ == "YK_ETIMEOUT"@,
        kind is Other ==> r.code@ == message@,
{
}

/// A challenge goes to a key of the one vendor, and if the request names a vendor or a
/// product, only to a key with both. A canceled exchange is not begun; another one asks
/// for a touch first, under its own number.
pub proof fn law_which_key_is_challenged(
    pending: &PendingChallenge,
    yubikey: &YubiKeySelector,
    vendor: u16,
    product: u16,
    r: Result<ChallengeEvent, ChallengeError>,
)
    requires
        call_ensures(perform_challenge, (pending, yubikey, vendor, product), r),
    ensures
        ({
            let fits = vendor == 0x1050 && (yubikey.vid is None || yubikey.vid->Some_0 == vendor) && (
            yubikey.pid is None || yubikey.pid->Some_0 == product);
            &&& r is Ok <==> fits && !pending.finished
            &&& !fits ==> (r->Err_0).code@ == "YK_ENOKEY"@ && (r->Err_0).message@
                == "Device not found"@
            &&& fits && pending.finished ==> (r->Err_0).code@ == "YK_ECANCELED"@ && (
            r->Err_0).message@ == "YubiKey challenge canceled"@
            &&& r is Ok ==> (r->Ok_0).callback_id == pending.callback_id && (r->Ok_0).outcome is Err
                && ((r->Ok_0).outcome->Err_0).touch_requested && ((r->Ok_0).outcome->Err_0).code@
                == "YK_ETOUCH"@ && ((r->Ok_0).outcome->Err_0).message@
                == "Touch your YubiKey if it is blinking"@
        }),
{
}

/// Only the two slots are challenged, with 64 bytes at most, and on a desktop.
pub proof fn law_slots(platform: Platform, slot: u8, challenge: &Vec<u8>, r: Result<Slot, String>)
    requires
        call_ensures(check_challenge, (platform, slot, challenge), r),
    ensures
        r is Ok <==> (platform is MacOs || platform is Windows || platform is Linux) && (slot == 1
            || slot == 2) && challenge@.len() <= 64,
        r matches Ok(Slot::First) ==> slot == 1,
        r matches Ok(Slot::Second) ==> slot == 2,
        !(platform is MacOs || platform is Windows || platform is Linux) ==> (r->Err_0)@
            == "Not supported on this platform"@,
        (platform is MacOs || platform is Windows || platform is Linux) && slot != 1 && slot != 2
            ==> (r->Err_0)@ == "Invalid YubiKey slot: expected 1 or 2"@,
        (platform is MacOs || platform is Windows || platform is Linux) && (slot == 1 || slot == 2)
            && r is Err ==> (r->Err_0)@ == "YubiKey challenges must not exceed 64 bytes"@,
{
}

/// A cancellation settles the exchange and is reported under its number, unless the
/// exchange was settled before; without an exchange nothing happens.
pub proof fn law_cancel(
    platform: Platform,
    active: Option<PendingChallenge>,
    r: Result<(Option<PendingChallenge>, Option<ChallengeEvent>), String>,
)
    requires
        call_ensures(yubikey_cancel_challenge_response, (platform, active), r),
    ensures
        r is Ok <==> platform is MacOs || platform is Windows || platform is Linux,
        r matches Ok(told) ==> {
            &&& told.0 is Some <==> active is Some
            &&& told.0 matches Some(after) ==> after.finished && after.callback_id
                == active->Some_0.callback_id
            &&& told.1 is Some <==> active is Some && !active->Some_0.finished
            &&& told.1 matches Some(event) ==> event.callback_id == active->Some_0.callback_id
                && event.outcome is Err && (event.outcome->Err_0).code@ == "YK_ECANCELED"@
        },
{
}

proof fn lemma_device_position(bus: u8, address: u8, devices: Seq<UsbEntry>)
    ensures
        ({
            let i = device_position(bus, address, devices);
            &&& 0 <= i <= devices.len()
            &&& i < devices.len() ==> devices[i].bus == bus && devices[i].address == address
            &&& forall|k: int|
                0 <= k < i ==> !((#[trigger] devices[k]).bus == bus && devices[k].address == address)
        }),
    decreases devices.len(),
{
    if devices.len() > 0 && !(devices[0].bus == bus && devices[0].address == address) {
        let rest = devices.skip(1);
        lemma_device_position(bus, address, rest);
        let i = device_position(bus, address, devices);
        assert forall|k: int| 0 <= k < i implies !((#[trigger] devices[k]).bus == bus
            && devices[k].address == address) by {
            if k > 0 {
                assert(rest[k - 1] == devices[k]);
            }
        }
    }
}

/// A key is listed if it is of the one vendor and stands among the devices of the system:
/// with its own numbers, zero for a serial that is not told, two slots, and the version of
/// the first device at its place on the bus.
pub proof fn law_listed_key(key: FoundKey, devices: Seq<UsbEntry>, i: int)
    requires
        0 <= i <= devices.len(),
        i < devices.len() ==> devices[i].bus == key.bus && devices[i].address == key.address,
        forall|k: int|
            0 <= k < i ==> !((#[trigger] devices[k]).bus == key.bus && devices[k].address
                == key.address),
    ensures
        listed_key(key, devices) is Some <==> key.vendor == 0x1050 && i < devices.len(),
        listed_key(key, devices) matches Some(found) ==> match (devices[i].version, found) {
            (Ok(version), Ok(listed)) => {
                &&& listed.version == version@
                &&& listed.vid == key.vendor && listed.pid == key.product
                &&& key.serial matches Some(serial) ==> listed.serial == serial
                &&& key.serial is None ==> listed.serial == 0
                &&& listed.slots.len() == 2
                &&& listed.slots[0].number == 1 && listed.slots[0].valid
                &&& listed.slots[1].number == 2 && listed.slots[1].valid
            },
            (Err(message), Err(told)) => told == message@,
            _ => false,
        },
{
    lemma_device_position(key.bus, key.address, devices);
    let at = device_position(key.bus, key.address, devices);
    assert(at == i) by {
        if at < i {
            assert(devices[at].bus == key.bus);
        }
        if i < at {
            assert(devices[i].bus == key.bus);
        }
    }
}

/// Keys are listed one by one in their order: those of two searches are those of the first
/// and then those of the second, unless one of them cannot be read.
pub proof fn law_keys_are_listed_one_by_one(
    keys: Seq<FoundKey>,
    more: Seq<FoundKey>,
    devices: Seq<UsbEntry>,
)
    ensures
        match listed_keys(keys, devices) {
            Err(message) => listed_keys(keys + more, devices) == Err::<Seq<ListedKey>, Seq<char>>(
                message,
            ),
            Ok(first) => match listed_keys(more, devices) {
                Ok(second) => listed_keys(keys + more, devices) == Ok::<Seq<ListedKey>, Seq<char>>(
                    first + second,
                ),
                Err(message) => listed_keys(keys + more, devices) == Err::<
                    Seq<ListedKey>,
                    Seq<char>,
                >(message),
            },
        },
        keys.len() == 1 ==> match listed_key(keys[0], devices) {
            None => listed_keys(keys, devices) == Ok::<Seq<ListedKey>, Seq<char>>(Seq::empty()),
            Some(Ok(key)) => listed_keys(keys, devices) == Ok::<Seq<ListedKey>, Seq<char>>(
                seq![key],
            ),
            Some(Err(message)) => listed_keys(keys, devices) == Err::<Seq<ListedKey>, Seq<char>>(
                message,
            ),
        },
    decreases more.len(),
{
    if keys.len() == 1 {
        assert(keys.drop_last() =~= Seq::empty());
        assert(listed_keys(keys.drop_last(), devices) == Ok::<Seq<ListedKey>, Seq<char>>(
            Seq::empty(),
        ));
        if let Some(Ok(key)) = listed_key(keys[0], devices) {
            assert(Seq::<ListedKey>::empty().push(key) =~= seq![key]);
        }
    }
    if more.len() == 0 {
        assert(keys + more =~= keys);
        if let Ok(first) = listed_keys(keys, devices) {
            assert(first + Seq::<ListedKey>::empty() =~= first);
        }
    } else {
        law_keys_are_listed_one_by_one(keys, more.drop_last(), devices);
        assert((keys + more).drop_last() =~= keys + more.drop_last());
        assert((keys + more).last() == more.last());
        if let (Ok(first), Ok(second)) = (
            listed_keys(keys, devices),
            listed_keys(more.drop_last(), devices),
        ) {
            if let Some(Ok(key)) = listed_key(more.last(), devices) {
                assert((first + second).push(key) =~= first + second.push(key));
            }
        }
    }
}

/// The list holds the keys that were found, as far as they are to be listed; no key is no
/// failure, but a failed search is.
pub proof fn law_key_list(
    platform: Platform,
    search: KeySearch,
    devices: Result<Vec<UsbEntry>, String>,
    r: Result<Vec<YubiKeyInfo>, String>,
)
    requires
        call_ensures(yubikey_list, (platform, search, devices), r),
        platform is MacOs || platform is Windows || platform is Linux,
    ensures
        search is NotFound ==> r is Ok && (r->Ok_0)@.len() == 0,
        search matches KeySearch::Failed(message) ==> r is Err && (r->Err_0)@ == message@,
        search matches KeySearch::Found(found) ==> match devices {
            Err(message) => r is Err && (r->Err_0)@ == message@,
            Ok(entries) => match listed_keys(found@, entries@) {
                Ok(listed) => r is Ok && (r->Ok_0)@.len() == listed.len() && forall|i: int|
                    0 <= i < listed.len() ==> (#[trigger] (r->Ok_0)@[i])@ == listed[i],
                Err(message) => r is Err && (r->Err_0)@ == message,
            },
        },
{
}

/// The keys that are attached are the devices of the one vendor that were there and have
/// not left, and those that came since.
pub proof fn law_attached_keys(devices: Seq<UsbDevice>, keys: Set<u64>, event: HotplugEvent, id: u64)
    ensures
        keys_among(devices).contains(id) <==> exists|i: int|
            0 <= i < devices.len() && (#[trigger] devices[i]).id == id && devices[i].vendor == 0x1050,
        keys_after(keys, event).contains(id) <==> match event {
            HotplugEvent::Connected(device) => keys.contains(id) || device.id == id && device.vendor
                == 0x1050,
            HotplugEvent::Disconnected(gone) => keys.contains(id) && id != gone,
        },
    decreases devices.len(),
{
    if devices.len() > 0 {
        let before = devices.drop_last();
        law_attached_keys(before, keys, event, id);
        if exists|i: int|
            0 <= i < devices.len() && (#[trigger] devices[i]).id == id && devices[i].vendor == 0x1050 {
            let i = choose|i: int|
                0 <= i < devices.len() && (#[trigger] devices[i]).id == id && devices[i].vendor
                    == 0x1050;
            if i < before.len() {
                assert(before[i] == devices[i]);
            }
        }
        if keys_among(devices).contains(id) {
            if keys_among(before).contains(id) {
                let i = choose|i: int|
                    0 <= i < before.len() && (#[trigger] before[i]).id == id && before[i].vendor
                        == 0x1050;
                assert(devices[i] == before[i]);
            } else {
                assert(devices[devices.len() - 1].id == id);
            }
        }
    }
}

/// Whoever settles an exchange first is reported, with the outcome that it brings and under
/// the number of the exchange; everyone after that is not, and the exchange stays settled.
pub proof fn law_first_to_settle(
    pending: &mut PendingChallenge,
    result: Result<Vec<u8>, ChallengeError>,
    r: Option<ChallengeEvent>,
)
    requires
        call_ensures(PendingChallenge::finish, (pending, result), r),
    ensures
        final(pending).finished,
        final(pending).callback_id == old(pending).callback_id,
        r is Some <==> !old(pending).finished,
        r matches Some(event) ==> event.outcome == result && event.callback_id
            == old(pending).callback_id,
{
}

/// One exchange at a time: a second one is refused and leaves the first alone; after the
/// first has ended, another can begin. The listener is not concerned.
pub proof fn law_one_exchange_at_a_time<T, L>(
    state: &mut NativeState<T, L>,
    ended: &mut NativeState<T, L>,
    pending: T,
    r: Result<(), String>,
    listing: Result<(), String>,
)
    requires
        call_ensures(NativeState::<T, L>::begin, (state, pending), r),
        call_ensures(NativeState::<T, L>::end, (ended,), ()),
        call_ensures(NativeState::<T, L>::listing_allowed, (&*old(state),), listing),
    ensures
        r is Ok <==> old(state).challenge is None,
        listing is Ok <==> old(state).challenge is None,
        r is Ok ==> final(state).challenge == Some(pending),
        r is Err ==> final(state).challenge == old(state).challenge,
        final(state).usb_listener == old(state).usb_listener,
        final(ended).challenge is None,
        final(ended).usb_listener == old(ended).usb_listener,
{
}

/// A change of the attached keys is told by their number, and only if there is one.
pub proof fn law_hotplug(keys: &mut AttachedKeys, event: HotplugEvent, r: Option<usize>, id: u64)
    requires
        call_ensures(AttachedKeys::event, (keys, event), r),
    ensures
        r matches Some(count) ==> count == final(keys)@.len(),
        r is None ==> final(keys)@ == old(keys)@,
        event matches HotplugEvent::Connected(device) ==> {
            &&& r is Some <==> device.vendor == 0x1050 && !old(keys)@.contains(device.id)
            &&& id != device.id ==> final(keys)@.contains(id) == old(keys)@.contains(id)
            &&& device.vendor == 0x1050 ==> final(keys)@.contains(device.id)
        },
        event matches HotplugEvent::Disconnected(gone) ==> {
            &&& r is Some <==> old(keys)@.contains(gone)
            &&& id != gone ==> final(keys)@.contains(id) == old(keys)@.contains(id)
            &&& !final(keys)@.contains(gone)
        },
{
    match event {
        HotplugEvent::Connected(device) => {
            if device.vendor == 0x1050 && old(keys)@.contains(device.id) {
                assert(old(keys)@.insert(device.id) =~= old(keys)@);
            }
            if device.vendor == 0x1050 && !old(keys)@.contains(device.id) {
                assert(old(keys)@.insert(device.id).contains(device.id));
            }
        },
        HotplugEvent::Disconnected(gone) => {
            if !old(keys)@.contains(gone) {
                assert(old(keys)@.remove(gone) =~= old(keys)@);
            } else {
                assert(!old(keys)@.remove(gone).contains(gone));
            }
        },
    }
}

/// Exchanges that end by themselves: what they are told by, and that one that is settled
/// does not begin.
pub proof fn law_ends_of_an_exchange(
    canceled: ChallengeError,
    timed_out: ChallengeError,
    callback_id: u32,
    fresh: PendingChallenge,
    pending: &PendingChallenge,
    begun: Result<(), ChallengeError>,
)
    requires
        call_ensures(self::canceled, (), canceled),
        call_ensures(self::timed_out, (), timed_out),
        call_ensures(PendingChallenge::new, (callback_id,), fresh),
        call_ensures(challenge_begins, (pending,), begun),
    ensures
        canceled.code@ == "YK_ECANCELED"@ && !canceled.touch_requested,
        timed_out.code@ == "YK_ETIMEOUT"@ && !timed_out.touch_requested,
        fresh.callback_id == callback_id && !fresh.finished,
        begun is Ok <==> !pending.finished,
        begun matches Err(e) ==> e.code@ == "YK_ECANCELED"@,
{
}

/// One listener at a time, which is handed back when it stops; exchanges are not concerned.
pub proof fn law_one_listener<T, L>(
    starting: &mut NativeState<T, L>,
    stopping: &mut NativeState<T, L>,
    listener: L,
    needed: bool,
    r: Option<L>,
)
    requires
        call_ensures(NativeState::<T, L>::needs_listener, (&*old(starting),), needed),
        call_ensures(NativeState::<T, L>::listener_started, (starting, listener), ()),
        call_ensures(NativeState::<T, L>::usb_listener_stop, (stopping,), r),
    ensures
        needed <==> old(starting).usb_listener is None,
        final(starting).usb_listener == Some(listener),
        final(starting).challenge == old(starting).challenge,
        r == old(stopping).usb_listener,
        final(stopping).usb_listener is None,
        final(stopping).challenge == old(stopping).challenge,
{
}

/// The keys at the start are the devices of the one vendor, each counted once.
pub proof fn law_keys_at_the_start(devices: &Vec<UsbDevice>, keys: AttachedKeys, count: usize, id: u64)
    requires
        call_ensures(AttachedKeys::usb_listener_start, (devices,), keys),
        call_ensures(AttachedKeys::count, (&keys,), count),
    ensures
        keys@.contains(id) <==> exists|i: int|
            0 <= i < devices@.len() && (#[trigger] devices@[i]).id == id && devices@[i].vendor
                == 0x1050,
        count == keys@.len(),
{
    law_attached_keys(devices@, keys@, HotplugEvent::Disconnected(id), id);
}

/// Room that was reserved has the length of what is derived; room that was not is told.
pub proof fn law_room(
    options: &Argon2Options,
    room: Vec<u8>,
    reserved: Result<(), String>,
    r: Result<Vec<u8>, String>,
)
    requires
        call_ensures(argon2_reserved, (options, room, reserved), r),
    ensures
        r is Ok <==> reserved is Ok,
        r matches Ok(bytes) ==> bytes@.len() == options.length,
        r matches Err(e) ==> e@ == (reserved->Err_0)@,
{
}

} // verus!
