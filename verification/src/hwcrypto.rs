//! Encryption under a key that the hardware keeps, or that stands in for one.

use vstd::prelude::*;

use crate::config::KeyRead;
use crate::crypto::{
    array12, array32, gcm_decrypt, gcm_encrypt, gcm_limit, gcm_opened, gcm_sealed, random_array,
    wipe, wipe_array,
};
use crate::platform::Platform;
use crate::text::{concat, concat3, outcome, same_text, signed_decimal, signed_decimal_text, trim, trimmed};

verus! {

/// The name under which the system keeps the application key.
pub const KEY_TAG: &'static str = "net.antelle.keeweb.encryption-key";

/// The status of the system for a key that it does not have.
pub const ITEM_NOT_FOUND: i32 = -25300;

/// The value of an environment variable.
pub enum EnvText {
    Absent,
    Text(String),
    NotUnicode,
}

/// Where the key of an operation is.
#[derive(Clone, Copy, Debug, PartialEq, Eq, Structural)]
pub enum Route {
    /// A stand-in for the hardware, kept in the credential store.
    Persistent,
    /// A stand-in for the hardware, kept in memory.
    Memory,
    /// The hardware.
    Enclave,
}

/// The stand-in that an environment variable asks for: one that persists or not.
pub open spec fn emulation_mode(mode: EnvText) -> Result<Option<bool>, Seq<char>> {
    match mode {
        EnvText::Absent => Ok(None),
        EnvText::Text(text) => if text@ == "persistent"@ {
            Ok(Some(true))
        } else if text@ == "memory"@ {
            Ok(Some(false))
        } else {
            Err("KEEWEB_EMULATE_HARDWARE_ENCRYPTION must be memory or persistent"@)
        },
        EnvText::NotUnicode => Err(
            "KEEWEB_EMULATE_HARDWARE_ENCRYPTION must be memory or persistent"@,
        ),
    }
}

/// Where the key is, on a platform and with an environment variable.
pub open spec fn route(platform: Platform, mode: EnvText) -> Result<Route, Seq<char>> {
    if !(platform is MacOs) {
        Err("Hardware encryption is only supported on macOS"@)
    } else {
        match emulation_mode(mode) {
            Ok(Some(true)) => Ok(Route::Persistent),
            Ok(Some(false)) => Ok(Route::Memory),
            Ok(None) => Ok(Route::Enclave),
            Err(message) => Err(message),
        }
    }
}

/// The stand-in that an environment variable asks for.
pub fn emulation(mode: &EnvText) -> (r: Result<Option<bool>, String>)
    ensures
        outcome(r) == emulation_mode(*mode),
{
    match mode {
        EnvText::Absent => Ok(None),
        EnvText::Text(text) => if same_text(text.as_str(), "persistent") {
            Ok(Some(true))
        } else if same_text(text.as_str(), "memory") {
            Ok(Some(false))
        } else {
            Err("KEEWEB_EMULATE_HARDWARE_ENCRYPTION must be memory or persistent".to_owned())
        },
        EnvText::NotUnicode => Err(
            "KEEWEB_EMULATE_HARDWARE_ENCRYPTION must be memory or persistent".to_owned(),
        ),
    }
}

fn find_route(platform: Platform, mode: &EnvText) -> (r: Result<Route, String>)
    ensures
        outcome(r) == route(platform, *mode),
{
    match platform {
        Platform::MacOs => match emulation(mode)? {
            Some(persistent) => if persistent {
                Ok(Route::Persistent)
            } else {
                Ok(Route::Memory)
            },
            None => Ok(Route::Enclave),
        },
        _ => Err("Hardware encryption is only supported on macOS".to_owned()),
    }
}

/// Begins an encryption: tells where the key is. Where there is none, the data is
/// wiped.
pub fn encrypt(platform: Platform, mode: &EnvText, data: &mut Vec<u8>) -> (r: Result<Route, String>)
    ensures
        outcome(r) == route(platform, *mode),
        r is Ok ==> final(data)@ == old(data)@,
        r is Err ==> final(data)@.len() == 0,
{
    let found = find_route(platform, mode);
    if found.is_err() {
        wipe(data);
    }
    found
}

/// Where the key is for a decryption. The hardware needs something to tell the user; the
/// stand-in needs data that can be an envelope, and ignores what the user is told.
pub open spec fn decryption_route(
    platform: Platform,
    mode: EnvText,
    data: Seq<u8>,
    prompt: Seq<char>,
) -> Result<Route, Seq<char>> {
    match route(platform, mode) {
        Ok(Route::Enclave) => if trimmed(prompt).len() == 0 {
            Err("touchIdPrompt cannot be empty"@)
        } else {
            Ok(Route::Enclave)
        },
        Ok(stand_in) => if data.len() < 28 {
            Err("Invalid hardware emulation ciphertext"@)
        } else {
            Ok(stand_in)
        },
        Err(message) => Err(message),
    }
}

/// Begins a decryption: tells where the key is, unless the data cannot be an
/// envelope of the stand-in or the hardware has nothing to tell the user.
pub fn decrypt(platform: Platform, mode: &EnvText, data: &Vec<u8>, prompt: &str) -> (r: Result<
    Route,
    String,
>)
    ensures
        outcome(r) == decryption_route(platform, *mode, data@, prompt@),
{
    let found = find_route(platform, mode)?;
    match found {
        Route::Enclave => {
            if trim(prompt).as_str().is_empty() {
                return Err("touchIdPrompt cannot be empty".to_owned());
            }
        },
        _ => {
            if data.len() < 28 {
                return Err("Invalid hardware emulation ciphertext".to_owned());
            }
        },
    }
    Ok(found)
}

/// Wipes the key in memory, if there is one.
fn forget(memory: &mut Option<[u8; 32]>)
    ensures
        *final(memory) is None,
{
    match memory {
        Some(key) => wipe_array(key),
        None => {},
    }
    *memory = None;
}

/// What is left to do to delete the key.
#[derive(Clone, Copy, Debug, PartialEq, Eq, Structural)]
pub enum DeleteStep {
    /// Delete the entry of the credential store, and call `entry_deleted`.
    Entry,
    /// Look for the key of the hardware and delete it.
    Enclave,
    /// Nothing.
    Done,
}

/// Begins the deletion of the key. A key in memory is wiped at once.
pub fn delete_key(platform: Platform, mode: &EnvText, memory: &mut Option<[u8; 32]>) -> (r: Result<
    DeleteStep,
    String,
>)
    ensures
        outcome(r) == match route(platform, *mode) {
            Ok(Route::Persistent) => Ok(DeleteStep::Entry),
            Ok(Route::Memory) => Ok(DeleteStep::Done),
            Ok(Route::Enclave) => Ok(DeleteStep::Enclave),
            Err(message) => Err(message),
        },
        *final(memory) == if r == Ok::<DeleteStep, String>(DeleteStep::Done) {
            None
        } else {
            *old(memory)
        },
{
    match find_route(platform, mode)? {
        Route::Persistent => Ok(DeleteStep::Entry),
        Route::Memory => {
            forget(memory);
            Ok(DeleteStep::Done)
        },
        Route::Enclave => Ok(DeleteStep::Enclave),
    }
}

/// What came of deleting an entry.
pub enum Deletion {
    Deleted,
    Absent,
    Failed(String),
}

/// Ends the deletion of a persistent key: an entry that was not there is as good as
/// deleted, and the key in memory is wiped with it.
pub fn entry_deleted(deletion: Deletion, memory: &mut Option<[u8; 32]>) -> (r: Result<(), String>)
    ensures
        match deletion {
            Deletion::Failed(message) => outcome(r) == Err::<(), Seq<char>>(message@) && *final(memory)
                == *old(memory),
            _ => r is Ok && *final(memory) is None,
        },
{
    match deletion {
        Deletion::Failed(message) => Err(message),
        _ => {
            forget(memory);
            Ok(())
        },
    }
}

/// A random key. Which one, and whether there is one, is up to the system.
pub fn random_key() -> (r: Result<[u8; 32], String>) {
    random_array()
}

/// What to do about the persistent key.
pub enum KeyStep {
    Use([u8; 32]),
    /// Draw a key with `random_key`, store it and use it.
    Draw,
    Fail(String),
}

/// The persistent key, from what came of reading its entry. `absent` words that
/// there is no entry. The secret that was read is wiped.
pub fn persistent_key(read: KeyRead, create: bool, absent: &str) -> (r: KeyStep)
    ensures
        match (read, r) {
            (KeyRead::Secret(secret), KeyStep::Use(key)) => secret@.len() == 32 && key@ == secret@,
            (KeyRead::Secret(secret), KeyStep::Fail(e)) => secret@.len() != 32 && e@
                == "Invalid emulated hardware key: expected 32 bytes"@,
            (KeyRead::NoEntry, KeyStep::Draw) => create,
            (KeyRead::NoEntry, KeyStep::Fail(e)) => !create && e@
                == "Cannot read emulated hardware key: "@ + absent@,
            (KeyRead::Failed(message), KeyStep::Fail(e)) => e@
                == "Cannot read emulated hardware key: "@ + message@,
            _ => false,
        },
{
    match read {
        KeyRead::Secret(secret) => {
            let key = array32(&secret);
            let mut secret = secret;
            wipe(&mut secret);
            match key {
                Some(key) => KeyStep::Use(key),
                None => KeyStep::Fail("Invalid emulated hardware key: expected 32 bytes".to_owned()),
            }
        },
        KeyRead::NoEntry => if create {
            KeyStep::Draw
        } else {
            KeyStep::Fail(concat("Cannot read emulated hardware key: ", absent))
        },
        KeyRead::Failed(message) => KeyStep::Fail(
            concat("Cannot read emulated hardware key: ", message.as_str()),
        ),
    }
}

/// The key in memory. If there is none and one may be created, it is what
/// `memory_key_drawn` makes of a random key.
pub fn memory_key(memory: &mut Option<[u8; 32]>, create: bool) -> (r: Result<[u8; 32], String>)
    ensures
        match *old(memory) {
            Some(key) => r == Ok::<[u8; 32], String>(key) && *final(memory) == *old(memory),
            None => if create {
                match r {
                    Ok(key) => *final(memory) == Some(key),
                    Err(_) => *final(memory) is None,
                }
            } else {
                outcome(r) == Err::<[u8; 32], Seq<char>>("Emulated hardware key not found"@)
                    && *final(memory) is None
            },
        },
{
    match *memory {
        Some(key) => Ok(key),
        None => if create {
            memory_key_drawn(memory, random_key())
        } else {
            Err("Emulated hardware key not found".to_owned())
        },
    }
}

/// Takes a key that was drawn into memory. Where none could be drawn, nothing changes.
pub fn memory_key_drawn(memory: &mut Option<[u8; 32]>, drawn: Result<[u8; 32], String>) -> (r: Result<
    [u8; 32],
    String,
>)
    ensures
        match drawn {
            Ok(key) => r == Ok::<[u8; 32], String>(key) && *final(memory) == Some(key),
            Err(message) => outcome(r) == Err::<[u8; 32], Seq<char>>(message@) && *final(memory)
                == *old(memory),
        },
{
    match drawn {
        Ok(key) => {
            *memory = Some(key);
            Ok(key)
        },
        Err(message) => Err(message),
    }
}

// ---------------------------------------------------------------------------
// The envelope of the stand-in
// ---------------------------------------------------------------------------

/// The envelope of a message: the ciphertext and its tag, and then the nonce.
pub open spec fn envelope(key: Seq<u8>, nonce: Seq<u8>, message: Seq<u8>) -> Seq<u8> {
    gcm_sealed(key, nonce, message) + nonce
}

/// The message of an envelope.
pub open spec fn unsealed(key: Seq<u8>, data: Seq<u8>) -> Result<Seq<u8>, Seq<char>> {
    if data.len() < 28 {
        Err("Invalid hardware emulation ciphertext"@)
    } else {
        match gcm_opened(key, data.skip(data.len() - 12), data.take(data.len() - 12)) {
            Some(message) => Ok(message),
            None => Err("Hardware emulation authentication failed"@),
        }
    }
}

/// Whether two envelopes differ in their tags only, or in their nonces only.
pub open spec fn differ_in_seal(a: Seq<u8>, b: Seq<u8>) -> bool {
    &&& a != b
    &&& a.len() == b.len() >= 28
    &&& a.take(a.len() - 28) == b.take(b.len() - 28)
    &&& a.skip(a.len() - 12) == b.skip(b.len() - 12) || a.take(a.len() - 12) == b.take(b.len() - 12)
}

/// Whether an envelope with another tag, or with another nonce, is refused.
pub open spec fn is_seal_checked(key: Seq<u8>, data: Seq<u8>) -> bool {
    forall|changed: Seq<u8>| #[trigger]
        differ_in_seal(data, changed) ==> unsealed(key, changed) == Err::<Seq<u8>, Seq<char>>(
            "Hardware emulation authentication failed"@,
        )
}

/// Seals a message under a nonce. A message that is too long is wiped.
pub fn seal(key: &[u8; 32], nonce: &[u8; 12], message: Vec<u8>) -> (r: Result<Vec<u8>, String>)
    ensures
        match r {
            Ok(data) => {
                &&& message@.len() <= gcm_limit()
                &&& data@ == envelope(key@, nonce@, message@)
                &&& data@.len() == message@.len() + 28
                &&& unsealed(key@, data@) == Ok::<Seq<u8>, Seq<char>>(message@)
                &&& is_seal_checked(key@, data@)
            },
            Err(e) => message@.len() > gcm_limit() && e@ == "Hardware emulation encryption failed"@,
        },
{
    let mut data = message;
    if !gcm_encrypt(key, nonce, &mut data) {
        wipe(&mut data);
        return Err("Hardware emulation encryption failed".to_owned());
    }
    let ghost body = data@;
    let mut i: usize = 0;
    while i < 12
        invariant
            i <= 12,
            nonce@.len() == 12,
            data@ == body + nonce@.take(i as int),
        decreases 12 - i,
    {
        data.push(nonce[i]);
        i += 1;
        assert(nonce@.take(i as int) =~= nonce@.take(i - 1).push(nonce@[i - 1]));
    }
    assert(nonce@.take(12) =~= nonce@);
    assert(data@.skip(data@.len() - 12) =~= nonce@);
    assert(data@.take(data@.len() - 12) =~= body);
    assert forall|changed: Seq<u8>| #[trigger] differ_in_seal(data@, changed) implies unsealed(
        key@,
        changed,
    ) == Err::<Seq<u8>, Seq<char>>("Hardware emulation authentication failed"@) by {
        let n = message@.len() as int;
        let tag = changed.subrange(n, n + 16);
        let other = changed.skip(n + 16);
        assert(changed =~= changed.take(n + 16) + other);
        assert(data@ =~= body + nonce@);
        if changed.take(n + 16) != body {
            assert(changed.take(n + 16) =~= changed.take(n) + tag);
            assert(changed.take(n) =~= body.take(n)) by {
                assert(data@.take(n) =~= body.take(n));
            }
            assert(body =~= body.take(n) + body.skip(n));
            assert(tag != body.skip(n));
        }
    }
    Ok(data)
}

/// Seals a message under a random nonce: what `seal_drawn` makes of one. Whoever has the
/// key gets the message back. Which nonce, and whether there is one, is up to the system.
pub fn emulated_encrypt(key: &[u8; 32], message: Vec<u8>) -> (r: Result<Vec<u8>, String>)
    ensures
        r matches Ok(data) ==> {
            &&& message@.len() <= gcm_limit()
            &&& data@.len() == message@.len() + 28
            &&& data@ == envelope(key@, data@.skip(data@.len() - 12), message@)
            &&& unsealed(key@, data@) == Ok::<Seq<u8>, Seq<char>>(message@)
            &&& is_seal_checked(key@, data@)
        },
{
    let drawn = random_array();
    let sealed = seal_drawn(key, drawn, message);
    assert(sealed matches Ok(data) ==> data@.skip(data@.len() - 12) =~= drawn->Ok_0@);
    sealed
}

/// Seals a message under a nonce that was drawn. Where none could be drawn, nothing is
/// sealed, and the message is wiped.
pub fn seal_drawn(key: &[u8; 32], drawn: Result<[u8; 12], String>, message: Vec<u8>) -> (r: Result<
    Vec<u8>,
    String,
>)
    ensures
        match drawn {
            Ok(nonce) => if message@.len() <= gcm_limit() {
                &&& r matches Ok(data)
                &&& data@ == envelope(key@, nonce@, message@)
                &&& data@.len() == message@.len() + 28
                &&& unsealed(key@, data@) == Ok::<Seq<u8>, Seq<char>>(message@)
                &&& is_seal_checked(key@, data@)
            } else {
                outcome(r) == Err::<Vec<u8>, Seq<char>>("Hardware emulation encryption failed"@)
            },
            Err(reason) => outcome(r) == Err::<Vec<u8>, Seq<char>>(reason@),
        },
{
    match drawn {
        Ok(nonce) => seal(key, &nonce, message),
        Err(reason) => {
            let mut message = message;
            wipe(&mut message);
            Err(reason)
        },
    }
}

/// The message of an envelope. A message has one envelope under a nonce, which is the one
/// that it is read from. Data that is refused is wiped.
pub fn emulated_decrypt(key: &[u8; 32], data: Vec<u8>) -> (r: Result<Vec<u8>, String>)
    ensures
        match r {
            Ok(message) => {
                &&& unsealed(key@, data@) == Ok::<Seq<u8>, Seq<char>>(message@)
                &&& message@.len() + 28 == data@.len()
                &&& message@.len() <= gcm_limit() ==> data@ == envelope(
                    key@,
                    data@.skip(data@.len() - 12),
                    message@,
                )
            },
            Err(e) => unsealed(key@, data@) == Err::<Seq<u8>, Seq<char>>(e@),
        },
{
    let mut body = data;
    if body.len() < 28 {
        wipe(&mut body);
        return Err("Invalid hardware emulation ciphertext".to_owned());
    }
    let tail = body.split_off(body.len() - 12);
    assert(tail@ =~= data@.skip(data@.len() - 12));
    assert(body@ =~= data@.take(data@.len() - 12));
    assert(data@ =~= body@ + tail@);
    let opened = match array12(&tail) {
        Some(nonce) => gcm_decrypt(key, &nonce, &mut body),
        None => false,
    };
    if opened {
        Ok(body)
    } else {
        wipe(&mut body);
        Err("Hardware emulation authentication failed".to_owned())
    }
}

/// The key of a stand-in for a decryption, from the key in memory or from what came of
/// reading the entry of the credential store.
pub open spec fn stand_in_key(
    place: Route,
    memory: Option<[u8; 32]>,
    read: KeyRead,
    absent: Seq<char>,
) -> Result<Seq<u8>, Seq<char>> {
    if place is Memory {
        match memory {
            Some(key) => Ok(key@),
            None => Err("Emulated hardware key not found"@),
        }
    } else {
        match read {
            KeyRead::Secret(secret) => if secret@.len() == 32 {
                Ok(secret@)
            } else {
                Err("Invalid emulated hardware key: expected 32 bytes"@)
            },
            KeyRead::NoEntry => Err("Cannot read emulated hardware key: "@ + absent),
            KeyRead::Failed(message) => Err("Cannot read emulated hardware key: "@ + message@),
        }
    }
}

/// What the stand-in makes of some data: its message, once there is a key.
pub open spec fn opened_by_stand_in(
    place: Route,
    memory: Option<[u8; 32]>,
    read: KeyRead,
    absent: Seq<char>,
    data: Seq<u8>,
) -> Result<Seq<u8>, Seq<char>> {
    match stand_in_key(place, memory, read, absent) {
        Ok(key) => unsealed(key, data),
        Err(message) => Err(message),
    }
}

/// What a decryption with a stand-in comes to, from its beginning to its end.
pub open spec fn decrypted(
    platform: Platform,
    mode: EnvText,
    prompt: Seq<char>,
    memory: Option<[u8; 32]>,
    read: KeyRead,
    absent: Seq<char>,
    data: Seq<u8>,
) -> Result<Seq<u8>, Seq<char>> {
    match decryption_route(platform, mode, data, prompt) {
        Ok(place) => opened_by_stand_in(place, memory, read, absent, data),
        Err(message) => Err(message),
    }
}

/// Ends a decryption with a stand-in: looks for its key, which is not created here, and
/// opens the envelope. The entry of the credential store counts for a persistent key only;
/// `absent` words that there is none. The key that was used, and data that is refused, are
/// wiped.
pub fn stand_in_decrypt(
    place: Route,
    memory: &Option<[u8; 32]>,
    read: KeyRead,
    absent: &str,
    data: Vec<u8>,
) -> (r: Result<Vec<u8>, String>)
    requires
        !(place is Enclave),
    ensures
        match r {
            Ok(message) => opened_by_stand_in(place, *memory, read, absent@, data@) == Ok::<
                Seq<u8>,
                Seq<char>,
            >(message@),
            Err(e) => opened_by_stand_in(place, *memory, read, absent@, data@) == Err::<
                Seq<u8>,
                Seq<char>,
            >(e@),
        },
{
    let found = match place {
        Route::Memory => match memory {
            Some(key) => Ok(*key),
            None => Err("Emulated hardware key not found".to_owned()),
        },
        _ => match persistent_key(read, false, absent) {
            KeyStep::Use(key) => Ok(key),
            KeyStep::Fail(message) => Err(message),
            KeyStep::Draw => Err("Emulated hardware key not found".to_owned()),
        },
    };
    match found {
        Ok(key) => {
            let opened = emulated_decrypt(&key, data);
            let mut key = key;
            wipe_array(&mut key);
            opened
        },
        Err(message) => {
            let mut data = data;
            wipe(&mut data);
            Err(message)
        },
    }
}

/// What was encrypted with a stand-in is decrypted with it as long as its key is there,
/// whatever the user is told, be it nothing; with another tag or nonce it is refused. The data is
/// what `emulated_encrypt` makes of the message under that key.
pub proof fn law_what_is_encrypted_is_decrypted(
    platform: Platform,
    mode: EnvText,
    prompt: Seq<char>,
    memory: Option<[u8; 32]>,
    read: KeyRead,
    absent: Seq<char>,
    key: Seq<u8>,
    message: Seq<u8>,
    data: Seq<u8>,
    changed: Seq<u8>,
)
    requires
        route(platform, mode) matches Ok(place) && !(place is Enclave) && stand_in_key(
            place,
            memory,
            read,
            absent,
        ) == Ok::<Seq<u8>, Seq<char>>(key),
        unsealed(key, data) == Ok::<Seq<u8>, Seq<char>>(message),
        is_seal_checked(key, data),
    ensures
        decrypted(platform, mode, prompt, memory, read, absent, data) == Ok::<Seq<u8>, Seq<char>>(
            message,
        ),
        differ_in_seal(data, changed) ==> decrypted(
            platform,
            mode,
            prompt,
            memory,
            read,
            absent,
            changed,
        ) == Err::<Seq<u8>, Seq<char>>("Hardware emulation authentication failed"@),
{
}

/// Fewer than 28 bytes are refused, whether there is a key or not.
pub proof fn law_short_data_is_refused(
    platform: Platform,
    mode: EnvText,
    prompt: Seq<char>,
    memory: Option<[u8; 32]>,
    read: KeyRead,
    absent: Seq<char>,
    data: Seq<u8>,
)
    requires
        route(platform, mode) matches Ok(place) && !(place is Enclave),
        data.len() < 28,
    ensures
        decrypted(platform, mode, prompt, memory, read, absent, data) == Err::<
            Seq<u8>,
            Seq<char>,
        >("Invalid hardware emulation ciphertext"@),
{
}

// ---------------------------------------------------------------------------
// The hardware
// ---------------------------------------------------------------------------

/// The message for an error of the hardware. The user interface recognizes a
/// refusal of the user by its first words.
pub open spec fn security_message(operation: Seq<char>, code: int, message: Seq<char>) -> Seq<char> {
    if code == -128 {
        "User refused to authenticate with Touch ID ("@ + operation + ": "@ + message + ")"@
    } else {
        operation + ": "@ + message + " ("@ + signed_decimal(code) + ")"@
    }
}

/// The message for an error of the hardware.
pub fn security_error(operation: &str, code: i64, message: &str) -> (r: String)
    ensures
        r@ == security_message(operation@, code as int, message@),
{
    if code == -128 {
        let mut r = concat3("User refused to authenticate with Touch ID (", operation, ": ");
        r.append(message);
        r.append(")");
        r
    } else {
        let mut r = concat3(operation, ": ", message);
        r.append(" (");
        r.append(signed_decimal_text(code).as_str());
        r.append(")");
        r
    }
}

/// Whether the hardware has the key, from the status of the search, whether it
/// returned something, and how it words the status.
pub fn find_key(status: i32, returned: bool, message: &str) -> (r: Result<bool, String>)
    ensures
        outcome(r) == if status == ITEM_NOT_FOUND {
            Ok(false)
        } else if status != 0 {
            Err(security_message("SecItemCopyMatching"@, status as int, message@))
        } else if !returned {
            Err("SecItemCopyMatching returned no Secure Enclave key"@)
        } else {
            Ok(true)
        },
{
    if status == ITEM_NOT_FOUND {
        Ok(false)
    } else if status != 0 {
        Err(security_error("SecItemCopyMatching", status as i64, message))
    } else if !returned {
        Err("SecItemCopyMatching returned no Secure Enclave key".to_owned())
    } else {
        Ok(true)
    }
}

/// Whether the hardware has a key to decrypt with.
pub fn decryption_key(found: bool) -> (r: Result<(), String>)
    ensures
        outcome(r) == if found {
            Ok(())
        } else {
            Err("SecKeyCreateDecryptedData: Key not found in Secure Enclave"@)
        },
{
    if found {
        Ok(())
    } else {
        Err("SecKeyCreateDecryptedData: Key not found in Secure Enclave".to_owned())
    }
}

/// Whether the key of the hardware has a public half to encrypt with.
pub fn encryption_key(found: bool) -> (r: Result<(), String>)
    ensures
        outcome(r) == if found {
            Ok(())
        } else {
            Err("Cannot extract Secure Enclave public key"@)
        },
{
    if found {
        Ok(())
    } else {
        Err("Cannot extract Secure Enclave public key".to_owned())
    }
}

/// The outcome of deleting the key of the hardware: it does not matter if it was
/// gone already.
pub fn enclave_key_deleted(failure: Option<(i64, String)>) -> (r: Result<(), String>)
    ensures
        outcome(r) == match failure {
            None => Ok::<(), Seq<char>>(()),
            Some(f) => if f.0 == ITEM_NOT_FOUND {
                Ok(())
            } else {
                Err(security_message("SecItemDelete"@, f.0 as int, f.1@))
            },
        },
{
    match failure {
        None => Ok(()),
        Some(f) => if f.0 == ITEM_NOT_FOUND as i64 {
            Ok(())
        } else {
            Err(security_error("SecItemDelete", f.0, f.1.as_str()))
        },
    }
}

/// Whether the user can be recognized by a finger, a face or a watch.
pub enum Biometry {
    Available,
    Lockout,
    NotAvailable,
    NotEnrolled,
    CompanionNotAvailable,
    NotPaired,
    Disconnected,
    Unknown(String),
}

/// What protects a new key of the hardware.
#[derive(Clone, Copy, Debug, PartialEq, Eq, Structural)]
pub struct AccessFlags {
    pub private_key_usage: bool,
    pub biometry_current_set: bool,
    pub or: bool,
    pub watch: bool,
    pub user_presence: bool,
}

/// The protection of a key for users who can be recognized.
pub open spec fn biometric_access() -> AccessFlags {
    AccessFlags {
        private_key_usage: true,
        biometry_current_set: true,
        or: true,
        watch: true,
        user_presence: false,
    }
}

/// The protection of a key for users who cannot be recognized.
pub open spec fn presence_access() -> AccessFlags {
    AccessFlags {
        private_key_usage: true,
        biometry_current_set: false,
        or: false,
        watch: false,
        user_presence: true,
    }
}

/// A key that the hardware is asked to create.
pub struct KeyRequest {
    pub size_in_bits: u32,
    pub tag: &'static str,
    pub permanent: bool,
    pub access: AccessFlags,
}

/// The key that the hardware is asked to create. That the user failed too often to
/// be recognized does not weaken its protection.
pub fn create_key(biometry: Biometry) -> (r: Result<KeyRequest, String>)
    ensures
        match r {
            Ok(request) => {
                &&& request.size_in_bits == 256
                &&& request.tag@ == KEY_TAG@
                &&& request.permanent
                &&& !(biometry is Unknown)
                &&& request.access == if biometry is Available || biometry is Lockout {
                    biometric_access()
                } else {
                    presence_access()
                }
            },
            Err(e) => match biometry {
                Biometry::Unknown(message) => e@ == "Cannot determine biometric availability: "@
                    + message@,
                _ => false,
            },
        },
{
    let recognized = match biometry {
        Biometry::Available | Biometry::Lockout => true,
        Biometry::Unknown(message) => {
            return Err(concat("Cannot determine biometric availability: ", message.as_str()));
        },
        _ => false,
    };
    let access = if recognized {
        AccessFlags {
            private_key_usage: true,
            biometry_current_set: true,
            or: true,
            watch: true,
            user_presence: false,
        }
    } else {
        AccessFlags {
            private_key_usage: true,
            biometry_current_set: false,
            or: false,
            watch: false,
            user_presence: true,
        }
    };
    Ok(KeyRequest { size_in_bits: 256, tag: KEY_TAG, permanent: true, access })
}

// ---------------------------------------------------------------------------
// What the operations do
// ---------------------------------------------------------------------------

/// Hardware encryption is for macOS. A variable can put one of two stand-ins in the place
/// of the enclave; any other value is refused.
pub proof fn law_routes(platform: Platform, mode: EnvText)
    ensures
        route(platform, mode) is Ok ==> platform is MacOs,
        !(platform is MacOs) ==> route(platform, mode) == Err::<Route, Seq<char>>(
            "Hardware encryption is only supported on macOS"@,
        ),
        platform is MacOs ==> match mode {
            EnvText::Absent => route(platform, mode) == Ok::<Route, Seq<char>>(Route::Enclave),
            EnvText::Text(text) => {
                &&& text@ == "persistent"@ <==> route(platform, mode) == Ok::<Route, Seq<char>>(
                    Route::Persistent,
                )
                &&& text@ == "memory"@ <==> route(platform, mode) == Ok::<Route, Seq<char>>(
                    Route::Memory,
                )
                &&& text@ != "persistent"@ && text@ != "memory"@ ==> route(platform, mode) is Err
            },
            EnvText::NotUnicode => route(platform, mode) is Err,
        },
{
    reveal_strlit("persistent");
    reveal_strlit("memory");
    assert("persistent"@.len() != "memory"@.len());
}

/// Decryption takes the way of encryption. The enclave needs a prompt with something to
/// read in it, a stand-in needs data that can hold a nonce and a tag.
pub proof fn law_way_of_decryption(
    platform: Platform,
    mode: &EnvText,
    data: &Vec<u8>,
    prompt: &str,
    r: Result<Route, String>,
)
    requires
        call_ensures(decrypt, (platform, mode, data, prompt), r),
    ensures
        r matches Ok(place) ==> route(platform, *mode) == Ok::<Route, Seq<char>>(place),
        route(platform, *mode) is Err ==> r is Err && (r->Err_0)@ == route(platform, *mode)->Err_0,
        route(platform, *mode) == Ok::<Route, Seq<char>>(Route::Enclave) ==> {
            &&& r is Ok <==> exists|i: int|
                0 <= i < prompt@.len() && !crate::text::is_white(#[trigger] prompt@[i])
            &&& r is Err ==> (r->Err_0)@ == "touchIdPrompt cannot be empty"@
        },
        route(platform, *mode) matches Ok(place) && !(place is Enclave) ==> {
            &&& r is Ok <==> data@.len() >= 28
            &&& r is Err ==> (r->Err_0)@ == "Invalid hardware emulation ciphertext"@
        },
{
    crate::text::law_trimming_drops_only_white_ends(prompt@);
    let core = trimmed(prompt@);
    let (from, to) = choose|from: int, to: int|
        #![trigger prompt@.subrange(from, to)]
        {
            &&& 0 <= from <= to <= prompt@.len()
            &&& core == prompt@.subrange(from, to)
            &&& forall|k: int| 0 <= k < from ==> crate::text::is_white(#[trigger] prompt@[k])
            &&& forall|k: int|
                to <= k < prompt@.len() ==> crate::text::is_white(#[trigger] prompt@[k])
        };
    if core.len() > 0 {
        assert(core[0] == prompt@[from]);
    }
}

/// What a key seals, that key opens again, with whichever nonce it was sealed.
pub proof fn law_sealed_is_opened(
    key: &[u8; 32],
    nonce: &[u8; 12],
    message: Vec<u8>,
    sealed: Result<Vec<u8>, String>,
    r: Result<Vec<u8>, String>,
)
    requires
        call_ensures(seal, (key, nonce, message), sealed),
        sealed is Ok,
        call_ensures(emulated_decrypt, (key, sealed->Ok_0), r),
    ensures
        r is Ok,
        (r->Ok_0)@ == message@,
{
}

/// Sealed data is the sealed message with the nonce at its end; it is 28 bytes longer than
/// the message.
pub proof fn law_envelope(
    key: &[u8; 32],
    nonce: &[u8; 12],
    message: Vec<u8>,
    r: Result<Vec<u8>, String>,
)
    requires
        call_ensures(seal, (key, nonce, message), r),
        r is Ok,
    ensures
        (r->Ok_0)@.len() == message@.len() + 28,
        (r->Ok_0)@.skip(message@.len() as int + 16) == nonce@,
        (r->Ok_0)@.take(message@.len() as int + 16) == gcm_sealed(key@, nonce@, message@),
{
    let data = (r->Ok_0)@;
    let n = gcm_sealed(key@, nonce@, message@).len() as int;
    assert(data.skip(n) =~= nonce@);
    assert(data.take(n) =~= gcm_sealed(key@, nonce@, message@));
}

/// A stand-in opens data with its own key: the one in memory, or the one that is stored,
/// which has to have 32 bytes. Without a key nothing is opened.
pub proof fn law_stand_in_key(
    place: Route,
    memory: &Option<[u8; 32]>,
    read: KeyRead,
    absent: &str,
    data: Vec<u8>,
    key: &[u8; 32],
    opened: Result<Vec<u8>, String>,
    r: Result<Vec<u8>, String>,
)
    requires
        !(place is Enclave),
        call_ensures(stand_in_decrypt, (place, memory, read, absent, data), r),
        call_ensures(emulated_decrypt, (key, data), opened),
    ensures
        place is Memory && *memory == Some(*key) ==> {
            &&& r is Ok <==> opened is Ok
            &&& r is Ok ==> (r->Ok_0)@ == (opened->Ok_0)@
            &&& r is Err ==> (r->Err_0)@ == (opened->Err_0)@
        },
        place is Persistent && read is Secret && (read->Secret_0)@ == key@ ==> {
            &&& r is Ok <==> opened is Ok
            &&& r is Ok ==> (r->Ok_0)@ == (opened->Ok_0)@
            &&& r is Err ==> (r->Err_0)@ == (opened->Err_0)@
        },
        place is Memory && *memory is None ==> r is Err && (r->Err_0)@
            == "Emulated hardware key not found"@,
        place is Persistent && !(read is Secret) ==> r is Err,
        place is Persistent && read is Secret && (read->Secret_0)@.len() != 32 ==> r is Err && (
        r->Err_0)@ == "Invalid emulated hardware key: expected 32 bytes"@,
{
    assert(key@.len() == 32);
}

/// A stored key is used if it has 32 bytes; a new one is drawn only if there is none and one
/// may be made.
pub proof fn law_persistent_key(read: KeyRead, create: bool, absent: &str, r: KeyStep)
    requires
        call_ensures(persistent_key, (read, create, absent), r),
    ensures
        r is Use <==> read is Secret && (read->Secret_0)@.len() == 32,
        r matches KeyStep::Use(key) ==> key@ == (read->Secret_0)@,
        r is Draw <==> read is NoEntry && create,
        r matches KeyStep::Fail(e) ==> {
            &&& read is Secret ==> e@ == "Invalid emulated hardware key: expected 32 bytes"@
            &&& read is NoEntry ==> e@ == "Cannot read emulated hardware key: "@ + absent@
            &&& read is Failed ==> e@ == "Cannot read emulated hardware key: "@ + (read->Failed_0)@
        },
{
}

/// Data is opened with the nonce at its end. Data that is too short to hold a nonce and a tag
/// is told apart from data that the key does not open.
pub proof fn law_opened_data(key: &[u8; 32], data: Vec<u8>, r: Result<Vec<u8>, String>)
    requires
        call_ensures(emulated_decrypt, (key, data), r),
    ensures
        data@.len() < 28 ==> r is Err && (r->Err_0)@ == "Invalid hardware emulation ciphertext"@,
        data@.len() >= 28 ==> {
            let n = data@.len() - 12;
            match gcm_opened(key@, data@.skip(n), data@.take(n)) {
                Some(message) => r is Ok && (r->Ok_0)@ == message,
                None => r is Err && (r->Err_0)@ == "Hardware emulation authentication failed"@,
            }
        },
{
}

/// A refusal of the user is told as such, any other failure by its code; both with the
/// operation and the words of the system.
pub proof fn law_security_errors(operation: &str, code: i64, message: &str, r: String)
    requires
        call_ensures(security_error, (operation, code, message), r),
    ensures
        code == -128 ==> r@ == "User refused to authenticate with Touch ID ("@ + operation@ + ": "@
            + message@ + ")"@,
        code != -128 ==> r@ == operation@ + ": "@ + message@ + " ("@ + signed_decimal(code as int)
            + ")"@,
{
}

/// A key that is missing in the enclave is no failure to look for it, nor to delete it.
pub proof fn law_missing_enclave_key(
    status: i32,
    returned: bool,
    message: &str,
    failure: Option<(i64, String)>,
    found: Result<bool, String>,
    deleted: Result<(), String>,
)
    requires
        call_ensures(find_key, (status, returned, message), found),
        call_ensures(enclave_key_deleted, (failure,), deleted),
    ensures
        found matches Ok(there) ==> (there <==> status == 0 && returned) && (!there <==> status
            == -25300),
        found is Err <==> status != -25300 && (status != 0 || !returned),
        deleted is Ok <==> failure is None || failure->Some_0.0 == -25300,
{
}

/// A new key of 256 bits stays in the enclave under its tag. Fingers or a watch open it
/// where fingers can be read, even if that is locked out for now; elsewhere the user does.
pub proof fn law_new_enclave_key(biometry: Biometry, r: Result<KeyRequest, String>)
    requires
        call_ensures(create_key, (biometry,), r),
    ensures
        r is Err <==> biometry is Unknown,
        r matches Ok(request) ==> {
            let by_finger = biometry is Available || biometry is Lockout;
            &&& request.size_in_bits == 256
            &&& request.permanent
            &&& request.tag@ == "net.antelle.keeweb.encryption-key"@
            &&& request.access.private_key_usage
            &&& request.access.biometry_current_set == by_finger
            &&& request.access.watch == by_finger
            &&& request.access.or == by_finger
            &&& request.access.user_presence == !by_finger
        },
{
}

/// Data that is not encrypted does not stay behind; data that is goes on unchanged.
pub proof fn law_refused_data_is_dropped(
    platform: Platform,
    mode: &EnvText,
    data: &mut Vec<u8>,
    r: Result<Route, String>,
)
    requires
        call_ensures(encrypt, (platform, mode, data), r),
    ensures
        r is Err ==> final(data)@.len() == 0,
        r is Ok ==> final(data)@ == old(data)@,
        r matches Ok(place) ==> route(platform, *mode) == Ok::<Route, Seq<char>>(place),
        r is Ok <==> route(platform, *mode) is Ok,
{
}

/// Deleting goes where the key is: the one in memory is forgotten at once, the stored one
/// only after its entry is gone or was not there, and the one in the enclave there.
pub proof fn law_key_is_deleted(
    platform: Platform,
    mode: &EnvText,
    memory: &mut Option<[u8; 32]>,
    after: &mut Option<[u8; 32]>,
    deletion: Deletion,
    r: Result<DeleteStep, String>,
    entry: Result<(), String>,
)
    requires
        call_ensures(delete_key, (platform, mode, memory), r),
        call_ensures(entry_deleted, (deletion, after), entry),
    ensures
        r is Ok <==> route(platform, *mode) is Ok,
        r is Ok ==> {
            let place = route(platform, *mode)->Ok_0;
            &&& r->Ok_0 is Entry <==> place is Persistent
            &&& r->Ok_0 is Done <==> place is Memory
            &&& r->Ok_0 is Enclave <==> place is Enclave
        },
        r is Ok && r->Ok_0 is Done ==> *final(memory) is None,
        !(r is Ok && r->Ok_0 is Done) ==> *final(memory) == *old(memory),
        entry is Ok <==> !(deletion is Failed),
        entry is Ok ==> *final(after) is None,
        entry is Err ==> *final(after) == *old(after),
{
}

/// The key in memory is made at most once: as long as there is one, it is the one that is
/// used, and one is made only if that is wanted.
pub proof fn law_memory_key(
    memory: &mut Option<[u8; 32]>,
    create: bool,
    r: Result<[u8; 32], String>,
)
    requires
        call_ensures(memory_key, (memory, create), r),
    ensures
        *old(memory) matches Some(key) ==> r is Ok && r->Ok_0 == key && *final(memory) == *old(
            memory),
        r matches Ok(key) ==> *final(memory) == Some(key),
        *old(memory) is None && !create ==> r is Err && *final(memory) is None,
{
}

/// A key that was drawn is kept and used; without one, what was there stays.
pub proof fn law_drawn_memory_key(
    memory: &mut Option<[u8; 32]>,
    drawn: Result<[u8; 32], String>,
    r: Result<[u8; 32], String>,
)
    requires
        call_ensures(memory_key_drawn, (memory, drawn), r),
    ensures
        r is Ok <==> drawn is Ok,
        r matches Ok(key) ==> key == drawn->Ok_0 && *final(memory) == Some(key),
        r matches Err(e) ==> e@ == (drawn->Err_0)@ && *final(memory) == *old(memory),
{
}

/// What is encrypted is decrypted again with the same key, whichever nonce was drawn; and a
/// nonce that could not be drawn encrypts nothing.
pub proof fn law_encrypted_is_decrypted(
    key: &[u8; 32],
    message: Vec<u8>,
    drawn: Result<[u8; 12], String>,
    encrypted: Result<Vec<u8>, String>,
    sealed: Result<Vec<u8>, String>,
    r: Result<Vec<u8>, String>,
    q: Result<Vec<u8>, String>,
)
    requires
        call_ensures(emulated_encrypt, (key, message), encrypted),
        call_ensures(seal_drawn, (key, drawn, message), sealed),
        encrypted is Ok ==> call_ensures(emulated_decrypt, (key, encrypted->Ok_0), r),
        sealed is Ok ==> call_ensures(emulated_decrypt, (key, sealed->Ok_0), q),
    ensures
        encrypted is Ok ==> r is Ok && (r->Ok_0)@ == message@,
        sealed is Ok ==> q is Ok && (q->Ok_0)@ == message@,
        drawn is Err ==> sealed is Err && (sealed->Err_0)@ == (drawn->Err_0)@,
        drawn is Ok ==> (sealed is Ok <==> message@.len() <= gcm_limit()),
        sealed is Ok ==> (sealed->Ok_0)@.skip(message@.len() as int + 16) == (drawn->Ok_0)@,
{
    if sealed is Ok {
        let data = (sealed->Ok_0)@;
        let n = gcm_sealed(key@, (drawn->Ok_0)@, message@).len() as int;
        assert(data.skip(n) =~= (drawn->Ok_0)@);
    }
}

/// A stand-in is named by one of two words, and a missing variable names none.
pub proof fn law_stand_ins(
    mode: &EnvText,
    r: Result<Option<bool>, String>,
    found: bool,
    opens: Result<(), String>,
    seals: Result<(), String>,
)
    requires
        call_ensures(emulation, (mode,), r),
        call_ensures(decryption_key, (found,), opens),
        call_ensures(encryption_key, (found,), seals),
    ensures
        *mode is Absent <==> r is Ok && r->Ok_0 is None,
        *mode is NotUnicode ==> r is Err,
        *mode matches EnvText::Text(text) ==> {
            &&& r is Ok && r->Ok_0 == Some(true) <==> text@ == "persistent"@
            &&& r is Ok && r->Ok_0 == Some(false) <==> text@ == "memory"@
        },
        opens is Ok <==> found,
        seals is Ok <==> found,
{
    reveal_strlit("persistent");
    reveal_strlit("memory");
    assert("persistent"@.len() != "memory"@.len());
}

} // verus!
