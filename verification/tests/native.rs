use lemonkee::native::{
    argon2, argon2_into, argon2_reserved, argon2_room, canceled, challenge_begins, challenge_error, check_challenge,
    perform_challenge, timed_out, yubikey_cancel_challenge_response, yubikey_list, Argon2Options,
    AttachedKeys, ChallengeError, ChallengeFailure, FoundKey, HotplugEvent, KeySearch, NativeState,
    PendingChallenge, Slot, UsbDevice, UsbEntry, YubiKeySelector, YUBICO_VENDOR_ID,
};
use lemonkee::platform::Platform;

fn options(algorithm: u32, version: u32) -> Argon2Options {
    Argon2Options { algorithm, version, memory: 256, iterations: 2, parallelism: 1, length: 32 }
}

fn derive(options: &Argon2Options) -> Result<String, String> {
    argon2(&b"password".to_vec(), &b"somesalt".to_vec(), options).map(hex::encode)
}

fn parts(error: &ChallengeError) -> (&str, &str, bool) {
    (error.code.as_str(), error.message.as_str(), error.touch_requested)
}

fn any() -> YubiKeySelector {
    YubiKeySelector { serial: None, vid: None, pid: None }
}

#[test]
fn derivation_of_known_values() {
    assert_eq!(
        derive(&options(1, 0x10)),
        Ok("fd4dd83d762c49bdeaf57c47bdcd0c2f1babf863fdeb490df63ede9975fccf06".to_string())
    );
    assert_eq!(
        derive(&options(1, 0x13)),
        Ok("89e9029f4637b295beb027056a7336c414fadd43f6b208645281cb214a56452f".to_string())
    );
    assert_eq!(
        derive(&options(2, 0x13)),
        Ok("9dfeb910e80bad0311fee20f9c0e2b12c17987b4cac90c2ef54d5b3021c68bfe".to_string())
    );
    let two_lanes = Argon2Options { parallelism: 2, ..options(2, 0x13) };
    assert_eq!(
        derive(&two_lanes),
        Ok("6d093c501fd5999645e0ea3bf620d7b8be7fd2db59c20d9fff9539da2bf57037".to_string())
    );
    assert_ne!(derive(&options(0, 0x13)), derive(&options(1, 0x13)));
}

#[test]
fn refused_parameters() {
    let refused = |options: Argon2Options| derive(&options).unwrap_err();
    assert_eq!(refused(options(3, 0x13)), "Invalid Argon2 type");
    assert_eq!(refused(options(2, 0x12)), "invalid version");
    assert_eq!(refused(Argon2Options { memory: 7, ..options(2, 0x13) }), "memory cost is too small");
    assert_eq!(refused(Argon2Options { parallelism: 33, ..options(2, 0x13) }), "memory cost is too small");
    assert_eq!(refused(Argon2Options { iterations: 0, ..options(2, 0x13) }), "time cost is too small");
    assert_eq!(refused(Argon2Options { parallelism: 0, ..options(2, 0x13) }), "not enough threads");
    assert_eq!(refused(Argon2Options { length: 3, ..options(2, 0x13) }), "output is too short");
    assert_eq!(
        refused(Argon2Options { memory: u32::MAX, parallelism: 0x1000000, ..options(2, 0x13) }),
        "too many threads"
    );
}

#[test]
fn refused_salt() {
    let options = options(2, 0x13);
    let room = argon2_room(&options).unwrap();
    assert_eq!(room.len(), 32);
    assert_eq!(
        argon2_into(&b"password".to_vec(), &b"salt".to_vec(), &options, room),
        Err("salt is too short".to_string())
    );
}

#[test]
fn reserved_room() {
    let options = options(2, 0x13);
    assert_eq!(argon2_reserved(&options, vec![], Ok(())), Ok(vec![0; 32]));
    assert_eq!(
        argon2_reserved(&options, vec![], Err("no memory".to_string())),
        Err("no memory".to_string())
    );
}

#[test]
fn an_exchange_is_settled_once() {
    let mut pending = PendingChallenge::new(9);
    let event = pending.finish(Ok(vec![1, 2])).unwrap();
    assert_eq!(event.callback_id, 9);
    assert!(matches!(event.outcome, Ok(bytes) if bytes == vec![1, 2]));
    assert!(pending.finished);
    assert!(pending.finish(Err(timed_out())).is_none());
    assert!(pending.finish(Err(canceled())).is_none());
}

#[test]
fn codes_of_failures() {
    let error = challenge_error(ChallengeFailure::DeviceNotFound, "Device not found");
    assert_eq!(parts(&error), ("YK_ENOKEY", "Device not found", false));
    let error = challenge_error(ChallengeFailure::UsbNoDevice, "gone");
    assert_eq!(parts(&error), ("YK_ENOKEY", "gone", false));
    let error = challenge_error(ChallengeFailure::UsbTimeout, "slow");
    assert_eq!(parts(&error), ("YK_ETIMEOUT", "slow", false));
    let error = challenge_error(ChallengeFailure::IoTimedOut, "slow");
    assert_eq!(parts(&error), ("YK_ETIMEOUT", "slow", false));
    let error = challenge_error(ChallengeFailure::Other, "Wrong CRC");
    assert_eq!(parts(&error), ("Wrong CRC", "Wrong CRC", false));
    assert_eq!(parts(&canceled()), ("YK_ECANCELED", "YubiKey challenge canceled", false));
    assert_eq!(parts(&timed_out()), ("YK_ETIMEOUT", "Timed out waiting for the YubiKey", false));
}

#[test]
fn the_right_key_is_asked() {
    let pending = PendingChallenge::new(4);
    let event = perform_challenge(&pending, &any(), YUBICO_VENDOR_ID, 7).ok().unwrap();
    assert_eq!(event.callback_id, 4);
    let error = event.outcome.err().unwrap();
    assert_eq!(parts(&error), ("YK_ETOUCH", "Touch your YubiKey if it is blinking", true));
    let exact = YubiKeySelector { serial: Some(1), vid: Some(YUBICO_VENDOR_ID), pid: Some(7) };
    assert!(perform_challenge(&pending, &exact, YUBICO_VENDOR_ID, 7).is_ok());
    for (selector, vendor, product) in [
        (any(), 0x1051, 7),
        (YubiKeySelector { vid: Some(0x1051), ..any() }, YUBICO_VENDOR_ID, 7),
        (YubiKeySelector { pid: Some(8), ..any() }, YUBICO_VENDOR_ID, 7),
    ] {
        let error = perform_challenge(&pending, &selector, vendor, product).err().unwrap();
        assert_eq!(parts(&error), ("YK_ENOKEY", "Device not found", false));
    }
}

#[test]
fn a_settled_exchange_does_not_ask() {
    let pending = PendingChallenge { callback_id: 4, finished: true };
    let error = perform_challenge(&pending, &any(), YUBICO_VENDOR_ID, 7).err().unwrap();
    assert_eq!(error.code, "YK_ECANCELED");
    assert_eq!(challenge_begins(&pending).err().unwrap().code, "YK_ECANCELED");
    assert!(challenge_begins(&PendingChallenge::new(4)).is_ok());
}

#[test]
fn challenges_are_checked() {
    assert_eq!(check_challenge(Platform::Linux, 1, &vec![0; 64]), Ok(Slot::First));
    assert_eq!(check_challenge(Platform::MacOs, 2, &vec![]), Ok(Slot::Second));
    assert_eq!(
        check_challenge(Platform::Windows, 3, &vec![0; 65]),
        Err("Invalid YubiKey slot: expected 1 or 2".to_string())
    );
    assert_eq!(
        check_challenge(Platform::Windows, 1, &vec![0; 65]),
        Err("YubiKey challenges must not exceed 64 bytes".to_string())
    );
    assert_eq!(
        check_challenge(Platform::Other, 1, &vec![]),
        Err("Not supported on this platform".to_string())
    );
}

#[test]
fn one_exchange_at_a_time() {
    let mut state: NativeState<u32, &str> = NativeState::new();
    assert_eq!(state.listing_allowed(), Ok(()));
    assert_eq!(state.begin(1), Ok(()));
    assert_eq!(state.listing_allowed(), Err("YK_EBUSY: YubiKey is in use".to_string()));
    assert_eq!(
        state.begin(2),
        Err("YK_EBUSY: Previous YubiKey operation is still finishing; reconnect the key if it is stuck".to_string())
    );
    assert_eq!(state.challenge, Some(1));
    state.end();
    assert_eq!(state.begin(2), Ok(()));
}

#[test]
fn one_listener_at_a_time() {
    let mut state: NativeState<u32, &str> = NativeState::new();
    assert!(state.needs_listener());
    assert_eq!(state.usb_listener_stop(), None);
    state.listener_started("first");
    assert!(!state.needs_listener());
    assert_eq!(state.usb_listener_stop(), Some("first"));
    assert!(state.needs_listener());
}

#[test]
fn cancellation_settles_and_keeps_the_key() {
    let (after, event) =
        yubikey_cancel_challenge_response(Platform::MacOs, Some(PendingChallenge::new(3))).unwrap_or_else(|e| panic!("{e}"));
    assert_eq!(after, Some(PendingChallenge { callback_id: 3, finished: true }));
    assert_eq!(event.unwrap().outcome.err().unwrap().code, "YK_ECANCELED");
    let (again, event) = yubikey_cancel_challenge_response(Platform::MacOs, after).unwrap_or_else(|e| panic!("{e}"));
    assert_eq!(again, after);
    assert!(event.is_none());
    let (none, event) = yubikey_cancel_challenge_response(Platform::MacOs, None).unwrap_or_else(|e| panic!("{e}"));
    assert!(none.is_none() && event.is_none());
    assert_eq!(
        yubikey_cancel_challenge_response(Platform::Other, None).err(),
        Some("Not supported on this platform".to_string())
    );
}

fn found(serial: Option<u32>, vendor: u16, address: u8) -> FoundKey {
    FoundKey { serial, vendor, product: 0x407, bus: 1, address }
}

fn entry(address: u8, version: Result<&str, &str>) -> UsbEntry {
    UsbEntry {
        bus: 1,
        address,
        version: version.map(|v| v.to_string()).map_err(|e| e.to_string()),
    }
}

#[test]
fn keys_are_listed() {
    let search = KeySearch::Found(vec![
        found(Some(77), YUBICO_VENDOR_ID, 3),
        found(Some(78), 0x1234, 3),
        found(None, YUBICO_VENDOR_ID, 4),
        found(Some(79), YUBICO_VENDOR_ID, 9),
    ]);
    let devices = Ok(vec![entry(4, Ok("5.2.7")), entry(3, Ok("4.3.1")), entry(5, Err("unread"))]);
    let keys = yubikey_list(Platform::Linux, search, devices).ok().unwrap();
    let listed: Vec<(u32, u16, u16, &str)> =
        keys.iter().map(|key| (key.serial, key.vid, key.pid, key.version.as_str())).collect();
    assert_eq!(listed, vec![(77, 0x1050, 0x407, "4.3.1"), (0, 0x1050, 0x407, "5.2.7")]);
    let slots: Vec<(u8, bool)> = keys[0].slots.iter().map(|slot| (slot.number, slot.valid)).collect();
    assert_eq!(slots, vec![(1, true), (2, true)]);
}

#[test]
fn listing_failures() {
    let list = |search, devices| yubikey_list(Platform::Linux, search, devices);
    assert!(list(KeySearch::NotFound, Err("unused".to_string())).ok().unwrap().is_empty());
    assert_eq!(
        list(KeySearch::Failed("usb".to_string()), Ok(vec![])).err(),
        Some("usb".to_string())
    );
    assert_eq!(
        list(KeySearch::Found(vec![]), Err("list".to_string())).err(),
        Some("list".to_string())
    );
    let search = KeySearch::Found(vec![found(None, YUBICO_VENDOR_ID, 3), found(None, YUBICO_VENDOR_ID, 4)]);
    let devices = Ok(vec![entry(3, Err("first")), entry(4, Err("second"))]);
    assert_eq!(list(search, devices).err(), Some("first".to_string()));
    assert_eq!(
        yubikey_list(Platform::Other, KeySearch::NotFound, Ok(vec![])).err(),
        Some("Not supported on this platform".to_string())
    );
}

#[test]
fn attached_keys_are_counted() {
    let key = |id| UsbDevice { id, vendor: YUBICO_VENDOR_ID };
    let mouse = UsbDevice { id: 50, vendor: 0x46d };
    let mut keys = AttachedKeys::usb_listener_start(&vec![key(1), mouse, key(2), key(1)]);
    assert_eq!(keys.count(), 2);
    assert_eq!(keys.event(HotplugEvent::Connected(key(1))), None);
    assert_eq!(keys.event(HotplugEvent::Connected(key(3))), Some(3));
    assert_eq!(keys.event(HotplugEvent::Connected(mouse)), None);
    assert_eq!(keys.event(HotplugEvent::Disconnected(50)), None);
    assert_eq!(keys.event(HotplugEvent::Disconnected(3)), Some(2));
    assert_eq!(keys.event(HotplugEvent::Disconnected(3)), None);
    assert_eq!(keys.count(), 2);
}
