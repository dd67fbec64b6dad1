use lemonkee::config::KeyRead;
use lemonkee::hwcrypto::{
    create_key, decrypt, decryption_key, delete_key, emulated_decrypt, emulated_encrypt, emulation,
    enclave_key_deleted, encrypt, encryption_key, entry_deleted, find_key, memory_key,
    memory_key_drawn,
    persistent_key, random_key, seal, seal_drawn, security_error, stand_in_decrypt, AccessFlags, Biometry, DeleteStep, Deletion,
    EnvText, KeyStep, Route, ITEM_NOT_FOUND, KEY_TAG,
};
use lemonkee::platform::Platform;

fn text(value: &str) -> EnvText {
    EnvText::Text(value.to_string())
}

fn mode_message() -> String {
    "KEEWEB_EMULATE_HARDWARE_ENCRYPTION must be memory or persistent".to_string()
}

fn unsupported() -> String {
    "Hardware encryption is only supported on macOS".to_string()
}

#[test]
fn emulation_modes() {
    assert_eq!(emulation(&EnvText::Absent), Ok(None));
    assert_eq!(emulation(&text("persistent")), Ok(Some(true)));
    assert_eq!(emulation(&text("memory")), Ok(Some(false)));
    assert_eq!(emulation(&text("")), Err(mode_message()));
    assert_eq!(emulation(&EnvText::NotUnicode), Err(mode_message()));
}

#[test]
fn other_platforms_have_no_hardware() {
    let mut data = vec![1, 2, 3];
    assert_eq!(encrypt(Platform::Linux, &text("memory"), &mut data), Err(unsupported()));
    assert!(data.is_empty());
    assert_eq!(decrypt(Platform::Windows, &text("memory"), &vec![0; 40], "x"), Err(unsupported()));
    let mut memory = Some([7; 32]);
    assert_eq!(delete_key(Platform::Linux, &text("memory"), &mut memory), Err(unsupported()));
    assert_eq!(memory, Some([7; 32]));
}

#[test]
fn encryption_routes() {
    let mut data = vec![1, 2, 3];
    assert_eq!(encrypt(Platform::MacOs, &EnvText::Absent, &mut data), Ok(Route::Enclave));
    assert_eq!(encrypt(Platform::MacOs, &text("memory"), &mut data), Ok(Route::Memory));
    assert_eq!(encrypt(Platform::MacOs, &text("persistent"), &mut data), Ok(Route::Persistent));
    assert_eq!(data, vec![1, 2, 3]);
    assert_eq!(encrypt(Platform::MacOs, &text("other"), &mut data), Err(mode_message()));
    assert!(data.is_empty());
}

#[test]
fn decryption_routes() {
    assert_eq!(decrypt(Platform::MacOs, &EnvText::Absent, &vec![], "Unlock"), Ok(Route::Enclave));
    assert_eq!(
        decrypt(Platform::MacOs, &EnvText::Absent, &vec![], " \t"),
        Err("touchIdPrompt cannot be empty".to_string())
    );
    assert_eq!(decrypt(Platform::MacOs, &text("memory"), &vec![0; 28], ""), Ok(Route::Memory));
    assert_eq!(
        decrypt(Platform::MacOs, &text("memory"), &vec![0; 27], ""),
        Err("Invalid hardware emulation ciphertext".to_string())
    );
}

#[test]
fn deletion() {
    let mut memory = Some([7; 32]);
    assert_eq!(delete_key(Platform::MacOs, &text("persistent"), &mut memory), Ok(DeleteStep::Entry));
    assert_eq!(memory, Some([7; 32]));
    assert_eq!(entry_deleted(Deletion::Failed("no".to_string()), &mut memory), Err("no".to_string()));
    assert_eq!(memory, Some([7; 32]));
    assert_eq!(entry_deleted(Deletion::Absent, &mut memory), Ok(()));
    assert_eq!(memory, None);
    let mut memory = Some([7; 32]);
    assert_eq!(delete_key(Platform::MacOs, &text("memory"), &mut memory), Ok(DeleteStep::Done));
    assert_eq!(memory, None);
    let mut memory = Some([7; 32]);
    assert_eq!(delete_key(Platform::MacOs, &EnvText::Absent, &mut memory), Ok(DeleteStep::Enclave));
    assert_eq!(memory, Some([7; 32]));
    assert_eq!(entry_deleted(Deletion::Deleted, &mut memory), Ok(()));
    assert_eq!(memory, None);
}

#[test]
fn persistent_keys() {
    assert!(matches!(persistent_key(KeyRead::Secret(vec![5; 32]), false, ""), KeyStep::Use(key) if key == [5; 32]));
    assert!(matches!(persistent_key(KeyRead::NoEntry, true, ""), KeyStep::Draw));
    let message = |step| match step {
        KeyStep::Fail(message) => message,
        _ => panic!("expected a failure"),
    };
    assert_eq!(
        message(persistent_key(KeyRead::Secret(vec![5; 31]), true, "")),
        "Invalid emulated hardware key: expected 32 bytes"
    );
    assert_eq!(
        message(persistent_key(KeyRead::NoEntry, false, "No matching entry found in secure storage")),
        "Cannot read emulated hardware key: No matching entry found in secure storage"
    );
    assert_eq!(
        message(persistent_key(KeyRead::Failed("locked".to_string()), true, "")),
        "Cannot read emulated hardware key: locked"
    );
}

#[test]
fn memory_keys() {
    let mut memory = None;
    assert_eq!(memory_key(&mut memory, false), Err("Emulated hardware key not found".to_string()));
    let key = memory_key(&mut memory, true).unwrap();
    assert_eq!(memory, Some(key));
    assert_eq!(memory_key(&mut memory, true), Ok(key));
    assert_ne!(random_key().unwrap(), random_key().unwrap());
}

#[test]
fn envelope_of_known_values() {
    let sealed = seal(&[0; 32], &[0; 12], vec![0; 16]).unwrap();
    let expected = "cea7403d4d606b6e074ec5d3baf39d18d0d1c8a799996bf0265b98b5d48ab919000000000000000000000000";
    assert_eq!(hex::encode(&sealed), expected);
    let empty = seal(&[0; 32], &[0; 12], vec![]).unwrap();
    assert_eq!(hex::encode(&empty), "530f8afbc74536b9a963b4f1c4cb738b000000000000000000000000");
    assert_eq!(emulated_decrypt(&[0; 32], sealed), Ok(vec![0; 16]));
}

#[test]
fn envelope_round_trip() {
    let key = random_key().unwrap();
    let message = b"correct horse battery staple".to_vec();
    let first = emulated_encrypt(&key, message.clone()).unwrap();
    let second = emulated_encrypt(&key, message.clone()).unwrap();
    assert_eq!(first.len(), message.len() + 28);
    assert_ne!(first, second);
    assert_eq!(emulated_decrypt(&key, first), Ok(message.clone()));
    assert_eq!(emulated_decrypt(&key, second), Ok(message));
}

#[test]
fn drawn_keys_go_into_memory() {
    let mut memory = None;
    assert_eq!(memory_key_drawn(&mut memory, Err("no entropy".to_string())), Err("no entropy".to_string()));
    assert_eq!(memory, None);
    assert_eq!(memory_key_drawn(&mut memory, Ok([7; 32])), Ok([7; 32]));
    assert_eq!(memory, Some([7; 32]));
    assert_eq!(memory_key(&mut memory, false), Ok([7; 32]));
    assert_eq!(memory_key_drawn(&mut memory, Err("no entropy".to_string())), Err("no entropy".to_string()));
    assert_eq!(memory, Some([7; 32]));
}

#[test]
fn drawn_bytes_are_the_nonce() {
    let message = b"secret".to_vec();
    assert_eq!(
        seal_drawn(&[1; 32], Ok([2; 12]), message.clone()),
        seal(&[1; 32], &[2; 12], message.clone())
    );
    assert_eq!(
        seal_drawn(&[1; 32], Err("no entropy".to_string()), message),
        Err("no entropy".to_string())
    );
}

#[test]
fn decryption_with_a_stand_in() {
    let key = [5; 32];
    let sealed = seal(&key, &[6; 12], b"secret".to_vec()).unwrap();
    let open = |place, memory: Option<[u8; 32]>, read| {
        stand_in_decrypt(place, &memory, read, "no entry", sealed.clone())
    };
    assert_eq!(open(Route::Memory, Some(key), KeyRead::NoEntry), Ok(b"secret".to_vec()));
    assert_eq!(
        open(Route::Memory, None, KeyRead::Secret(key.to_vec())),
        Err("Emulated hardware key not found".to_string())
    );
    assert_eq!(open(Route::Persistent, None, KeyRead::Secret(key.to_vec())), Ok(b"secret".to_vec()));
    assert_eq!(
        open(Route::Persistent, Some(key), KeyRead::Secret(vec![5; 31])),
        Err("Invalid emulated hardware key: expected 32 bytes".to_string())
    );
    assert_eq!(
        open(Route::Persistent, Some(key), KeyRead::NoEntry),
        Err("Cannot read emulated hardware key: no entry".to_string())
    );
    assert_eq!(
        open(Route::Persistent, Some(key), KeyRead::Failed("locked".to_string())),
        Err("Cannot read emulated hardware key: locked".to_string())
    );
}

#[test]
fn other_tags_and_nonces_are_refused() {
    let sealed = seal(&[1; 32], &[2; 12], b"secret".to_vec()).unwrap();
    for i in 6..34 {
        let mut changed = sealed.clone();
        changed[i] ^= 0x80;
        assert_eq!(
            emulated_decrypt(&[1; 32], changed),
            Err("Hardware emulation authentication failed".to_string())
        );
    }
    assert_eq!(emulated_decrypt(&[1; 32], sealed), Ok(b"secret".to_vec()));
}

#[test]
fn envelope_refusals() {
    let mut sealed = seal(&[1; 32], &[2; 12], b"secret".to_vec()).unwrap();
    assert_eq!(
        emulated_decrypt(&[3; 32], sealed.clone()),
        Err("Hardware emulation authentication failed".to_string())
    );
    sealed[0] ^= 1;
    assert_eq!(
        emulated_decrypt(&[1; 32], sealed),
        Err("Hardware emulation authentication failed".to_string())
    );
    assert_eq!(
        emulated_decrypt(&[1; 32], vec![0; 27]),
        Err("Invalid hardware emulation ciphertext".to_string())
    );
}

#[test]
fn errors_of_the_hardware() {
    assert_eq!(
        security_error("SecItemDelete", -128, "canceled"),
        "User refused to authenticate with Touch ID (SecItemDelete: canceled)"
    );
    assert_eq!(security_error("SecItemDelete", -50, "bad"), "SecItemDelete: bad (-50)");
    assert_eq!(security_error("x", i64::MIN, "y"), "x: y (-9223372036854775808)");
}

#[test]
fn search_for_the_key() {
    assert_eq!(find_key(0, true, ""), Ok(true));
    assert_eq!(find_key(ITEM_NOT_FOUND, false, "none"), Ok(false));
    assert_eq!(find_key(-50, false, "bad"), Err("SecItemCopyMatching: bad (-50)".to_string()));
    assert_eq!(
        find_key(0, false, ""),
        Err("SecItemCopyMatching returned no Secure Enclave key".to_string())
    );
    assert_eq!(decryption_key(true), Ok(()));
    assert_eq!(
        decryption_key(false),
        Err("SecKeyCreateDecryptedData: Key not found in Secure Enclave".to_string())
    );
    assert_eq!(encryption_key(true), Ok(()));
    assert_eq!(encryption_key(false), Err("Cannot extract Secure Enclave public key".to_string()));
    assert_eq!(enclave_key_deleted(None), Ok(()));
    assert_eq!(enclave_key_deleted(Some((-25300, "gone".to_string()))), Ok(()));
    assert_eq!(
        enclave_key_deleted(Some((-34018, "denied".to_string()))),
        Err("SecItemDelete: denied (-34018)".to_string())
    );
}

#[test]
fn protection_of_new_keys() {
    let recognized = AccessFlags {
        private_key_usage: true,
        biometry_current_set: true,
        or: true,
        watch: true,
        user_presence: false,
    };
    let present = AccessFlags {
        private_key_usage: true,
        biometry_current_set: false,
        or: false,
        watch: false,
        user_presence: true,
    };
    let request = create_key(Biometry::Available).unwrap();
    assert_eq!(request.size_in_bits, 256);
    assert_eq!(request.tag, KEY_TAG);
    assert!(request.permanent);
    assert_eq!(request.access, recognized);
    assert_eq!(create_key(Biometry::Lockout).unwrap().access, recognized);
    for biometry in [
        Biometry::NotAvailable,
        Biometry::NotEnrolled,
        Biometry::CompanionNotAvailable,
        Biometry::NotPaired,
        Biometry::Disconnected,
    ] {
        assert_eq!(create_key(biometry).unwrap().access, present);
    }
    assert_eq!(
        create_key(Biometry::Unknown("odd".to_string())).err(),
        Some("Cannot determine biometric availability: odd".to_string())
    );
}
