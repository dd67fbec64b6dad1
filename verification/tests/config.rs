use lemonkee::config::{
    config_name, draw_key, drawn_settings_key, legacy_linux_key, next_plain_file, plain_file,
    settings_key, write_error, ConfigStore, FileRead, KeyRead, LegacyKey, SetupStep,
};
use lemonkee::platform::Platform;

fn portable() -> ConfigStore {
    match ConfigStore::new(true) {
        SetupStep::Done(store) => store,
        _ => panic!("expected a store"),
    }
}

fn counting_key() -> [u8; 48] {
    let mut key = [0; 48];
    for (i, byte) in key.iter_mut().enumerate() {
        *byte = i as u8;
    }
    key
}

fn unhex(digits: &str) -> Vec<u8> {
    hex::decode(digits).unwrap()
}

fn failure(step: SetupStep) -> String {
    match step {
        SetupStep::Fail(message) => message,
        _ => panic!("expected a failure"),
    }
}

#[test]
fn portable_store_round_trip() {
    let store = portable();
    let write = store.save("app-settings", "{\"theme\":\"db\"}").unwrap();
    assert_eq!(write.file, "app-settings.json");
    assert_eq!(write.bytes, b"{\"theme\":\"db\"}".to_vec());
    assert_eq!(
        store.load("app-settings", FileRead::Data(write.bytes)),
        Ok(Some("{\"theme\":\"db\"}".to_string()))
    );
}

#[test]
fn encrypted_store_writes_known_ciphertext() {
    let store = ConfigStore::key_stored(counting_key());
    let write = store.save("app-settings", "{\"theme\":\"db\"}").unwrap();
    assert_eq!(write.file, "app-settings.dat");
    assert_eq!(write.bytes, unhex("01d3b5da11c83415dcfa1b24ef0bd47c"));
    let empty = store.save("plugins", "").unwrap();
    assert_eq!(empty.bytes, unhex("e2740e8afad4e4d15d0d661b382eca89"));
    let block = store.save("plugins", "xxxxxxxxxxxxxxxx").unwrap();
    assert_eq!(
        block.bytes,
        unhex("88b453f7ddeed1e48cd571307304697948a2a16c96b75c5c838ef58c4fbd01e5")
    );
}

#[test]
fn encrypted_store_reads_back_what_it_wrote() {
    let store = ConfigStore::key_stored(counting_key());
    for text in ["", "a", "\u{fc}ml\u{e4}ut \u{1f34b}", "sixteen letters!"] {
        let write = store.save("runtime-data", text).unwrap();
        assert_eq!(store.load("runtime-data", FileRead::Data(write.bytes)), Ok(Some(text.to_string())));
    }
}

#[test]
fn damaged_ciphertext_is_ignored() {
    let store = ConfigStore::key_stored(counting_key());
    assert_eq!(store.load("file-info", FileRead::Data(vec![1, 2, 3])), Ok(None));
    assert_eq!(store.load("file-info", FileRead::Data(vec![0; 16])), Ok(None));
}

#[test]
fn missing_and_unreadable_configurations() {
    let store = portable();
    assert_eq!(store.load("file-info", FileRead::Missing), Ok(None));
    assert_eq!(
        store.load("file-info", FileRead::Failed("denied".to_string())),
        Err("Error reading config file-info: denied".to_string())
    );
    assert_eq!(write_error("file-info", "full"), "Error writing config file-info: full");
}

#[test]
fn bytes_that_are_not_text_are_repaired() {
    let store = portable();
    assert_eq!(
        store.load("file-info", FileRead::Data(vec![0x61, 0xff, 0x62])),
        Ok(Some("a\u{fffd}b".to_string()))
    );
}

#[test]
fn configuration_names() {
    assert!(config_name("app-settings_2"));
    for name in ["", "../secret", "a/b", "a.b", "a b", "\u{e4}"] {
        assert!(!config_name(name));
        assert_eq!(portable().path(name), Err("Invalid config name".to_string()));
        assert_eq!(portable().load(name, FileRead::Missing), Err("Invalid config name".to_string()));
        assert_eq!(portable().save(name, "x").err(), Some("Invalid config name".to_string()));
    }
    assert_eq!(portable().path("plugins"), Ok("plugins.json".to_string()));
    assert_eq!(ConfigStore::key_stored([0; 48]).path("plugins"), Ok("plugins.dat".to_string()));
}

#[test]
fn setup_reads_the_key_unless_portable() {
    assert!(matches!(ConfigStore::new(false), SetupStep::ReadKey));
    assert!(matches!(ConfigStore::new(true), SetupStep::Done(_)));
}

#[test]
fn setup_goes_on_with_the_key() {
    let secret = hex::encode(counting_key()).into_bytes();
    let store = match ConfigStore::key_read(Platform::MacOs, KeyRead::Secret(secret)) {
        SetupStep::Done(store) => store,
        _ => panic!("expected a store"),
    };
    assert_eq!(
        store.save("plugins", "").unwrap().bytes,
        unhex("e2740e8afad4e4d15d0d661b382eca89")
    );
    assert!(matches!(ConfigStore::key_read(Platform::MacOs, KeyRead::NoEntry), SetupStep::DrawKey));
    assert!(matches!(ConfigStore::key_read(Platform::Linux, KeyRead::NoEntry), SetupStep::ReadLegacyKey));
    assert_eq!(
        failure(ConfigStore::key_read(Platform::Linux, KeyRead::Failed("locked".to_string()))),
        "Cannot read settings key: locked"
    );
    assert!(matches!(ConfigStore::legacy_read(None), SetupStep::DrawKey));
    match ConfigStore::legacy_read(Some(vec![1, 2])) {
        SetupStep::CopyKey(secret) => assert_eq!(secret, vec![1, 2]),
        _ => panic!("expected a key to copy"),
    }
}

#[test]
fn bad_settings_keys() {
    assert_eq!(settings_key(&b"abc".to_vec()), Err("Invalid settings key: Odd number of digits".to_string()));
    assert_eq!(
        settings_key(&b"zz".to_vec()),
        Err("Invalid settings key: Invalid character 'z' at position 0".to_string())
    );
    assert_eq!(settings_key(&b"00ff".to_vec()), Err("Settings key must contain 48 bytes".to_string()));
    assert_eq!(settings_key(&hex::encode_upper(counting_key()).into_bytes()), Ok(counting_key()));
}

#[test]
fn drawn_keys_survive_storage() {
    let first = draw_key().unwrap();
    let second = draw_key().unwrap();
    assert_eq!(first.secret.len(), 96);
    assert_eq!(settings_key(&first.secret), Ok(first.key));
    assert_ne!(first.key, second.key);
}

#[test]
fn drawn_bytes_are_the_settings_key() {
    let new = drawn_settings_key(Ok(counting_key())).unwrap();
    assert_eq!(new.key, counting_key());
    assert_eq!(new.secret, hex::encode(counting_key()).into_bytes());
    assert!(new.secret.starts_with(b"000102030405"));
    assert_eq!(
        drawn_settings_key(Err("no entropy".to_string())).err(),
        Some("no entropy".to_string())
    );
}

#[test]
fn migration_of_plain_files() {
    let store = ConfigStore::key_stored(counting_key());
    let names = ["file-info", "app-settings", "runtime-data", "update-info", "plugin-gallery", "plugins"];
    for (i, name) in names.iter().enumerate() {
        assert_eq!(plain_file(i), Some(format!("{name}.json")));
        let migration = store.migrate(i, FileRead::Data(b"{}".to_vec())).unwrap().unwrap();
        assert_eq!(migration.remove, format!("{name}.json"));
        assert_eq!(migration.write.file, format!("{name}.dat"));
        assert_eq!(store.load(name, FileRead::Data(migration.write.bytes)), Ok(Some("{}".to_string())));
    }
    assert_eq!(plain_file(6), None);
    assert!(matches!(store.migrate(0, FileRead::Missing), Ok(None)));
    assert_eq!(store.migrate(0, FileRead::Failed("denied".to_string())).err(), Some("denied".to_string()));
}

#[test]
fn files_move_only_under_a_new_key() {
    let stored = match ConfigStore::key_read(
        Platform::MacOs,
        KeyRead::Secret(hex::encode(counting_key()).into_bytes()),
    ) {
        SetupStep::Done(store) => store,
        _ => panic!("expected a store"),
    };
    assert!(!stored.is_created());
    assert!(!portable().is_created());
    let created = ConfigStore::key_stored(counting_key());
    assert!(created.is_created());
    assert_eq!(next_plain_file(stored.is_created(), 0), None);
    assert_eq!(next_plain_file(created.is_created(), 0), Some("file-info.json".to_string()));
    assert_eq!(next_plain_file(created.is_created(), 5), Some("plugins.json".to_string()));
    assert_eq!(next_plain_file(created.is_created(), 6), None);
}

#[test]
fn plain_files_move_into_the_store() {
    let store = ConfigStore::key_stored(counting_key());
    let mut directory = std::collections::HashMap::from([
        ("plugins.json".to_string(), b"{\"a\":1}".to_vec()),
        ("file-info.json".to_string(), b"[]".to_vec()),
        ("other.json".to_string(), b"x".to_vec()),
    ]);
    let mut index = 0;
    while let Some(file) = next_plain_file(store.is_created(), index) {
        let read = directory.get(&file).map_or(FileRead::Missing, |bytes| FileRead::Data(bytes.clone()));
        if let Some(migration) = store.migrate(index, read).unwrap() {
            directory.insert(migration.write.file, migration.write.bytes);
            directory.remove(&migration.remove);
        }
        index += 1;
    }
    let mut names: Vec<&str> = directory.keys().map(|name| name.as_str()).collect();
    names.sort();
    assert_eq!(names, vec!["file-info.dat", "other.json", "plugins.dat"]);
    let load = |name: &str| store.load(name, FileRead::Data(directory[&format!("{name}.dat")].clone()));
    assert_eq!(load("plugins"), Ok(Some("{\"a\":1}".to_string())));
    assert_eq!(load("file-info"), Ok(Some("[]".to_string())));
    assert_eq!(directory["other.json"], b"x".to_vec());
}

#[test]
fn partial_blocks_are_ignored() {
    let store = ConfigStore::key_stored(counting_key());
    for length in [0, 1, 15, 17, 31] {
        assert_eq!(store.load("plugins", FileRead::Data(vec![7; length])), Ok(None));
    }
    assert_eq!(portable().load("plugins", FileRead::Data(vec![])), Ok(Some(String::new())));
}

#[test]
fn legacy_keys_must_be_unambiguous() {
    assert_eq!(legacy_linux_key(0, 0), Ok(LegacyKey::Absent));
    assert_eq!(legacy_linux_key(1, 0), Ok(LegacyKey::FirstLocked));
    assert_eq!(legacy_linux_key(0, 1), Ok(LegacyKey::FirstUnlocked));
    let message = "Multiple legacy settings keys found in Secret Service".to_string();
    assert_eq!(legacy_linux_key(1, 1), Err(message.clone()));
    assert_eq!(legacy_linux_key(usize::MAX, usize::MAX), Err(message));
}
