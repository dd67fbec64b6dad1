use lemonkee::ext_manifest::{
    create_manifest, dev_origins, host_missing, host_name, install_manifest, manifest_dir,
    manifest_removed, manifest_step, native_host_path, registry, registry_arguments, Allowed,
    ManifestPlace, ManifestStep,
    KPXC_CHROME, KPXC_EDGE, KPXC_FIREFOX, KWC_CHROME, KWC_EDGE, KWC_FIREFOX,
};
use lemonkee::platform::{Arch, Platform};

#[test]
fn names_of_hosts() {
    assert_eq!(host_name("KWC"), Ok("net.antelle.keeweb.keeweb_connect"));
    assert_eq!(host_name("KPXC"), Ok("org.keepassxc.keepassxc_browser"));
    assert_eq!(host_name("kwc"), Err("Unknown browser extension".to_string()));
}

#[test]
fn origins_in_development() {
    assert!(dev_origins(None).is_empty());
    assert_eq!(
        dev_origins(Some("abc,def".to_string())),
        vec!["chrome-extension://abc/", "chrome-extension://def/"]
    );
    assert_eq!(dev_origins(Some(String::new())), vec!["chrome-extension:///"]);
}

#[test]
fn place_of_the_program() {
    let path = native_host_path(Platform::MacOs, Arch::Arm64, true).unwrap_or_else(|e| panic!("{e}"));
    assert_eq!(path.directory, Some("darwin-arm64".to_string()));
    assert_eq!(path.executable, "keeweb-native-messaging-host");
    let path = native_host_path(Platform::Windows, Arch::X86, true).unwrap_or_else(|e| panic!("{e}"));
    assert_eq!(path.directory, Some("win32-ia32".to_string()));
    assert_eq!(path.executable, "keeweb-native-messaging-host.exe");
    let path = native_host_path(Platform::Linux, Arch::X64, true).unwrap_or_else(|e| panic!("{e}"));
    assert_eq!(path.directory, Some("linux-x64".to_string()));
    let path = native_host_path(Platform::Other, Arch::Other, false).unwrap_or_else(|e| panic!("{e}"));
    assert_eq!(path.directory, None);
    assert_eq!(
        native_host_path(Platform::Other, Arch::X64, true).err(),
        Some("Not supported on this platform".to_string())
    );
    assert_eq!(
        native_host_path(Platform::Linux, Arch::Other, true).err(),
        Some("Unsupported native messaging host architecture".to_string())
    );
    assert_eq!(host_missing("/x"), "Native messaging host not found: /x");
}

fn origins(allowed: Allowed) -> Vec<String> {
    match allowed {
        Allowed::Origins(list) => list,
        Allowed::Extensions(_) => panic!("expected origins"),
    }
}

fn extensions(allowed: Allowed) -> Vec<String> {
    match allowed {
        Allowed::Extensions(list) => list,
        Allowed::Origins(_) => panic!("expected extensions"),
    }
}

#[test]
fn manifests() {
    let dev = vec!["chrome-extension://dev/".to_string()];
    let make = |browser, extension| create_manifest(browser, extension, &dev).unwrap_or_else(|e| panic!("{e}"));
    let chrome = make("Chrome", "KWC");
    assert_eq!(chrome.name, "net.antelle.keeweb.keeweb_connect");
    assert_eq!(chrome.description, "KeeWeb native messaging host");
    assert_eq!(origins(chrome.allowed), vec![KWC_CHROME, KWC_EDGE, "chrome-extension://dev/"]);
    let edge = make("Edge", "KPXC");
    assert_eq!(edge.description, "Native messaging host created by KeeWeb");
    assert_eq!(origins(edge.allowed), vec![KPXC_CHROME, KPXC_EDGE]);
    assert_eq!(extensions(make("Firefox", "KWC").allowed), vec![KWC_FIREFOX]);
    assert_eq!(extensions(make("Firefox", "KPXC").allowed), vec![KPXC_FIREFOX]);
    assert_eq!(
        create_manifest("Chrome", "other", &dev).err(),
        Some("Unknown browser extension".to_string())
    );
}

#[test]
fn directories_of_manifests() {
    assert_eq!(
        manifest_dir(Platform::MacOs, "Chrome"),
        Some("Library/Application Support/Google/Chrome/NativeMessagingHosts")
    );
    assert_eq!(
        manifest_dir(Platform::MacOs, "Firefox"),
        Some("Library/Application Support/Mozilla/NativeMessagingHosts")
    );
    assert_eq!(
        manifest_dir(Platform::MacOs, "Edge"),
        Some("Library/Application Support/Microsoft Edge/NativeMessagingHosts")
    );
    assert_eq!(
        manifest_dir(Platform::Linux, "Chrome"),
        Some(".config/google-chrome/NativeMessagingHosts")
    );
    assert_eq!(manifest_dir(Platform::Linux, "Firefox"), Some(".mozilla/native-messaging-hosts"));
    assert_eq!(
        manifest_dir(Platform::Linux, "Edge"),
        Some(".config/microsoft-edge/NativeMessagingHosts")
    );
    assert_eq!(manifest_dir(Platform::Linux, "Opera"), None);
    assert_eq!(manifest_dir(Platform::Windows, "Chrome"), None);
}

#[test]
fn places_of_manifests() {
    match install_manifest(Platform::Linux, "Firefox", "KPXC") {
        Ok(ManifestPlace::Home { directory, file }) => {
            assert_eq!(directory, ".mozilla/native-messaging-hosts");
            assert_eq!(file, "org.keepassxc.keepassxc_browser.json");
        }
        _ => panic!("expected a file at home"),
    }
    let registry_of = |browser, extension| match install_manifest(Platform::Windows, browser, extension) {
        Ok(ManifestPlace::Registry { file, key }) => (file, key),
        _ => panic!("expected a key"),
    };
    assert_eq!(
        registry_of("Chrome", "KWC"),
        (
            "native-messaging-kwc.chrome.json".to_string(),
            "HKCU\\Software\\Google\\Chrome\\NativeMessagingHosts\\net.antelle.keeweb.keeweb_connect".to_string()
        )
    );
    assert_eq!(registry_of("Firefox", "KPXC").0, "native-messaging-kpxc.firefox.json");
    assert!(registry_of("Firefox", "KPXC").1.starts_with("HKCU\\Software\\Mozilla\\"));
    assert!(registry_of("Edge", "KPXC").1.starts_with("HKCU\\Software\\Microsoft\\Edge\\"));
    assert!(matches!(install_manifest(Platform::MacOs, "Safari", "any"), Ok(ManifestPlace::Nowhere)));
    assert!(matches!(install_manifest(Platform::MacOs, "Other", "any"), Ok(ManifestPlace::Nowhere)));
    let refused = |platform, browser, extension| install_manifest(platform, browser, extension).err().unwrap();
    assert_eq!(refused(Platform::Other, "Safari", "KWC"), "Not supported on this platform");
    assert_eq!(refused(Platform::Unix, "Chrome", "KWC"), "Not supported on this platform");
    assert_eq!(refused(Platform::Linux, "Opera", "KWC"), "Unknown browser");
    assert_eq!(refused(Platform::Linux, "Edge", "x"), "Unknown browser extension");
}

#[test]
fn manifests_are_written_and_removed() {
    let home = || ManifestPlace::Home { directory: "d", file: "f".to_string() };
    let key = || ManifestPlace::Registry { file: "f".to_string(), key: "k".to_string() };
    assert!(matches!(manifest_step(ManifestPlace::Nowhere, true), ManifestStep::Nothing));
    assert!(matches!(manifest_step(ManifestPlace::Nowhere, false), ManifestStep::Nothing));
    assert!(matches!(
        manifest_step(home(), true),
        ManifestStep::Write { directory, file } if directory == "d" && file == "f"
    ));
    assert!(matches!(
        manifest_step(home(), false),
        ManifestStep::Remove { directory, file } if directory == "d" && file == "f"
    ));
    assert!(matches!(
        manifest_step(key(), true),
        ManifestStep::WriteAndRegister { file, key } if file == "f" && key == "k"
    ));
    assert!(matches!(manifest_step(key(), false), ManifestStep::Unregister { key } if key == "k"));
}

#[test]
fn removal_and_registry() {
    assert_eq!(manifest_removed(false, None), Ok(()));
    assert_eq!(manifest_removed(true, Some("missing".to_string())), Ok(()));
    assert_eq!(manifest_removed(false, Some("denied".to_string())), Err("denied".to_string()));
    assert_eq!(registry_arguments("K", Some("f")), vec!["ADD", "K", "/ve", "/d", "f", "/f"]);
    assert_eq!(registry_arguments("K", None), vec!["DELETE", "K", "/f"]);
    assert_eq!(registry(true, &vec![1]), Ok(()));
    assert_eq!(registry(false, &b" Access denied\r\n".to_vec()), Err("REG failed: Access denied".to_string()));
}
